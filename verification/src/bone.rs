use vstd::prelude::*;

use crate::d3d::{lwMatrix43, lwMatrix44};
use crate::error::LabError;
use crate::raw::{read_name, read_u16_le, read_u32_le, spec_le_u16, spec_le_u32, spec_trunc_nul};
use crate::MIN_VERSION;

verus! {

/// How a frame of a bone's key track is stored on disk.
#[derive(Debug, Clone, Copy, PartialEq, Eq, Structural)]
pub enum KeyEncoding {
    Mat4x3,
    Mat4x4,
    QuatPos,
    Invalid,
}

/// The fixed-layout file header: record counts and the single key
/// encoding of the whole file.
#[derive(Debug, Clone, Copy, PartialEq, Eq, Structural)]
pub struct BoneInfoHeader {
    pub bone_num: u32,
    pub frame_num: u32,
    pub dummy_num: u32,
    pub key_type: KeyEncoding,
}

/// One bone-table record: the name cut at its first null byte, the
/// bone's id, and the id of its parent (`NO_PARENT_ID` for the root).
#[derive(Debug, Clone)]
pub struct BoneBaseInfo {
    pub name: Vec<u8>,
    pub id: u32,
    pub parent_id: u32,
}

/// An attachment marker: a non-deforming node rigidly fixed to the bone
/// whose id is `parent_bone_id`.
#[derive(Debug, Clone)]
pub struct BoneDummyInfo {
    pub id: u32,
    pub parent_bone_id: u32,
    pub mat: lwMatrix44,
}

/// A position sample, three float bit patterns.
#[derive(Debug, Clone, Copy, PartialEq, Eq, Structural)]
pub struct Vec3Bits {
    pub x: u32,
    pub y: u32,
    pub z: u32,
}

/// A rotation quaternion, four float bit patterns.  The file stores the
/// components as `(x, y, z, w)`; in memory `w` comes first.
#[derive(Debug, Clone, Copy, PartialEq, Eq, Structural)]
pub struct QuatBits {
    pub w: u32,
    pub x: u32,
    pub y: u32,
    pub z: u32,
}

/// One frame of a quaternion-encoded key track.
#[derive(Debug, Clone, Copy, PartialEq, Eq, Structural)]
pub struct QuatPosKey {
    pub pos: Vec3Bits,
    pub quat: QuatBits,
}

/// One bone's key track, in the single variant that matches the file's
/// key encoding.
#[derive(Debug, Clone)]
pub enum BoneKeyInfo {
    Mat43Seq(Vec<lwMatrix43>),
    Mat44Seq(Vec<lwMatrix44>),
    QuatPosSeq(Vec<QuatPosKey>),
}

/// The decoded animation dataset: header, bone table, inverse bind
/// matrices, attachment markers and per-bone key tracks.
#[derive(Debug)]
pub struct AnimDataBone {
    pub header: BoneInfoHeader,
    pub base_seq: Vec<BoneBaseInfo>,
    pub dummy_seq: Vec<BoneDummyInfo>,
    pub key_seq: Vec<BoneKeyInfo>,
    pub invmat_seq: Vec<lwMatrix44>,
}

// ---------------------------------------------------------------------
// Byte layout
// ---------------------------------------------------------------------

/// End of the bone table: `bone_num` records of a 64-byte name buffer
/// and two 32-bit ids.
pub open spec fn spec_base_end(bone_num: int) -> int {
    20 + 72 * bone_num
}

/// End of the inverse-bind-matrix block: one 64-byte matrix per bone.
pub open spec fn spec_invmat_end(bone_num: int) -> int {
    20 + 136 * bone_num
}

/// End of the attachment-marker block: `dummy_num` records of two ids
/// and a 64-byte matrix.
pub open spec fn spec_dummy_end(bone_num: int, dummy_num: int) -> int {
    20 + 136 * bone_num + 72 * dummy_num
}

/// Bytes of key data for one bone and one frame under `kt`.
pub open spec fn spec_key_frame_size(kt: KeyEncoding) -> int {
    match kt {
        KeyEncoding::Mat4x3 => 48,
        KeyEncoding::Mat4x4 => 64,
        KeyEncoding::QuatPos => 28,
        KeyEncoding::Invalid => 0,
    }
}

/// End of the whole file's required data.
pub open spec fn spec_total_end(h: BoneInfoHeader) -> int {
    spec_dummy_end(h.bone_num as int, h.dummy_num as int) + spec_key_frame_size(h.key_type)
        * h.bone_num as int * h.frame_num as int
}

/// The key encoding selected by the header's fourth field; an
/// unrecognized value yields `Invalid`, never a decode failure.
pub open spec fn spec_key_encoding(v: u32) -> KeyEncoding {
    if v == 1 {
        KeyEncoding::Mat4x3
    } else if v == 2 {
        KeyEncoding::Mat4x4
    } else if v == 3 {
        KeyEncoding::QuatPos
    } else {
        KeyEncoding::Invalid
    }
}

/// The header stored in `b`.
pub open spec fn spec_header(b: Seq<u8>) -> BoneInfoHeader {
    BoneInfoHeader {
        bone_num: spec_le_u32(b, 4),
        frame_num: spec_le_u32(b, 8),
        dummy_num: spec_le_u32(b, 12),
        key_type: spec_key_encoding(spec_le_u32(b, 16)),
    }
}

/// `r` is the `i`-th bone-table record of `b`.
pub open spec fn spec_base_ok(b: Seq<u8>, i: int, r: BoneBaseInfo) -> bool {
    let off = 20 + 72 * i;
    &&& r.name@ == spec_trunc_nul(b.subrange(off, off + 64))
    &&& r.id == spec_le_u32(b, off + 64)
    &&& r.parent_id == spec_le_u32(b, off + 68)
}

/// The `n` consecutive little-endian 32-bit values stored at `off`.
pub open spec fn spec_mat_bits(b: Seq<u8>, off: int, n: int) -> Seq<u32> {
    Seq::new(n as nat, |k: int| spec_le_u32(b, off + 4 * k))
}

/// `m` is the `i`-th inverse bind matrix of `b` under `bone_num` bones.
pub open spec fn spec_invmat_ok(b: Seq<u8>, bone_num: int, i: int, m: lwMatrix44) -> bool {
    m.m@ == spec_mat_bits(b, spec_base_end(bone_num) + 64 * i, 16)
}

/// `d` is the `j`-th attachment-marker record of `b`.
pub open spec fn spec_dummy_ok(b: Seq<u8>, bone_num: int, j: int, d: BoneDummyInfo) -> bool {
    let off = spec_invmat_end(bone_num) + 72 * j;
    &&& d.id == spec_le_u32(b, off)
    &&& d.parent_bone_id == spec_le_u32(b, off + 4)
    &&& d.mat.m@ == spec_mat_bits(b, off + 8, 16)
}

/// The quaternion/position sample of bone `i`, frame `f`: positions
/// first (`frame_num` of them), then quaternions, reordered from the
/// on-disk `(x, y, z, w)` to `(w, x, y, z)`.
pub open spec fn spec_quat_key(b: Seq<u8>, k0: int, fnum: int, i: int, f: int) -> QuatPosKey {
    let p = k0 + 28 * fnum * i + 12 * f;
    let q = k0 + 28 * fnum * i + 12 * fnum + 16 * f;
    QuatPosKey {
        pos: Vec3Bits { x: spec_le_u32(b, p), y: spec_le_u32(b, p + 4), z: spec_le_u32(b, p + 8) },
        quat: QuatBits {
            w: spec_le_u32(b, q + 12),
            x: spec_le_u32(b, q),
            y: spec_le_u32(b, q + 4),
            z: spec_le_u32(b, q + 8),
        },
    }
}

/// `k` is the key track of bone `i` in `b` under header `h`.
pub open spec fn spec_track_ok(b: Seq<u8>, h: BoneInfoHeader, i: int, k: BoneKeyInfo) -> bool {
    let bnum = h.bone_num as int;
    let fnum = h.frame_num as int;
    let k0 = spec_dummy_end(bnum, h.dummy_num as int);
    match h.key_type {
        KeyEncoding::Mat4x3 => k matches BoneKeyInfo::Mat43Seq(v) && v@.len() == fnum && forall|
            f: int,
        |
            0 <= f < fnum ==> v@[f].m@ == spec_mat_bits(b, k0 + 48 * fnum * i + 48 * f, 12),
        KeyEncoding::Mat4x4 => k matches BoneKeyInfo::Mat44Seq(v) && v@.len() == fnum && forall|
            f: int,
        |
            0 <= f < fnum ==> v@[f].m@ == spec_mat_bits(b, k0 + 64 * fnum * i + 64 * f, 16),
        KeyEncoding::QuatPos => k matches BoneKeyInfo::QuatPosSeq(v) && v@.len() == fnum && forall|
            f: int,
        |
            0 <= f < fnum ==> v@[f] == spec_quat_key(b, k0, fnum, i, f),
        KeyEncoding::Invalid => false,
    }
}

/// The whole key block of `b` under header `h`.
pub open spec fn spec_keys_ok(b: Seq<u8>, h: BoneInfoHeader, ks: Seq<BoneKeyInfo>) -> bool {
    match h.key_type {
        KeyEncoding::Invalid => ks.len() == 0,
        _ => ks.len() == h.bone_num as int && forall|i: int|
            0 <= i < h.bone_num as int ==> spec_track_ok(b, h, i, #[trigger] ks[i]),
    }
}

impl BoneInfoHeader {
    /// An empty header: zero counts, `Invalid` encoding.
    pub fn new() -> (r: BoneInfoHeader)
        ensures
            r.bone_num == 0,
            r.frame_num == 0,
            r.dummy_num == 0,
            r.key_type == KeyEncoding::Invalid,
    {
        BoneInfoHeader { bone_num: 0, frame_num: 0, dummy_num: 0, key_type: KeyEncoding::Invalid }
    }
}

impl BoneBaseInfo {
    /// An empty record.
    pub fn new() -> (r: BoneBaseInfo)
        ensures
            r.name@ == Seq::<u8>::empty(),
            r.id == 0,
            r.parent_id == 0,
    {
        BoneBaseInfo { name: Vec::new(), id: 0, parent_id: 0 }
    }

    /// The decoded name: the record's fixed buffer cut at its first
    /// null byte.
    pub fn get_name(&self) -> (r: Vec<u8>)
        ensures
            r@ == self.name@,
    {
        self.name.clone()
    }
}

impl BoneDummyInfo {
    /// An empty record with an all-zero matrix.
    pub fn new() -> (r: BoneDummyInfo)
        ensures
            r.id == 0,
            r.parent_bone_id == 0,
            r.mat.wf(),
    {
        BoneDummyInfo { id: 0, parent_bone_id: 0, mat: lwMatrix44::default() }
    }
}

// ---------------------------------------------------------------------
// Decoding
// ---------------------------------------------------------------------

/// Reads `n` consecutive little-endian 32-bit values at `off`.
fn read_bits_block(bytes: &[u8], off: usize, n: usize) -> (r: Vec<u32>)
    requires
        off + 4 * n <= bytes@.len(),
    ensures
        r@ == spec_mat_bits(bytes@, off as int, n as int),
{
    let total: usize = bytes.len();
    let mut out: Vec<u32> = Vec::new();
    let mut k: usize = 0;
    while k < n
        invariant
            off + 4 * n <= bytes@.len(),
            bytes@.len() == total,
            k <= n,
            out@.len() == k,
            forall|j: int| 0 <= j < k ==> out@[j] == spec_le_u32(bytes@, off + 4 * j),
        decreases n - k,
    {
        out.push(read_u32_le(bytes, off + 4 * k));
        k = k + 1;
    }
    proof {
        assert(out@ =~= spec_mat_bits(bytes@, off as int, n as int));
    }
    out
}

impl AnimDataBone {
    /// Bone `i`'s key track matches the header's key encoding, holds one
    /// sample per frame, and its matrices have their full entry count.
    pub open spec fn track_wf(&self, i: int) -> bool {
        let fnum = self.header.frame_num as int;
        match self.header.key_type {
            KeyEncoding::Mat4x3 => self.key_seq@[i] matches BoneKeyInfo::Mat43Seq(v) && v@.len()
                == fnum && forall|f: int| 0 <= f < fnum ==> (#[trigger] v@[f]).wf(),
            KeyEncoding::Mat4x4 => self.key_seq@[i] matches BoneKeyInfo::Mat44Seq(v) && v@.len()
                == fnum && forall|f: int| 0 <= f < fnum ==> (#[trigger] v@[f]).wf(),
            KeyEncoding::QuatPos => self.key_seq@[i] matches BoneKeyInfo::QuatPosSeq(v) && v@.len()
                == fnum,
            KeyEncoding::Invalid => false,
        }
    }

    /// The dataset's shape invariant: one bone-table record and one
    /// inverse bind matrix per bone, full-size matrices throughout, and
    /// one well-formed key track per bone unless the encoding is
    /// `Invalid`, which carries no tracks at all.
    pub open spec fn wf(&self) -> bool {
        let bnum = self.header.bone_num as int;
        &&& self.base_seq@.len() == bnum
        &&& self.invmat_seq@.len() == bnum
        &&& forall|i: int| 0 <= i < bnum ==> (#[trigger] self.invmat_seq@[i]).wf()
        &&& forall|j: int|
            0 <= j < self.dummy_seq@.len() ==> (#[trigger] self.dummy_seq@[j]).mat.wf()
        &&& match self.header.key_type {
            KeyEncoding::Invalid => self.key_seq@.len() == 0,
            _ => self.key_seq@.len() == bnum && forall|i: int|
                0 <= i < bnum ==> #[trigger] self.track_wf(i),
        }
    }

    /// An empty dataset.
    pub fn new() -> (r: AnimDataBone)
        ensures
            r.header.bone_num == 0,
            r.header.frame_num == 0,
            r.header.dummy_num == 0,
            r.header.key_type == KeyEncoding::Invalid,
            r.base_seq@.len() == 0,
            r.dummy_seq@.len() == 0,
            r.key_seq@.len() == 0,
            r.invmat_seq@.len() == 0,
    {
        AnimDataBone {
            header: BoneInfoHeader::new(),
            base_seq: Vec::new(),
            dummy_seq: Vec::new(),
            key_seq: Vec::new(),
            invmat_seq: Vec::new(),
        }
    }

    pub fn get_num_bones(&self) -> (r: usize)
        ensures
            r == self.header.bone_num as usize,
    {
        self.header.bone_num as usize
    }

    pub fn get_num_frames(&self) -> (r: usize)
        ensures
            r == self.header.frame_num as usize,
    {
        self.header.frame_num as usize
    }

    /// Decodes the header fields stored after the version tag and its
    /// padding.  Fails exactly when the stream holds fewer than the
    /// header's twenty bytes.
    pub fn load_header(&mut self, bytes: &[u8]) -> (r: Result<(), LabError>)
        ensures
            final(self).base_seq == old(self).base_seq,
            final(self).dummy_seq == old(self).dummy_seq,
            final(self).key_seq == old(self).key_seq,
            final(self).invmat_seq == old(self).invmat_seq,
            bytes@.len() >= 20 ==> r == Ok::<(), LabError>(()) && final(self).header == spec_header(
                bytes@,
            ),
            bytes@.len() < 20 ==> r == Err::<(), LabError>(LabError::Truncated { offset: 20 })
                && final(self).header == old(self).header,
    {
        if bytes.len() < 20 {
            return Err(LabError::Truncated { offset: 20 });
        }
        let bone_num = read_u32_le(bytes, 4);
        let frame_num = read_u32_le(bytes, 8);
        let dummy_num = read_u32_le(bytes, 12);
        let kt = read_u32_le(bytes, 16);
        let key_type = if kt == 1 {
            KeyEncoding::Mat4x3
        } else if kt == 2 {
            KeyEncoding::Mat4x4
        } else if kt == 3 {
            KeyEncoding::QuatPos
        } else {
            KeyEncoding::Invalid
        };
        self.header = BoneInfoHeader { bone_num, frame_num, dummy_num, key_type };
        Ok(())
    }

    /// Decodes the bone table that follows the header, one fixed-size
    /// record per bone.  Fails exactly when the stream ends before the
    /// table does.
    pub fn load_base_seq(&mut self, bytes: &[u8]) -> (r: Result<(), LabError>)
        ensures
            final(self).header == old(self).header,
            final(self).dummy_seq == old(self).dummy_seq,
            final(self).key_seq == old(self).key_seq,
            final(self).invmat_seq == old(self).invmat_seq,
            ({
                let need = spec_base_end(old(self).header.bone_num as int);
                if bytes@.len() >= need {
                    &&& r == Ok::<(), LabError>(())
                    &&& final(self).base_seq@.len() == old(self).header.bone_num as int
                    &&& forall|i: int|
                        0 <= i < old(self).header.bone_num as int ==> spec_base_ok(
                            bytes@,
                            i,
                            #[trigger] final(self).base_seq@[i],
                        )
                } else {
                    r == Err::<(), LabError>(LabError::Truncated { offset: need as u128 })
                        && final(self).base_seq == old(self).base_seq
                }
            }),
    {
        let bnum = self.header.bone_num;
        let need: u128 = 20 + 72 * (bnum as u128);
        if (bytes.len() as u128) < need {
            return Err(LabError::Truncated { offset: need });
        }
        let total: usize = bytes.len();
        let mut out: Vec<BoneBaseInfo> = Vec::new();
        let mut i: usize = 0;
        let mut pos: usize = 20;
        while i < bnum as usize
            invariant
                bnum == old(self).header.bone_num,
                bytes@.len() == total,
                spec_base_end(bnum as int) <= total,
                i <= bnum as usize,
                pos == 20 + 72 * i,
                out@.len() == i,
                forall|j: int| 0 <= j < i ==> spec_base_ok(bytes@, j, #[trigger] out@[j]),
            decreases bnum as int - i,
        {
            let name = read_name(bytes, pos, 64);
            let id = read_u32_le(bytes, pos + 64);
            let parent_id = read_u32_le(bytes, pos + 68);
            out.push(BoneBaseInfo { name, id, parent_id });
            i = i + 1;
            pos = pos + 72;
        }
        self.base_seq = out;
        Ok(())
    }

    /// Decodes one 4x4 inverse bind matrix per bone, following the bone
    /// table.  Fails exactly when the stream ends before the block does.
    pub fn load_invmat_seq(&mut self, bytes: &[u8]) -> (r: Result<(), LabError>)
        ensures
            final(self).header == old(self).header,
            final(self).base_seq == old(self).base_seq,
            final(self).dummy_seq == old(self).dummy_seq,
            final(self).key_seq == old(self).key_seq,
            ({
                let need = spec_invmat_end(old(self).header.bone_num as int);
                if bytes@.len() >= need {
                    &&& r == Ok::<(), LabError>(())
                    &&& final(self).invmat_seq@.len() == old(self).header.bone_num as int
                    &&& forall|i: int|
                        0 <= i < old(self).header.bone_num as int ==> spec_invmat_ok(
                            bytes@,
                            old(self).header.bone_num as int,
                            i,
                            #[trigger] final(self).invmat_seq@[i],
                        )
                } else {
                    r == Err::<(), LabError>(LabError::Truncated { offset: need as u128 })
                        && final(self).invmat_seq == old(self).invmat_seq
                }
            }),
    {
        let bnum = self.header.bone_num;
        let need: u128 = 20 + 136 * (bnum as u128);
        if (bytes.len() as u128) < need {
            return Err(LabError::Truncated { offset: need });
        }
        let total: usize = bytes.len();
        let base: usize = 20 + 72 * (bnum as usize);
        let mut out: Vec<lwMatrix44> = Vec::new();
        let mut i: usize = 0;
        let mut pos: usize = base;
        while i < bnum as usize
            invariant
                bnum == old(self).header.bone_num,
                bytes@.len() == total,
                spec_invmat_end(bnum as int) <= total,
                base == spec_base_end(bnum as int),
                i <= bnum as usize,
                pos == base + 64 * i,
                out@.len() == i,
                forall|j: int|
                    0 <= j < i ==> spec_invmat_ok(bytes@, bnum as int, j, #[trigger] out@[j]),
            decreases bnum as int - i,
        {
            let bits = read_bits_block(bytes, pos, 16);
            out.push(lwMatrix44 { m: bits });
            i = i + 1;
            pos = pos + 64;
        }
        self.invmat_seq = out;
        Ok(())
    }

    /// Decodes the attachment-marker records that follow the inverse
    /// bind matrices.  Fails exactly when the stream ends before the
    /// block does.
    pub fn load_dummy_seq(&mut self, bytes: &[u8]) -> (r: Result<(), LabError>)
        ensures
            final(self).header == old(self).header,
            final(self).base_seq == old(self).base_seq,
            final(self).key_seq == old(self).key_seq,
            final(self).invmat_seq == old(self).invmat_seq,
            ({
                let bnum = old(self).header.bone_num as int;
                let need = spec_dummy_end(bnum, old(self).header.dummy_num as int);
                if bytes@.len() >= need {
                    &&& r == Ok::<(), LabError>(())
                    &&& final(self).dummy_seq@.len() == old(self).header.dummy_num as int
                    &&& forall|j: int|
                        0 <= j < old(self).header.dummy_num as int ==> spec_dummy_ok(
                            bytes@,
                            bnum,
                            j,
                            #[trigger] final(self).dummy_seq@[j],
                        )
                } else {
                    r == Err::<(), LabError>(LabError::Truncated { offset: need as u128 })
                        && final(self).dummy_seq == old(self).dummy_seq
                }
            }),
    {
        let bnum = self.header.bone_num;
        let dnum = self.header.dummy_num;
        let need: u128 = 20 + 136 * (bnum as u128) + 72 * (dnum as u128);
        if (bytes.len() as u128) < need {
            return Err(LabError::Truncated { offset: need });
        }
        let total: usize = bytes.len();
        let base: usize = 20 + 136 * (bnum as usize);
        let mut out: Vec<BoneDummyInfo> = Vec::new();
        let mut j: usize = 0;
        let mut pos: usize = base;
        while j < dnum as usize
            invariant
                bnum == old(self).header.bone_num,
                dnum == old(self).header.dummy_num,
                bytes@.len() == total,
                spec_dummy_end(bnum as int, dnum as int) <= total,
                base == spec_invmat_end(bnum as int),
                j <= dnum as usize,
                pos == base + 72 * j,
                out@.len() == j,
                forall|k: int|
                    0 <= k < j ==> spec_dummy_ok(bytes@, bnum as int, k, #[trigger] out@[k]),
            decreases dnum as int - j,
        {
            let id = read_u32_le(bytes, pos);
            let parent_bone_id = read_u32_le(bytes, pos + 4);
            let bits = read_bits_block(bytes, pos + 8, 16);
            out.push(BoneDummyInfo { id, parent_bone_id, mat: lwMatrix44 { m: bits } });
            j = j + 1;
            pos = pos + 72;
        }
        self.dummy_seq = out;
        Ok(())
    }

    /// Decodes the key block that ends the file: per bone, `frame_num`
    /// samples in the shape the header's key encoding dictates.  An
    /// `Invalid` encoding has no key data and decodes to an empty track
    /// list; the failure comes later, when a transform is requested.
    /// Fails exactly when the stream ends before the block does.
    pub fn load_key_seq(&mut self, bytes: &[u8]) -> (r: Result<(), LabError>)
        ensures
            final(self).header == old(self).header,
            final(self).base_seq == old(self).base_seq,
            final(self).dummy_seq == old(self).dummy_seq,
            final(self).invmat_seq == old(self).invmat_seq,
            ({
                let need = spec_total_end(old(self).header);
                if bytes@.len() >= need {
                    r == Ok::<(), LabError>(()) && spec_keys_ok(
                        bytes@,
                        old(self).header,
                        final(self).key_seq@,
                    )
                } else {
                    r == Err::<(), LabError>(LabError::Truncated { offset: need as u128 })
                        && final(self).key_seq == old(self).key_seq
                }
            }),
    {
        let bnum = self.header.bone_num;
        let fnum = self.header.frame_num;
        let dnum = self.header.dummy_num;
        let frame_size: u128 = match self.header.key_type {
            KeyEncoding::Mat4x3 => 48,
            KeyEncoding::Mat4x4 => 64,
            KeyEncoding::QuatPos => 28,
            KeyEncoding::Invalid => 0,
        };
        let k0: u128 = 20 + 136 * (bnum as u128) + 72 * (dnum as u128);
        proof {
            assert(frame_size * (bnum as u128) * (fnum as u128) <= 0x400000000000000000u128)
                by (nonlinear_arith)
                requires
                    frame_size <= 64,
                    bnum as u128 <= 0xFFFFFFFFu128,
                    fnum as u128 <= 0xFFFFFFFFu128,
            ;
        }
        let need: u128 = k0 + frame_size * (bnum as u128) * (fnum as u128);
        proof {
            assert(need == spec_total_end(old(self).header));
        }
        if (bytes.len() as u128) < need {
            return Err(LabError::Truncated { offset: need });
        }
        let total: usize = bytes.len();
        let ghost gk0: int = spec_dummy_end(bnum as int, dnum as int);
        proof {
            lemma_mul_le_three(frame_size as int, bnum as int, fnum as int);
        }
        let base: usize = (k0 as usize);
        let mut keys: Vec<BoneKeyInfo> = Vec::new();
        match self.header.key_type {
            KeyEncoding::Invalid => {},
            KeyEncoding::Mat4x3 => {
                let mut i: usize = 0;
                let mut pos: usize = base;
                while i < bnum as usize
                    invariant
                        self == old(self),
                        self.header.key_type == KeyEncoding::Mat4x3,
                        bnum == self.header.bone_num,
                        fnum == self.header.frame_num,
                        dnum == self.header.dummy_num,
                        gk0 == spec_dummy_end(bnum as int, dnum as int),
                        bytes@.len() == total,
                        gk0 + 48 * (fnum as int) * (bnum as int) <= total,
                        base == gk0,
                        i <= bnum as usize,
                        pos == gk0 + 48 * (fnum as int) * (i as int),
                        keys@.len() == i,
                        forall|j: int|
                            0 <= j < i ==> spec_track_ok(bytes@, self.header, j, #[trigger] keys@[j]),
                    decreases bnum as int - i,
                {
                    proof {
                        lemma_block_bounds(gk0, 48 * (fnum as int), i as int, bnum as int, total as int);
                    }
                    let mut v: Vec<lwMatrix43> = Vec::new();
                    let mut f: usize = 0;
                    while f < fnum as usize
                        invariant
                            bytes@.len() == total,
                            f <= fnum as usize,
                            pos == gk0 + 48 * (fnum as int) * (i as int),
                            pos + 48 * (fnum as int) <= total,
                            v@.len() == f,
                            forall|g: int|
                                0 <= g < f ==> (#[trigger] v@[g]).m@ == spec_mat_bits(
                                    bytes@,
                                    gk0 + 48 * (fnum as int) * (i as int) + 48 * g,
                                    12,
                                ),
                        decreases fnum as int - f,
                    {
                        let bits = read_bits_block(bytes, pos + 48 * f, 12);
                        v.push(lwMatrix43 { m: bits });
                        f = f + 1;
                    }
                    keys.push(BoneKeyInfo::Mat43Seq(v));
                    proof {
                        lemma_block_step(gk0, 48 * (fnum as int), i as int);
                    }
                    pos = pos + 48 * (fnum as usize);
                    i = i + 1;
                }
            },
            KeyEncoding::Mat4x4 => {
                let mut i: usize = 0;
                let mut pos: usize = base;
                while i < bnum as usize
                    invariant
                        self == old(self),
                        self.header.key_type == KeyEncoding::Mat4x4,
                        bnum == self.header.bone_num,
                        fnum == self.header.frame_num,
                        dnum == self.header.dummy_num,
                        gk0 == spec_dummy_end(bnum as int, dnum as int),
                        bytes@.len() == total,
                        gk0 + 64 * (fnum as int) * (bnum as int) <= total,
                        base == gk0,
                        i <= bnum as usize,
                        pos == gk0 + 64 * (fnum as int) * (i as int),
                        keys@.len() == i,
                        forall|j: int|
                            0 <= j < i ==> spec_track_ok(bytes@, self.header, j, #[trigger] keys@[j]),
                    decreases bnum as int - i,
                {
                    proof {
                        lemma_block_bounds(gk0, 64 * (fnum as int), i as int, bnum as int, total as int);
                    }
                    let mut v: Vec<lwMatrix44> = Vec::new();
                    let mut f: usize = 0;
                    while f < fnum as usize
                        invariant
                            bytes@.len() == total,
                            f <= fnum as usize,
                            pos == gk0 + 64 * (fnum as int) * (i as int),
                            pos + 64 * (fnum as int) <= total,
                            v@.len() == f,
                            forall|g: int|
                                0 <= g < f ==> (#[trigger] v@[g]).m@ == spec_mat_bits(
                                    bytes@,
                                    gk0 + 64 * (fnum as int) * (i as int) + 64 * g,
                                    16,
                                ),
                        decreases fnum as int - f,
                    {
                        let bits = read_bits_block(bytes, pos + 64 * f, 16);
                        v.push(lwMatrix44 { m: bits });
                        f = f + 1;
                    }
                    keys.push(BoneKeyInfo::Mat44Seq(v));
                    proof {
                        lemma_block_step(gk0, 64 * (fnum as int), i as int);
                    }
                    pos = pos + 64 * (fnum as usize);
                    i = i + 1;
                }
            },
            KeyEncoding::QuatPos => {
                let mut i: usize = 0;
                let mut pos: usize = base;
                while i < bnum as usize
                    invariant
                        self == old(self),
                        self.header.key_type == KeyEncoding::QuatPos,
                        bnum == self.header.bone_num,
                        fnum == self.header.frame_num,
                        dnum == self.header.dummy_num,
                        gk0 == spec_dummy_end(bnum as int, dnum as int),
                        bytes@.len() == total,
                        gk0 + 28 * (fnum as int) * (bnum as int) <= total,
                        base == gk0,
                        i <= bnum as usize,
                        pos == gk0 + 28 * (fnum as int) * (i as int),
                        keys@.len() == i,
                        forall|j: int|
                            0 <= j < i ==> spec_track_ok(bytes@, self.header, j, #[trigger] keys@[j]),
                    decreases bnum as int - i,
                {
                    proof {
                        lemma_block_bounds(gk0, 28 * (fnum as int), i as int, bnum as int, total as int);
                    }
                    let ghost block: int = gk0 + 28 * (fnum as int) * (i as int);
                    let mut ps: Vec<Vec3Bits> = Vec::new();
                    let mut f: usize = 0;
                    while f < fnum as usize
                        invariant
                            bytes@.len() == total,
                            f <= fnum as usize,
                            pos == block,
                            block == gk0 + 28 * (fnum as int) * (i as int),
                            block + 28 * (fnum as int) <= total,
                            ps@.len() == f,
                            forall|g: int|
                                0 <= g < f ==> #[trigger] ps@[g] == (Vec3Bits {
                                    x: spec_le_u32(bytes@, block + 12 * g),
                                    y: spec_le_u32(bytes@, block + 12 * g + 4),
                                    z: spec_le_u32(bytes@, block + 12 * g + 8),
                                }),
                        decreases fnum as int - f,
                    {
                        let p = pos + 12 * f;
                        let x = read_u32_le(bytes, p);
                        let y = read_u32_le(bytes, p + 4);
                        let z = read_u32_le(bytes, p + 8);
                        ps.push(Vec3Bits { x, y, z });
                        f = f + 1;
                    }
                    let qbase: usize = pos + 12 * (fnum as usize);
                    let mut v: Vec<QuatPosKey> = Vec::new();
                    let mut g: usize = 0;
                    while g < fnum as usize
                        invariant
                            bytes@.len() == total,
                            g <= fnum as usize,
                            pos == block,
                            block == gk0 + 28 * (fnum as int) * (i as int),
                            qbase == block + 12 * (fnum as int),
                            block + 28 * (fnum as int) <= total,
                            ps@.len() == fnum as int,
                            forall|h: int|
                                0 <= h < fnum as int ==> #[trigger] ps@[h] == (Vec3Bits {
                                    x: spec_le_u32(bytes@, block + 12 * h),
                                    y: spec_le_u32(bytes@, block + 12 * h + 4),
                                    z: spec_le_u32(bytes@, block + 12 * h + 8),
                                }),
                            v@.len() == g,
                            forall|h: int|
                                0 <= h < g ==> #[trigger] v@[h] == spec_quat_key(
                                    bytes@,
                                    gk0,
                                    fnum as int,
                                    i as int,
                                    h,
                                ),
                        decreases fnum as int - g,
                    {
                        let q = qbase + 16 * g;
                        let qx = read_u32_le(bytes, q);
                        let qy = read_u32_le(bytes, q + 4);
                        let qz = read_u32_le(bytes, q + 8);
                        let qw = read_u32_le(bytes, q + 12);
                        let key = QuatPosKey {
                            pos: ps[g],
                            quat: QuatBits { w: qw, x: qx, y: qy, z: qz },
                        };
                        v.push(key);
                        proof {
                            assert(v@[g as int] == spec_quat_key(
                                bytes@,
                                gk0,
                                fnum as int,
                                i as int,
                                g as int,
                            ));
                        }
                        g = g + 1;
                    }
                    keys.push(BoneKeyInfo::QuatPosSeq(v));
                    proof {
                        lemma_block_step(gk0, 28 * (fnum as int), i as int);
                    }
                    pos = pos + 28 * (fnum as usize);
                    i = i + 1;
                }
            },
        }
        self.key_seq = keys;
        Ok(())
    }

    /// Decodes a whole file: version tag, header, bone table, inverse
    /// bind matrices, attachment markers and key tracks, in that order.
    /// Returns the first failure: a version below `MIN_VERSION`, or the
    /// stream ending before a required block.
    pub fn load_from_bytes(bytes: &[u8]) -> (r: Result<AnimDataBone, LabError>)
        ensures
            match spec_decode_err(bytes@) {
                Some(e) => r == Err::<AnimDataBone, LabError>(e),
                None => r matches Ok(d) && spec_decode_ok(bytes@, d) && d.wf(),
            },
    {
        if bytes.len() < 2 {
            return Err(LabError::Truncated { offset: 2 });
        }
        let version = read_u16_le(bytes, 0);
        if version < MIN_VERSION {
            return Err(LabError::UnsupportedVersion { found: version });
        }
        let mut d = AnimDataBone::new();
        d.load_header(bytes)?;
        d.load_base_seq(bytes)?;
        d.load_invmat_seq(bytes)?;
        d.load_dummy_seq(bytes)?;
        d.load_key_seq(bytes)?;
        proof {
            lemma_decoded_wf(bytes@, d);
        }
        Ok(d)
    }
}

/// Decoding the header is idempotent: any two header values decoded
/// from the same byte range hold identical fields.
pub proof fn lemma_header_decode_idempotent(b: Seq<u8>, h1: BoneInfoHeader, h2: BoneInfoHeader)
    requires
        h1 == spec_header(b),
        h2 == spec_header(b),
    ensures
        h1 == h2,
{
}

/// The decode failure `load_from_bytes` reports for `b`, if any: checks
/// run in stream order and the first unmet requirement wins.
pub open spec fn spec_decode_err(b: Seq<u8>) -> Option<LabError> {
    if b.len() < 2 {
        Some(LabError::Truncated { offset: 2 })
    } else if spec_le_u16(b, 0) < MIN_VERSION {
        Some(LabError::UnsupportedVersion { found: spec_le_u16(b, 0) })
    } else if b.len() < 20 {
        Some(LabError::Truncated { offset: 20 })
    } else {
        let h = spec_header(b);
        if b.len() < spec_base_end(h.bone_num as int) {
            Some(LabError::Truncated { offset: spec_base_end(h.bone_num as int) as u128 })
        } else if b.len() < spec_invmat_end(h.bone_num as int) {
            Some(LabError::Truncated { offset: spec_invmat_end(h.bone_num as int) as u128 })
        } else if b.len() < spec_dummy_end(h.bone_num as int, h.dummy_num as int) {
            Some(
                LabError::Truncated {
                    offset: spec_dummy_end(h.bone_num as int, h.dummy_num as int) as u128,
                },
            )
        } else if b.len() < spec_total_end(h) {
            Some(LabError::Truncated { offset: spec_total_end(h) as u128 })
        } else {
            None
        }
    }
}

/// `d` is the dataset stored in `b`: every section decoded at its fixed
/// offset.
pub open spec fn spec_decode_ok(b: Seq<u8>, d: AnimDataBone) -> bool {
    let bnum = d.header.bone_num as int;
    &&& d.header == spec_header(b)
    &&& d.base_seq@.len() == bnum
    &&& forall|i: int| 0 <= i < bnum ==> spec_base_ok(b, i, #[trigger] d.base_seq@[i])
    &&& d.invmat_seq@.len() == bnum
    &&& forall|i: int| 0 <= i < bnum ==> spec_invmat_ok(b, bnum, i, #[trigger] d.invmat_seq@[i])
    &&& d.dummy_seq@.len() == d.header.dummy_num as int
    &&& forall|j: int|
        0 <= j < d.header.dummy_num as int ==> spec_dummy_ok(b, bnum, j, #[trigger] d.dummy_seq@[j])
    &&& spec_keys_ok(b, d.header, d.key_seq@)
}

/// A dataset that decoded from some byte stream is well formed: the
/// fixed layout forces every length and matrix size the shape invariant
/// asks for.
pub proof fn lemma_decoded_wf(b: Seq<u8>, d: AnimDataBone)
    requires
        spec_decode_ok(b, d),
    ensures
        d.wf(),
{
    let bnum = d.header.bone_num as int;
    let fnum = d.header.frame_num as int;
    assert forall|i: int| 0 <= i < bnum implies (#[trigger] d.invmat_seq@[i]).wf() by {
        assert(spec_invmat_ok(b, bnum, i, d.invmat_seq@[i]));
    }
    assert forall|j: int|
        0 <= j < d.dummy_seq@.len() implies (#[trigger] d.dummy_seq@[j]).mat.wf() by {
        assert(spec_dummy_ok(b, bnum, j, d.dummy_seq@[j]));
    }
    if d.header.key_type != KeyEncoding::Invalid {
        assert forall|i: int| 0 <= i < bnum implies #[trigger] d.track_wf(i) by {
            assert(spec_track_ok(b, d.header, i, d.key_seq@[i]));
            match d.header.key_type {
                KeyEncoding::Mat4x3 => {
                    let v = d.key_seq@[i]->Mat43Seq_0;
                    assert forall|f: int| 0 <= f < fnum implies (#[trigger] v@[f]).wf() by {
                        assert(v@[f].m@ == spec_mat_bits(
                            b,
                            spec_dummy_end(bnum, d.header.dummy_num as int) + 48 * fnum * i + 48
                                * f,
                            12,
                        ));
                    }
                },
                KeyEncoding::Mat4x4 => {
                    let v = d.key_seq@[i]->Mat44Seq_0;
                    assert forall|f: int| 0 <= f < fnum implies (#[trigger] v@[f]).wf() by {
                        assert(v@[f].m@ == spec_mat_bits(
                            b,
                            spec_dummy_end(bnum, d.header.dummy_num as int) + 64 * fnum * i + 64
                                * f,
                            16,
                        ));
                    }
                },
                _ => {},
            }
        }
    }
}

/// `s * b * f` is what the per-bone blocks add up to.
proof fn lemma_mul_le_three(s: int, b: int, f: int)
    requires
        0 <= s,
        0 <= b,
        0 <= f,
    ensures
        0 <= s * f * b,
        s * b * f == s * f * b,
{
    assert(0 <= s * f * b && s * b * f == s * f * b) by (nonlinear_arith)
        requires
            0 <= s,
            0 <= b,
            0 <= f,
    ;
}

/// The `i`-th block of size `t` starting at `k0` lies inside `total`
/// when all `b` blocks do.
proof fn lemma_block_bounds(k0: int, t: int, i: int, b: int, total: int)
    requires
        0 <= k0,
        0 <= t,
        0 <= i < b,
        k0 + t * b <= total,
    ensures
        k0 + t * i + t <= total,
{
    assert(t * i + t <= t * b) by (nonlinear_arith)
        requires
            0 <= t,
            i < b,
    ;
}

/// Stepping past one block of size `t`.
proof fn lemma_block_step(k0: int, t: int, i: int)
    ensures
        k0 + t * i + t == k0 + t * (i + 1),
{
    assert(t * i + t == t * (i + 1)) by (nonlinear_arith);
}

} // verus!
