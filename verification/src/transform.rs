use vstd::prelude::*;

use crate::bone::{AnimDataBone, BoneKeyInfo, KeyEncoding, QuatPosKey};
use crate::d3d::{lwMatrix44, spec_expand43, spec_identity_bits};
use crate::error::LabError;

verus! {

/// A bone's local transform at one frame.
///
/// Matrix encodings yield the matrix itself (bit patterns); the
/// quaternion encoding yields the rotation/position pair, whose float
/// composition `rotation(quat) * translation(pos)` is the caller's
/// concern.
#[derive(Debug, Clone)]
pub enum LocalTransform {
    Matrix(lwMatrix44),
    RotTrans(QuatPosKey),
}

/// `lt` is the local transform of bone `bone` at frame `frame` of `d`:
/// the stored 4x3 matrix expanded, the stored 4x4 matrix unchanged, or
/// the stored quaternion/position sample.
pub open spec fn spec_local_ok(d: AnimDataBone, bone: int, frame: int, lt: LocalTransform) -> bool {
    match d.header.key_type {
        KeyEncoding::Mat4x3 => lt matches LocalTransform::Matrix(m) && (d.key_seq@[bone] matches
            BoneKeyInfo::Mat43Seq(v)
            && m.m@ == spec_expand43(v@[frame].m@)),
        KeyEncoding::Mat4x4 => lt matches LocalTransform::Matrix(m) && (d.key_seq@[bone] matches
            BoneKeyInfo::Mat44Seq(v)
            && m.m@ == v@[frame].m@),
        KeyEncoding::QuatPos => lt matches LocalTransform::RotTrans(k) && (d.key_seq@[bone] matches
            BoneKeyInfo::QuatPosSeq(v)
            && k == v@[frame]),
        KeyEncoding::Invalid => false,
    }
}

/// `k` is bone `i`'s stored quaternion/position sample at `frame`.
pub open spec fn spec_quat_sample_ok(d: AnimDataBone, i: int, frame: int, k: QuatPosKey) -> bool {
    d.key_seq@[i] matches BoneKeyInfo::QuatPosSeq(t) && k == t@[frame]
}

impl AnimDataBone {
    /// The local transform of one bone at one frame.  Fails exactly when
    /// the file's key encoding is `Invalid`, so no track backs the
    /// request.
    pub fn local_transform(&self, bone: usize, frame: usize) -> (r: Result<
        LocalTransform,
        LabError,
    >)
        requires
            self.wf(),
            bone < self.header.bone_num as usize,
            frame < self.header.frame_num as usize,
        ensures
            self.header.key_type == KeyEncoding::Invalid ==> r == Err::<LocalTransform, LabError>(
                LabError::TrackMismatch { bone: bone as u32, frame: frame as u32 },
            ),
            self.header.key_type != KeyEncoding::Invalid ==> (r matches Ok(lt) && spec_local_ok(
                *self,
                bone as int,
                frame as int,
                lt,
            )),
    {
        proof {
            if self.header.key_type != KeyEncoding::Invalid {
                assert(self.track_wf(bone as int));
            }
        }
        match self.header.key_type {
            KeyEncoding::Invalid => Err(
                LabError::TrackMismatch { bone: bone as u32, frame: frame as u32 },
            ),
            _ => match &self.key_seq[bone] {
                BoneKeyInfo::Mat43Seq(v) => Ok(LocalTransform::Matrix(v[frame].get_matrix4())),
                BoneKeyInfo::Mat44Seq(v) => {
                    let m = lwMatrix44 { m: v[frame].m.clone() };
                    proof {
                        assert(m.m@ =~= v@[frame as int].m@);
                    }
                    Ok(LocalTransform::Matrix(m))
                },
                BoneKeyInfo::QuatPosSeq(v) => Ok(LocalTransform::RotTrans(v[frame])),
            },
        }
    }

    /// The rest pose: every bone's local transform at frame 0.  Fails
    /// exactly when the key encoding is `Invalid`.
    pub fn generate_position_matrices_at_rest(&self) -> (r: Result<Vec<LocalTransform>, LabError>)
        requires
            self.wf(),
            self.header.frame_num >= 1,
        ensures
            self.header.key_type == KeyEncoding::Invalid ==> r == Err::<
                Vec<LocalTransform>,
                LabError,
            >(LabError::TrackMismatch { bone: 0, frame: 0 }),
            self.header.key_type != KeyEncoding::Invalid ==> (r matches Ok(v) && v@.len()
                == self.header.bone_num as int && forall|i: int|
                0 <= i < self.header.bone_num as int ==> spec_local_ok(*self, i, 0, #[trigger] v@[i])),
    {
        if let KeyEncoding::Invalid = self.header.key_type {
            return Err(LabError::TrackMismatch { bone: 0, frame: 0 });
        }
        let bnum = self.header.bone_num as usize;
        let mut out: Vec<LocalTransform> = Vec::new();
        let mut i: usize = 0;
        while i < bnum
            invariant
                self.wf(),
                self.header.frame_num >= 1,
                self.header.key_type != KeyEncoding::Invalid,
                bnum == self.header.bone_num as usize,
                i <= bnum,
                out@.len() == i,
                forall|j: int| 0 <= j < i ==> spec_local_ok(*self, j, 0, #[trigger] out@[j]),
            decreases bnum - i,
        {
            match self.local_transform(i, 0) {
                Ok(lt) => out.push(lt),
                Err(e) => {
                    return Err(e);
                },
            }
            i = i + 1;
        }
        Ok(out)
    }

    /// The full transform table: for every bone, its local transform at
    /// every frame, `bone_num` rows of `frame_num` entries.  Fails
    /// exactly when the key encoding is `Invalid`.
    pub fn generate_transformation_matrices_for_all_frames(&self) -> (r: Result<
        Vec<Vec<LocalTransform>>,
        LabError,
    >)
        requires
            self.wf(),
        ensures
            self.header.key_type == KeyEncoding::Invalid ==> r == Err::<
                Vec<Vec<LocalTransform>>,
                LabError,
            >(LabError::TrackMismatch { bone: 0, frame: 0 }),
            self.header.key_type != KeyEncoding::Invalid ==> (r matches Ok(t) && t@.len()
                == self.header.bone_num as int && (forall|i: int|
                0 <= i < self.header.bone_num as int ==> (#[trigger] t@[i])@.len()
                    == self.header.frame_num as int) && forall|i: int, f: int|
                0 <= i < self.header.bone_num as int && 0 <= f < self.header.frame_num as int
                    ==> spec_local_ok(*self, i, f, #[trigger] t@[i]@[f])),
    {
        if let KeyEncoding::Invalid = self.header.key_type {
            return Err(LabError::TrackMismatch { bone: 0, frame: 0 });
        }
        let bnum = self.header.bone_num as usize;
        let fnum = self.header.frame_num as usize;
        let mut out: Vec<Vec<LocalTransform>> = Vec::new();
        let mut i: usize = 0;
        while i < bnum
            invariant
                self.wf(),
                self.header.key_type != KeyEncoding::Invalid,
                bnum == self.header.bone_num as usize,
                fnum == self.header.frame_num as usize,
                i <= bnum,
                out@.len() == i,
                forall|j: int| 0 <= j < i ==> (#[trigger] out@[j])@.len() == fnum as int,
                forall|j: int, f: int|
                    0 <= j < i && 0 <= f < fnum as int ==> spec_local_ok(
                        *self,
                        j,
                        f,
                        #[trigger] out@[j]@[f],
                    ),
            decreases bnum - i,
        {
            let mut row: Vec<LocalTransform> = Vec::new();
            let mut f: usize = 0;
            while f < fnum
                invariant
                    self.wf(),
                    self.header.key_type != KeyEncoding::Invalid,
                    bnum == self.header.bone_num as usize,
                    fnum == self.header.frame_num as usize,
                    i < bnum,
                    f <= fnum,
                    row@.len() == f,
                    forall|g: int|
                        0 <= g < f ==> spec_local_ok(*self, i as int, g, #[trigger] row@[g]),
                decreases fnum - f,
            {
                match self.local_transform(i, f) {
                    Ok(lt) => row.push(lt),
                    Err(e) => {
                        return Err(e);
                    },
                }
                f = f + 1;
            }
            out.push(row);
            proof {
                assert forall|j: int, f: int|
                    0 <= j < i + 1 && 0 <= f < fnum as int implies spec_local_ok(
                    *self,
                    j,
                    f,
                    #[trigger] out@[j]@[f],
                ) by {
                    if j < i {
                        assert(spec_local_ok(*self, j, f, out@[j]@[f]));
                    } else {
                        assert(out@[j] == row);
                    }
                }
            }
            i = i + 1;
        }
        Ok(out)
    }

    /// The quaternion/position samples of every bone at one frame.
    /// Fails with a track mismatch exactly when the file's key encoding
    /// is not the quaternion one, rather than inventing a default.
    pub fn get_transforms_for_frame(&self, frame: usize) -> (r: Result<Vec<QuatPosKey>, LabError>)
        requires
            self.wf(),
            frame < self.header.frame_num as usize,
        ensures
            self.header.key_type != KeyEncoding::QuatPos ==> r == Err::<Vec<QuatPosKey>, LabError>(
                LabError::TrackMismatch { bone: 0, frame: frame as u32 },
            ),
            self.header.key_type == KeyEncoding::QuatPos ==> (r matches Ok(v) && v@.len()
                == self.header.bone_num as int && forall|i: int|
                0 <= i < self.header.bone_num as int ==> spec_quat_sample_ok(
                    *self,
                    i,
                    frame as int,
                    #[trigger] v@[i],
                )),
    {
        match self.header.key_type {
            KeyEncoding::QuatPos => {},
            _ => {
                return Err(LabError::TrackMismatch { bone: 0, frame: frame as u32 });
            },
        }
        let bnum = self.header.bone_num as usize;
        let mut out: Vec<QuatPosKey> = Vec::new();
        let mut i: usize = 0;
        while i < bnum
            invariant
                self.wf(),
                self.header.key_type == KeyEncoding::QuatPos,
                frame < self.header.frame_num as usize,
                bnum == self.header.bone_num as usize,
                i <= bnum,
                out@.len() == i,
                forall|j: int|
                    0 <= j < i ==> spec_quat_sample_ok(*self, j, frame as int, #[trigger] out@[j]),
            decreases bnum - i,
        {
            proof {
                assert(self.track_wf(i as int));
            }
            let ghost prev = out@;
            match &self.key_seq[i] {
                BoneKeyInfo::QuatPosSeq(t) => {
                    out.push(t[frame]);
                    proof {
                        assert forall|j: int| 0 <= j < i + 1 implies spec_quat_sample_ok(
                            *self,
                            j,
                            frame as int,
                            #[trigger] out@[j],
                        ) by {
                            if j < i {
                                assert(out@[j] == prev[j]);
                                assert(spec_quat_sample_ok(*self, j, frame as int, prev[j]));
                            } else {
                                assert(out@[j] == t@[frame as int]);
                            }
                        }
                    }
                },
                _ => {
                    proof {
                        assert(false);
                    }
                },
            }
            i = i + 1;
        }
        Ok(out)
    }

    /// The quaternion/position sample of one bone at one frame, as a
    /// one-element list.  Fails with a track mismatch exactly when the
    /// file's key encoding is not the quaternion one.
    pub fn get_transforms_for_frame_and_bone(&self, frame: usize, bone: usize) -> (r: Result<
        Vec<QuatPosKey>,
        LabError,
    >)
        requires
            self.wf(),
            frame < self.header.frame_num as usize,
            bone < self.header.bone_num as usize,
        ensures
            self.header.key_type != KeyEncoding::QuatPos ==> r == Err::<Vec<QuatPosKey>, LabError>(
                LabError::TrackMismatch { bone: bone as u32, frame: frame as u32 },
            ),
            self.header.key_type == KeyEncoding::QuatPos ==> (r matches Ok(v) && v@.len() == 1
                && spec_quat_sample_ok(*self, bone as int, frame as int, v@[0])),
    {
        match self.header.key_type {
            KeyEncoding::QuatPos => {},
            _ => {
                return Err(LabError::TrackMismatch { bone: bone as u32, frame: frame as u32 });
            },
        }
        proof {
            assert(self.track_wf(bone as int));
        }
        let mut out: Vec<QuatPosKey> = Vec::new();
        match &self.key_seq[bone] {
            BoneKeyInfo::QuatPosSeq(t) => out.push(t[frame]),
            _ => {
                proof {
                    assert(false);
                }
            },
        }
        Ok(out)
    }
}

/// A bone of a matrix-encoded file whose frame-0 stored transform is the
/// identity matrix gets the identity matrix as its rest-pose transform.
pub proof fn lemma_rest_pose_identity(d: AnimDataBone, bone: int, rest: Seq<LocalTransform>)
    requires
        d.header.key_type == KeyEncoding::Mat4x4,
        0 <= bone < d.header.bone_num as int,
        rest.len() == d.header.bone_num as int,
        forall|i: int|
            0 <= i < d.header.bone_num as int ==> spec_local_ok(d, i, 0, #[trigger] rest[i]),
        d.key_seq@[bone] matches BoneKeyInfo::Mat44Seq(v) && v@[0].m@ == spec_identity_bits(),
    ensures
        rest[bone] matches LocalTransform::Matrix(m) && m.m@ == spec_identity_bits(),
{
    assert(spec_local_ok(d, bone, 0, rest[bone]));
}

} // verus!
