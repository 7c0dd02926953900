use vstd::prelude::*;

verus! {

/// Bit pattern of the 32-bit float `0.0`.
pub const F32_ZERO_BITS: u32 = 0;

/// Bit pattern of the 32-bit float `1.0`.
pub const F32_ONE_BITS: u32 = 0x3F800000;

/// A 4x4 matrix of 32-bit floats, each held as its bit pattern.
///
/// Entry `(r, c)` of the matrix as laid out in the file (row-major,
/// translation in the fourth row) is `m[4 * r + c]`.  The library never
/// computes with these values; float algebra and decimal formatting are
/// the caller's concern.
#[allow(non_camel_case_types)]
#[derive(Debug, Clone, PartialEq, Eq)]
pub struct lwMatrix44 {
    pub m: Vec<u32>,
}

/// A 4x3 matrix of 32-bit floats held as bit patterns: four rows of
/// three entries, entry `(r, c)` at `m[3 * r + c]`.
#[allow(non_camel_case_types)]
#[derive(Debug, Clone, PartialEq, Eq)]
pub struct lwMatrix43 {
    pub m: Vec<u32>,
}

/// The 4x4 expansion of a stored 4x3 matrix: each row keeps its three
/// stored entries and gains a fourth, `0.0` everywhere except `1.0` in
/// the last row, so the stored translation row stays the translation
/// row of the 4x4 form.
pub open spec fn spec_expand43(m: Seq<u32>) -> Seq<u32> {
    Seq::new(
        16,
        |k: int|
            if k % 4 == 3 {
                if k / 4 == 3 {
                    F32_ONE_BITS
                } else {
                    F32_ZERO_BITS
                }
            } else {
                m[(k / 4) * 3 + k % 4]
            },
    )
}

/// The identity matrix, as bit patterns.
pub open spec fn spec_identity_bits() -> Seq<u32> {
    Seq::new(
        16,
        |k: int|
            if k % 4 == k / 4 {
                F32_ONE_BITS
            } else {
                F32_ZERO_BITS
            },
    )
}

/// The order in which the sixteen entries of a matrix appear in the
/// output document: the transpose of the stored layout, as the source
/// tool writes it.
pub open spec fn spec_print_order(m: Seq<u32>) -> Seq<u32> {
    Seq::new(16, |k: int| m[4 * (k % 4) + k / 4])
}

impl lwMatrix44 {
    /// Sixteen entries, no more and no less.
    pub open spec fn wf(&self) -> bool {
        self.m@.len() == 16
    }

    /// Wraps sixteen float bit patterns, row-major.
    pub fn new(m: Vec<u32>) -> (r: lwMatrix44)
        requires
            m@.len() == 16,
        ensures
            r.m@ == m@,
            r.wf(),
    {
        lwMatrix44 { m }
    }

    /// The all-zero matrix.
    pub fn default() -> (r: lwMatrix44)
        ensures
            r.wf(),
            forall|k: int| 0 <= k < 16 ==> r.m@[k] == F32_ZERO_BITS,
    {
        let mut m: Vec<u32> = Vec::new();
        let mut i: usize = 0;
        while i < 16
            invariant
                i <= 16,
                m@.len() == i,
                forall|k: int| 0 <= k < i ==> m@[k] == F32_ZERO_BITS,
            decreases 16 - i,
        {
            m.push(F32_ZERO_BITS);
            i = i + 1;
        }
        lwMatrix44 { m }
    }

    /// The identity matrix, as bit patterns.
    pub fn identity() -> (r: lwMatrix44)
        ensures
            r.wf(),
            r.m@ == spec_identity_bits(),
    {
        let mut m: Vec<u32> = Vec::new();
        let mut i: usize = 0;
        while i < 16
            invariant
                i <= 16,
                m@.len() == i,
                forall|k: int| 0 <= k < i ==> m@[k] == spec_identity_bits()[k],
            decreases 16 - i,
        {
            if i % 4 == i / 4 {
                m.push(F32_ONE_BITS);
            } else {
                m.push(F32_ZERO_BITS);
            }
            i = i + 1;
        }
        proof {
            assert(m@ =~= spec_identity_bits());
        }
        lwMatrix44 { m }
    }

    /// The sixteen entries in the order the output document writes them.
    pub fn print_order(&self) -> (r: Vec<u32>)
        requires
            self.wf(),
        ensures
            r@ == spec_print_order(self.m@),
    {
        let mut out: Vec<u32> = Vec::new();
        let mut k: usize = 0;
        while k < 16
            invariant
                self.wf(),
                k <= 16,
                out@.len() == k,
                forall|j: int| 0 <= j < k ==> out@[j] == spec_print_order(self.m@)[j],
            decreases 16 - k,
        {
            out.push(self.m[4 * (k % 4) + k / 4]);
            k = k + 1;
        }
        proof {
            assert(out@ =~= spec_print_order(self.m@));
        }
        out
    }
}

impl lwMatrix43 {
    /// Twelve entries, no more and no less.
    pub open spec fn wf(&self) -> bool {
        self.m@.len() == 12
    }

    /// Expands the stored 4x3 matrix into its 4x4 form.
    pub fn get_matrix4(&self) -> (r: lwMatrix44)
        requires
            self.wf(),
        ensures
            r.wf(),
            r.m@ == spec_expand43(self.m@),
    {
        let mut m: Vec<u32> = Vec::new();
        let mut k: usize = 0;
        while k < 16
            invariant
                self.wf(),
                k <= 16,
                m@.len() == k,
                forall|j: int| 0 <= j < k ==> m@[j] == spec_expand43(self.m@)[j],
            decreases 16 - k,
        {
            if k % 4 == 3 {
                if k / 4 == 3 {
                    m.push(F32_ONE_BITS);
                } else {
                    m.push(F32_ZERO_BITS);
                }
            } else {
                m.push(self.m[(k / 4) * 3 + k % 4]);
            }
            k = k + 1;
        }
        proof {
            assert(m@ =~= spec_expand43(self.m@));
        }
        lwMatrix44 { m }
    }
}

} // verus!
