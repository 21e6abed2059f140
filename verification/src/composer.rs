//! The circuit table the front end hands to the indexer: per-gate selector
//! coefficients, the wire-permutation array for the copy constraints, the
//! per-gate public-input values, and — on the prover's side — the witness
//! assignment for each wire column.
//!
//! Positions of the three permuted wire columns are numbered column-major:
//! position `j * m + i` is wire column `j` at gate `i`, for `m` gates. The
//! permutation array maps every position to the position it is
//! copy-constrained to; a free position maps to itself.
use vstd::prelude::*;

use crate::poly::is_felt_seq;

verus! {

/// The number of wire columns carrying the permutation argument.
pub const PERMUTED_WIRES: usize = 3;

/// Checks that every entry of `v` is a reduced residue.
pub fn all_felt(v: &Vec<u64>) -> (r: bool)
    ensures
        r == is_felt_seq(v@),
{
    let mut i: usize = 0;
    while i < v.len()
        invariant
            i <= v@.len(),
            forall|j: int| 0 <= j < i ==> crate::field::is_felt(#[trigger] v@[j]),
        decreases v@.len() - i,
    {
        if v[i] >= crate::field::P {
            return false;
        }
        i = i + 1;
    }
    true
}

/// An already-built circuit of `m` gates.
pub struct Composer {
    /// Selector on wire 0.
    pub q_0: Vec<u64>,
    /// Selector on wire 1.
    pub q_1: Vec<u64>,
    /// Selector on wire 2.
    pub q_2: Vec<u64>,
    /// Selector on wire 3.
    pub q_3: Vec<u64>,
    /// Selector on the product of wires 1 and 2.
    pub q_m: Vec<u64>,
    /// Constant selector.
    pub q_c: Vec<u64>,
    /// Gate switch: the whole arithmetic identity is scaled by it, so a
    /// zero turns its row off.
    pub q_arith: Vec<u64>,
    /// Per-gate public-input value.
    pub pi: Vec<u64>,
    /// Witness assignment of wire column 0.
    pub w_0: Vec<u64>,
    /// Witness assignment of wire column 1.
    pub w_1: Vec<u64>,
    /// Witness assignment of wire column 2.
    pub w_2: Vec<u64>,
    /// Witness assignment of wire column 3.
    pub w_3: Vec<u64>,
    /// The wire permutation over the `3 * m` positions of the first three
    /// wire columns.
    pub perm: Vec<usize>,
}

impl Composer {
    /// The number of gates.
    pub open spec fn size_spec(&self) -> nat {
        self.q_0@.len()
    }

    /// Every table column has one entry per gate, every value is a field
    /// element, and the permutation maps positions to positions.
    pub open spec fn wf(&self) -> bool {
        &&& self.q_1@.len() == self.size_spec()
        &&& self.q_2@.len() == self.size_spec()
        &&& self.q_3@.len() == self.size_spec()
        &&& self.q_m@.len() == self.size_spec()
        &&& self.q_c@.len() == self.size_spec()
        &&& self.q_arith@.len() == self.size_spec()
        &&& self.pi@.len() == self.size_spec()
        &&& self.w_0@.len() == self.size_spec()
        &&& self.w_1@.len() == self.size_spec()
        &&& self.w_2@.len() == self.size_spec()
        &&& self.w_3@.len() == self.size_spec()
        &&& self.perm@.len() == PERMUTED_WIRES * self.size_spec()
        &&& is_felt_seq(self.q_0@)
        &&& is_felt_seq(self.q_1@)
        &&& is_felt_seq(self.q_2@)
        &&& is_felt_seq(self.q_3@)
        &&& is_felt_seq(self.q_m@)
        &&& is_felt_seq(self.q_c@)
        &&& is_felt_seq(self.q_arith@)
        &&& is_felt_seq(self.pi@)
        &&& is_felt_seq(self.w_0@)
        &&& is_felt_seq(self.w_1@)
        &&& is_felt_seq(self.w_2@)
        &&& is_felt_seq(self.w_3@)
        &&& forall|i: int|
            0 <= i < self.perm@.len() ==> (#[trigger] self.perm@[i]) < PERMUTED_WIRES
                * self.size_spec()
    }

    /// The number of gates.
    pub fn size(&self) -> (r: usize)
        ensures
            r == self.size_spec(),
    {
        self.q_0.len()
    }

    /// Checks the table invariant at run time, so an unverified caller
    /// can establish it before handing the table to the indexer or the
    /// prover.
    pub fn check_valid(&self) -> (r: bool)
        ensures
            r == self.wf(),
    {
        let m: usize = self.q_0.len();
        if self.q_1.len() != m || self.q_2.len() != m || self.q_3.len() != m || self.q_m.len() != m
            || self.q_c.len() != m || self.q_arith.len() != m || self.pi.len() != m
            || self.w_0.len() != m || self.w_1.len() != m || self.w_2.len() != m
            || self.w_3.len() != m {
            return false;
        }
        let pl: usize = self.perm.len();
        if m > usize::MAX / PERMUTED_WIRES {
            assert(PERMUTED_WIRES * m > usize::MAX);
            return false;
        }
        if pl != PERMUTED_WIRES * m {
            return false;
        }
        if !(all_felt(&self.q_0) && all_felt(&self.q_1) && all_felt(&self.q_2) && all_felt(
            &self.q_3,
        ) && all_felt(&self.q_m) && all_felt(&self.q_c) && all_felt(&self.q_arith) && all_felt(
            &self.pi,
        ) && all_felt(&self.w_0) && all_felt(&self.w_1) && all_felt(&self.w_2) && all_felt(
            &self.w_3,
        )) {
            return false;
        }
        let mut i: usize = 0;
        while i < self.perm.len()
            invariant
                i <= self.perm@.len(),
                self.perm@.len() == PERMUTED_WIRES * self.size_spec(),
                forall|j: int|
                    0 <= j < i ==> (#[trigger] self.perm@[j]) < PERMUTED_WIRES * self.size_spec(),
            decreases self.perm@.len() - i,
        {
            if self.perm[i] >= self.perm.len() {
                return false;
            }
            i = i + 1;
        }
        true
    }
}

} // verus!
