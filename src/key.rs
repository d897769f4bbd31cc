use vstd::laws_cmp::obeys_cmp;
use vstd::prelude::*;
use vstd::std_specs::cmp::PartialEqSpec;

verus! {

/// A key that identifies a vertex or an edge.
///
/// A key is totally ordered, its `==` is equality of values, and it can be
/// copied into an equal value. These are the laws that the graph's ordered
/// indices rely on.
pub trait GraphKey: Ord + Clone + Sized {
    /// The key type obeys the laws of a total order, and its `==` is
    /// equality of values.
    proof fn lemma_key_laws()
        ensures
            obeys_cmp::<Self>(),
            forall|a: Self, b: Self| #[trigger] a.eq_spec(&b) <==> a == b,
    ;

    /// An equal, independently owned key.
    fn copy_key(&self) -> (r: Self)
        ensures
            r == *self,
    ;
}

impl GraphKey for u8 {
    proof fn lemma_key_laws() {
        broadcast use vstd::laws_cmp::group_laws_cmp;
    }

    fn copy_key(&self) -> (r: Self) {
        *self
    }
}

impl GraphKey for u16 {
    proof fn lemma_key_laws() {
        broadcast use vstd::laws_cmp::group_laws_cmp;
    }

    fn copy_key(&self) -> (r: Self) {
        *self
    }
}

impl GraphKey for u32 {
    proof fn lemma_key_laws() {
        broadcast use vstd::laws_cmp::group_laws_cmp;
    }

    fn copy_key(&self) -> (r: Self) {
        *self
    }
}

impl GraphKey for u64 {
    proof fn lemma_key_laws() {
        broadcast use vstd::laws_cmp::group_laws_cmp;
    }

    fn copy_key(&self) -> (r: Self) {
        *self
    }
}

impl GraphKey for u128 {
    proof fn lemma_key_laws() {
        broadcast use vstd::laws_cmp::group_laws_cmp;
    }

    fn copy_key(&self) -> (r: Self) {
        *self
    }
}

impl GraphKey for usize {
    proof fn lemma_key_laws() {
        broadcast use vstd::laws_cmp::group_laws_cmp;
    }

    fn copy_key(&self) -> (r: Self) {
        *self
    }
}

impl GraphKey for i8 {
    proof fn lemma_key_laws() {
        broadcast use vstd::laws_cmp::group_laws_cmp;
    }

    fn copy_key(&self) -> (r: Self) {
        *self
    }
}

impl GraphKey for i16 {
    proof fn lemma_key_laws() {
        broadcast use vstd::laws_cmp::group_laws_cmp;
    }

    fn copy_key(&self) -> (r: Self) {
        *self
    }
}

impl GraphKey for i32 {
    proof fn lemma_key_laws() {
        broadcast use vstd::laws_cmp::group_laws_cmp;
    }

    fn copy_key(&self) -> (r: Self) {
        *self
    }
}

impl GraphKey for i64 {
    proof fn lemma_key_laws() {
        broadcast use vstd::laws_cmp::group_laws_cmp;
    }

    fn copy_key(&self) -> (r: Self) {
        *self
    }
}

impl GraphKey for i128 {
    proof fn lemma_key_laws() {
        broadcast use vstd::laws_cmp::group_laws_cmp;
    }

    fn copy_key(&self) -> (r: Self) {
        *self
    }
}

impl GraphKey for isize {
    proof fn lemma_key_laws() {
        broadcast use vstd::laws_cmp::group_laws_cmp;
    }

    fn copy_key(&self) -> (r: Self) {
        *self
    }
}

} // verus!
