//! Joining fixed-length arrays into longer sequences.

use vstd::prelude::*;

verus! {

/// Extends a fixed-length array by one element or by another array.
///
/// The result keeps every element of the receiver, in order, followed by
/// the appended elements, in order. Lengths add up exactly.
pub trait ArrayAppend<T: Clone, const S: usize> {
    /// The elements of the receiver, in order.
    spec fn elements(&self) -> Seq<T>;

    /// The receiver followed by `element`.
    fn append(self, element: T) -> (joined: Vec<T>)
        ensures
            joined@.len() == S + 1,
            forall|i: int| 0 <= i < S ==> cloned(self.elements()[i], #[trigger] joined@[i]),
            joined@[S as int] == element,
    ;

    /// The receiver followed by the elements of `array`.
    fn append_array<const N: usize>(self, array: [T; N]) -> (joined: Vec<T>)
        ensures
            joined@.len() == S + N,
            forall|i: int| 0 <= i < S ==> cloned(self.elements()[i], #[trigger] joined@[i]),
            forall|i: int| S <= i < S + N ==> cloned(array@[i - S], #[trigger] joined@[i]),
    ;
}

impl<T: Clone, const S: usize> ArrayAppend<T, S> for [T; S] {
    open spec fn elements(&self) -> Seq<T> {
        self@
    }

    fn append(self, element: T) -> (joined: Vec<T>) {
        let mut joined: Vec<T> = Vec::new();
        let mut i: usize = 0;
        while i < S
            invariant
                i <= S,
                joined@.len() == i,
                forall|k: int| 0 <= k < i ==> cloned(self@[k], #[trigger] joined@[k]),
            decreases S - i,
        {
            joined.push(self[i].clone());
            i += 1;
        }
        joined.push(element);
        joined
    }

    fn append_array<const N: usize>(self, array: [T; N]) -> (joined: Vec<T>) {
        let mut joined: Vec<T> = Vec::new();
        let mut i: usize = 0;
        while i < S
            invariant
                i <= S,
                joined@.len() == i,
                forall|k: int| 0 <= k < i ==> cloned(self@[k], #[trigger] joined@[k]),
            decreases S - i,
        {
            joined.push(self[i].clone());
            i += 1;
        }
        let mut j: usize = 0;
        while j < N
            invariant
                j <= N,
                joined@.len() == S + j,
                forall|k: int| 0 <= k < S ==> cloned(self@[k], #[trigger] joined@[k]),
                forall|k: int| S <= k < S + j ==> cloned(array@[k - S], #[trigger] joined@[k]),
            decreases N - j,
        {
            joined.push(array[j].clone());
            j += 1;
        }
        joined
    }
}

} // verus!
