//! The element holder: one cell of the queue's chain.

use vstd::prelude::*;

verus! {

/// One cell of the chain: an optional value and the link to the cell after it.
///
/// A link is the address of a cell in the queue that holds it, or `None` while
/// the cell is the last one.
pub struct Node<T> {
    pub value: Option<T>,
    pub next: Option<usize>,
}

impl<T> Node<T> {
    /// A cell that holds `value` and is linked to nothing.
    pub fn new(value: Option<T>) -> (node: Self)
        ensures
            node.value == value,
            node.next.is_none(),
    {
        Node { value, next: None }
    }

    /// The cell without a value that stands at the head of the chain.
    pub fn sentinel() -> (node: Self)
        ensures
            node.value.is_none(),
            node.next.is_none(),
    {
        Self::new(None)
    }
}

} // verus!
