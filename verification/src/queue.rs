//! A strict first-in-first-out buffer.

use vstd::prelude::*;

verus! {

/// The message carried by the error of an operation that needs an element
/// and finds none.
pub open spec fn empty_message() -> Seq<char> {
    "Queue is empty"@
}

/// Whether `r` is the error that reports an empty container.
pub open spec fn is_empty_error<V>(r: Result<V, &str>) -> bool {
    r matches Err(msg) && msg@ == empty_message()
}

/// A queue of owned elements. Its view is the sequence of its elements from
/// the front (index 0, the next to leave) to the back (the last to have
/// arrived).
#[derive(Debug)]
pub struct Queue<T> {
    elements: Vec<T>,
}

impl<T> View for Queue<T> {
    type V = Seq<T>;

    closed spec fn view(&self) -> Seq<T> {
        self.elements@
    }
}

impl<T> Queue<T> {
    /// An empty queue.
    pub fn new() -> (q: Queue<T>)
        ensures
            q@ == Seq::<T>::empty(),
    {
        Queue { elements: Vec::new() }
    }

    /// Appends `value` at the back.
    pub fn enqueue(&mut self, value: T)
        ensures
            final(self)@ == old(self)@.push(value),
    {
        self.elements.push(value)
    }

    /// Removes the front element and returns it. An empty queue is left as
    /// it is and the error is returned.
    pub fn dequeue(&mut self) -> (r: Result<T, &str>)
        ensures
            old(self)@.len() > 0 ==> r == Ok::<T, &str>(old(self)@.first()) && final(self)@
                == old(self)@.drop_first(),
            old(self)@.len() == 0 ==> is_empty_error(r) && final(self)@ == old(self)@,
    {
        if !self.elements.is_empty() {
            Ok(self.elements.remove(0usize))
        } else {
            Err("Queue is empty")
        }
    }

    /// The front element, which stays in the queue.
    pub fn peek(&self) -> (r: Result<&T, &str>)
        ensures
            self@.len() > 0 ==> r == Ok::<&T, &str>(&self@.first()),
            self@.len() == 0 ==> is_empty_error(r),
    {
        match self.elements.first() {
            Some(value) => Ok(value),
            None => Err("Queue is empty"),
        }
    }

    /// The number of elements.
    pub fn size(&self) -> (n: usize)
        ensures
            n == self@.len(),
    {
        self.elements.len()
    }

    /// Whether the queue holds no element.
    pub fn is_empty(&self) -> (b: bool)
        ensures
            b <==> self@.len() == 0,
    {
        self.elements.is_empty()
    }
}

impl<T> Default for Queue<T> {
    /// An empty queue.
    fn default() -> (q: Queue<T>)
        ensures
            q@ == Seq::<T>::empty(),
    {
        Queue { elements: Vec::new() }
    }
}

} // verus!
