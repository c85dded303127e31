//! A last-in-first-out stack that stores its elements in two queues.

use vstd::prelude::*;
use crate::queue::{is_empty_error, Queue};

verus! {

/// The top of a stack whose elements are `s`, bottom first, where it has one.
pub open spec fn top<T>(s: Seq<T>) -> Option<T> {
    if s.len() > 0 {
        Some(s.last())
    } else {
        None
    }
}

/// The stack `s` without its top. An empty stack stays as it is.
pub open spec fn popped<T>(s: Seq<T>) -> Seq<T> {
    if s.len() > 0 {
        s.drop_last()
    } else {
        s
    }
}

/// A stack of owned elements. Its view is the sequence of its elements from
/// the bottom (index 0) to the top (the last index, the most recent push that
/// no pop has taken).
///
/// The elements live in the main queue, top at the front. The temporary queue
/// is scratch space for `push` and holds nothing between two operations.
pub struct MyStack<T> {
    main_queue: Queue<T>,
    temp_queue: Queue<T>,
}

impl<T> View for MyStack<T> {
    type V = Seq<T>;

    closed spec fn view(&self) -> Seq<T> {
        self.main_queue@.reverse()
    }
}

impl<T> MyStack<T> {
    /// The stack is at rest: its temporary queue is empty. `new` establishes
    /// this and every operation keeps it.
    pub closed spec fn wf(&self) -> bool {
        self.temp_queue@.len() == 0
    }

    /// An empty stack.
    pub fn new() -> (s: Self)
        ensures
            s.wf(),
            s@ == Seq::<T>::empty(),
    {
        Self { main_queue: Queue::<T>::new(), temp_queue: Queue::<T>::new() }
    }

    /// Puts `elem` on top by rebuilding: `elem` goes into the temporary
    /// queue, the main queue is drained behind it, and the two queues change
    /// roles.
    pub fn push(&mut self, elem: T)
        requires
            old(self).wf(),
        ensures
            final(self).wf(),
            final(self)@ == old(self)@.push(elem),
    {
        let ghost before = self.main_queue@;
        self.temp_queue.enqueue(elem);
        loop
            invariant
                self.temp_queue@ + self.main_queue@ == seq![elem] + before,
            ensures
                self.main_queue@.len() == 0,
            decreases self.main_queue@.len(),
        {
            match self.main_queue.dequeue() {
                Ok(value) => {
                    self.temp_queue.enqueue(value);
                },
                Err(_) => {
                    break ;
                },
            }
        }
        std::mem::swap(&mut self.main_queue, &mut self.temp_queue);
    }

    /// Puts `elem` on top by rotating: `elem` goes to the back of the main
    /// queue, and every element before it is moved behind it, one at a time.
    pub fn push_optimized(&mut self, elem: T)
        requires
            old(self).wf(),
        ensures
            final(self).wf(),
            final(self)@ == old(self)@.push(elem),
    {
        let ghost before = self.main_queue@;
        self.main_queue.enqueue(elem);
        let size: usize = self.main_queue.size();
        for i in 0..size - 1
            invariant
                self.wf(),
                size == before.len() + 1,
                self.main_queue@ == before.skip(i as int) + seq![elem] + before.take(i as int),
        {
            if let Ok(value) = self.main_queue.dequeue() {
                self.main_queue.enqueue(value);
            }
        }
    }

    /// Removes the top and returns it. An empty stack is left as it is and
    /// the error is returned.
    pub fn pop(&mut self) -> (r: Result<T, &str>)
        requires
            old(self).wf(),
        ensures
            final(self).wf(),
            final(self)@ == popped(old(self)@),
            match top(old(self)@) {
                Some(v) => r == Ok::<T, &str>(v),
                None => is_empty_error(r),
            },
    {
        self.main_queue.dequeue()
    }

    /// The top, which stays on the stack.
    pub fn peek(&self) -> (r: Result<&T, &str>)
        ensures
            match top(self@) {
                Some(v) => r == Ok::<&T, &str>(&v),
                None => is_empty_error(r),
            },
    {
        self.main_queue.peek()
    }

    /// Whether the stack holds no element.
    pub fn is_empty(&self) -> (b: bool)
        ensures
            b <==> self@.len() == 0,
    {
        self.main_queue.is_empty()
    }

    /// The number of elements.
    pub fn size(&self) -> (n: usize)
        ensures
            n == self@.len(),
    {
        self.main_queue.size()
    }
}

} // verus!
