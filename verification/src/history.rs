//! Histories: what holds of a stack over a whole run of operations.
//!
//! A stack is taken by its view, the sequence of its elements from bottom to
//! top. One operation takes the view `s` to `after(s, op)` and hands out
//! `answer(s, op)`: these are the contracts of `MyStack`'s methods, read as
//! functions. `run` applies a history of operations in order, and the proof
//! functions of this module say what every history does.

use vstd::prelude::*;
use crate::stack::{popped, top};

verus! {

/// One operation on a stack.
pub enum Op<T> {
    /// `push`, or `push_optimized`, of the value.
    Push(T),
    /// `pop`.
    Pop,
    /// `peek`.
    Peek,
}

/// The stack that `op` leaves when it meets the stack `s`.
pub open spec fn after<T>(s: Seq<T>, op: Op<T>) -> Seq<T> {
    match op {
        Op::Push(v) => s.push(v),
        Op::Pop => popped(s),
        Op::Peek => s,
    }
}

/// The element that `op` hands out when it meets the stack `s`. `None` where
/// it hands out none: a push, and a pop or a peek that returns the error.
pub open spec fn answer<T>(s: Seq<T>, op: Op<T>) -> Option<T> {
    match op {
        Op::Push(_) => None,
        Op::Pop => top(s),
        Op::Peek => top(s),
    }
}

/// The stack that the history `ops` leaves, applied in order from the stack
/// `s`.
pub open spec fn run<T>(s: Seq<T>, ops: Seq<Op<T>>) -> Seq<T>
    decreases ops.len(),
{
    if ops.len() == 0 {
        s
    } else {
        after(run(s, ops.drop_last()), ops.last())
    }
}

/// What operation `j` of the history `ops` hands out, when the history starts
/// from the stack `s`.
pub open spec fn answer_at<T>(s: Seq<T>, ops: Seq<Op<T>>, j: int) -> Option<T>
    recommends
        0 <= j < ops.len(),
{
    answer(run(s, ops.take(j)), ops[j])
}

/// The history that pushes the values of `vs`, first to last.
pub open spec fn pushes_of<T>(vs: Seq<T>) -> Seq<Op<T>> {
    Seq::new(vs.len(), |i: int| Op::Push(vs[i]))
}

/// The history that holds `op` and nothing else, `n` times.
pub open spec fn repeated<T>(op: Op<T>, n: nat) -> Seq<Op<T>> {
    Seq::new(n, |i: int| op)
}

/// How many operations of `ops` are pushes.
pub open spec fn pushes<T>(ops: Seq<Op<T>>) -> nat
    decreases ops.len(),
{
    if ops.len() == 0 {
        0
    } else {
        pushes(ops.drop_last()) + if ops.last() is Push {
            1nat
        } else {
            0nat
        }
    }
}

/// How many operations of `ops` are pops that hand out an element, when the
/// history starts from the stack `s`. A pop that returns the error is not
/// counted.
pub open spec fn pops_done<T>(s: Seq<T>, ops: Seq<Op<T>>) -> nat
    decreases ops.len(),
{
    if ops.len() == 0 {
        0
    } else {
        pops_done(s, ops.drop_last()) + if ops.last() is Pop && top(run(s, ops.drop_last()))
            is Some {
            1nat
        } else {
            0nat
        }
    }
}

/// Pushes less pops in `ops`, every pop counted.
pub open spec fn gain<T>(ops: Seq<Op<T>>) -> int
    decreases ops.len(),
{
    if ops.len() == 0 {
        0
    } else {
        gain(ops.drop_last()) + match ops.last() {
            Op::Push(_) => 1int,
            Op::Pop => -1int,
            Op::Peek => 0int,
        }
    }
}

/// Whether `ops` pops exactly what it pushed itself: at no point has it
/// popped more than it has pushed, and at its end it has popped as much.
pub open spec fn balanced<T>(ops: Seq<Op<T>>) -> bool {
    &&& gain(ops) == 0
    &&& forall|k: int| 0 <= k <= ops.len() ==> gain(#[trigger] ops.take(k)) >= 0
}

/// Running two histories one after the other is running their
/// concatenation.
pub proof fn lemma_run_concat<T>(s: Seq<T>, a: Seq<Op<T>>, b: Seq<Op<T>>)
    ensures
        run(s, a + b) == run(run(s, a), b),
    decreases b.len(),
{
    if b.len() == 0 {
        assert(a + b =~= a);
    } else {
        assert((a + b).drop_last() =~= a + b.drop_last());
        lemma_run_concat(s, a, b.drop_last());
    }
}

/// Pushing the values of `vs` puts them on the stack, the last one on top.
pub proof fn lemma_run_pushes<T>(s: Seq<T>, vs: Seq<T>)
    ensures
        run(s, pushes_of(vs)) == s + vs,
    decreases vs.len(),
{
    if vs.len() == 0 {
        assert(s + vs =~= s);
    } else {
        assert(pushes_of(vs).drop_last() =~= pushes_of(vs.drop_last()));
        lemma_run_pushes(s, vs.drop_last());
        assert((s + vs.drop_last()).push(vs.last()) =~= s + vs);
    }
}

/// Popping `n` times takes the `n` topmost elements off, as far as there are
/// so many.
pub proof fn lemma_run_pops<T>(s: Seq<T>, n: nat)
    requires
        n <= s.len(),
    ensures
        run(s, repeated(Op::Pop, n)) == s.take(s.len() - n),
    decreases n,
{
    let ops = repeated(Op::<T>::Pop, n);
    if n == 0 {
        assert(s.take(s.len() - n) =~= s);
    } else {
        assert(ops.drop_last() =~= repeated(Op::<T>::Pop, (n - 1) as nat));
        lemma_run_pops(s, (n - 1) as nat);
        assert(s.take(s.len() - n + 1).drop_last() =~= s.take(s.len() - n));
    }
}

/// Last in, first out. When the values of `vs` are pushed one after the
/// other and then as many pops follow, the pops hand out the values of `vs`
/// from the last to the first, and the stack is left as it was before the
/// pushes.
pub proof fn lemma_lifo<T>(s: Seq<T>, vs: Seq<T>)
    ensures
        forall|k: int|
            0 <= k < vs.len() ==> #[trigger] answer_at(
                s,
                pushes_of(vs) + repeated(Op::Pop, vs.len()),
                vs.len() + k,
            ) == Some(vs[vs.len() - 1 - k]),
        run(s, pushes_of(vs) + repeated(Op::Pop, vs.len())) == s,
{
    let n = vs.len();
    let ops = pushes_of(vs) + repeated(Op::Pop, n);
    assert forall|k: int| 0 <= k < n implies #[trigger] answer_at(s, ops, n + k) == Some(
        vs[n - 1 - k],
    ) by {
        assert(ops.take(n + k) =~= pushes_of(vs) + repeated(Op::Pop, k as nat));
        lemma_run_concat(s, pushes_of(vs), repeated(Op::Pop, k as nat));
        lemma_run_pushes(s, vs);
        lemma_run_pops(s + vs, k as nat);
    }
    lemma_run_concat(s, pushes_of(vs), repeated(Op::Pop, n));
    lemma_run_pushes(s, vs);
    lemma_run_pops(s + vs, n);
    assert((s + vs).take(s.len() as int) =~= s);
}

/// A history that never pops more than it has pushed leaves the stack that it
/// started from untouched, below what is left of the elements it pushed.
pub proof fn lemma_run_above<T>(s: Seq<T>, ops: Seq<Op<T>>)
    requires
        forall|k: int| 0 <= k <= ops.len() ==> gain(#[trigger] ops.take(k)) >= 0,
    ensures
        run(s, ops).len() == s.len() + gain(ops),
        run(s, ops).take(s.len() as int) == s,
    decreases ops.len(),
{
    if ops.len() == 0 {
        assert(s.take(s.len() as int) =~= s);
    } else {
        let front = ops.drop_last();
        assert forall|k: int| 0 <= k <= front.len() implies gain(#[trigger] front.take(k))
            >= 0 by {
            assert(front.take(k) =~= ops.take(k));
        }
        lemma_run_above(s, front);
        assert(ops.take(ops.len() as int) =~= ops);
        let before = run(s, front);
        assert(run(s, ops).take(s.len() as int) =~= before.take(s.len() as int));
    }
}

/// A pop, or a peek, hands out the most recent push that no pop has taken.
/// Where operation `i` pushes `v`, and the operations between `i` and `j`
/// pop exactly what they push themselves, a pop or a peek at `j` hands out
/// `v`, whatever came before `i`.
pub proof fn lemma_latest_unpopped_push<T>(s: Seq<T>, ops: Seq<Op<T>>, i: int, j: int, v: T)
    requires
        0 <= i < j < ops.len(),
        ops[i] == Op::Push(v),
        ops[j] is Pop || ops[j] is Peek,
        balanced(ops.subrange(i + 1, j)),
    ensures
        answer_at(s, ops, j) == Some(v),
{
    let head = ops.take(i + 1);
    let between = ops.subrange(i + 1, j);
    assert(ops.take(j) =~= head + between);
    lemma_run_concat(s, head, between);
    assert(head.drop_last() =~= ops.take(i));
    let below = run(s, head);
    assert(below == run(s, ops.take(i)).push(v));
    lemma_run_above(below, between);
    assert(run(below, between) =~= below);
}

/// Every element on a stack that started empty was pushed by some operation
/// of the history, and what the history does after that push leaves it
/// alone: at no point has it popped more than it has pushed since, and what it
/// has pushed less what it has popped since is what lies above the element.
/// The result is the place of that push.
proof fn lemma_element_has_its_push<T>(ops: Seq<Op<T>>, p: int) -> (i: int)
    requires
        0 <= p < run(Seq::<T>::empty(), ops).len(),
    ensures
        0 <= i < ops.len(),
        ops[i] == Op::Push(run(Seq::<T>::empty(), ops)[p]),
        gain(ops.subrange(i + 1, ops.len() as int)) == run(Seq::<T>::empty(), ops).len() - 1 - p,
        forall|k: int|
            0 <= k <= ops.len() - (i + 1) ==> gain(
                #[trigger] ops.subrange(i + 1, ops.len() as int).take(k),
            ) >= 0,
    decreases ops.len(),
{
    let n = ops.len() as int;
    let front = ops.drop_last();
    let before = run(Seq::<T>::empty(), front);
    if ops.last() is Push && p == before.len() {
        assert(ops.subrange(n, n) =~= Seq::<Op<T>>::empty());
        assert(ops.subrange(n, n).take(0) =~= Seq::<Op<T>>::empty());
        n - 1
    } else {
        let i = lemma_element_has_its_push(front, p);
        let since = ops.subrange(i + 1, n);
        let earlier = front.subrange(i + 1, n - 1);
        assert(since.drop_last() =~= earlier);
        assert forall|k: int| 0 <= k <= since.len() implies gain(#[trigger] since.take(k))
            >= 0 by {
            if k < since.len() {
                assert(since.take(k) =~= earlier.take(k));
            } else {
                assert(since.take(k) =~= since);
            }
        }
        i
    }
}

/// Every element that a pop or a peek hands out, on a stack that started
/// empty, is the most recent push that no pop has taken. The result is the
/// place of that push: it comes before the pop or peek at `j`, it pushes the
/// very element that is handed out, and the operations between the two pop
/// exactly what they push themselves.
pub proof fn lemma_answer_has_its_push<T>(ops: Seq<Op<T>>, j: int) -> (i: int)
    requires
        0 <= j < ops.len(),
        answer_at(Seq::<T>::empty(), ops, j) is Some,
    ensures
        0 <= i < j,
        ops[i] is Push,
        answer_at(Seq::<T>::empty(), ops, j) == Some(ops[i]->Push_0),
        balanced(ops.subrange(i + 1, j)),
{
    let head = ops.take(j);
    let stack = run(Seq::<T>::empty(), head);
    let i = lemma_element_has_its_push(head, stack.len() - 1);
    assert(head.subrange(i + 1, j) =~= ops.subrange(i + 1, j));
    assert(ops.subrange(i + 1, j).take(j - (i + 1)) =~= ops.subrange(i + 1, j));
    i
}

/// Peeking changes nothing: after any number of peeks the stack is as it
/// was, and each of them hands out the same, the top that was there before
/// the first.
pub proof fn lemma_peeks_leave_stack<T>(s: Seq<T>, n: nat)
    ensures
        run(s, repeated(Op::Peek, n)) == s,
        forall|k: int| 0 <= k < n ==> #[trigger] answer_at(s, repeated(Op::Peek, n), k) == top(s),
    decreases n,
{
    let ops = repeated(Op::<T>::Peek, n);
    if n > 0 {
        assert(ops.drop_last() =~= repeated(Op::<T>::Peek, (n - 1) as nat));
        lemma_peeks_leave_stack(s, (n - 1) as nat);
        assert forall|k: int| 0 <= k < n implies #[trigger] answer_at(s, ops, k) == top(s) by {
            assert(ops.take(k) =~= repeated(Op::<T>::Peek, k as nat));
            lemma_peeks_leave_stack(s, k as nat);
        }
    }
}

/// An operation that hands out nothing and is no push leaves the stack as it
/// was: a pop or a peek that returns the error changes nothing.
pub proof fn lemma_error_changes_nothing<T>(s: Seq<T>, op: Op<T>)
    requires
        !(op is Push),
        answer(s, op) is None,
    ensures
        after(s, op) == s,
{
}

/// The size is the number of pushes less the number of pops that handed out
/// an element, on top of the size at the start. Pops and peeks that return
/// the error do not count.
pub proof fn lemma_size_counts<T>(s: Seq<T>, ops: Seq<Op<T>>)
    ensures
        run(s, ops).len() == s.len() + pushes(ops) - pops_done(s, ops),
    decreases ops.len(),
{
    if ops.len() > 0 {
        lemma_size_counts(s, ops.drop_last());
    }
}

/// A stack that started empty, and from which every element that was pushed
/// has been popped, is empty: a pop or a peek on it hands out nothing.
pub proof fn lemma_all_popped_is_empty<T>(ops: Seq<Op<T>>)
    requires
        pushes(ops) == pops_done(Seq::<T>::empty(), ops),
    ensures
        run(Seq::<T>::empty(), ops) == Seq::<T>::empty(),
        answer(run(Seq::<T>::empty(), ops), Op::Pop) is None,
        answer(run(Seq::<T>::empty(), ops), Op::Peek) is None,
{
    lemma_size_counts(Seq::<T>::empty(), ops);
    assert(run(Seq::<T>::empty(), ops) =~= Seq::<T>::empty());
}

} // verus!
