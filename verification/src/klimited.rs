//! Bounded call strings: a deque that keeps at most `k` of the most recently
//! pushed elements.

use std::collections::VecDeque;
use vstd::prelude::*;

verus! {

/// A `k`-limited sequence. The newest element is at the front.
#[derive(Debug)]
pub struct KLimited<T> {
    pub k: usize,
    pub elems: VecDeque<T>,
}

impl<T> View for KLimited<T> {
    type V = Seq<T>;

    open spec fn view(&self) -> Seq<T> {
        self.elems@
    }
}

/// What is kept of `s` when one more element is pushed under the limit `k`:
/// a sequence that already holds `k` elements or more loses its last (oldest)
/// element.
pub open spec fn kept_seq<T>(k: nat, s: Seq<T>) -> Seq<T> {
    if s.len() >= k && s.len() > 0 {
        s.drop_last()
    } else {
        s
    }
}

/// The sequence that results from pushing `t` onto `s` under the limit `k`.
/// The new element goes to the front, unless `k` is zero.
pub open spec fn pushed_seq<T>(k: nat, s: Seq<T>, t: T) -> Seq<T> {
    if k > 0 {
        seq![t] + kept_seq(k, s)
    } else {
        kept_seq(k, s)
    }
}

/// The first `k` elements of `s`, or all of `s` where it holds fewer.
pub open spec fn first_elems<T>(k: nat, s: Seq<T>) -> Seq<T> {
    if s.len() <= k {
        s
    } else {
        s.take(k as int)
    }
}

/// Pushing never makes a sequence within its limit exceed it.
pub proof fn law_pushed_within_limit<T>(k: nat, s: Seq<T>, t: T)
    requires
        s.len() <= k,
    ensures
        pushed_seq(k, s, t).len() <= k,
{
}

/// With the limit zero, pushing onto the empty sequence changes nothing.
pub proof fn law_pushed_at_limit_zero<T>(s: Seq<T>, t: T)
    requires
        s.len() == 0,
    ensures
        pushed_seq(0, s, t) == s,
{
}

impl<T> KLimited<T> {
    /// A sequence within its limit holds at most `k` elements.
    pub open spec fn wf(&self) -> bool {
        self@.len() <= self.k
    }

    /// A sequence with limit `k` that holds the first `k` of `initial_elems`,
    /// first element at the front. What lies beyond the limit is dropped.
    pub fn new(k: usize, initial_elems: Vec<T>) -> (r: Self)
        ensures
            r.k == k,
            r@ == first_elems(k as nat, initial_elems@),
            r.wf(),
    {
        let mut elems: VecDeque<T> = if k < 8 {
            VecDeque::with_capacity(k)
        } else {
            VecDeque::new()
        };
        let mut rest = initial_elems;
        let ghost all = rest@;
        assert(rest@ =~= all.take(rest@.len() as int));
        while rest.len() > k
            invariant
                rest@.len() <= all.len(),
                rest@ =~= all.take(rest@.len() as int),
                all.len() <= k ==> rest@.len() == all.len(),
                all.len() > k ==> rest@.len() >= k,
            decreases rest.len(),
        {
            let _ = rest.pop();
        }
        let ghost kept = rest@;
        assert(kept =~= first_elems(k as nat, all));
        while rest.len() > 0
            invariant
                rest@ + elems@ == kept,
            decreases rest.len(),
        {
            let ghost before = rest@;
            let ghost tail = elems@;
            let last = rest.pop().unwrap();
            elems.push_front(last);
            assert(rest@ + elems@ =~= before + tail);
        }
        assert(elems@ =~= rest@ + elems@);
        KLimited { k, elems }
    }

    /// Pushes `t` to the front, dropping the oldest element when the limit is
    /// reached.
    pub fn push(&mut self, t: T)
        ensures
            final(self).k == old(self).k,
            final(self)@ == pushed_seq(old(self).k as nat, old(self)@, t),
            old(self).wf() ==> final(self).wf(),
    {
        if self.elems.len() >= self.k {
            let _ = self.elems.pop_back();
        }
        if self.k > 0 {
            self.elems.push_front(t);
        }
    }

    /// A copy of this sequence with `t` pushed onto it.
    pub fn pushed(&self, t: T) -> (r: Self) where T: Clone
        ensures
            r.k == self.k,
            r@.len() == pushed_seq(self.k as nat, self@, t).len(),
            self.k > 0 ==> r@[0] == t,
            forall|i: int|
                0 <= i < kept_seq(self.k as nat, self@).len() ==> cloned(
                    #[trigger] self@[i],
                    r@[i + if self.k > 0 { 1int } else { 0int }],
                ),
    {
        let mut r = KLimited { k: self.k, elems: self.elems.clone() };
        r.push(t);
        r
    }

    /// The elements, newest first.
    pub fn into_iter(self) -> (r: Vec<T>)
        ensures
            r@ == self@,
    {
        let mut elems = self.elems;
        let ghost all = elems@;
        let mut out: Vec<T> = Vec::new();
        while elems.len() > 0
            invariant
                out@ + elems@ == all,
            decreases elems.len(),
        {
            let ghost before = elems@;
            let ghost head = out@;
            let first = elems.pop_front().unwrap();
            out.push(first);
            assert(out@ + elems@ =~= head + before);
        }
        assert(out@ =~= out@ + elems@);
        out
    }

    /// The number of elements held.
    pub fn len(&self) -> (n: usize)
        ensures
            n == self@.len(),
    {
        self.elems.len()
    }
}

} // verus!
