use vstd::prelude::*;

use crate::time::DesiredTime;

verus! {

/// A time-ordered queue of pending items: each value waits together with its
/// desired delivery time, and the earliest time is always served first.
///
/// The backing vector is kept sorted by ascending desired time, so the head
/// is always the minimum; among equal times, insertion order is kept.
pub struct Queue<T> {
    items: Vec<(DesiredTime, T)>,
}

/// The three-way answer of `next`: a value whose time has come, the time to
/// wait for before the earliest item becomes ready, or nothing held at all.
#[derive(PartialEq, Eq, Debug)]
pub enum NextItem<T> {
    After(DesiredTime),
    Now(T),
    Never,
}

/// The entries of `s` are in non-decreasing order of desired time.
pub open spec fn sorted_by_time<T>(s: Seq<(DesiredTime, T)>) -> bool {
    forall|i: int, j: int| 0 <= i <= j < s.len() ==> s[i].0@ <= s[j].0@
}

/// The length of the longest prefix of `s` whose desired times are all at or
/// before `now_millis`. For a sorted sequence these are exactly the entries
/// ready at `now_millis`; it is also where an entry of time `now_millis`
/// lands on insertion, after every entry of equal or earlier time.
pub open spec fn ready_count<T>(s: Seq<(DesiredTime, T)>, now_millis: int) -> int
    decreases s.len(),
{
    if s.len() == 0 || s[0].0@ > now_millis {
        0
    } else {
        1 + ready_count(s.drop_first(), now_millis)
    }
}

/// The values of the entries of `s`, in order, without their times.
pub open spec fn values_of<T>(s: Seq<(DesiredTime, T)>) -> Seq<T> {
    s.map_values(|p: (DesiredTime, T)| p.1)
}

/// `ready_count` is a prefix length: it never exceeds the length, every entry
/// before it is ready, and the entry at it (if any) is not.
pub proof fn lemma_ready_count<T>(s: Seq<(DesiredTime, T)>, now_millis: int)
    ensures
        0 <= ready_count(s, now_millis) <= s.len(),
        forall|i: int| 0 <= i < ready_count(s, now_millis) ==> s[i].0@ <= now_millis,
        ready_count(s, now_millis) == s.len() || s[ready_count(s, now_millis)].0@ > now_millis,
    decreases s.len(),
{
    if s.len() == 0 || s[0].0@ > now_millis {
    } else {
        lemma_ready_count(s.drop_first(), now_millis);
        assert forall|i: int| 0 <= i < ready_count(s, now_millis) implies s[i].0@ <= now_millis by {
            if i > 0 {
                assert(s.drop_first()[i - 1] == s[i]);
            }
        }
        if ready_count(s, now_millis) < s.len() {
            assert(s.drop_first()[ready_count(s, now_millis) - 1] == s[ready_count(s, now_millis)]);
        }
    }
}

/// Law: among the items of a well-formed queue that are ready at an instant —
/// the ones a drain at that instant delivers — delivery order is
/// non-decreasing in desired time.
pub proof fn lemma_ordered_delivery<T>(q: Queue<T>, now_millis: int)
    requires
        q.wf(),
    ensures
        forall|i: int, j: int|
            0 <= i <= j < ready_count(q@, now_millis) ==> q@[i].0@ <= q@[j].0@,
{
    lemma_ready_count(q@, now_millis);
}

/// Law: a drain at an instant delivers no item early: every delivered item's
/// desired time has already been reached at that instant.
pub proof fn lemma_no_early_delivery<T>(q: Queue<T>, now_millis: int)
    ensures
        forall|i: int| 0 <= i < ready_count(q@, now_millis) ==> q@[i].0@ <= now_millis,
{
    lemma_ready_count(q@, now_millis);
}

/// Law: a drain is complete: at any instant, every item of a well-formed
/// queue whose desired time has been reached belongs to the ready prefix, so
/// the very next drain delivers it — an elapsed item is never held back.
pub proof fn lemma_elapsed_items_are_delivered<T>(q: Queue<T>, now_millis: int)
    requires
        q.wf(),
    ensures
        forall|i: int|
            0 <= i < q@.len() && q@[i].0@ <= now_millis ==> i < ready_count(q@, now_millis),
{
    lemma_ready_count(q@, now_millis);
    assert forall|i: int|
        0 <= i < q@.len() && q@[i].0@ <= now_millis implies i < ready_count(
        q@,
        now_millis,
    ) by {
        let rc = ready_count(q@, now_millis);
        if i >= rc {
            assert(q@[rc].0@ <= q@[i].0@);
        }
    }
}

/// Law: a submission earlier than everything pending lands at the head of the
/// queue. A worker that re-drains after every insertion therefore recomputes
/// its wait from the new item, and is never left waiting on a later one.
pub proof fn lemma_earlier_submission_takes_the_head<T>(q: Queue<T>, time: DesiredTime, data: T)
    requires
        q.wf(),
        forall|i: int| 0 <= i < q@.len() ==> time@ < q@[i].0@,
    ensures
        q@.insert(ready_count(q@, time@), (time, data))[0] == (time, data),
{
    if q@.len() > 0 {
        assert(q@[0].0@ > time@);
    }
    assert(ready_count(q@, time@) == 0);
}

impl<T> View for Queue<T> {
    type V = Seq<(DesiredTime, T)>;

    closed spec fn view(&self) -> Seq<(DesiredTime, T)> {
        self.items@
    }
}

impl<T> Queue<T> {
    /// The queue's invariant: its entries are sorted by ascending desired
    /// time, so the head always carries the minimum time held.
    pub open spec fn wf(&self) -> bool {
        sorted_by_time(self@)
    }

    pub fn new() -> (r: Queue<T>)
        ensures
            r.wf(),
            r@ == Seq::<(DesiredTime, T)>::empty(),
    {
        Queue { items: Vec::new() }
    }

    /// How many items are currently held.
    pub fn len(&self) -> (r: usize)
        ensures
            r == self@.len(),
    {
        self.items.len()
    }

    /// Adds a pending item; always succeeds. The new entry takes its place in
    /// time order, after every entry of equal or earlier time.
    pub fn put(&mut self, data: T, time: DesiredTime)
        requires
            old(self).wf(),
        ensures
            final(self).wf(),
            final(self)@.len() == old(self)@.len() + 1,
            final(self)@ == old(self)@.insert(ready_count(old(self)@, time@), (time, data)),
    {
        let ghost orig = self.items@;
        let mut i: usize = 0;
        while i < self.items.len() && self.items[i].0.le(&time)
            invariant
                self.items@ == orig,
                i <= orig.len(),
                forall|k: int| 0 <= k < i ==> orig[k].0@ <= time@,
            decreases orig.len() - i,
        {
            i += 1;
        }
        proof {
            assert(i == orig.len() || orig[i as int].0@ > time@);
            lemma_ready_count(orig, time@);
            assert(i == ready_count(orig, time@));
        }
        self.items.insert(i, (time, data));
        proof {
            let s = orig.insert(i as int, (time, data));
            assert(self.items@ == s);
            assert forall|a: int, b: int| 0 <= a <= b < s.len() implies s[a].0@ <= s[b].0@ by {
                assert(sorted_by_time(orig));
            }
        }
    }

    /// Pops the earliest item if it is ready at the given instant; otherwise
    /// reports its time without removing it, or that nothing is held.
    pub fn next_at(&mut self, now_millis: i64) -> (r: NextItem<T>)
        requires
            old(self).wf(),
        ensures
            final(self).wf(),
            old(self)@.len() == 0 ==> r is Never && final(self)@ == old(self)@,
            old(self)@.len() > 0 && old(self)@[0].0@ <= now_millis as int ==> r
                == NextItem::Now(old(self)@[0].1) && final(self)@ == old(self)@.drop_first(),
            old(self)@.len() > 0 && old(self)@[0].0@ > now_millis as int ==> r
                == NextItem::<T>::After(old(self)@[0].0) && final(self)@ == old(self)@,
    {
        if self.items.len() == 0 {
            NextItem::Never
        } else {
            let head_time = self.items[0].0;
            if head_time.is_ready_at(now_millis) {
                let entry = self.items.remove(0);
                proof {
                    assert(self.items@ == old(self)@.drop_first());
                }
                NextItem::Now(entry.1)
            } else {
                NextItem::After(head_time)
            }
        }
    }

    /// Removes and returns, in order, every item that is ready at the given
    /// instant — exactly the longest ready prefix; every later item stays.
    pub fn drain_ready_at(&mut self, now_millis: i64) -> (delivered: Vec<T>)
        requires
            old(self).wf(),
        ensures
            final(self).wf(),
            delivered@ == values_of(
                old(self)@.take(ready_count(old(self)@, now_millis as int)),
            ),
            final(self)@ == old(self)@.skip(ready_count(old(self)@, now_millis as int)),
    {
        let ghost orig = self@;
        let ghost rc = ready_count(orig, now_millis as int);
        let mut delivered: Vec<T> = Vec::new();
        proof {
            lemma_ready_count(orig, now_millis as int);
            assert(orig.skip(0) =~= orig);
            assert(orig.take(0) =~= Seq::<(DesiredTime, T)>::empty());
            assert(values_of(orig.take(0)) =~= Seq::<T>::empty());
        }
        loop
            invariant
                sorted_by_time(orig),
                self.wf(),
                rc == ready_count(orig, now_millis as int),
                0 <= rc <= orig.len(),
                forall|i: int| 0 <= i < rc ==> orig[i].0@ <= now_millis as int,
                rc == orig.len() || orig[rc].0@ > now_millis as int,
                delivered@.len() <= rc,
                self@ == orig.skip(delivered@.len() as int),
                delivered@ == values_of(orig.take(delivered@.len() as int)),
            ensures
                delivered@.len() == rc,
                self@ == orig.skip(delivered@.len() as int),
                delivered@ == values_of(orig.take(delivered@.len() as int)),
            decreases self@.len(),
        {
            let ghost j = delivered@.len() as int;
            match self.next_at(now_millis) {
                NextItem::Now(v) => {
                    proof {
                        assert(orig.skip(j)[0] == orig[j]);
                        assert(j < rc);
                        assert(orig.skip(j).drop_first() =~= orig.skip(j + 1));
                        assert(orig.take(j + 1) =~= orig.take(j).push(orig[j]));
                        assert(values_of(orig.take(j + 1)) =~= values_of(orig.take(j)).push(
                            orig[j].1,
                        ));
                    }
                    delivered.push(v);
                }
                _ => {
                    proof {
                        if orig.skip(j).len() == 0 {
                            assert(j == orig.len());
                        } else {
                            assert(orig.skip(j)[0] == orig[j]);
                        }
                        assert(j == rc);
                    }
                    break ;
                }
            }
        }
        delivered
    }

    /// Pops the earliest item if it is ready, judged against a fresh reading
    /// of the wall clock; the clock-independent logic is `next_at`. Whatever
    /// the clock says: an empty queue answers `Never` and stays empty, `Now`
    /// carries the value of the earliest item and removes exactly that item,
    /// and `After` carries the earliest time and removes nothing.
    pub fn next(&mut self) -> (r: NextItem<T>)
        requires
            old(self).wf(),
        ensures
            final(self).wf(),
            old(self)@.len() == 0 <==> r is Never,
            r is Never ==> final(self)@ == old(self)@,
            r matches NextItem::Now(v) ==> old(self)@.len() > 0 && v == old(self)@[0].1
                && final(self)@ == old(self)@.drop_first(),
            r matches NextItem::After(t) ==> old(self)@.len() > 0 && t == old(self)@[0].0
                && final(self)@ == old(self)@,
    {
        let now_millis = crate::time::current_millis();
        self.next_at(now_millis)
    }
}

} // verus!
