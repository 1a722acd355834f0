//! Counting what is written.

use vstd::prelude::*;

verus! {

/// What a write came to.
#[derive(Clone, Copy, Debug, PartialEq, Eq, Structural)]
pub enum Written {
    /// So many bytes were written.
    Ready(usize),
    /// The write failed.
    Failed,
    /// Nothing yet.
    Pending,
}

/// A wrapper around a writer which counts the number of bytes that have been written so far. The
/// count wraps around.
pub struct ProgressWriter<W> {
    inner: W,
    bytes_writen: usize,
}

/// A sum that wraps around.
pub open spec fn wrapping_sum(a: usize, b: usize) -> int {
    if a + b <= usize::MAX {
        a + b
    } else {
        a + b - usize::MAX - 1
    }
}

impl<W> ProgressWriter<W> {
    /// The writer inside.
    pub closed spec fn writer(&self) -> W {
        self.inner
    }

    /// How many bytes have been written.
    pub closed spec fn count(&self) -> usize {
        self.bytes_writen
    }

    /// A wrapper around `inner` that has counted nothing yet.
    pub fn new(inner: W) -> (r: Self)
        ensures
            r.writer() == inner,
            r.count() == 0,
    {
        ProgressWriter { inner, bytes_writen: 0 }
    }

    /// The writer, for a write.
    pub fn inner(&mut self) -> (r: &mut W)
        ensures
            *r == old(self).writer(),
            final(self).writer() == *final(r),
            final(self).count() == old(self).count(),
    {
        &mut self.inner
    }

    /// Counts what a write of the inner writer came to, and hands it on.
    pub fn poll_write(&mut self, res: Written) -> (r: Written)
        ensures
            r == res,
            final(self).writer() == old(self).writer(),
            final(self).count() == match res {
                Written::Ready(written) => wrapping_sum(old(self).count(), written),
                _ => old(self).count() as int,
            },
    {
        if let Written::Ready(written) = res {
            self.bytes_writen = self.bytes_writen.wrapping_add(written);
        }
        res
    }

    /// Returns the number of bytes that have been written so far.
    pub fn get_written(&self) -> (r: usize)
        ensures
            r == self.count(),
    {
        self.bytes_writen
    }
}

/// The count after `outcomes`, one after the other.
pub open spec fn count_after(count: usize, outcomes: Seq<Written>) -> int
    decreases outcomes.len(),
{
    if outcomes.len() == 0 {
        count as int
    } else {
        let before = count_after(count, outcomes.drop_last()) as usize;
        match outcomes.last() {
            Written::Ready(written) => wrapping_sum(before, written),
            _ => before as int,
        }
    }
}

/// How many bytes `outcomes` are about in all.
pub open spec fn total_written(outcomes: Seq<Written>) -> nat
    decreases outcomes.len(),
{
    if outcomes.len() == 0 {
        0
    } else {
        total_written(outcomes.drop_last()) + match outcomes.last() {
            Written::Ready(written) => written as nat,
            _ => 0,
        }
    }
}

/// The count is the number of all bytes written, as long as a machine word can hold it.
pub proof fn law_count_is_the_total(outcomes: Seq<Written>)
    requires
        total_written(outcomes) <= usize::MAX,
    ensures
        count_after(0, outcomes) == total_written(outcomes),
    decreases outcomes.len(),
{
    if outcomes.len() > 0 {
        law_count_is_the_total(outcomes.drop_last());
    }
}

/// A sum that wraps around is the sum but for a multiple of what a machine word can count, and a machine
/// word holds it.
pub proof fn law_sum_wraps(a: usize, b: usize)
    ensures
        0 <= wrapping_sum(a, b) <= usize::MAX,
        wrapping_sum(a, b) % (usize::MAX + 1) == (a + b) % (usize::MAX + 1),
        a + b <= usize::MAX ==> wrapping_sum(a, b) == a + b,
{
    if a + b > usize::MAX {
        vstd::arithmetic::div_mod::lemma_mod_sub_multiples_vanish(a + b, usize::MAX + 1);
    }
}

/// The total is the sum of what the writes that succeeded wrote.
pub proof fn law_total_is_the_sum(outcomes: Seq<Written>, written: usize)
    ensures
        total_written(Seq::empty()) == 0,
        total_written(outcomes.push(Written::Ready(written))) == total_written(outcomes) + written,
        total_written(outcomes.push(Written::Failed)) == total_written(outcomes),
        total_written(outcomes.push(Written::Pending)) == total_written(outcomes),
{
    assert(outcomes.push(Written::Ready(written)).drop_last() =~= outcomes);
    assert(outcomes.push(Written::Failed).drop_last() =~= outcomes);
    assert(outcomes.push(Written::Pending).drop_last() =~= outcomes);
}

} // verus!
