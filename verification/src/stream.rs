//! Transport abstraction: a pull-based source of items and a push-based sink
//! of items, used uniformly for byte streams and message streams.

use vstd::prelude::*;

verus! {

/// A pull-based source of items.
///
/// `pending()` is the mathematical view of the items the source will still
/// deliver, in order; `next` pops the first of them, and yields `None` once
/// the source is exhausted.
pub trait Stream: Sized {
    type Item;

    /// Structural well-formedness, established at construction and preserved
    /// by every operation.
    spec fn inv(&self) -> bool;

    /// The items still to be delivered, in delivery order.
    spec fn pending(&self) -> Seq<Self::Item>;

    fn next(&mut self) -> (r: Option<Self::Item>)
        requires
            old(self).inv(),
        ensures
            final(self).inv(),
            old(self).pending().len() == 0 ==> r is None
                && final(self).pending() == old(self).pending(),
            old(self).pending().len() > 0 ==> r == Some(old(self).pending().first())
                && final(self).pending() == old(self).pending().drop_first(),
    ;
}

/// A push-based sink of items.
///
/// `accepted()` is the mathematical view of the items the sink has taken so
/// far.  `usable()` captures the configuration conditions under which
/// delivery may be attempted at all (for a channel-backed sink: a consumer
/// exists); attempting delivery without them is a programming defect, so it
/// is a precondition rather than an error.
pub trait Sink: Sized {
    type Item;

    type Error;

    spec fn inv(&self) -> bool;

    spec fn usable(&self) -> bool;

    /// The items taken so far, in delivery order.
    spec fn accepted(&self) -> Seq<Self::Item>;

    /// When delivery is owed: an item the sink can take right now must be
    /// taken, not refused.
    spec fn will_accept(&self, item: &Self::Item) -> bool;

    fn send(&mut self, item: Self::Item) -> (r: Result<(), Self::Error>)
        requires
            old(self).inv(),
            old(self).usable(),
        ensures
            final(self).inv(),
            final(self).usable(),
            old(self).will_accept(&item) ==> r is Ok,
            r is Ok ==> final(self).accepted() == old(self).accepted().push(item),
            r is Err ==> final(self).accepted() == old(self).accepted(),
    ;
}

/// A pull-based source of raw bytes.
pub trait ByteStream: Stream<Item = u8> {

}

/// A push-based sink of raw bytes.
pub trait ByteSink: Sink<Item = u8> {

}

/// Move every item the source still holds into the sink, in order, stopping
/// at the sink's first failure; the item the sink refused is lost, and the
/// failure is the caller's.
#[verifier::loop_isolation(false)]
pub fn relay<T, E, I, O>(input: &mut I, output: &mut O) -> (r: Result<(), E>) where
    I: Stream<Item = T>,
    O: Sink<Item = T, Error = E>,

    requires
        old(input).inv(),
        old(output).inv(),
        old(output).usable(),
    ensures
        final(input).inv(),
        final(output).inv(),
        r is Ok ==> final(input).pending().len() == 0
            && final(output).accepted() == old(output).accepted() + old(input).pending(),
        r is Err ==> exists|k: int|
            0 <= k < old(input).pending().len()
                && final(output).accepted() == old(output).accepted() + old(input).pending().take(k)
                && final(input).pending() == old(input).pending().skip(k + 1),
{
    let ghost pend0 = input.pending();
    let ghost acc0 = output.accepted();
    let ghost mut moved: int = 0;
    proof {
        assert(input.pending() =~= pend0.skip(0));
        assert(output.accepted() =~= acc0 + pend0.take(0));
    }
    loop
        invariant
            input.inv(),
            output.inv(),
            output.usable(),
            0 <= moved <= pend0.len(),
            input.pending() == pend0.skip(moved),
            output.accepted() == acc0 + pend0.take(moved),
        decreases pend0.len() - moved,
    {
        match input.next() {
            None => {
                proof {
                    assert(pend0.skip(moved).len() == 0);
                    assert(output.accepted() =~= acc0 + pend0);
                }
                return Ok(());
            },
            Some(item) => {
                proof {
                    assert(pend0.skip(moved).first() == pend0[moved]);
                    assert(pend0.skip(moved).drop_first() =~= pend0.skip(moved + 1));
                }
                match output.send(item) {
                    Ok(()) => {
                        proof {
                            assert((acc0 + pend0.take(moved)).push(pend0[moved]) =~= acc0
                                + pend0.take(moved + 1));
                            moved = moved + 1;
                        }
                    },
                    Err(e) => {
                        return Err(e);
                    },
                }
            },
        }
    }
}

} // verus!
