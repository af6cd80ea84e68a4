//! How a run of bytes goes out over a packet endpoint.

use vstd::prelude::*;
use vstd::slice::slice_subrange;
use crate::config::at_most;

verus! {

/// The packets for what is left of `data` from byte `at` on: packets of `max`
/// bytes, then what is left over; and an empty packet at the end of a run that
/// fills its last packet, so that the host sees where it ends.
pub open spec fn packets_from(data: Seq<u8>, at: int, max: int) -> Seq<Seq<u8>>
    decreases data.len() - at,
{
    if max <= 0 {
        Seq::empty()
    } else if at < data.len() {
        seq![data.subrange(at, at_most(at + max, data.len() as int))] + packets_from(
            data,
            at_most(at + max, data.len() as int),
            max,
        )
    } else if data.len() > 0 && data.len() as int % max == 0 {
        seq![Seq::empty()]
    } else {
        Seq::empty()
    }
}

/// A run of bytes on its way out.
#[derive(Clone, Copy)]
pub struct Transfer {
    /// Bytes handed out so far.
    pub at: usize,
    /// Nothing more is to be sent.
    pub done: bool,
}

impl Transfer {
    /// No more was handed out than there is.
    pub open spec fn wf(self, data: Seq<u8>) -> bool {
        self.at <= data.len()
    }

    /// The packets still to be sent.
    pub open spec fn left(self, data: Seq<u8>, max: int) -> Seq<Seq<u8>> {
        if self.done {
            Seq::empty()
        } else {
            packets_from(data, self.at as int, max)
        }
    }

    /// The next packet to send, if there is one.
    pub fn next<'a>(&mut self, data: &'a [u8], max: usize) -> (r: Option<&'a [u8]>)
        requires
            old(self).wf(data@),
            max > 0,
        ensures
            final(self).wf(data@),
            r is Some <==> old(self).left(data@, max as int).len() > 0,
            r matches Some(p) ==> p@ == old(self).left(data@, max as int)[0],
            final(self).left(data@, max as int) == (if r is Some {
                old(self).left(data@, max as int).drop_first()
            } else {
                Seq::empty()
            }),
    {
        let ghost before = self.left(data@, max as int);
        if self.done {
            return None;
        }
        let n: usize = data.len();
        if self.at < n {
            let end: usize = if n - self.at < max {
                n
            } else {
                self.at + max
            };
            let p = slice_subrange(data, self.at, end);
            self.at = end;
            assert(before.drop_first() =~= self.left(data@, max as int));
            return Some(p);
        }
        self.done = true;
        if n > 0 && n % max == 0 {
            let p = slice_subrange(data, n, n);
            assert(p@ =~= Seq::<u8>::empty());
            assert(before.drop_first() =~= Seq::<Seq<u8>>::empty());
            Some(p)
        } else {
            None
        }
    }

    /// Abandons the transfer: the host did not take a packet, or not in time.
    /// Nothing more is sent, no empty packet either.
    pub fn failed(&mut self)
        ensures
            forall|data: Seq<u8>| old(self).wf(data) ==> final(self).wf(data),
            forall|data: Seq<u8>, max: int| #[trigger]
                final(self).left(data, max) == Seq::<Seq<u8>>::empty(),
    {
        self.done = true;
    }
}

/// Starts to write `data` as a run of packets. It is dropped outright when the
/// host has not opened the port (no DTR).
pub fn write_all(dtr: bool) -> (r: Transfer)
    ensures
        forall|data: Seq<u8>| r.wf(data),
        forall|data: Seq<u8>, max: int| #[trigger]
            r.left(data, max) == (if dtr {
                packets_from(data, 0, max)
            } else {
                Seq::empty()
            }),
{
    Transfer { at: 0, done: !dtr }
}

/// The bytes of a run of packets.
pub open spec fn joined(packets: Seq<Seq<u8>>) -> Seq<u8>
    decreases packets.len(),
{
    if packets.len() == 0 {
        Seq::empty()
    } else {
        packets[0] + joined(packets.drop_first())
    }
}

/// The packets carry the bytes, all of them, once and in order.
pub proof fn law_packets_carry_the_data(data: Seq<u8>, at: int, max: int)
    requires
        0 <= at <= data.len(),
        0 < max,
    ensures
        joined(packets_from(data, at, max)) == data.skip(at),
    decreases data.len() - at,
{
    let all = packets_from(data, at, max);
    if at < data.len() {
        let end = at_most(at + max, data.len() as int);
        law_packets_carry_the_data(data, end, max);
        assert(all.drop_first() =~= packets_from(data, end, max));
        assert(data.skip(at) =~= data.subrange(at, end) + data.skip(end));
    } else {
        assert(data.skip(at) =~= Seq::<u8>::empty());
        if data.len() > 0 && data.len() as int % max == 0 {
            assert(all.drop_first() =~= Seq::<Seq<u8>>::empty());
            assert(joined(all.drop_first()) =~= Seq::<u8>::empty());
            assert(joined(all) =~= Seq::<u8>::empty());
        }
    }
}

proof fn lemma_joined_parts(packets: Seq<Seq<u8>>, k: int)
    requires
        0 <= k <= packets.len(),
    ensures
        joined(packets) == joined(packets.take(k)) + joined(packets.skip(k)),
    decreases k,
{
    if k == 0 {
        assert(packets.skip(0) =~= packets);
        assert(joined(packets.take(0)) + joined(packets) =~= joined(packets));
    } else {
        let rest = packets.drop_first();
        lemma_joined_parts(rest, k - 1);
        assert(packets.take(k).drop_first() =~= rest.take(k - 1));
        assert(packets.skip(k) =~= rest.skip(k - 1));
        assert(packets[0] + (joined(rest.take(k - 1)) + joined(rest.skip(k - 1))) =~= packets[0]
            + joined(rest.take(k - 1)) + joined(rest.skip(k - 1)));
    }
}

/// What was sent when a transfer is abandoned after `k` packets is a prefix of
/// the data.
pub proof fn law_abandoned_transfer_sent_a_prefix(data: Seq<u8>, max: int, k: int)
    requires
        0 < max,
        0 <= k <= packets_from(data, 0, max).len(),
    ensures
        joined(packets_from(data, 0, max).take(k)).is_prefix_of(data),
{
    let all = packets_from(data, 0, max);
    law_packets_carry_the_data(data, 0, max);
    lemma_joined_parts(all, k);
    assert(data.skip(0) =~= data);
    let sent = joined(all.take(k));
    assert(data.take(sent.len() as int) =~= sent);
}

proof fn lemma_full_chunks(data: Seq<u8>, at: int, max: int)
    requires
        0 <= at <= data.len(),
        0 < max,
        at % max == 0 || at == data.len(),
        data.len() > 0,
    ensures
        ({
            let all = packets_from(data, at, max);
            &&& forall|i: int| 0 <= i < all.len() - 1 ==> (#[trigger] all[i]).len() == max
            &&& (at < data.len() || data.len() as int % max == 0) ==> all.len() > 0
                && all.last().len() < max
        }),
    decreases data.len() - at,
{
    let n = data.len() as int;
    let all = packets_from(data, at, max);
    if at < n {
        let end = at_most(at + max, n);
        let rest = packets_from(data, end, max);
        assert(at % max == 0);
        if at + max <= n {
            assert((at + max) % max == 0) by (nonlinear_arith)
                requires
                    at % max == 0,
                    max > 0,
            ;
            assert(end == at + max);
        } else {
            assert(n % max != 0) by (nonlinear_arith)
                requires
                    at % max == 0,
                    at < n < at + max,
                    max > 0,
            ;
            assert(rest.len() == 0);
        }
        lemma_full_chunks(data, end, max);
        assert forall|i: int| 0 <= i < all.len() - 1 implies (#[trigger] all[i]).len() == max by {
            if i > 0 {
                assert(all[i] == rest[i - 1]);
            } else {
                assert(rest.len() > 0);
            }
        }
        if rest.len() > 0 {
            assert(all.last() == rest.last());
        }
    }
}

/// Every packet but the last is full, and the last one is not: that is how the
/// host knows it for the last. No bytes, no packets.
pub proof fn law_short_packet_ends_the_data(data: Seq<u8>, max: int)
    requires
        0 < max,
    ensures
        packets_from(data, 0, max).len() == 0 <==> data.len() == 0,
        forall|i: int|
            0 <= i < packets_from(data, 0, max).len() - 1 ==> (#[trigger] packets_from(
                data,
                0,
                max,
            )[i]).len() == max,
        data.len() > 0 ==> packets_from(data, 0, max).last().len() < max,
{
    if data.len() > 0 {
        assert(0int % max == 0) by (nonlinear_arith)
            requires
                max > 0,
        ;
        lemma_full_chunks(data, 0, max);
    }
}

} // verus!
