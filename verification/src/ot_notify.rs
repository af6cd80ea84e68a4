//! What CPU2 reports on its own: state changes, ping replies and statistics.

use vstd::prelude::*;
use crate::bytes::from_le16;
use crate::bytes::from_le32;
use crate::bytes::u16_le;
use crate::bytes::u32_le;
use crate::ip6::fmt_ip6;
use crate::ip6::ip6_out;
use crate::ot::readable;
use crate::text::Text;
use crate::text::line;
use crate::text::new_line;
use crate::text::put;
use crate::text::put_dec;
use crate::text::put_hex;

verus! {

/// The message ids of the reports that are decoded.
#[derive(Clone, Copy)]
pub struct NotifyIds {
    pub state_change: u32,
    pub ping_reply: u32,
    pub ping_statistics: u32,
}

/// A callback from CPU2 with its first two arguments.
#[derive(Clone, Copy)]
pub struct OtNotification {
    pub id: u32,
    pub size: u32,
    pub data0: u32,
    pub data1: u32,
}

/// What to do about a notification.
pub enum NotifyStep {
    /// Print a line.
    Print(heapless::String<224>),
    /// Read the 24 bytes of a ping reply at this address.
    ReadReply(u32),
    /// Read the 16 bytes of the ping statistics at this address.
    ReadStatistics(u32),
    Nothing,
}

/// The contents of [`NotifyStep`].
pub ghost enum NotifyAct {
    Print(Seq<char>),
    ReadReply(u32),
    ReadStatistics(u32),
    Nothing,
}

impl View for NotifyStep {
    type V = NotifyAct;

    open spec fn view(&self) -> NotifyAct {
        match *self {
            NotifyStep::Print(l) => NotifyAct::Print(l.text()),
            NotifyStep::ReadReply(p) => NotifyAct::ReadReply(p),
            NotifyStep::ReadStatistics(p) => NotifyAct::ReadStatistics(p),
            NotifyStep::Nothing => NotifyAct::Nothing,
        }
    }
}

/// A word of a state change: said when its bit is set.
pub open spec fn said(f: u32, bit: u32, word: Seq<char>) -> Seq<char> {
    if f / bit % 2 == 1 {
        word
    } else {
        ""@
    }
}

fn say_if<'a>(f: u32, bit: u32, word: &'a str) -> (r: &'a str)
    requires
        bit > 0,
    ensures
        r@ == said(f, bit, word@),
{
    if f / bit % 2 == 1 {
        word
    } else {
        ""
    }
}

/// A state change: the flags, and those that matter by name.
pub open spec fn state_change_text(f: u32) -> Seq<char> {
    line().put("ot: state changed 0x"@).hex(f as nat, 8).put(said(f, 0x0001, " ip6-addr"@))
        .put(said(f, 0x0004, " role"@)).put(said(f, 0x0200, " netdata"@))
        .put(said(f, 0x0040, " child"@)).put("\r\n"@).text
}

pub fn state_change_line(f: u32) -> (l: heapless::String<224>)
    ensures
        l.text() == state_change_text(f),
{
    let mut l = new_line();
    let w = put(&mut l, true, "ot: state changed 0x");
    let w = put_hex(&mut l, w, f, 8);
    let w = put(&mut l, w, say_if(f, 0x0001, " ip6-addr"));
    let w = put(&mut l, w, say_if(f, 0x0004, " role"));
    let w = put(&mut l, w, say_if(f, 0x0200, " netdata"));
    let w = put(&mut l, w, say_if(f, 0x0040, " child"));
    let _ = put(&mut l, w, "\r\n");
    l
}

/// A ping reply that CPU1 may not read.
pub open spec fn reply_at_text(p: u32) -> Seq<char> {
    line().put("ot: ping reply @0x"@).hex(p as nat, 8).put("\r\n"@).text
}

pub fn reply_at_line(p: u32) -> (l: heapless::String<224>)
    ensures
        l.text() == reply_at_text(p),
{
    let mut l = new_line();
    let w = put(&mut l, true, "ot: ping reply @0x");
    let w = put_hex(&mut l, w, p, 8);
    let _ = put(&mut l, w, "\r\n");
    l
}

/// Any other notification.
pub open spec fn other_text(n: OtNotification) -> Seq<char> {
    line().put("ot: notification "@).dec(n.id as nat).put(" size "@).dec(n.size as nat)
        .put(" data "@).hex(n.data0 as nat, 8).put(" "@).hex(n.data1 as nat, 8).put("\r\n"@)
        .text
}

pub fn other_line(n: OtNotification) -> (l: heapless::String<224>)
    ensures
        l.text() == other_text(n),
{
    let mut l = new_line();
    let w = put(&mut l, true, "ot: notification ");
    let w = put_dec(&mut l, w, n.id as u64);
    let w = put(&mut l, w, " size ");
    let w = put_dec(&mut l, w, n.size as u64);
    let w = put(&mut l, w, " data ");
    let w = put_hex(&mut l, w, n.data0, 8);
    let w = put(&mut l, w, " ");
    let w = put_hex(&mut l, w, n.data1, 8);
    let _ = put(&mut l, w, "\r\n");
    l
}

/// What a notification leads to.
pub open spec fn notified(ids: NotifyIds, n: OtNotification) -> NotifyAct {
    let within = 0x2000_0000 <= n.data0 < 0x2004_0000;
    if n.id == ids.state_change {
        NotifyAct::Print(state_change_text(n.data0))
    } else if n.id == ids.ping_reply {
        if within {
            NotifyAct::ReadReply(n.data0)
        } else {
            NotifyAct::Print(reply_at_text(n.data0))
        }
    } else if n.id == ids.ping_statistics {
        if within {
            NotifyAct::ReadStatistics(n.data0)
        } else {
            NotifyAct::Nothing
        }
    } else {
        NotifyAct::Print(other_text(n))
    }
}

/// Decides on a CPU2 -> CPU1 callback.
pub fn notification(ids: &NotifyIds, n: &OtNotification) -> (r: NotifyStep)
    ensures
        r@ == notified(*ids, *n),
{
    if n.id == ids.state_change {
        NotifyStep::Print(state_change_line(n.data0))
    } else if n.id == ids.ping_reply {
        if readable(n.data0) {
            NotifyStep::ReadReply(n.data0)
        } else {
            NotifyStep::Print(reply_at_line(n.data0))
        }
    } else if n.id == ids.ping_statistics {
        if readable(n.data0) {
            NotifyStep::ReadStatistics(n.data0)
        } else {
            NotifyStep::Nothing
        }
    } else {
        NotifyStep::Print(other_line(*n))
    }
}

// ---- ping replies ----

/// Ping replies seen so far, the last round-trip time (ms), and a one-shot
/// request for an LED pulse.
#[derive(Clone, Copy)]
pub struct Pings {
    pub replies: u32,
    pub last_rtt: u32,
    pub pulse: bool,
}

/// A ping reply: sender, round-trip time (ms), size, sequence number and hop
/// limit.
#[derive(Clone, Copy)]
pub struct PingReply {
    pub from: [u8; 16],
    pub rtt: u16,
    pub size: u16,
    pub seq: u16,
    pub hop: u8,
}

/// The contents of [`PingReply`].
pub ghost struct PingReplyView {
    pub from: Seq<u8>,
    pub rtt: u16,
    pub size: u16,
    pub seq: u16,
    pub hop: u8,
}

impl View for PingReply {
    type V = PingReplyView;

    open spec fn view(&self) -> PingReplyView {
        PingReplyView {
            from: self.from@,
            rtt: self.rtt,
            size: self.size,
            seq: self.seq,
            hop: self.hop,
        }
    }
}

/// What the 24 bytes of a ping reply hold.
pub open spec fn reply_in(b: Seq<u8>) -> PingReplyView {
    PingReplyView {
        from: b.take(16),
        rtt: from_le16(b[16], b[17]) as u16,
        size: from_le16(b[18], b[19]) as u16,
        seq: from_le16(b[20], b[21]) as u16,
        hop: b[22],
    }
}

fn reply_of(b: &[u8; 24]) -> (r: PingReply)
    ensures
        r@ == reply_in(b@),
{
    let mut from: [u8; 16] = [0; 16];
    let mut i: usize = 0;
    while i < 16
        invariant
            i <= 16,
            forall|k: int| 0 <= k < i ==> from@[k] == b@[k],
        decreases 16 - i,
    {
        from[i] = b[i];
        i = i + 1;
    }
    assert(from@ =~= b@.take(16));
    PingReply {
        from,
        rtt: u16_le(b[16], b[17]),
        size: u16_le(b[18], b[19]),
        seq: u16_le(b[20], b[21]),
        hop: b[22],
    }
}

/// A ping reply, as printed.
pub open spec fn reply_text(r: PingReplyView) -> Seq<char> {
    let o = ip6_out(line().put("ot: ping reply from "@).again(), r.from, 8).again();
    o.put(": "@).dec(r.size as nat).put(" bytes seq "@).dec(r.seq as nat).put(" hop "@)
        .dec(r.hop as nat).put(" rtt "@).dec(r.rtt as nat).put(" ms\r\n"@).text
}

fn reply_line(r: &PingReply) -> (l: heapless::String<224>)
    ensures
        l.text() == reply_text(r@),
{
    let mut l = new_line();
    let _ = put(&mut l, true, "ot: ping reply from ");
    fmt_ip6(&r.from, &mut l);
    let w = put(&mut l, true, ": ");
    let w = put_dec(&mut l, w, r.size as u64);
    let w = put(&mut l, w, " bytes seq ");
    let w = put_dec(&mut l, w, r.seq as u64);
    let w = put(&mut l, w, " hop ");
    let w = put_dec(&mut l, w, r.hop as u64);
    let w = put(&mut l, w, " rtt ");
    let w = put_dec(&mut l, w, r.rtt as u64);
    let _ = put(&mut l, w, " ms\r\n");
    l
}

/// The count with one more reply.
pub open spec fn counted(p: Pings, r: PingReplyView) -> Pings {
    Pings {
        replies: if p.replies == u32::MAX {
            0
        } else {
            (p.replies + 1) as u32
        },
        last_rtt: r.rtt as u32,
        pulse: true,
    }
}

/// Every reply counts: the count moves by one, around at its end, so that it
/// never stays; the round-trip time is that of this reply; and a pulse is asked
/// for.
pub proof fn law_every_reply_counts(p: Pings, b: Seq<u8>)
    requires
        b.len() == 24,
    ensures
        counted(p, reply_in(b)).replies != p.replies,
        (counted(p, reply_in(b)).replies - p.replies - 1) % 0x1_0000_0000 == 0,
        counted(p, reply_in(b)).last_rtt == b[16] + 0x100 * b[17],
        counted(p, reply_in(b)).pulse,
{
}

/// Counts a ping reply: one more reply, its round-trip time, and a pulse. The
/// line to print comes back.
pub fn ping_reply(b: &[u8; 24], pings: &mut Pings) -> (l: heapless::String<224>)
    ensures
        l.text() == reply_text(reply_in(b@)),
        *final(pings) == counted(*old(pings), reply_in(b@)),
        final(pings).replies == (old(pings).replies + 1) % 0x1_0000_0000,
        final(pings).last_rtt == reply_in(b@).rtt,
        final(pings).pulse,
{
    let r = reply_of(b);
    pings.replies = pings.replies.wrapping_add(1);
    pings.last_rtt = r.rtt as u32;
    pings.pulse = true;
    reply_line(&r)
}

// ---- ping statistics ----

/// The outcome of a run of pings; times in ms.
#[derive(Clone, Copy)]
pub struct PingStatistics {
    pub sent: u16,
    pub recv: u16,
    pub total: u32,
    pub min: u16,
    pub max: u16,
}

/// What the 16 bytes of the ping statistics hold.
pub open spec fn statistics_in(b: Seq<u8>) -> PingStatistics {
    PingStatistics {
        sent: from_le16(b[0], b[1]) as u16,
        recv: from_le16(b[2], b[3]) as u16,
        total: from_le32(b[4], b[5], b[6], b[7]) as u32,
        min: from_le16(b[8], b[9]) as u16,
        max: from_le16(b[10], b[11]) as u16,
    }
}

fn statistics_of(b: &[u8; 16]) -> (r: PingStatistics)
    ensures
        r == statistics_in(b@),
{
    PingStatistics {
        sent: u16_le(b[0], b[1]),
        recv: u16_le(b[2], b[3]),
        total: u32_le(b[4], b[5], b[6], b[7]),
        min: u16_le(b[8], b[9]),
        max: u16_le(b[10], b[11]),
    }
}

/// The outcome of a run of pings, as printed.
pub open spec fn statistics_text(s: PingStatistics) -> Seq<char> {
    line().put("ot: ping done: "@).dec(s.sent as nat).put(" sent, "@).dec(s.recv as nat)
        .put(" received, rtt min "@).dec(s.min as nat).put(" max "@).dec(s.max as nat)
        .put(" total "@).dec(s.total as nat).put(" ms\r\n"@).text
}

pub fn statistics_line(s: &PingStatistics) -> (l: heapless::String<224>)
    ensures
        l.text() == statistics_text(*s),
{
    let mut l = new_line();
    let w = put(&mut l, true, "ot: ping done: ");
    let w = put_dec(&mut l, w, s.sent as u64);
    let w = put(&mut l, w, " sent, ");
    let w = put_dec(&mut l, w, s.recv as u64);
    let w = put(&mut l, w, " received, rtt min ");
    let w = put_dec(&mut l, w, s.min as u64);
    let w = put(&mut l, w, " max ");
    let w = put_dec(&mut l, w, s.max as u64);
    let w = put(&mut l, w, " total ");
    let w = put_dec(&mut l, w, s.total as u64);
    let _ = put(&mut l, w, " ms\r\n");
    l
}

/// The line for the ping statistics that CPU2 left in memory.
pub fn ping_statistics(b: &[u8; 16]) -> (l: heapless::String<224>)
    ensures
        l.text() == statistics_text(statistics_in(b@)),
{
    statistics_line(&statistics_of(b))
}

} // verus!
