//! The range probe: every few seconds the board pings the leader and reports
//! the link.
//!
//! One round is a conversation with CPU2. Each [`RangeStep`] says what to
//! print and what to do next; what comes of that is handed to
//! [`RangeProbe::step`]. A report that outgrows a line goes out in parts, one
//! behind the other.

use vstd::prelude::*;
use crate::ot::Ask;
use crate::ot::Held;
use crate::ot::OtCall;
use crate::ot::Reply;
use crate::ot::Request;
use crate::ot::aloc;
use crate::ot::ask;
use crate::ot::ask_iter;
use crate::ot::ask_next_neighbor;
use crate::ot::ask_ping;
use crate::ot::err_name;
use crate::ot::err_text;
use crate::ot::four;
use crate::ot::leader_aloc;
use crate::ot::next_neighbor;
use crate::ot::parent_rssi;
use crate::ot::parent_rssi_of;
use crate::ot::ping;
use crate::ot::readable;
use crate::ot::replies_to;
use crate::ot::request;
use crate::ot::role;
use crate::ot::role_name;
use crate::ot::role_text;
use crate::ot::rssi_pair;
use crate::ot_text::neighbor_in;
use crate::ot_text::neighbor_of;
use crate::ot_text::neighbor_part;
use crate::ot_text::neighbors_summary;
use crate::text::Out;
use crate::text::Say;
use crate::text::Text;
use crate::text::as_str;
use crate::text::fits;
use crate::text::line;
use crate::text::new_line;
use crate::text::push_str;
use crate::text::put;
use crate::text::put_dec;
use crate::text::put_signed;

verus! {

/// Detached.
pub const LINK_DETACHED: u8 = 0;

/// Attached, without a reply to the last ping.
pub const LINK_SILENT: u8 = 1;

/// Attached, with a reply to the last ping.
pub const LINK_ANSWERED: u8 = 2;

/// Where a round stands: `r` is the outcome of the ping, `got` whether a reply
/// came.
#[derive(Clone, Copy, PartialEq, Eq, Structural)]
pub enum RangeStage {
    Role,
    Eid { role: u32 },
    Address { role: u32 },
    Pinging { role: u32 },
    Waiting { role: u32, before: u32, r: u32 },
    ParentAverage { r: u32, got: bool },
    ParentLast { r: u32, got: bool, r1: u32, avg: u8 },
    Neighbors { r: u32, got: bool, count: u32 },
    RoundTrip,
    Finished,
}

/// What came of a step.
pub enum RangeEvent {
    /// The reply to a call.
    Reply(Reply),
    /// The 16 bytes at an address.
    Memory([u8; 16]),
    /// Replies counted before the ping, and the outcome of sending it.
    Pinged { before: u32, r: u32 },
    /// Replies counted after the wait.
    Waited { replies: u32 },
    /// The last round-trip time (ms).
    RoundTrip(u32),
}

/// What to do next.
pub enum RangeNext {
    /// Make a call.
    Call(Request),
    /// Read 16 bytes at this address.
    Read(u32),
    /// Note how many replies were counted, then make a call.
    Ping(Request),
    /// Wait this many milliseconds, then count the replies.
    Wait(u64),
    /// Look up the last round-trip time.
    RoundTrip,
    /// Nothing: the round is over.
    Done,
}

/// The contents of [`RangeNext`].
pub ghost enum RangeGo {
    Call(Ask),
    Read(u32),
    Ping(Ask),
    Wait(u64),
    RoundTrip,
    Done,
}

impl View for RangeNext {
    type V = RangeGo;

    open spec fn view(&self) -> RangeGo {
        match *self {
            RangeNext::Call(q) => RangeGo::Call(q@),
            RangeNext::Read(p) => RangeGo::Read(p),
            RangeNext::Ping(q) => RangeGo::Ping(q@),
            RangeNext::Wait(ms) => RangeGo::Wait(ms),
            RangeNext::RoundTrip => RangeGo::RoundTrip,
            RangeNext::Done => RangeGo::Done,
        }
    }
}

/// The probe: what it keeps from round to round, and the round at hand.
pub struct RangeProbe {
    /// The mesh-local prefix, once known.
    pub prefix: Option<[u8; 8]>,
    /// Replies counted when last looked.
    pub replies_seen: u32,
    pub stage: RangeStage,
    /// The report so far.
    pub line: heapless::String<224>,
}

/// The contents of [`RangeProbe`].
pub ghost struct ProbeView {
    pub prefix: Option<Seq<u8>>,
    pub replies_seen: u32,
    pub stage: RangeStage,
    pub line: Seq<char>,
}

impl View for RangeProbe {
    type V = ProbeView;

    open spec fn view(&self) -> ProbeView {
        ProbeView {
            prefix: match self.prefix {
                Some(p) => Some(p@),
                None => None,
            },
            replies_seen: self.replies_seen,
            stage: self.stage,
            line: self.line.text(),
        }
    }
}

/// One step of a round. The link comes first, the printing next.
pub struct RangeStep {
    pub probe: RangeProbe,
    /// The new state of the link.
    pub link: Option<u8>,
    pub say: Say,
    pub next: RangeNext,
}

/// The contents of [`RangeStep`].
pub ghost struct RangeTurn {
    pub probe: ProbeView,
    pub link: Option<u8>,
    pub says: Seq<Seq<char>>,
    pub next: RangeGo,
}

impl View for RangeStep {
    type V = RangeTurn;

    open spec fn view(&self) -> RangeTurn {
        RangeTurn {
            probe: self.probe@,
            link: self.link,
            says: self.say@,
            next: self.next@,
        }
    }
}

impl ProbeView {
    /// A prefix has eight bytes, and it is looked up only while it is not known.
    pub open spec fn wf(self) -> bool {
        &&& self.prefix matches Some(p) ==> p.len() == 8
        &&& self.stage is Eid || self.stage is Address ==> self.prefix is None
    }

    /// The probe at another stage.
    pub open spec fn at(self, stage: RangeStage) -> ProbeView {
        ProbeView { stage, ..self }
    }

    /// The end of a round.
    pub open spec fn over(self) -> ProbeView {
        ProbeView { stage: RangeStage::Finished, line: Seq::empty(), ..self }
    }
}

/// The report so far, to be written on.
pub open spec fn report(text: Seq<char>) -> Out {
    Out { text, ..line() }
}

/// The report of a board that is not attached.
pub open spec fn detached_text(role: u32) -> Seq<char> {
    line().put("range: role "@).put(role_text(role)).put(" (not attached)\r\n"@).text
}

fn detached_line(role: u32) -> (l: heapless::String<224>)
    ensures
        l.text() == detached_text(role),
{
    let mut l = new_line();
    let w = put(&mut l, true, "range: role ");
    let w = put(&mut l, w, role_name(role));
    let _ = put(&mut l, w, " (not attached)\r\n");
    l
}

/// The start of the report of a board that is attached.
pub open spec fn attached_out(role: u32) -> Out {
    line().put("range: role "@).put(role_text(role)).again()
}

/// The RSSI of the parent link.
pub open spec fn parent_out(o: Out, avg: i8, last: i8) -> Out {
    o.put(" parent rssi "@).signed(avg as int).put("/"@).signed(last as int).put(" dBm"@).again()
}

/// The end of the report, written to a line: how the ping went. `rtt` is the
/// round-trip time when a reply came.
pub open spec fn closing_out(o: Out, r: u32, rtt: Option<u32>) -> Out {
    let p = if r != 0 {
        o.put(" | ping -> "@).put(err_text(r))
    } else {
        match rtt {
            Some(ms) => o.put(" | leader ping "@).dec(ms as nat).put(" ms"@),
            None => o.put(" | leader ping: no reply"@),
        }
    };
    p.again().put("\r\n"@)
}

/// The end of the report.
pub open spec fn closing_text(r: u32, rtt: Option<u32>) -> Seq<char> {
    closing_out(line(), r, rtt).text
}

/// What goes out of a report when `part` is added: the line so far, when it has
/// no room for it.
pub open spec fn flushed(line: Seq<char>, part: Seq<char>) -> Seq<Seq<char>> {
    if fits(line, part, 224) {
        Seq::empty()
    } else {
        seq![line]
    }
}

/// The line when `part` is added.
pub open spec fn extended_by(line: Seq<char>, part: Seq<char>) -> Seq<char> {
    if fits(line, part, 224) {
        line + part
    } else {
        part
    }
}

/// One more, up to the limit of the type.
pub open spec fn one_more(count: u32) -> u32 {
    if count == u32::MAX {
        count
    } else {
        (count + 1) as u32
    }
}

/// Whether an event is what a stage waits for.
pub open spec fn range_awaits(stage: RangeStage, event: RangeEvent) -> bool {
    match stage {
        RangeStage::Role | RangeStage::Eid { .. } => event is Reply,
        RangeStage::Address { .. } => event is Memory,
        RangeStage::Pinging { .. } => event is Pinged,
        RangeStage::Waiting { .. } => event is Waited,
        RangeStage::ParentAverage { .. } | RangeStage::ParentLast { .. } => {
            event is Reply && event->Reply_0.held is Iter
        },
        RangeStage::Neighbors { .. } => event is Reply && event->Reply_0.held is Neighbor,
        RangeStage::RoundTrip => event is RoundTrip,
        RangeStage::Finished => false,
    }
}

/// A step that only goes on.
pub open spec fn range_goes(probe: ProbeView, next: RangeGo) -> RangeTurn {
    RangeTurn { probe, link: None, says: Seq::empty(), next }
}

/// The first step of a round: ask for the role.
pub open spec fn range_begins(probe: ProbeView) -> RangeTurn {
    range_goes(
        ProbeView { stage: RangeStage::Role, line: Seq::empty(), ..probe },
        RangeGo::Call(ask(OtCall::ThreadGetDeviceRole, None)),
    )
}

/// Ping the leader anycast address under the prefix, once, if it is known.
/// Without it an attached board gets no reply.
pub open spec fn range_pings(probe: ProbeView, role: u32) -> RangeTurn {
    match probe.prefix {
        Some(p) => range_goes(
            probe.at(RangeStage::Pinging { role }),
            RangeGo::Ping(ask_ping(aloc(p), 1, 900)),
        ),
        None => RangeTurn {
            link: Some(LINK_SILENT),
            ..range_goes(probe.over(), RangeGo::Done)
        },
    }
}

/// The end of a round with the end of its report.
pub open spec fn range_ends(probe: ProbeView, r: u32, rtt: Option<u32>) -> RangeTurn {
    let part = closing_text(r, rtt);
    RangeTurn {
        says: flushed(probe.line, part).push(extended_by(probe.line, part)),
        ..range_goes(probe.over(), RangeGo::Done)
    }
}

/// The end of a round, but for the round-trip time when a reply came.
pub open spec fn range_closes(probe: ProbeView, r: u32, got: bool) -> RangeTurn {
    if r == 0 && got {
        range_goes(probe.at(RangeStage::RoundTrip), RangeGo::RoundTrip)
    } else {
        range_ends(probe, r, None)
    }
}

/// The step that follows an event.
pub open spec fn range_follows(probe: ProbeView, event: RangeEvent) -> RangeTurn {
    match (probe.stage, event) {
        (RangeStage::Role, RangeEvent::Reply(q)) => if q.value < 2 {
            RangeTurn {
                link: Some(LINK_DETACHED),
                says: seq![detached_text(q.value)],
                ..range_goes(probe.over(), RangeGo::Done)
            }
        } else if probe.prefix is None {
            range_goes(
                probe.at(RangeStage::Eid { role: q.value }),
                RangeGo::Call(ask(OtCall::ThreadGetMeshLocalEid, None)),
            )
        } else {
            range_pings(probe, q.value)
        },
        (RangeStage::Eid { role }, RangeEvent::Reply(q)) => if 0x2000_0000 <= q.value
            < 0x2004_0000 {
            range_goes(probe.at(RangeStage::Address { role }), RangeGo::Read(q.value))
        } else {
            range_pings(probe, role)
        },
        (RangeStage::Address { role }, RangeEvent::Memory(a)) => range_pings(
            ProbeView { prefix: Some(a@.take(8)), ..probe },
            role,
        ),
        (RangeStage::Pinging { role }, RangeEvent::Pinged { before, r }) => range_goes(
            probe.at(RangeStage::Waiting { role, before, r }),
            RangeGo::Wait(1200),
        ),
        (RangeStage::Waiting { role, before, r }, RangeEvent::Waited { replies }) => {
            let got = replies != before;
            let o = attached_out(role);
            let p = ProbeView { replies_seen: replies, ..probe };
            RangeTurn {
                link: Some(
                    if got {
                        LINK_ANSWERED
                    } else {
                        LINK_SILENT
                    },
                ),
                ..if role == 2 {
                    range_goes(
                        ProbeView {
                            line: o.text,
                            ..p.at(RangeStage::ParentAverage { r, got })
                        },
                        RangeGo::Call(
                            ask_iter(OtCall::ThreadGetParentAverageRssi, Some(four(0))),
                        ),
                    )
                } else {
                    range_goes(
                        ProbeView {
                            line: o.put(" neighbors"@).text,
                            ..p.at(RangeStage::Neighbors { r, got, count: 0 })
                        },
                        RangeGo::Call(ask_next_neighbor(true)),
                    )
                }
            }
        },
        (RangeStage::ParentAverage { r, got }, RangeEvent::Reply(q)) => range_goes(
            probe.at(
                RangeStage::ParentLast { r, got, r1: q.value, avg: q.held->Iter_0@[0] },
            ),
            RangeGo::Call(ask_iter(OtCall::ThreadGetParentLastRssi, None)),
        ),
        (RangeStage::ParentLast { r, got, r1, avg }, RangeEvent::Reply(q)) => {
            let o = report(probe.line);
            let p = match rssi_pair(r1, avg, q.value, q.held->Iter_0@[0]) {
                Some(pair) => parent_out(o, pair.0 as i8, pair.1 as i8),
                None => o,
            };
            range_closes(ProbeView { line: p.text, ..probe }, r, got)
        },
        (RangeStage::Neighbors { r, got, count }, RangeEvent::Reply(q)) => {
            let o = report(probe.line);
            if q.value != 0 {
                let p = if count == 0 {
                    o.put(" none"@)
                } else {
                    o
                };
                range_closes(ProbeView { line: p.text, ..probe }, r, got)
            } else {
                let part = neighbor_part(neighbor_in(q.held->Neighbor_0@));
                let p = ProbeView { line: extended_by(probe.line, part), ..probe };
                RangeTurn {
                    says: flushed(probe.line, part),
                    ..range_goes(
                        p.at(RangeStage::Neighbors { r, got, count: one_more(count) }),
                        RangeGo::Call(ask_next_neighbor(false)),
                    )
                }
            }
        },
        (RangeStage::RoundTrip, RangeEvent::RoundTrip(ms)) => range_ends(probe, 0, Some(ms)),
        _ => range_goes(probe, RangeGo::Done),
    }
}

impl RangeProbe {
    /// A probe that knows at most the prefix of the stored network.
    pub fn new(prefix: Option<[u8; 8]>) -> (r: RangeProbe)
        ensures
            r@ == (ProbeView {
                prefix: match prefix {
                    Some(p) => Some(p@),
                    None => None,
                },
                replies_seen: 0,
                stage: RangeStage::Finished,
                line: Seq::empty(),
            }),
            r@.wf(),
    {
        RangeProbe { prefix, replies_seen: 0, stage: RangeStage::Finished, line: new_line() }
    }

    /// One range-probe round: ping the leader anycast address and report the
    /// link.
    pub fn range_tick(self) -> (r: RangeStep)
        requires
            self@.wf(),
        ensures
            r@ == range_begins(self@),
            r.probe@.wf(),
    {
        let probe = RangeProbe { stage: RangeStage::Role, line: new_line(), ..self };
        goes_on(probe, RangeNext::Call(role()))
    }

    /// The step that follows what the last one asked for.
    pub fn step(self, event: RangeEvent) -> (r: RangeStep)
        requires
            self@.wf(),
            range_awaits(self.stage, event),
        ensures
            r@ == range_follows(self@, event),
            r.probe@.wf(),
    {
        match (self.stage, event) {
            (RangeStage::Role, RangeEvent::Reply(q)) => if q.value < 2 {
                let mut step = goes_on(over(self), RangeNext::Done);
                step.link = Some(LINK_DETACHED);
                step.say = Say::Line(detached_line(q.value));
                step
            } else if self.prefix.is_none() {
                goes_on(
                    at(self, RangeStage::Eid { role: q.value }),
                    RangeNext::Call(request(OtCall::ThreadGetMeshLocalEid, None)),
                )
            } else {
                pings(self, q.value)
            },
            (RangeStage::Eid { role }, RangeEvent::Reply(q)) => if readable(q.value) {
                goes_on(at(self, RangeStage::Address { role }), RangeNext::Read(q.value))
            } else {
                pings(self, role)
            },
            (RangeStage::Address { role }, RangeEvent::Memory(a)) => {
                let p: [u8; 8] = [a[0], a[1], a[2], a[3], a[4], a[5], a[6], a[7]];
                assert(p@ =~= a@.take(8));
                pings(RangeProbe { prefix: Some(p), ..self }, role)
            },
            (RangeStage::Pinging { role }, RangeEvent::Pinged { before, r }) => goes_on(
                at(self, RangeStage::Waiting { role, before, r }),
                RangeNext::Wait(1200),
            ),
            (RangeStage::Waiting { role, before, r }, RangeEvent::Waited { replies }) => waited(
                self,
                role,
                before,
                r,
                replies,
            ),
            (RangeStage::ParentAverage { r, got }, RangeEvent::Reply(q)) => match q.held {
                Held::Iter(b) => goes_on(
                    at(self, RangeStage::ParentLast { r, got, r1: q.value, avg: b[0] }),
                    RangeNext::Call(parent_rssi().1),
                ),
                _ => goes_on(self, RangeNext::Done),
            },
            (RangeStage::ParentLast { r, got, r1, avg }, RangeEvent::Reply(q)) => match q.held {
                Held::Iter(b) => parent_known(self, r, got, parent_rssi_of(r1, avg, q.value, b[0])),
                _ => goes_on(self, RangeNext::Done),
            },
            (RangeStage::Neighbors { r, got, count }, RangeEvent::Reply(q)) => neighbor_known(
                self,
                r,
                got,
                count,
                q,
            ),
            (RangeStage::RoundTrip, RangeEvent::RoundTrip(ms)) => said(self, 0, Some(ms)),
            _ => goes_on(self, RangeNext::Done),
        }
    }
}

fn goes_on(probe: RangeProbe, next: RangeNext) -> (r: RangeStep)
    ensures
        r@ == range_goes(probe@, next@),
        r.probe == probe,
{
    RangeStep { probe, link: None, say: Say::Nothing, next }
}

fn at(probe: RangeProbe, stage: RangeStage) -> (r: RangeProbe)
    ensures
        r@ == probe@.at(stage),
{
    RangeProbe { stage, ..probe }
}

fn over(probe: RangeProbe) -> (r: RangeProbe)
    ensures
        r@ == probe@.over(),
{
    RangeProbe { stage: RangeStage::Finished, line: new_line(), ..probe }
}

fn pings(probe: RangeProbe, role: u32) -> (r: RangeStep)
    ensures
        r@ == range_pings(probe@, role),
        r.probe@.wf(),
{
    match probe.prefix {
        Some(p) => goes_on(
            at(probe, RangeStage::Pinging { role }),
            RangeNext::Ping(ping(&leader_aloc(&p), 1, 900)),
        ),
        None => {
            let mut step = goes_on(over(probe), RangeNext::Done);
            step.link = Some(LINK_SILENT);
            step
        },
    }
}

fn closing_line(r: u32, rtt: Option<u32>) -> (l: heapless::String<224>)
    ensures
        l.text() == closing_text(r, rtt),
{
    let mut l = new_line();
    if r != 0 {
        let w = put(&mut l, true, " | ping -> ");
        let _ = put(&mut l, w, err_name(r));
    } else {
        match rtt {
            Some(ms) => {
                let w = put(&mut l, true, " | leader ping ");
                let w = put_dec(&mut l, w, ms as u64);
                let _ = put(&mut l, w, " ms");
            },
            None => {
                let _ = put(&mut l, true, " | leader ping: no reply");
            },
        }
    }
    let _ = put(&mut l, true, "\r\n");
    l
}

/// Writes how the ping went and ends the round.
fn said(probe: RangeProbe, r: u32, rtt: Option<u32>) -> (s: RangeStep)
    ensures
        s@ == range_ends(probe@, r, rtt),
{
    let RangeProbe { prefix, replies_seen, stage: _, line } = probe;
    let mut l = line;
    let end = closing_line(r, rtt);
    let say = match push_str(&mut l, as_str(&end)) {
        Ok(_) => Say::Line(l),
        Err(_) => Say::Two(l, end),
    };
    assert(say@ =~= range_ends(probe@, r, rtt).says);
    RangeStep {
        probe: RangeProbe { prefix, replies_seen, stage: RangeStage::Finished, line: new_line() },
        link: None,
        say,
        next: RangeNext::Done,
    }
}

fn closes(probe: RangeProbe, r: u32, got: bool) -> (s: RangeStep)
    ensures
        s@ == range_closes(probe@, r, got),
{
    if r == 0 && got {
        goes_on(at(probe, RangeStage::RoundTrip), RangeNext::RoundTrip)
    } else {
        said(probe, r, None)
    }
}

fn waited(probe: RangeProbe, role: u32, before: u32, r: u32, replies: u32) -> (s: RangeStep)
    requires
        probe@.wf(),
        probe.stage == (RangeStage::Waiting { role, before, r }),
    ensures
        s@ == range_follows(probe@, RangeEvent::Waited { replies }),
        s.probe@.wf(),
{
    let got = replies != before;
    let mut l = new_line();
    let w = put(&mut l, true, "range: role ");
    let _ = put(&mut l, w, role_name(role));
    let mut step = if role == 2 {
        goes_on(
            RangeProbe {
                replies_seen: replies,
                line: l,
                stage: RangeStage::ParentAverage { r, got },
                ..probe
            },
            RangeNext::Call(parent_rssi().0),
        )
    } else {
        let _ = put(&mut l, true, " neighbors");
        goes_on(
            RangeProbe {
                replies_seen: replies,
                line: l,
                stage: RangeStage::Neighbors { r, got, count: 0 },
                ..probe
            },
            RangeNext::Call(next_neighbor(true)),
        )
    };
    step.link = Some(
        if got {
            LINK_ANSWERED
        } else {
            LINK_SILENT
        },
    );
    step
}

fn parent_known(probe: RangeProbe, r: u32, got: bool, pair: Option<(i8, i8)>) -> (s: RangeStep)
    ensures
        s@ == range_closes(
            ProbeView {
                line: match pair {
                    Some(p) => parent_out(report(probe@.line), p.0, p.1).text,
                    None => probe@.line,
                },
                ..probe@
            },
            r,
            got,
        ),
{
    let RangeProbe { prefix, replies_seen, stage, line } = probe;
    let mut l = line;
    if let Some((avg, last)) = pair {
        let w = put(&mut l, true, " parent rssi ");
        let w = put_signed(&mut l, w, avg);
        let w = put(&mut l, w, "/");
        let w = put_signed(&mut l, w, last);
        let _ = put(&mut l, w, " dBm");
    }
    closes(RangeProbe { prefix, replies_seen, stage, line: l }, r, got)
}

fn neighbor_known(probe: RangeProbe, r: u32, got: bool, count: u32, reply: Reply) -> (s: RangeStep)
    requires
        probe@.wf(),
        probe.stage == (RangeStage::Neighbors { r, got, count }),
        reply.held is Neighbor,
    ensures
        s@ == range_follows(probe@, RangeEvent::Reply(reply)),
        s.probe@.wf(),
{
    let RangeProbe { prefix, replies_seen, stage, line } = probe;
    let mut l = line;
    if reply.value != 0 {
        if count == 0 {
            let _ = put(&mut l, true, " none");
        }
        return closes(RangeProbe { prefix, replies_seen, stage, line: l }, r, got);
    }
    let over = match reply.held {
        Held::Neighbor(b) => neighbors_summary(&neighbor_of(&b), &mut l),
        _ => None,
    };
    let stage = RangeStage::Neighbors { r, got, count: count.saturating_add(1) };
    let next = RangeNext::Call(next_neighbor(false));
    match over {
        None => goes_on(RangeProbe { prefix, replies_seen, stage, line: l }, next),
        Some(t) => {
            let mut step = goes_on(RangeProbe { prefix, replies_seen, stage, line: t }, next);
            step.say = Say::Line(l);
            step
        },
    }
}

// ---- laws ----

/// Whether an event can come of an action.
pub open spec fn range_comes_of(next: RangeGo, event: RangeEvent) -> bool {
    match next {
        RangeGo::Call(a) => event is Reply && replies_to(a.read, event->Reply_0),
        RangeGo::Read(_) => event is Memory,
        RangeGo::Ping(_) => event is Pinged,
        RangeGo::Wait(_) => event is Waited,
        RangeGo::RoundTrip => event is RoundTrip,
        RangeGo::Done => false,
    }
}

/// How many more events a round can take at most, apart from those that report
/// a neighbor.
pub open spec fn range_events_left(stage: RangeStage) -> int {
    match stage {
        RangeStage::Role => 8,
        RangeStage::Eid { .. } => 7,
        RangeStage::Address { .. } => 6,
        RangeStage::Pinging { .. } => 5,
        RangeStage::Waiting { .. } => 4,
        RangeStage::ParentAverage { .. } => 3,
        RangeStage::ParentLast { .. } => 2,
        RangeStage::Neighbors { .. } => 2,
        RangeStage::RoundTrip => 1,
        RangeStage::Finished => 0,
    }
}

/// Whether an event reports a neighbor at a stage that asked for one.
pub open spec fn reports_neighbor(stage: RangeStage, event: RangeEvent) -> bool {
    stage is Neighbors && event is Reply && event->Reply_0.value == 0
}

/// Whatever can come of the action of a step is what its stage waits for. An
/// event reports a further neighbor, and the next one is asked for; or it leaves
/// fewer events to come: a round ends once CPU2 has no more neighbors to report.
pub proof fn law_range_rounds_end(probe: ProbeView, event: RangeEvent, answer: RangeEvent)
    requires
        probe.wf(),
        range_awaits(probe.stage, event),
    ensures
        range_events_left(range_begins(probe).probe.stage) == 8,
        reports_neighbor(probe.stage, event) ==> range_follows(probe, event).probe.stage
            is Neighbors && range_follows(probe, event).next == RangeGo::Call(
            ask_next_neighbor(false),
        ),
        !reports_neighbor(probe.stage, event) ==> 0 <= range_events_left(
            range_follows(probe, event).probe.stage,
        ) < range_events_left(probe.stage),
        range_follows(probe, event).next is Done <==> range_follows(probe, event).probe.stage
            is Finished,
        range_comes_of(range_follows(probe, event).next, answer) ==> range_awaits(
            range_follows(probe, event).probe.stage,
            answer,
        ),
{
}

/// What the link is set to tells the role and the replies: detached exactly
/// when the role is below child; silent when there is nowhere to ping; and after
/// a ping, answered exactly when the count of replies moved. Nothing else sets
/// it.
pub proof fn law_link_tells_the_replies(probe: ProbeView, event: RangeEvent)
    requires
        probe.wf(),
        range_awaits(probe.stage, event),
    ensures
        range_follows(probe, event).link == (match (probe.stage, event) {
            (RangeStage::Role, RangeEvent::Reply(q)) => if q.value < 2 {
                Some(LINK_DETACHED)
            } else {
                None
            },
            (RangeStage::Eid { .. }, RangeEvent::Reply(q)) => if 0x2000_0000 <= q.value
                < 0x2004_0000 {
                None
            } else {
                Some(LINK_SILENT)
            },
            (RangeStage::Waiting { before, .. }, RangeEvent::Waited { replies }) => Some(
                if replies == before {
                    LINK_SILENT
                } else {
                    LINK_ANSWERED
                },
            ),
            _ => None,
        }),
{
}

/// A prefix, once known, stays; and a ping goes to the leader's anycast
/// address under it.
pub proof fn law_range_keeps_to_its_prefix(probe: ProbeView, event: RangeEvent)
    requires
        probe.wf(),
        range_awaits(probe.stage, event),
    ensures
        probe.prefix is Some ==> range_follows(probe, event).probe.prefix == probe.prefix,
        range_follows(probe, event).next matches RangeGo::Ping(a) ==> range_follows(
            probe,
            event,
        ).probe.prefix is Some && a == ask_ping(
            aloc(range_follows(probe, event).probe.prefix->0),
            1,
            900,
        ),
{
}

/// A round in order: the role is asked for; below child it ends there; an attached
/// board whose prefix is not known asks for its address and reads it exactly where
/// CPU1 may; the prefix is the front half of it; the board then pings, waits 1.2
/// seconds, and looks at its parent as a child and at its neighbors otherwise.
pub proof fn law_round_in_order(probe: ProbeView, q: Reply, a: [u8; 16], n: u32, r: u32)
    requires
        probe.wf(),
    ensures
        range_begins(probe).next == RangeGo::Call(ask(OtCall::ThreadGetDeviceRole, None)),
        range_begins(probe).probe.prefix == probe.prefix,
        probe.stage is Role && q.value < 2 ==> range_follows(probe, RangeEvent::Reply(q)).next
            is Done && range_follows(probe, RangeEvent::Reply(q)).says == seq![
            detached_text(q.value),
        ],
        probe.stage is Role && q.value >= 2 && probe.prefix is None ==> range_follows(
            probe,
            RangeEvent::Reply(q),
        ).next == RangeGo::Call(ask(OtCall::ThreadGetMeshLocalEid, None)),
        probe.stage is Role && q.value >= 2 && probe.prefix is Some ==> range_follows(
            probe,
            RangeEvent::Reply(q),
        ).next is Ping,
        probe.stage is Eid && 0x2000_0000 <= q.value <= 0x2003_ffff ==> range_follows(
            probe,
            RangeEvent::Reply(q),
        ).next == RangeGo::Read(q.value),
        probe.stage is Eid && !(0x2000_0000 <= q.value <= 0x2003_ffff) ==> range_follows(
            probe,
            RangeEvent::Reply(q),
        ).next is Done,
        probe.stage is Address ==> range_follows(probe, RangeEvent::Memory(a)).next is Ping
            && range_follows(probe, RangeEvent::Memory(a)).probe.prefix == Some(
            a@.subrange(0, 8),
        ),
        probe.stage is Pinging ==> range_follows(
            probe,
            RangeEvent::Pinged { before: n, r },
        ).next == RangeGo::Wait(1200),
        probe.stage is Waiting ==> range_follows(
            probe,
            RangeEvent::Waited { replies: n },
        ).probe.replies_seen == n,
        probe.stage is Waiting && probe.stage->Waiting_role == 2 ==> range_follows(
            probe,
            RangeEvent::Waited { replies: n },
        ).next == RangeGo::Call(
            ask_iter(OtCall::ThreadGetParentAverageRssi, Some(seq![0u8, 0u8, 0u8, 0u8])),
        ),
        probe.stage is Waiting && probe.stage->Waiting_role != 2 ==> range_follows(
            probe,
            RangeEvent::Waited { replies: n },
        ).next == RangeGo::Call(ask_next_neighbor(true)),
{
    assert(a@.take(8) =~= a@.subrange(0, 8));
}

} // verus!
