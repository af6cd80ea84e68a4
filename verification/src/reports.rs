//! The reports that the board prints by itself are whole: nothing of them is
//! lost to the length of a line.

use vstd::prelude::*;
use crate::ot::Reply;
use crate::ot::err_text;
use crate::ot::role_text;
use crate::ot::rssi_pair;
use crate::ot_text::Neighbor;
use crate::ot_text::NeighborView;
use crate::ot_text::neighbor_in;
use crate::ot_text::neighbor_part;
use crate::range::ProbeView;
use crate::range::RangeEvent;
use crate::range::RangeStage;
use crate::range::attached_out;
use crate::range::closing_text;
use crate::range::detached_text;
use crate::range::extended_by;
use crate::range::flushed;
use crate::range::parent_out;
use crate::range::range_closes;
use crate::range::range_ends;
use crate::range::range_follows;
use crate::range::report;
use crate::spelling::lemma_err_text;
use crate::spelling::lemma_flag;
use crate::spelling::lemma_number;
use crate::spelling::lemma_powers;
use crate::spelling::lemma_put;
use crate::spelling::lemma_role_text;
use crate::spelling::lemma_signed;
use crate::spelling::number_text;
use crate::spelling::power;
use crate::spelling::signed_text;
use crate::text::Out;
use crate::text::byte_len;
use crate::text::digits;
use crate::text::fits;
use crate::text::lemma_ascii_byte_len;
use crate::text::lemma_bytes_of_join;
use crate::text::line;
use crate::text::run_on;
use crate::usb_device::Clocks;
use crate::usb_device::beat_line;
use crate::usb_device::clocks_out;
use crate::usb_device::pllsrc_text;
use crate::usb_device::rtcsel_text;
use crate::usb_device::sysclk_text;
use crate::usb_device::usb48_text;

verus! {

// ---- the parts of a range report ----

/// " rloc16 avg/last dBm" of a neighbor.
pub open spec fn neighbor_words(n: NeighborView) -> Seq<char> {
    " 0x"@ + number_text(n.rloc as nat, 16, 4) + " "@ + signed_text(n.avg as int) + "/"@
        + signed_text(n.last as int) + " dBm"@
}

/// What is printed of a neighbor is whole, in 21 bytes at most.
pub proof fn law_neighbor_is_whole(n: NeighborView)
    ensures
        neighbor_part(n) == neighbor_words(n),
        byte_len(neighbor_words(n)) <= 21,
{
    reveal_strlit(" 0x");
    reveal_strlit(" ");
    reveal_strlit("/");
    reveal_strlit(" dBm");
    reveal_with_fuel(power, 5);
    lemma_ascii_byte_len(Seq::empty());
    lemma_ascii_byte_len(" 0x"@);
    lemma_ascii_byte_len(" "@);
    lemma_ascii_byte_len("/"@);
    lemma_ascii_byte_len(" dBm"@);
    let a = line().put(" 0x"@);
    lemma_put(line(), " 0x"@);
    assert(a.text =~= " 0x"@);
    let b = a.hex(n.rloc as nat, 4);
    lemma_number(a, n.rloc as nat, 16, 4, 4);
    let c = b.put(" "@);
    lemma_put(b, " "@);
    let d = c.signed(n.avg as int);
    lemma_signed(c, n.avg as int);
    let e = d.put("/"@);
    lemma_put(d, "/"@);
    let f = e.signed(n.last as int);
    lemma_signed(e, n.last as int);
    lemma_put(f, " dBm"@);
}

/// How the ping went, when a reply came in `rtt` milliseconds and when not.
pub open spec fn closing_words(r: u32, rtt: Option<u32>) -> Seq<char> {
    if r != 0 {
        " | ping -> "@ + err_text(r) + "\r\n"@
    } else {
        match rtt {
            Some(ms) => " | leader ping "@ + digits(ms as nat, 10) + " ms"@ + "\r\n"@,
            None => " | leader ping: no reply"@ + "\r\n"@,
        }
    }
}

/// The end of a range report is whole, in 30 bytes at most, and in 28 unless a
/// reply took more than a minute.
pub proof fn law_closing_is_whole(r: u32, rtt: Option<u32>)
    ensures
        closing_text(r, rtt) == closing_words(r, rtt),
        byte_len(closing_words(r, rtt)) <= 30,
        (rtt matches Some(ms) ==> ms <= 0xFFFF) ==> byte_len(closing_words(r, rtt)) <= 28,
{
    reveal_strlit(" | ping -> ");
    reveal_strlit(" | leader ping ");
    reveal_strlit(" ms");
    reveal_strlit(" | leader ping: no reply");
    reveal_strlit("\r\n");
    lemma_ascii_byte_len(Seq::empty());
    lemma_ascii_byte_len(" | ping -> "@);
    lemma_ascii_byte_len(" | leader ping "@);
    lemma_ascii_byte_len(" ms"@);
    lemma_ascii_byte_len(" | leader ping: no reply"@);
    lemma_ascii_byte_len("\r\n"@);
    let p = if r != 0 {
        lemma_err_text(r);
        let a = line().put(" | ping -> "@);
        lemma_put(line(), " | ping -> "@);
        assert(a.text =~= " | ping -> "@);
        lemma_put(a, err_text(r));
        a.put(err_text(r))
    } else if let Some(ms) = rtt {
        reveal_with_fuel(power, 11);
        assert(power(10, 5) == 100_000);
        assert(power(10, 10) == 10_000_000_000);
        let a = line().put(" | leader ping "@);
        lemma_put(line(), " | leader ping "@);
        assert(a.text =~= " | leader ping "@);
        let k: nat = if ms <= 0xFFFF {
            5
        } else {
            10
        };
        let b = a.dec(ms as nat);
        lemma_number(a, ms as nat, 10, 0, k);
        lemma_put(b, " ms"@);
        b.put(" ms"@)
    } else {
        lemma_put(line(), " | leader ping: no reply"@);
        assert(Seq::empty() + " | leader ping: no reply"@ =~= " | leader ping: no reply"@);
        line().put(" | leader ping: no reply"@)
    };
    assert(p.ok && p.room == 224 && byte_len(p.text) <= 28);
    lemma_put(p.again(), "\r\n"@);
}

// ---- range reports ----

/// What adding a part prints and leaves in the line, one behind the other, is
/// the line and the part.
proof fn lemma_part_added(line: Seq<char>, part: Seq<char>)
    ensures
        run_on(flushed(line, part)) + extended_by(line, part) == line + part,
        run_on(flushed(line, part).push(extended_by(line, part))) == line + part,
{
    let e = Seq::<Seq<char>>::empty();
    let out = flushed(line, part);
    let last = extended_by(line, part);
    let all = out.push(last);
    assert(run_on(e) =~= Seq::<char>::empty());
    if fits(line, part, 224) {
        assert(run_on(out) + last =~= line + part);
        assert(all.drop_first() =~= e);
        assert(run_on(all) =~= line + part);
    } else {
        assert(out.drop_first() =~= e);
        assert(run_on(out) =~= line);
        assert(all.drop_first() =~= seq![last]);
        assert(seq![last].drop_first() =~= e);
        assert(run_on(seq![last]) =~= last);
        assert(run_on(all) =~= line + part);
    }
}

/// Whether CPU2 reported a neighbor each time.
pub open spec fn all_report(replies: Seq<Reply>) -> bool {
    forall|i: int| 0 <= i < replies.len() ==> (#[trigger] replies[i]).value == 0
        && replies[i].held is Neighbor
}

/// What is printed of the neighbors reported, in order.
pub open spec fn listed(replies: Seq<Reply>) -> Seq<char>
    decreases replies.len(),
{
    if replies.len() == 0 {
        Seq::empty()
    } else {
        listed(replies.drop_last()) + neighbor_words(
            neighbor_in(replies.last().held->Neighbor_0@),
        )
    }
}

/// What is printed while CPU2 reports neighbors, and the probe after them.
pub open spec fn through(probe: ProbeView, replies: Seq<Reply>) -> (Seq<char>, ProbeView)
    decreases replies.len(),
{
    if replies.len() == 0 {
        (Seq::empty(), probe)
    } else {
        let (printed, p) = through(probe, replies.drop_last());
        let t = range_follows(p, RangeEvent::Reply(replies.last()));
        (printed + run_on(t.says), t.probe)
    }
}

proof fn lemma_through(probe: ProbeView, r: u32, got: bool, replies: Seq<Reply>)
    requires
        probe.stage == (RangeStage::Neighbors { r, got, count: 0 }),
        all_report(replies),
    ensures
        ({
            let (printed, p) = through(probe, replies);
            &&& printed + p.line == probe.line + listed(replies)
            &&& p.stage matches RangeStage::Neighbors { r: r2, got: g2, count } && r2 == r && g2
                == got && (count == 0 <==> replies.len() == 0)
            &&& p == (ProbeView { line: p.line, stage: p.stage, ..probe })
            &&& byte_len(probe.line) + 21 * replies.len() <= 224 ==> printed.len() == 0
        }),
    decreases replies.len(),
{
    if replies.len() == 0 {
        assert(Seq::empty() + probe.line =~= probe.line + listed(replies));
    } else {
        let before = replies.drop_last();
        assert(forall|i: int| 0 <= i < before.len() ==> #[trigger] before[i] == replies[i]);
        lemma_through(probe, r, got, before);
        let (printed, p) = through(probe, before);
        let q = replies.last();
        assert(replies[replies.len() - 1] == q);
        let n = neighbor_in(q.held->Neighbor_0@);
        let part = neighbor_part(n);
        law_neighbor_is_whole(n);
        lemma_part_added(p.line, part);
        let out = run_on(flushed(p.line, part));
        let last = extended_by(p.line, part);
        assert(printed + out + last =~= printed + (out + last));
        assert(printed + (p.line + part) =~= printed + p.line + part);
        assert(probe.line + listed(before) + part =~= probe.line + listed(replies));
        if byte_len(probe.line) + 21 * replies.len() <= 224 {
            lemma_listed_len(before);
            lemma_bytes_of_join(probe.line, listed(before));
            assert(printed =~= Seq::<char>::empty());
            assert(Seq::empty() + p.line =~= p.line);
            assert(fits(p.line, part, 224));
            assert(out =~= Seq::<char>::empty());
        }
    }
}

/// What is printed of neighbors takes 21 bytes for each at most.
proof fn lemma_listed_len(replies: Seq<Reply>)
    ensures
        byte_len(listed(replies)) <= 21 * replies.len(),
    decreases replies.len(),
{
    if replies.len() == 0 {
        lemma_ascii_byte_len(Seq::empty());
    } else {
        let before = replies.drop_last();
        let n = neighbor_in(replies.last().held->Neighbor_0@);
        lemma_listed_len(before);
        law_neighbor_is_whole(n);
        lemma_bytes_of_join(listed(before), neighbor_words(n));
    }
}

/// The start of the report of an attached board is whole.
proof fn lemma_attached(role: u32)
    requires
        role >= 2,
    ensures
        attached_out(role) == (Out { text: "range: role "@ + role_text(role), ..line() }),
        byte_len("range: role "@ + role_text(role)) <= 18,
{
    reveal_strlit("range: role ");
    lemma_ascii_byte_len(Seq::empty());
    lemma_ascii_byte_len("range: role "@);
    lemma_role_text(role);
    let a = line().put("range: role "@);
    lemma_put(line(), "range: role "@);
    assert(a.text =~= "range: role "@);
    lemma_put(a, role_text(role));
}

/// What a round prints once CPU2 answers with `end`, up to its own end; the last
/// round-trip time is `ms`.
pub open spec fn ending(probe: ProbeView, end: Reply, ms: u32) -> Seq<Seq<char>> {
    let t = range_follows(probe, RangeEvent::Reply(end));
    if t.next is RoundTrip {
        t.says + range_follows(t.probe, RangeEvent::RoundTrip(ms)).says
    } else {
        t.says
    }
}

/// What a round prints from the end of the wait on, when CPU2 reports the
/// neighbors in `replies` and then no more with `end`: before that end, and from
/// there on.
pub open spec fn reported(
    probe: ProbeView,
    counted: u32,
    replies: Seq<Reply>,
    end: Reply,
    ms: u32,
) -> (Seq<char>, Seq<Seq<char>>) {
    let start = range_follows(probe, RangeEvent::Waited { replies: counted });
    let (printed, p) = through(start.probe, replies);
    (run_on(start.says) + printed, ending(p, end, ms))
}

/// The report of an attached board that is no child: its role, every neighbor
/// that CPU2 reports, in order, and how the ping went.
pub open spec fn neighbor_report(
    role: u32,
    replies: Seq<Reply>,
    r: u32,
    rtt: Option<u32>,
) -> Seq<char> {
    heading(role) + (if replies.len() == 0 {
        " none"@
    } else {
        listed(replies)
    }) + closing_words(r, rtt)
}

/// The round-trip time that goes into a report.
pub open spec fn rtt_of(r: u32, before: u32, counted: u32, ms: u32) -> Option<u32> {
    if r == 0 && counted != before {
        Some(ms)
    } else {
        None
    }
}

/// The end of a round prints what is left in the line and the end of the report,
/// all of it, and in one text when there is room.
proof fn lemma_ends(probe: ProbeView, r: u32, rtt: Option<u32>)
    ensures
        run_on(range_ends(probe, r, rtt).says) == probe.line + closing_words(r, rtt),
        byte_len(probe.line) + byte_len(closing_words(r, rtt)) <= 224 ==> range_ends(
            probe,
            r,
            rtt,
        ).says.len() == 1,
{
    law_closing_is_whole(r, rtt);
    lemma_part_added(probe.line, closing_text(r, rtt));
}

/// However many neighbors there are, the report names each of them, in order,
/// and nothing of it is lost.
pub proof fn law_every_neighbor_is_reported(
    probe: ProbeView,
    role: u32,
    before: u32,
    r: u32,
    counted: u32,
    replies: Seq<Reply>,
    end: Reply,
    ms: u32,
)
    requires
        probe.stage == (RangeStage::Waiting { role, before, r }),
        role > 2,
        all_report(replies),
        end.value != 0,
    ensures
        ({
            let (first, last) = reported(probe, counted, replies, end, ms);
            first + run_on(last) == neighbor_report(
                role,
                replies,
                r,
                rtt_of(r, before, counted, ms),
            )
        }),
{
    lemma_neighbor_report(probe, role, before, r, counted, replies, end, ms);
}

/// Up to eight neighbors go into one text of up to 224 bytes, unless a reply
/// took more than a minute.
pub proof fn law_eight_neighbors_fit_a_line(
    probe: ProbeView,
    role: u32,
    before: u32,
    r: u32,
    counted: u32,
    replies: Seq<Reply>,
    end: Reply,
    ms: u32,
)
    requires
        probe.stage == (RangeStage::Waiting { role, before, r }),
        role > 2,
        all_report(replies),
        end.value != 0,
        replies.len() <= 8,
        ms <= 0xFFFF,
    ensures
        reported(probe, counted, replies, end, ms) == (
            Seq::<char>::empty(),
            seq![neighbor_report(role, replies, r, rtt_of(r, before, counted, ms))],
        ),
        byte_len(neighbor_report(role, replies, r, rtt_of(r, before, counted, ms))) <= 224,
{
    lemma_neighbor_report(probe, role, before, r, counted, replies, end, ms);
    let (first, last) = reported(probe, counted, replies, end, ms);
    let whole = neighbor_report(role, replies, r, rtt_of(r, before, counted, ms));
    assert(first =~= Seq::<char>::empty());
    assert(last =~= seq![last[0]]);
    assert(seq![last[0]].drop_first() =~= Seq::<Seq<char>>::empty());
    assert(run_on(seq![last[0]].drop_first()) =~= Seq::<char>::empty());
    assert(run_on(last) =~= last[0]);
    assert(first + run_on(last) =~= last[0]);
    assert(last =~= seq![whole]);
}

/// The start of the report of an attached board that is no child.
pub open spec fn heading(role: u32) -> Seq<char> {
    "range: role "@ + role_text(role) + " neighbors"@
}

proof fn lemma_start(probe: ProbeView, role: u32, before: u32, r: u32, counted: u32)
    requires
        probe.stage == (RangeStage::Waiting { role, before, r }),
        role > 2,
    ensures
        ({
            let start = range_follows(probe, RangeEvent::Waited { replies: counted });
            &&& start.says.len() == 0
            &&& start.probe.line == heading(role)
            &&& start.probe.stage == (RangeStage::Neighbors { r, got: counted != before, count: 0 })
        }),
        byte_len(heading(role)) <= 28,
{
    reveal_strlit(" neighbors");
    lemma_ascii_byte_len(" neighbors"@);
    lemma_attached(role);
    lemma_put(attached_out(role), " neighbors"@);
}

/// The end of a report with neighbors in it.
proof fn lemma_ending(p: ProbeView, r: u32, got: bool, count: u32, end: Reply, ms: u32)
    requires
        p.stage == (RangeStage::Neighbors { r, got, count }),
        end.value != 0,
        count > 0,
    ensures
        ({
            let rtt = if r == 0 && got {
                Some(ms)
            } else {
                None
            };
            &&& run_on(ending(p, end, ms)) == p.line + closing_words(r, rtt)
            &&& byte_len(p.line) + byte_len(closing_words(r, rtt)) <= 224 ==> ending(
                p,
                end,
                ms,
            ).len() == 1
        }),
{
    let t = range_follows(p, RangeEvent::Reply(end));
    assert(t == range_closes(p, r, got));
    if r == 0 && got {
        let q = p.at(RangeStage::RoundTrip);
        lemma_ends(q, 0, Some(ms));
        assert(t.probe == q);
        let last = range_ends(q, 0, Some(ms)).says;
        assert(t.says + last =~= last);
    } else {
        lemma_ends(p, r, None);
    }
}

/// The end of a report without neighbors.
proof fn lemma_ending_alone(p: ProbeView, r: u32, got: bool, end: Reply, ms: u32)
    requires
        p.stage == (RangeStage::Neighbors { r, got, count: 0 }),
        end.value != 0,
        byte_len(p.line) <= 28,
    ensures
        ({
            let rtt = if r == 0 && got {
                Some(ms)
            } else {
                None
            };
            &&& run_on(ending(p, end, ms)) == p.line + " none"@ + closing_words(r, rtt)
            &&& ending(p, end, ms).len() == 1
        }),
{
    reveal_strlit(" none");
    lemma_ascii_byte_len(" none"@);
    lemma_put(report(p.line), " none"@);
    let q = ProbeView { line: p.line + " none"@, ..p };
    let t = range_follows(p, RangeEvent::Reply(end));
    assert(t == range_closes(q, r, got));
    if r == 0 && got {
        let q2 = q.at(RangeStage::RoundTrip);
        lemma_ends(q2, 0, Some(ms));
        law_closing_is_whole(0, Some(ms));
        assert(t.probe == q2);
        let last = range_ends(q2, 0, Some(ms)).says;
        assert(t.says + last =~= last);
    } else {
        lemma_ends(q, r, None);
        law_closing_is_whole(r, None);
    }
}

#[verifier::rlimit(40)]
proof fn lemma_neighbor_report(
    probe: ProbeView,
    role: u32,
    before: u32,
    r: u32,
    counted: u32,
    replies: Seq<Reply>,
    end: Reply,
    ms: u32,
)
    requires
        probe.stage == (RangeStage::Waiting { role, before, r }),
        role > 2,
        all_report(replies),
        end.value != 0,
    ensures
        ({
            let (first, last) = reported(probe, counted, replies, end, ms);
            let rtt = rtt_of(r, before, counted, ms);
            let whole = neighbor_report(role, replies, r, rtt);
            &&& first + run_on(last) == whole
            &&& replies.len() <= 8 && ms <= 0xFFFF ==> first.len() == 0 && last.len() == 1
                && byte_len(whole) <= 224
        }),
{
    let got = counted != before;
    let rtt = rtt_of(r, before, counted, ms);
    let start = range_follows(probe, RangeEvent::Waited { replies: counted }).probe;
    let head = heading(role);
    let close = closing_words(r, rtt);
    lemma_start(probe, role, before, r, counted);
    lemma_through(start, r, got, replies);
    let (printed, p) = through(start, replies);
    let (first, last) = reported(probe, counted, replies, end, ms);
    assert(first =~= printed);
    law_closing_is_whole(r, rtt);
    if replies.len() == 0 {
        assert(p == start);
        lemma_ending_alone(p, r, got, end, ms);
        assert(first + run_on(last) =~= head + " none"@ + close);
        reveal_strlit(" none");
        lemma_ascii_byte_len(" none"@);
        lemma_bytes_of_join(head, " none"@);
        lemma_bytes_of_join(head + " none"@, close);
    } else {
        let count = p.stage->Neighbors_count;
        lemma_ending(p, r, got, count, end, ms);
        assert(printed + (p.line + close) =~= printed + p.line + close);
        lemma_listed_len(replies);
        lemma_bytes_of_join(head, listed(replies));
        lemma_bytes_of_join(head + listed(replies), close);
        if replies.len() <= 8 {
            assert(printed + p.line =~= p.line);
        }
    }
}

/// The report of a child: its role, the RSSI of its parent link where that is
/// known, and how the ping went.
pub open spec fn child_report(pair: Option<(i8, i8)>, r: u32, rtt: Option<u32>) -> Seq<char> {
    "range: role "@ + "child"@ + (match pair {
        Some(p) => " parent rssi "@ + signed_text(p.0 as int) + "/"@ + signed_text(p.1 as int)
            + " dBm"@,
        None => Seq::empty(),
    }) + closing_words(r, rtt)
}

/// The line that the parent link is written to is whole.
proof fn lemma_parent(o: Out, avg: i8, last: i8)
    requires
        o.ok,
        byte_len(o.text) + 26 <= o.room,
    ensures
        parent_out(o, avg, last).text == o.text + (" parent rssi "@ + signed_text(avg as int)
            + "/"@ + signed_text(last as int) + " dBm"@),
        byte_len(parent_out(o, avg, last).text) <= byte_len(o.text) + 26,
{
    reveal_strlit(" parent rssi ");
    reveal_strlit("/");
    reveal_strlit(" dBm");
    lemma_ascii_byte_len(" parent rssi "@);
    lemma_ascii_byte_len("/"@);
    lemma_ascii_byte_len(" dBm"@);
    let a = o.put(" parent rssi "@);
    lemma_put(o, " parent rssi "@);
    let b = a.signed(avg as int);
    lemma_signed(a, avg as int);
    let c = b.put("/"@);
    lemma_put(b, "/"@);
    let d = c.signed(last as int);
    lemma_signed(c, last as int);
    lemma_put(d, " dBm"@);
    let x = signed_text(avg as int);
    let y = signed_text(last as int);
    assert(o.text + " parent rssi "@ + x + "/"@ + y + " dBm"@ =~= o.text + (" parent rssi "@ + x
        + "/"@ + y + " dBm"@));
}

/// The report of a child is one text, and nothing of it is lost.
pub proof fn law_child_report_is_whole(
    probe: ProbeView,
    before: u32,
    r: u32,
    counted: u32,
    first: Reply,
    second: Reply,
    ms: u32,
)
    requires
        probe.stage == (RangeStage::Waiting { role: 2, before, r }),
        first.held is Iter,
        second.held is Iter,
    ensures
        ({
            let start = range_follows(probe, RangeEvent::Waited { replies: counted });
            let next = range_follows(start.probe, RangeEvent::Reply(first));
            let says = ending(next.probe, second, ms);
            let pair = match rssi_pair(
                first.value,
                first.held->Iter_0@[0],
                second.value,
                second.held->Iter_0@[0],
            ) {
                Some(p) => Some((p.0 as i8, p.1 as i8)),
                None => None,
            };
            start.says + next.says + says == seq![
                child_report(pair, r, rtt_of(r, before, counted, ms)),
            ]
        }),
{
    lemma_attached(2);
    let got = counted != before;
    let start = range_follows(probe, RangeEvent::Waited { replies: counted });
    let next = range_follows(start.probe, RangeEvent::Reply(first));
    let t = range_follows(next.probe, RangeEvent::Reply(second));
    let head = "range: role "@ + "child"@;
    assert(start.probe.line == head);
    let found = rssi_pair(
        first.value,
        first.held->Iter_0@[0],
        second.value,
        second.held->Iter_0@[0],
    );
    let pair = match found {
        Some(p) => Some((p.0 as i8, p.1 as i8)),
        None => None,
    };
    let line = match pair {
        Some(p) => parent_out(report(head), p.0, p.1).text,
        None => head,
    };
    if let Some(p) = pair {
        lemma_parent(report(head), p.0, p.1);
    } else {
        assert(head + Seq::<char>::empty() =~= head);
    }
    let q = ProbeView { line, ..next.probe };
    assert(t == range_closes(q, r, got));
    let rtt = rtt_of(r, before, counted, ms);
    law_closing_is_whole(r, rtt);
    let says = ending(next.probe, second, ms);
    assert(says =~= seq![line + closing_words(r, rtt)]);
    assert(start.says + next.says + says =~= seq![line + closing_words(r, rtt)]);
}

// ---- clock reports ----

/// No clock source takes more than 8 bytes.
pub proof fn lemma_source_names(c: Clocks)
    ensures
        byte_len(sysclk_text(c.sws)) <= 5,
        byte_len(pllsrc_text(c.pllsrc)) <= 5,
        byte_len(usb48_text(c.clk48sel)) <= 8,
        byte_len(rtcsel_text(c.rtcsel)) <= 6,
{
    reveal_strlit("MSI");
    reveal_strlit("HSI16");
    reveal_strlit("HSE");
    reveal_strlit("PLL");
    reveal_strlit("none");
    reveal_strlit("HSI48");
    reveal_strlit("PLLSAI1Q");
    reveal_strlit("PLLQ");
    reveal_strlit("LSE");
    reveal_strlit("LSI");
    reveal_strlit("HSE/32");
    lemma_ascii_byte_len(sysclk_text(c.sws));
    lemma_ascii_byte_len(pllsrc_text(c.pllsrc));
    lemma_ascii_byte_len(usb48_text(c.clk48sel));
    lemma_ascii_byte_len(rtcsel_text(c.rtcsel));
}

/// The first half of the clock report: where the clocks come from.
proof fn lemma_sources(c: Clocks) -> (o: Out)
    ensures
        o == beat_line().again().put("clocks: sysclk="@).put(sysclk_text(c.sws)).put(
            " pllsrc="@,
        ).put(pllsrc_text(c.pllsrc)).put(" usb48="@).put(usb48_text(c.clk48sel)).put(
            " rtc="@,
        ).put(rtcsel_text(c.rtcsel)),
        o.ok,
        o.room == 192,
        byte_len(o.text) <= 59,
{
    reveal_strlit("clocks: sysclk=");
    reveal_strlit(" pllsrc=");
    reveal_strlit(" usb48=");
    reveal_strlit(" rtc=");
    lemma_ascii_byte_len(Seq::empty());
    lemma_ascii_byte_len("clocks: sysclk="@);
    lemma_ascii_byte_len(" pllsrc="@);
    lemma_ascii_byte_len(" usb48="@);
    lemma_ascii_byte_len(" rtc="@);
    lemma_source_names(c);
    let a = beat_line().again();
    lemma_put(a, "clocks: sysclk="@);
    let b = a.put("clocks: sysclk="@);
    lemma_put(b, sysclk_text(c.sws));
    let d = b.put(sysclk_text(c.sws));
    lemma_put(d, " pllsrc="@);
    let e = d.put(" pllsrc="@);
    lemma_put(e, pllsrc_text(c.pllsrc));
    let f = e.put(pllsrc_text(c.pllsrc));
    lemma_put(f, " usb48="@);
    let g = f.put(" usb48="@);
    lemma_put(g, usb48_text(c.clk48sel));
    let h = g.put(usb48_text(c.clk48sel));
    lemma_put(h, " rtc="@);
    let i = h.put(" rtc="@);
    lemma_put(i, rtcsel_text(c.rtcsel));
    i.put(rtcsel_text(c.rtcsel))
}

/// The clock report on a line of its own is whole, in 150 bytes at most, with
/// the prescaler in 3 bits and the reload value in 12 as the registers have
/// them.
#[verifier::rlimit(40)]
pub proof fn law_clock_report_is_whole(c: Clocks)
    requires
        c.pr < 8,
        c.rl < 4096,
    ensures
        clocks_out(beat_line(), c).ok,
        byte_len(clocks_out(beat_line(), c).text) <= 150,
{
    reveal_strlit(" hse_rdy=");
    reveal_strlit(" lse_rdy=");
    reveal_strlit(" msi_on=");
    reveal_strlit(" hsi16_on=");
    reveal_strlit(" hsi48_on=");
    reveal_strlit(" iwdg pr=");
    reveal_strlit(" rl=");
    reveal_strlit("\r\n");
    lemma_ascii_byte_len(" hse_rdy="@);
    lemma_ascii_byte_len(" lse_rdy="@);
    lemma_ascii_byte_len(" msi_on="@);
    lemma_ascii_byte_len(" hsi16_on="@);
    lemma_ascii_byte_len(" hsi48_on="@);
    lemma_ascii_byte_len(" iwdg pr="@);
    lemma_ascii_byte_len(" rl="@);
    lemma_ascii_byte_len("\r\n"@);
    reveal_with_fuel(power, 5);
    assert(power(10, 1) == 10);
    assert(power(10, 4) == 10_000);
    let a = lemma_sources(c);
    lemma_put(a, " hse_rdy="@);
    let b = a.put(" hse_rdy="@);
    lemma_flag(b, c.hse_rdy);
    let d = b.flag(c.hse_rdy);
    lemma_put(d, " lse_rdy="@);
    let e = d.put(" lse_rdy="@);
    lemma_flag(e, c.lse_rdy);
    let f = e.flag(c.lse_rdy);
    lemma_put(f, " msi_on="@);
    let g = f.put(" msi_on="@);
    lemma_flag(g, c.msi_on);
    let h = g.flag(c.msi_on);
    lemma_put(h, " hsi16_on="@);
    let i = h.put(" hsi16_on="@);
    lemma_flag(i, c.hsi16_on);
    let j = i.flag(c.hsi16_on);
    lemma_put(j, " hsi48_on="@);
    let k = j.put(" hsi48_on="@);
    lemma_flag(k, c.hsi48_on);
    let m = k.flag(c.hsi48_on);
    lemma_put(m, " iwdg pr="@);
    let n = m.put(" iwdg pr="@);
    lemma_number(n, c.pr as nat, 10, 0, 1);
    let p = n.dec(c.pr as nat);
    lemma_put(p, " rl="@);
    let q = p.put(" rl="@);
    lemma_number(q, c.rl as nat, 10, 0, 4);
    let s = q.dec(c.rl as nat);
    lemma_put(s, "\r\n"@);
}

/// The report of a board that is not attached names its role.
pub proof fn law_detached_line(role: u32)
    ensures
        detached_text(role) == (
            "range: role "@ + role_text(role) + " (not attached)\r\n"@
        ),
{
    reveal_strlit("range: role ");
    reveal_strlit(" (not attached)\r\n");
    lemma_ascii_byte_len(Seq::empty());
    lemma_ascii_byte_len("range: role "@);
    lemma_ascii_byte_len(" (not attached)\r\n"@);
    lemma_powers();
    lemma_role_text(role);
    let o0 = line();
    lemma_put(o0, "range: role "@);
    let o1 = o0.put("range: role "@);
    assert(o1.text =~= "range: role "@);
    lemma_put(o1, role_text(role));
    let o2 = o1.put(role_text(role));
    lemma_put(o2, " (not attached)\r\n"@);
    let o3 = o2.put(" (not attached)\r\n"@);
}

} // verus!
