//! What the functions of the library return, over what they are given: each
//! result is the one that its specification names, for every input.

use vstd::prelude::*;
use crate::bounded::dataset_of;
use crate::bytes::extend;
use crate::bytes::extended;
use crate::bytes::le16;
use crate::bytes::le32;
use crate::bytes::u16_bytes;
use crate::bytes::u32_bytes;
use crate::config::Config;
use crate::config::erase;
use crate::config::find_prefix;
use crate::config::fresh;
use crate::config::law_load_gives_back_what_was_saved;
use crate::config::law_new_config_holds_the_dataset;
use crate::config::load;
use crate::config::save;
use crate::config::stored;
use crate::cpu2::Sent;
use crate::cpu2::asked_of;
use crate::dfu::WatchdogAction;
use crate::dfu::WatchdogEvent;
use crate::dfu::WatchdogStage;
use crate::dfu::reload_for;
use crate::dfu::start_watchdog;
use crate::dfu::watchdog_action;
use crate::dfu::watchdog_next;
use crate::dfu::watchdog_reload;
use crate::flash::FlashAction;
use crate::flash::FlashOp;
use crate::flash::Stage;
use crate::flash::action_of;
use crate::ip6::colons;
use crate::ip6::gap_at;
use crate::ip6::holds;
use crate::ip6::ip6_of;
use crate::ip6::law_compressed_address_is_the_same;
use crate::ip6::law_groups_are_read_in_order;
use crate::ip6::law_second_gap_is_refused;
use crate::ip6::parse_ip6;
use crate::join::JoinEvent;
use crate::join::JoinState;
use crate::join::JoinStep;
use crate::join::autostart;
use crate::join::autostart_asks;
use crate::join::join;
use crate::join::join_begins;
use crate::join::join_follows;
use crate::join::join_status;
use crate::laws::is_hex_digit;
use crate::laws::law_dataset_block_read_back;
use crate::laws::law_hex_is_read_in_either_case;
use crate::laws::spells;
use crate::ot::Arg;
use crate::ot::Ask;
use crate::ot::Block;
use crate::ot::HexBytes;
use crate::ot::OtCall;
use crate::ot::Request;
use crate::ot::aloc;
use crate::ot::ask;
use crate::ot::ask_get_active_tlvs;
use crate::ot::ask_iter;
use crate::ot::ask_ping;
use crate::ot::ask_set_active_tlvs;
use crate::ot::block_tlvs;
use crate::ot::down;
use crate::ot::four;
use crate::ot::get_active_tlvs;
use crate::ot::hex_nibble;
use crate::ot::init;
use crate::ot::law_ping_block;
use crate::ot::leader_aloc;
use crate::ot::parent_rssi;
use crate::ot::parent_rssi_of;
use crate::ot::parse_hex_bytes;
use crate::ot::ping;
use crate::ot::readable;
use crate::ot::request_active_tlvs;
use crate::ot::role;
use crate::ot::set_active_tlvs;
use crate::ot::up;
use crate::ot_command::OtEvent;
use crate::ot_command::OtNext;
use crate::ot_command::OtState;
use crate::ot_command::OtStep;
use crate::ot_command::begins;
use crate::ot_command::command;
use crate::ot_command::follows;
use crate::ot_command::ot_command;
use crate::ot_lines::law_neighbor_block;
use crate::ot_notify::NotifyIds;
use crate::ot_notify::NotifyStep;
use crate::ot_notify::OtNotification;
use crate::ot_notify::notification;
use crate::ot_notify::notified;
use crate::ot_notify::ping_statistics;
use crate::ot_notify::statistics_in;
use crate::ot_notify::statistics_text;
use crate::ot_text::Neighbor;
use crate::ot_text::neighbor_in;
use crate::ot_text::neighbor_of;
use crate::range::RangeEvent;
use crate::range::RangeProbe;
use crate::range::RangeStep;
use crate::range::range_begins;
use crate::range::range_follows;
use crate::text::Say;
use crate::text::Text;
use crate::usb_device::Beat;
use crate::usb_device::ConsoleCommand;
use crate::usb_device::answer_text;
use crate::usb_device::handle_command;
use crate::usb_device::heartbeat;
use crate::usb_device::heartbeat_text;
use crate::usb_device::wish;
use crate::words::parse_signed_byte;
use crate::words::parse_unsigned;
use crate::words::signed_byte;
use crate::words::unsigned;
use crate::wpan::BootPlan;
use crate::wpan::Cpu2Event;
use crate::wpan::Cpu2Stage;
use crate::wpan::Cpu2Step;
use crate::wpan::WpanCommand;
use crate::wpan::WpanStep;
use crate::wpan::begin;
use crate::wpan::begin_mark;
use crate::wpan::begin_says;
use crate::wpan::boot_plan;
use crate::wpan::cpu2_follows;
use crate::wpan::end;
use crate::wpan::end_says;
use crate::wpan::fus_reported;
use crate::wpan::hex_arg;
use crate::wpan::is_thread;
use crate::wpan::owned;
use crate::wpan::owns;
use crate::wpan::parse_hex;
use crate::wpan::parse_line;
use crate::wpan::plan_of;
use crate::wpan::ready_byte;
use crate::wpan::ready_code;
use crate::wpan::report_mark;
use crate::wpan::thread_stack_running;
use crate::wpan::wpan_command;
use crate::wpan_text::DeviceInfo;
use crate::wpan_text::fus_state_text;
use crate::wpan_text::info_says;
use crate::wpan_text::print_info;
use crate::wpan_text::row_text;
use crate::wpan_text::snapshot_row;
use crate::wpan_text::snapshot_table;
use crate::wpan_text::table_says;
use crate::wpan_text::version;
use crate::wpan_text::version_of;

verus! {

/// Addresses are read and refused as [`ip6_of`] says, so that one written with `::`
/// for a run of zeros is the address of its groups, and one with a second `::` is
/// none.
pub proof fn law_parse_ip6(s: &str, r: Option<[u8; 16]>, w: Seq<u16>, i: int, j: int)
    requires
        call_ensures(parse_ip6, (s,), r),
        w.len() == 8,
        0 <= i <= j <= 8,
        forall|k: int| i <= k < j ==> w[k] == 0,
    ensures
        r is Some <==> ip6_of(s@) is Some,
        r matches Some(a) ==> Some(a@) == ip6_of(s@),
        s@ == colons(w.take(i)) + seq![':', ':'] + colons(w.skip(j)) ==> (r matches Some(a) && holds(
            a@,
            w,
        )),
        s@ == colons(w) ==> (r matches Some(a) && holds(a@, w)),
        gap_at(s@, i) && gap_at(s@, j) && i + 2 <= j ==> r is None,
{
    law_groups_are_read_in_order(w);
    law_compressed_address_is_the_same(w, i, j);
    if gap_at(s@, i) && gap_at(s@, j) && i + 2 <= j {
        law_second_gap_is_refused(s@, i, j);
    }
}

/// The two calls of `init`, `up` and `down`, in order.
pub proof fn law_paired_calls(
    i: (Request, Request),
    u: (Request, Request),
    d: (Request, Request),
    p: (Request, Request),
    r: Request,
)
    requires
        call_ensures(init, (), i),
        call_ensures(up, (), u),
        call_ensures(down, (), d),
        call_ensures(parent_rssi, (), p),
        call_ensures(role, (), r),
    ensures
        i.0@ == ask(OtCall::InstanceInitSingle, None),
        i.1@ == ask(OtCall::SetStateChangedCallback, Some(Arg::Word(0))),
        u.0@ == ask(OtCall::Ip6SetEnabled, Some(Arg::Word(1))),
        u.1@ == ask(OtCall::ThreadSetEnabled, Some(Arg::Word(1))),
        d.0@ == (Ask { first: Some(Arg::Word(0)), ..u.1@ }),
        d.1@ == (Ask { first: Some(Arg::Word(0)), ..u.0@ }),
        p.0@ == ask_iter(OtCall::ThreadGetParentAverageRssi, Some(four(0))),
        p.1@ == ask_iter(OtCall::ThreadGetParentLastRssi, None),
        r@ == ask(OtCall::ThreadGetDeviceRole, None),
{
}

/// A ping carries its destination, count and timeout, and asks for both callbacks.
pub proof fn law_ping(dst: [u8; 16], count: u16, timeout: u16, q: Request)
    requires
        call_ensures(ping, (&dst, count, timeout), q),
    ensures
        q@ == ask_ping(dst@, count, timeout),
        q@.fill matches Some(f) && asked_of(f.1) == (Sent {
            dst: dst@,
            replies: true,
            statistics: true,
            count: count as int,
            interval_ms: 1000,
            timeout_ms: timeout as int,
        }),
{
    law_ping_block(dst@, count, timeout);
    let f = q@.fill->0;
    assert(asked_of(f.1).dst =~= dst@);
}

/// A dataset handed over is read back.
pub proof fn law_datasets(
    tlvs: &[u8],
    q: Request,
    g: Request,
    value: u32,
    block: [u8; 256],
    r: Result<heapless::Vec<u8, 254>, u32>,
)
    requires
        call_ensures(set_active_tlvs, (tlvs,), q),
        call_ensures(request_active_tlvs, (), g),
        call_ensures(get_active_tlvs, (value, &block), r),
    ensures
        q@ == ask_set_active_tlvs(tlvs@),
        g@ == ask_get_active_tlvs(),
        g@.first == q@.first,
        r is Ok <==> value == 0,
        r matches Err(e) ==> e == value,
        r matches Ok(v) ==> dataset_of(v) == block_tlvs(block@),
        q@.fill == Some((Block::Tlvs, block@)) && r is Ok && tlvs@.len() <= 254 ==> dataset_of(
            r->Ok_0,
        ) == tlvs@,
{
    law_dataset_block_read_back(tlvs@);
    if tlvs@.len() <= 254 {
        assert(tlvs@.take(tlvs@.len() as int) =~= tlvs@);
    }
}

/// Small readings: where CPU1 may read, the leader's address, hexadecimal digits, the
/// parent link, and what CPU2 tells of a neighbor.
pub proof fn law_readings(
    p: u32,
    ok: bool,
    prefix: [u8; 8],
    a: [u8; 16],
    c: u8,
    d: Option<u8>,
    k: int,
    n: [u8; 48],
    v: Neighbor,
)
    requires
        call_ensures(readable, (p,), ok),
        call_ensures(leader_aloc, (&prefix,), a),
        call_ensures(hex_nibble, (c,), d),
        call_ensures(neighbor_of, (&n,), v),
        0 <= k < 16,
    ensures
        ok <==> 0x2000_0000 <= p <= 0x2003_ffff,
        a@ == aloc(prefix@),
        is_hex_digit(c, k) ==> d == Some(k as u8),
        d is Some ==> is_hex_digit(c, d->0 as int),
        v@ == neighbor_in(n@),
        v.ftd <==> n@[38] & 0x02 != 0,
        v.child <==> n@[38] & 0x08 != 0,
{
    law_neighbor_block(n@);
}

/// The parent link is told when both calls went well.
pub proof fn law_parent_link(r1: u32, avg: u8, r2: u32, last: u8, r: Option<(i8, i8)>)
    requires
        call_ensures(parent_rssi_of, (r1, avg, r2, last), r),
    ensures
        r is Some <==> r1 == 0 && r2 == 0,
        r matches Some(p) ==> (p.0 - avg) % 256 == 0 && (p.1 - last) % 256 == 0,
{
}

/// Hexadecimal is read in either case.
pub proof fn law_parse_hex_bytes(s: &[u8], r: HexBytes, bytes: Seq<u8>)
    requires
        call_ensures(parse_hex_bytes, (s,), r),
        spells(s@, bytes),
        bytes.len() <= 254,
    ensures
        r.n == bytes.len(),
        r.spelled() == bytes,
{
    law_hex_is_read_in_either_case(s@, bytes, Seq::empty());
    assert(bytes.take(bytes.len() as int) =~= bytes);
}

/// A configuration is what it was made from.
pub proof fn law_configurations(
    tlvs: &[u8],
    flags: u32,
    c: Config,
    t: &[u8],
    a: bool,
    k: bool,
    p: Option<[u8; 8]>,
    i: [u8; 272],
)
    requires
        call_ensures(Config::new, (tlvs, flags), c),
        call_ensures(Config::tlvs, (&c,), t),
        call_ensures(Config::autostart, (&c,), a),
        call_ensures(Config::keepalive, (&c,), k),
        call_ensures(Config::mesh_local_prefix, (&c,), p),
        call_ensures(Config::to_image, (&c,), i),
    ensures
        c.valid(),
        c.contents() == fresh(tlvs@, flags),
        tlvs@.len() <= 254 ==> t@ == tlvs@,
        a <==> flags & 1 != 0,
        k <==> flags & 2 != 0,
        p is Some <==> find_prefix(t@) is Some,
        p matches Some(x) ==> Some(x@) == find_prefix(t@),
        i@ == c.image(),
{
    law_new_config_holds_the_dataset(tlvs@, flags, c, 0);
    let f = flags;
    assert((f & 1u32 != 0) == (f % 2 == 1) && (f & 2u32 != 0) == (f / 2 % 2 == 1)) by (bit_vector);
    if tlvs@.len() <= 254 {
        assert(t@ =~= tlvs@);
    }
}

/// What is loaded is what was stored.
pub proof fn law_storage(c: Config, page: [u8; 272], l: Option<Config>, s: FlashOp, e: FlashOp)
    requires
        call_ensures(load, (&page,), l),
        call_ensures(save, (&c,), s),
        call_ensures(erase, (), e),
        c.valid(),
    ensures
        l is Some <==> stored(page@) is Some,
        l matches Some(d) ==> d.valid() && Some(d.contents()) == stored(page@),
        s.image is Some,
        s.image matches Some(i) ==> i@ == c.image() && stored(i@) == Some(c.contents()),
        e.image is None,
        s.stage == (Stage::TakeFlash { tries: 0 }),
        e.stage == (Stage::TakeFlash { tries: 0 }),
        s.image == Some(page) ==> l is Some && l->0.contents() == c.contents(),
{
    law_load_gives_back_what_was_saved(c);
}

/// Commands and their steps.
pub proof fn law_steps(line: &str, s: OtStep, state: OtState, event: OtEvent, t: OtStep)
    requires
        call_ensures(command, (line,), s),
        call_ensures(OtState::step, (state, event), t),
    ensures
        s@ == begins(ot_command(line@)),
        t@ == follows(state, event),
        s.next matches OtNext::Save(c) ==> c.valid(),
        t.next matches OtNext::Save(c) ==> c.valid(),
{
}

/// Notifications and what comes of them.
pub proof fn law_notification_results(
    ids: NotifyIds,
    n: OtNotification,
    s: NotifyStep,
    b: [u8; 16],
    l: heapless::String<224>,
)
    requires
        call_ensures(notification, (&ids, &n), s),
        call_ensures(ping_statistics, (&b,), l),
    ensures
        s@ == notified(ids, n),
        l.text() == statistics_text(statistics_in(b@)),
{
}

/// Joining.
pub proof fn law_joining(
    cfg: Config,
    k: usize,
    q: Option<Request>,
    first: JoinStep,
    state: JoinState,
    event: JoinEvent,
    step: JoinStep,
    a: u32,
    b: u32,
    c: u32,
    d: u32,
    s: u32,
)
    requires
        call_ensures(autostart, (&cfg, k), q),
        call_ensures(join, (), first),
        call_ensures(JoinState::step, (state, &cfg, event), step),
        call_ensures(join_status, (a, b, c, d), s),
    ensures
        q is Some <==> k < 5,
        q matches Some(x) ==> x@ == autostart_asks(cfg.used())[k as int],
        first@ == join_begins(),
        step@ == join_follows(state, cfg.used(), event),
        s == 0 <==> a == 0 && b == 0 && c == 0 && d == 0,
        a != 0 ==> s == a,
{
}

/// Range rounds.
pub proof fn law_rounds(
    prefix: Option<[u8; 8]>,
    fresh_probe: RangeProbe,
    probe: RangeProbe,
    s: RangeStep,
    event: RangeEvent,
    t: RangeStep,
)
    requires
        call_ensures(RangeProbe::new, (prefix,), fresh_probe),
        call_ensures(RangeProbe::range_tick, (probe,), s),
        call_ensures(RangeProbe::step, (probe, event), t),
    ensures
        fresh_probe.prefix is Some <==> prefix is Some,
        prefix is Some ==> fresh_probe@.prefix == Some(prefix->0@),
        fresh_probe@.wf() && fresh_probe@.replies_seen == 0 && fresh_probe@.line.len() == 0,
        s@ == range_begins(probe@),
        t@ == range_follows(probe@, event),
{
}

/// Lines for CPU2 and how they are carried out.
pub proof fn law_cpu2_lines(
    line: &str,
    own: bool,
    cmd: WpanCommand,
    b: WpanStep,
    outcome: &str,
    e: Say,
    state: u8,
    err: u8,
    marker: u32,
    f: WpanStep,
)
    requires
        call_ensures(owns, (line,), own),
        call_ensures(parse_line, (line,), cmd),
        call_ensures(begin, (cmd,), b),
        call_ensures(end, (cmd, outcome), e),
        call_ensures(fus_reported, (state, err, marker), f),
    ensures
        own <==> owned(line@),
        cmd == wpan_command(line@),
        b.say@ == begin_says(cmd),
        b.mark == begin_mark(cmd),
        e@ == end_says(cmd, outcome@),
        f.mark == report_mark(state, marker),
        f.mark is None ==> f.say@ == seq![fus_state_text(state, err)],
        f.mark is Some ==> f.say@ == seq![
            fus_state_text(state, err),
            "fus: idle, busy marker cleared\r\n"@,
        ],
{
}

/// Bring-up, the Thread stack, and the plan at boot.
pub proof fn law_boot(
    stage: Cpu2Stage,
    event: Cpu2Event,
    s: Cpu2Step,
    first: u32,
    info: Option<u32>,
    run: bool,
    cfg: Option<Config>,
    p: BootPlan,
    ready: Option<Result<u8, ()>>,
    code: u8,
)
    requires
        call_ensures(Cpu2Stage::step, (stage, event), s),
        call_ensures(thread_stack_running, (first, info), run),
        call_ensures(boot_plan, (&cfg, run), p),
        call_ensures(ready_code, (ready,), code),
    ensures
        s@ == cpu2_follows(stage, event),
        run <==> first != 0xA946_56B9 && info is Some && is_thread(info->0),
        p@ == plan_of(cfg, run),
        code == ready_byte(ready),
{
}

/// The snapshot, device info and versions.
pub proof fn law_tables(
    snap: [u32; 64],
    row: usize,
    l: heapless::String<224>,
    t: Say,
    raw: [u32; 16],
    info: DeviceInfo,
    i: Say,
    v: u32,
    w: (u8, u8, u8),
)
    requires
        row < 8,
        call_ensures(snapshot_row, (&snap, row), l),
        call_ensures(snapshot_table, (&snap,), t),
        call_ensures(print_info, (&raw, &info), i),
        call_ensures(version, (v,), w),
    ensures
        l.text() == row_text(row as int, Seq::new(8, |k: int| snap@[8 * row + k])),
        t@ == table_says(snap@),
        i@ == info_says(raw@, info),
        w == version_of(v),
{
    assert(Seq::new(8, |k: int| snap@[8 * row + k]) =~= snap@.subrange(row * 8, row * 8 + 8));
}

/// Console commands, the heartbeat, and hexadecimal arguments.
pub proof fn law_console(
    cmd: &str,
    c: ConsoleCommand,
    busy: bool,
    a: Option<&'static str>,
    stamp: &str,
    b: Beat,
    l: heapless::String<192>,
    w: Option<&str>,
    v: u32,
)
    requires
        call_ensures(handle_command, (cmd,), c),
        call_ensures(ConsoleCommand::answer, (&c, busy), a),
        call_ensures(heartbeat, (stamp, &b), l),
        call_ensures(parse_hex, (w,), v),
    ensures
        c@ == wish(cmd@),
        a is Some <==> answer_text(c@, busy) is Some,
        a matches Some(s) ==> Some(s@) == answer_text(c@, busy),
        l.text() == heartbeat_text(stamp@, b),
        w is None ==> v == 0,
        w matches Some(s) ==> v == hex_arg(Some(s@)),
{
}

/// The watchdog and the flash operation.
pub proof fn law_machines(
    pr: u8,
    r: u16,
    s: WatchdogStage,
    act: WatchdogAction,
    event: WatchdogEvent,
    t: WatchdogStage,
    op: FlashOp,
    f: FlashAction,
    o: WatchdogStage,
)
    requires
        pr < 8,
        call_ensures(watchdog_reload, (pr,), r),
        call_ensures(WatchdogStage::action, (s,), act),
        call_ensures(WatchdogStage::step, (s, event), t),
        call_ensures(FlashOp::action, (&op,), f),
        call_ensures(start_watchdog, (), o),
    ensures
        r == reload_for(pr as nat),
        act == watchdog_action(s),
        t == watchdog_next(s, event),
        f == action_of(op.stage),
        o == WatchdogStage::Start,
{
}

/// Numbers and bytes.
pub proof fn law_numbers(
    s: &str,
    base: u64,
    max: u64,
    u: Option<u64>,
    i: Option<i8>,
    x: u32,
    b: [u8; 4],
    y: u16,
    d: [u8; 2],
    v: i8,
    w: u32,
)
    requires
        2 <= base <= 16,
        call_ensures(parse_unsigned, (s, base, max), u),
        call_ensures(parse_signed_byte, (s,), i),
        call_ensures(u32_bytes, (x,), b),
        call_ensures(u16_bytes, (y,), d),
        call_ensures(extend, (v,), w),
    ensures
        u is Some <==> unsigned(s@, base as nat, max as nat) is Some,
        u matches Some(n) ==> Some(n as nat) == unsigned(s@, base as nat, max as nat),
        i is Some <==> signed_byte(s@) is Some,
        i matches Some(n) ==> Some(n as int) == signed_byte(s@),
        b@ == le32(x),
        d@ == le16(y),
        w == extended(v),
{
}

} // verus!
