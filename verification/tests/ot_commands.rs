use sensor_board::config::Config;
use sensor_board::flash::FlashError;
use sensor_board::ot::{err_name, get_active_tlvs, role_name, set_active_tlvs};
use sensor_board::ot::{Arg, Block, Fill, Held, OtCall, Reply, Request};
use sensor_board::ot_command::{command, OtEvent, OtNext, OtStep};
use sensor_board::text::Say;

fn texts(say: &Say) -> Vec<String> {
    match say {
        Say::Nothing => vec![],
        Say::Fixed(s) => vec![s.to_string()],
        Say::Line(l) => vec![l.as_str().to_string()],
        Say::Then(l, s) => vec![l.as_str().to_string(), s.to_string()],
        Say::Two(a, b) => vec![a.as_str().to_string(), b.as_str().to_string()],
        Say::Long(a, b) => vec![a.as_str().to_string(), b.as_str().to_string()],
    }
}

fn call_of(s: &OtStep) -> Request {
    match &s.next {
        OtNext::Call(q) => *q,
        _ => panic!("no call"),
    }
}

fn reply(value: u32) -> OtEvent {
    OtEvent::Reply(Reply { value, held: Held::Nothing })
}

fn held(value: u32, held: Held) -> OtEvent {
    OtEvent::Reply(Reply { value, held })
}

fn done(s: &OtStep) -> Vec<String> {
    assert!(matches!(s.next, OtNext::Done));
    texts(&s.say)
}

fn block(tlvs: &[u8]) -> [u8; 256] {
    let mut b = [0u8; 256];
    b[..tlvs.len()].copy_from_slice(tlvs);
    b[254] = tlvs.len() as u8;
    b
}

#[test]
fn init_makes_two_calls() {
    let s = command("ot init");
    let q = call_of(&s);
    assert!(q.call == OtCall::InstanceInitSingle && q.first.is_none());
    let s = s.state.step(reply(0x2000_1234));
    let q = call_of(&s);
    assert!(q.call == OtCall::SetStateChangedCallback && q.first == Some(Arg::Word(0)));
    let s = s.state.step(reply(24));
    assert_eq!(done(&s), ["ot: instance 0x20001234, state callback -> already\r\n"]);
}

#[test]
fn save_stores_the_active_dataset() {
    let s = command("ot save");
    let q = call_of(&s);
    assert!(q.call == OtCall::DatasetGetActiveTlvs && q.first == Some(Arg::At(Block::Tlvs)));
    assert!(q.read == Some(Block::Tlvs));
    let s = s.state.step(held(0, Held::Tlvs(block(&[7, 1, 9]))));
    match &s.next {
        OtNext::Save(c) => {
            assert_eq!(c.tlvs(), &[7, 1, 9]);
            assert!(c.autostart() && !c.keepalive());
        }
        _ => panic!("not saved"),
    }
    let s = s.state.step(OtEvent::Flashed(Ok(())));
    assert_eq!(done(&s), ["ot: saved 3 byte dataset with autostart -> Ok(())\r\n"]);
    assert!(s.relay.is_none() && s.range.is_none());
}

#[test]
fn save_without_a_dataset() {
    let s = command("ot save").state.step(held(23, Held::Tlvs([0; 256])));
    assert_eq!(done(&s), ["ot: no active dataset (not-found)\r\n"]);
}

#[test]
fn flash_outcomes_are_named() {
    let cases = [
        (FlashError::Prog, "Prog"),
        (FlashError::Size, "Size"),
        (FlashError::Miss, "Miss"),
        (FlashError::Sequence, "Seq"),
        (FlashError::Protected, "Protected"),
        (FlashError::Unaligned, "Unaligned"),
        (FlashError::Parallelism, "Parallelism"),
    ];
    for (e, name) in cases {
        let s = command("ot forget");
        assert!(matches!(s.next, OtNext::Erase));
        let s = s.state.step(OtEvent::Flashed(Err(e)));
        assert_eq!(done(&s), [format!("ot: config erased -> Err({name})\r\n")]);
        assert_eq!(s.range, Some(false));
    }
}

#[test]
fn keepalive_changes_one_flag() {
    let s = command("ot keepalive");
    assert!(matches!(s.next, OtNext::Load));
    let s = s.state.step(OtEvent::Loaded(Some(Config::new(&[4, 5], 1))));
    match &s.next {
        OtNext::Save(c) => {
            assert_eq!(c.flags, 3);
            assert_eq!(c.tlvs(), &[4, 5]);
        }
        _ => panic!("not saved"),
    }
    assert!(s.relay.is_none());
    let s = s.state.step(OtEvent::Flashed(Ok(())));
    assert_eq!(s.relay, Some(true));
    assert_eq!(done(&s), ["ot: keepalive on (relay load) -> Ok(())\r\n"]);

    let s = command("ot keepalive off").state.step(OtEvent::Loaded(Some(Config::new(&[], 3))));
    assert!(matches!(&s.next, OtNext::Save(c) if c.flags == 1));
    let s = s.state.step(OtEvent::Flashed(Err(FlashError::Unaligned)));
    assert_eq!(s.relay, Some(false));
    assert_eq!(done(&s), ["ot: keepalive off (relay load) -> Err(Unaligned)\r\n"]);
}

#[test]
fn keepalive_without_a_config() {
    let s = command("ot keepalive").state.step(OtEvent::Loaded(None));
    assert_eq!(done(&s), ["ot: no config stored; run `ot save` first\r\n"]);
    assert!(s.relay.is_none());
}

#[test]
fn txpower_reads_the_power() {
    let s = command("ot txpower");
    let q = call_of(&s);
    assert!(q.call == OtCall::RadioGetTransmitPower && q.read == Some(Block::Iter));
    assert!(matches!(q.fill, Fill::Iter([0x7f, 0x7f, 0x7f, 0x7f])));
    let s = s.state.step(held(0, Held::Iter([0xf6, 0, 0, 0])));
    assert_eq!(done(&s), ["ot: tx power -10 dBm (ok)\r\n"]);
}

#[test]
fn txpower_sets_and_reads_the_power() {
    let s = command("ot txpower -40");
    let q = call_of(&s);
    assert!(q.call == OtCall::RadioSetTransmitPower);
    assert!(q.first == Some(Arg::Word(0xFFFF_FFD8)));
    let s = s.state.step(reply(7));
    assert_eq!(texts(&s.say), ["ot: set tx power -40 dBm -> invalid-args\r\n"]);
    assert!(call_of(&s).call == OtCall::RadioGetTransmitPower);
    let s = s.state.step(held(12, Held::Iter([6, 0, 0, 0])));
    assert_eq!(done(&s), ["ot: tx power 6 dBm (not-implemented)\r\n"]);
}

#[test]
fn txpower_with_no_number_only_reads() {
    assert!(call_of(&command("ot txpower loud")).call == OtCall::RadioGetTransmitPower);
    assert!(call_of(&command("ot txpower 128")).call == OtCall::RadioGetTransmitPower);
    let q = call_of(&command("ot txpower 6"));
    assert!(q.call == OtCall::RadioSetTransmitPower && q.first == Some(Arg::Word(6)));
}

#[test]
fn config_is_shown() {
    let t = [7, 8, 0xfd, 0, 0, 1, 0, 2, 0, 3];
    let s = command("ot config").state.step(OtEvent::Loaded(Some(Config::new(&t, 1))));
    assert_eq!(
        done(&s),
        ["ot: config: 10 byte dataset, autostart true, keepalive false, mesh-local prefix fd00:1:2:3:0:0:0:0\r\n"]
    );
    let s = command("ot config").state.step(OtEvent::Loaded(Some(Config::new(&[], 2))));
    assert_eq!(
        done(&s),
        ["ot: config: 0 byte dataset, autostart false, keepalive true, mesh-local prefix ?\r\n"]
    );
    let s = command("ot config").state.step(OtEvent::Loaded(None));
    assert_eq!(done(&s), ["ot: no config stored\r\n"]);
}

#[test]
fn range_mode_is_switched() {
    let s = command("ot range");
    assert_eq!(s.range, Some(true));
    assert_eq!(done(&s), ["ot: range mode on\r\n"]);
    let s = command("ot range off");
    assert_eq!(s.range, Some(false));
    assert_eq!(done(&s), ["ot: range mode off\r\n"]);
    assert_eq!(command("ot range offf").range, Some(true));
}

#[test]
fn new_network() {
    let s = command("ot new");
    let q = call_of(&s);
    assert!(q.call == OtCall::DatasetCreateNewNetwork && q.first == Some(Arg::At(Block::Dataset)));
    let s = s.state.step(reply(0));
    assert!(call_of(&s).call == OtCall::DatasetSetActive);
    let s = s.state.step(reply(13));
    assert_eq!(done(&s), ["ot: create new network -> ok, set active -> invalid-state\r\n"]);
}

#[test]
fn tlvs_are_printed_in_hex() {
    let s = command("ot tlvs").state.step(held(0, Held::Tlvs(block(&[0, 0x0f, 0xa5]))));
    assert_eq!(done(&s), ["ot: active tlvs -> ok (3 bytes)\r\n", "ottlvs 000fa5\r\n"]);
    let s = command("ot tlvs").state.step(held(4, Held::Tlvs([0; 256])));
    assert_eq!(done(&s), ["ot: active tlvs -> no-route\r\n"]);
    let s = command("ot tlvs").state.step(held(0, Held::Tlvs(block(&[]))));
    assert_eq!(done(&s), ["ot: active tlvs -> ok (0 bytes)\r\n", "ottlvs \r\n"]);
}

#[test]
fn longest_datasets_are_cut() {
    let mut b = [0x11u8; 256];
    for (n, len, whole) in [(251u8, 511usize, true), (252, 511, false), (253, 511, false), (255, 511, false)] {
        b[254] = n;
        let s = command("ot tlvs").state.step(held(0, Held::Tlvs(b)));
        let t = done(&s);
        assert_eq!(t[1].len(), len, "{n}");
        assert_eq!(t[1].ends_with("\r\n"), whole);
    }
    b[254] = 255;
    let s = command("ot tlvs").state.step(held(0, Held::Tlvs(b)));
    assert_eq!(done(&s)[0], "ot: active tlvs -> ok (254 bytes)\r\n");
    b[252] = 1;
    let s = command("ot tlvs").state.step(held(0, Held::Tlvs(b)));
    assert_eq!(done(&s)[1].len(), 512);
    assert!(done(&s)[1].ends_with("0"));
}

#[test]
fn printed_dataset_is_read_back() {
    let tlvs: Vec<u8> = (0..252u32).map(|i| (i * 37 + 5) as u8).collect();
    let s = command("ot tlvs").state.step(held(0, Held::Tlvs(block(&tlvs))));
    let line = done(&s)[1].clone();
    let s = command(&format!("ot settlvs {}", line.split_whitespace().nth(1).unwrap()));
    let q = call_of(&s);
    assert!(q.call == OtCall::DatasetSetActiveTlvs && q.first == Some(Arg::At(Block::Tlvs)));
    match q.fill {
        Fill::Tlvs(b) => assert_eq!(b, block(&tlvs)),
        _ => panic!("not filled"),
    }
    let s = s.state.step(reply(0));
    assert_eq!(done(&s), ["ot: set active tlvs (252 bytes) -> ok\r\n"]);
}

#[test]
fn settlvs_without_hex_sets_nothing() {
    let s = command("ot settlvs");
    assert!(matches!(call_of(&s).fill, Fill::Tlvs(b) if b == [0; 256]));
    let s = s.state.step(reply(6));
    assert_eq!(done(&s), ["ot: set active tlvs (0 bytes) -> parse\r\n"]);
    assert!(matches!(call_of(&command("ot settlvs ")).fill, Fill::Tlvs(b) if b == [0; 256]));
}

#[test]
fn up_and_down_go_in_opposite_order() {
    let s = command("ot up");
    let q = call_of(&s);
    assert!(q.call == OtCall::Ip6SetEnabled && q.first == Some(Arg::Word(1)));
    let s = s.state.step(reply(0));
    let q = call_of(&s);
    assert!(q.call == OtCall::ThreadSetEnabled && q.first == Some(Arg::Word(1)));
    assert_eq!(done(&s.state.step(reply(5))), ["ot: ip6 up -> ok, thread start -> busy\r\n"]);

    let s = command("ot down");
    let q = call_of(&s);
    assert!(q.call == OtCall::ThreadSetEnabled && q.first == Some(Arg::Word(0)));
    let s = s.state.step(reply(1));
    let q = call_of(&s);
    assert!(q.call == OtCall::Ip6SetEnabled && q.first == Some(Arg::Word(0)));
    assert_eq!(done(&s.state.step(reply(99))), ["ot: thread stop -> failed, ip6 down -> error\r\n"]);
}

fn info(eid: u32) -> OtStep {
    let mut s = command("ot role");
    let calls = [
        OtCall::ThreadGetDeviceRole,
        OtCall::ThreadGetRloc16,
        OtCall::LinkGetChannel,
        OtCall::LinkGetPanid,
        OtCall::DatasetIsCommissioned,
        OtCall::ThreadGetMeshLocalEid,
    ];
    for (call, value) in calls.iter().zip([4, 0xABCD_0400, 0x10F, 0x1_00FF, 3, eid]) {
        assert!(call_of(&s).call == *call);
        s = s.state.step(reply(value));
    }
    s
}

#[test]
fn info_shows_the_device() {
    let s = info(0x2003_0010);
    assert!(matches!(s.next, OtNext::Read(0x2003_0010)));
    let mut a = [0u8; 16];
    a[0] = 0xfd;
    a[15] = 0x1f;
    let s = s.state.step(OtEvent::Memory(a));
    assert_eq!(
        done(&s),
        ["ot: role leader rloc16 0x0400 channel 15 panid 0x00ff commissioned 1 mleid fd00:0:0:0:0:0:0:1f\r\n"]
    );
}

#[test]
fn info_shows_an_address_that_cannot_be_read() {
    let s = info(0x2004_0000);
    assert_eq!(
        done(&s),
        ["ot: role leader rloc16 0x0400 channel 15 panid 0x00ff commissioned 1 mleid @0x20040000\r\n"]
    );
}

fn neighbor() -> [u8; 48] {
    let mut n = [0u8; 48];
    n[..8].copy_from_slice(&[1, 2, 3, 4, 0xa0, 0xb0, 0xc0, 0xd0]);
    n[8] = 0x10;
    n[9] = 0x27;
    n[16] = 0x01;
    n[17] = 0x04;
    n[28] = 3;
    n[29] = 0xc4;
    n[30] = 0xba;
    n[31] = 40;
    n[38] = 0x0a;
    n
}

const NEIGHBOR: &str =
    "ot: neighbor rloc16 0x0401 ext 01020304a0b0c0d0 age 10000s lqi 3 rssi avg -60 last -70 dBm margin 40 dB ftd child\r\n";

#[test]
fn neighbors_are_listed() {
    let s = command("ot neighbors");
    let q = call_of(&s);
    assert!(q.call == OtCall::ThreadGetNextNeighborInfo);
    assert!(q.first == Some(Arg::At(Block::Iter)) && q.second == Some(Arg::At(Block::Neighbor)));
    assert!(matches!(q.fill, Fill::Iter([0, 0, 0, 0])));
    let s = s.state.step(held(0, Held::Neighbor(neighbor())));
    assert_eq!(texts(&s.say), [NEIGHBOR]);
    assert!(matches!(call_of(&s).fill, Fill::Nothing));
    let mut n = neighbor();
    n[38] = 0;
    let s = s.state.step(held(0, Held::Neighbor(n)));
    assert_eq!(texts(&s.say), [NEIGHBOR.replace("ftd child", "mtd router")]);
    let s = s.state.step(held(23, Held::Neighbor(n)));
    assert_eq!(done(&s), ["ot: 2 neighbor(s)\r\n"]);
}

#[test]
fn neighbors_stop_after_seventeen() {
    let mut s = command("ot neighbors");
    let mut lines = 0;
    while let OtNext::Call(_) = s.next {
        s = s.state.step(held(0, Held::Neighbor(neighbor())));
        lines += texts(&s.say).len();
    }
    assert_eq!(lines, 18);
    assert_eq!(done(&s), [NEIGHBOR, "ot: 17 neighbor(s)\r\n"]);
}

#[test]
fn parent_rssi_is_shown_when_both_calls_succeed() {
    let s = command("ot parent");
    let q = call_of(&s);
    assert!(q.call == OtCall::ThreadGetParentAverageRssi);
    assert!(matches!(q.fill, Fill::Iter([0, 0, 0, 0])));
    let s = s.state.step(held(0, Held::Iter([0xce, 0, 0, 0])));
    let q = call_of(&s);
    assert!(q.call == OtCall::ThreadGetParentLastRssi && matches!(q.fill, Fill::Nothing));
    let t = s.state.step(held(0, Held::Iter([0xcd, 0, 0, 0])));
    assert_eq!(done(&t), ["ot: parent rssi avg -50 dBm last -51 dBm\r\n"]);
    let t = s.state.step(held(1, Held::Iter([0xcd, 0, 0, 0])));
    assert_eq!(done(&t), ["ot: no parent\r\n"]);
    let s = command("ot parent").state.step(held(1, Held::Iter([0; 4])));
    assert_eq!(done(&s.state.step(held(0, Held::Iter([0; 4])))), ["ot: no parent\r\n"]);
}

#[test]
fn ping_fills_the_sender_config() {
    let s = command("ot ping fd00::1 500");
    let q = call_of(&s);
    assert!(q.call == OtCall::PingSenderPing && q.first == Some(Arg::At(Block::Ping)));
    let c = match q.fill {
        Fill::Ping(c) => c,
        _ => panic!("not filled"),
    };
    let mut want = [0u8; 64];
    want[16] = 0xfd;
    want[31] = 1;
    want[32] = 1;
    want[36] = 1;
    want[46] = 0xf4;
    want[47] = 1;
    want[48] = 0xe8;
    want[49] = 3;
    assert_eq!(c, want);
    assert_eq!(done(&s.state.step(reply(0))), ["ot: ping 500x -> ok\r\n"]);
}

#[test]
fn ping_count_defaults_to_three() {
    for line in ["ot ping ::1", "ot ping ::1 many", "ot ping ::1 65536"] {
        assert_eq!(done(&command(line).state.step(reply(11))), ["ot: ping 3x -> abort\r\n"]);
    }
}

#[test]
fn ping_without_an_address() {
    for line in ["ot ping", "ot ping leader", "ot ping 1:2"] {
        assert_eq!(done(&command(line)), ["ot: ping <ipv6>\r\n"]);
    }
}

#[test]
fn anything_else_is_help() {
    for line in ["ot", "ot help", "ot INIT", ""] {
        let t = done(&command(line));
        assert!(t[0].starts_with("ot: init | new | tlvs | settlvs <hex> | up | down | info | neighbors | parent | "));
        assert!(t[0].ends_with("| save | forget | config | range [off] | keepalive [off] | txpower [dBm]\r\n"));
    }
}

#[test]
fn error_and_role_names() {
    let errors = [
        (0, "ok"), (1, "failed"), (2, "drop"), (3, "no-bufs"), (4, "no-route"), (5, "busy"), (6, "parse"),
        (7, "invalid-args"), (8, "security"), (9, "error"), (10, "error"), (11, "abort"), (12, "not-implemented"),
        (13, "invalid-state"), (14, "no-ack"), (15, "error"), (16, "detached"), (23, "not-found"), (24, "already"),
        (25, "error"),
    ];
    for (e, name) in errors {
        assert_eq!(err_name(e), name);
    }
    for (r, name) in [(0, "disabled"), (1, "detached"), (2, "child"), (3, "router"), (4, "leader"), (5, "?")] {
        assert_eq!(role_name(r), name);
    }
}

#[test]
fn dataset_block_is_read_back() {
    let q = set_active_tlvs(&[3; 300]);
    let b = match q.fill {
        Fill::Tlvs(b) => b,
        _ => panic!("not filled"),
    };
    assert_eq!(b[254], 254);
    assert_eq!(get_active_tlvs(0, &b).unwrap().as_slice(), &[3; 254]);
    assert!(get_active_tlvs(8, &b) == Err(8));
}
