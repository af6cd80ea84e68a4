use sensor_board::ot::{Fill, Held, OtCall, Reply, Request};
use sensor_board::ot_notify::{ping_reply, Pings};
use sensor_board::range::{
    RangeEvent, RangeNext, RangeProbe, RangeStep, LINK_ANSWERED, LINK_DETACHED, LINK_SILENT,
};
use sensor_board::text::Say;

const P: [u8; 8] = [0xfd, 1, 2, 3, 4, 5, 6, 7];

fn reply(value: u32) -> RangeEvent {
    RangeEvent::Reply(Reply { value, held: Held::Nothing })
}

fn held(value: u32, held: Held) -> RangeEvent {
    RangeEvent::Reply(Reply { value, held })
}

fn call_of(s: &RangeStep) -> Request {
    match &s.next {
        RangeNext::Call(q) | RangeNext::Ping(q) => *q,
        _ => panic!("no call"),
    }
}

fn line_of(s: &RangeStep) -> String {
    assert!(matches!(s.next, RangeNext::Done));
    match &s.say {
        Say::Line(l) => l.as_str().to_string(),
        Say::Nothing => String::new(),
        _ => panic!("another text"),
    }
}

fn neighbor(rloc: u16, avg: i8, last: i8) -> Held {
    let mut n = [0u8; 48];
    n[16..18].copy_from_slice(&rloc.to_le_bytes());
    n[29] = avg as u8;
    n[30] = last as u8;
    Held::Neighbor(n)
}

/// A round up to the end of the wait.
fn waited(role: u32, r: u32, before: u32, after: u32) -> RangeStep {
    let s = RangeProbe::new(Some(P)).range_tick();
    assert!(call_of(&s).call == OtCall::ThreadGetDeviceRole);
    let s = s.probe.step(reply(role));
    let q = call_of(&s);
    assert!(q.call == OtCall::PingSenderPing && matches!(s.next, RangeNext::Ping(_)));
    match q.fill {
        Fill::Ping(c) => {
            assert_eq!(&c[16..32], &[0xfd, 1, 2, 3, 4, 5, 6, 7, 0, 0, 0, 0xff, 0xfe, 0, 0xfc, 0]);
            assert_eq!(&c[46..48], &[1, 0]);
            assert_eq!(&c[52..54], &[0x84, 3]);
        }
        _ => panic!("not filled"),
    }
    let s = s.probe.step(RangeEvent::Pinged { before, r });
    assert!(matches!(s.next, RangeNext::Wait(1200)));
    let s = s.probe.step(RangeEvent::Waited { replies: after });
    assert_eq!(s.probe.replies_seen, after);
    s
}

#[test]
fn detached_board() {
    for (role, name) in [(0, "disabled"), (1, "detached")] {
        let s = RangeProbe::new(None).range_tick().probe.step(reply(role));
        assert_eq!(s.link, Some(LINK_DETACHED));
        assert_eq!(line_of(&s), format!("range: role {name} (not attached)\r\n"));
    }
}

#[test]
fn child_with_a_reply() {
    let s = waited(2, 0, 7, 8);
    assert_eq!(s.link, Some(LINK_ANSWERED));
    assert!(call_of(&s).call == OtCall::ThreadGetParentAverageRssi);
    let s = s.probe.step(held(0, Held::Iter([0xce, 0, 0, 0])));
    assert!(call_of(&s).call == OtCall::ThreadGetParentLastRssi);
    let s = s.probe.step(held(0, Held::Iter([0x80, 0, 0, 0])));
    assert!(matches!(s.next, RangeNext::RoundTrip));
    let s = s.probe.step(RangeEvent::RoundTrip(42));
    assert_eq!(line_of(&s), "range: role child parent rssi -50/-128 dBm | leader ping 42 ms\r\n");
}

#[test]
fn child_without_a_reply_or_a_parent() {
    let s = waited(2, 0, 7, 7);
    assert_eq!(s.link, Some(LINK_SILENT));
    let s = s.probe.step(held(1, Held::Iter([0; 4])));
    let s = s.probe.step(held(0, Held::Iter([0; 4])));
    assert_eq!(line_of(&s), "range: role child | leader ping: no reply\r\n");
}

#[test]
fn failed_ping_is_named() {
    let s = waited(2, 3, 7, 9);
    assert_eq!(s.link, Some(LINK_ANSWERED));
    let s = s.probe.step(held(1, Held::Iter([0; 4])));
    let s = s.probe.step(held(1, Held::Iter([0; 4])));
    assert_eq!(line_of(&s), "range: role child | ping -> no-bufs\r\n");
}

#[test]
fn router_lists_its_neighbors() {
    let s = waited(3, 0, u32::MAX, 0);
    assert_eq!(s.link, Some(LINK_ANSWERED));
    assert!(call_of(&s).call == OtCall::ThreadGetNextNeighborInfo);
    assert!(matches!(call_of(&s).fill, Fill::Iter([0, 0, 0, 0])));
    let s = s.probe.step(held(0, neighbor(0x400, -40, 5)));
    assert!(matches!(call_of(&s).fill, Fill::Nothing));
    let s = s.probe.step(held(0, neighbor(0xfffe, -41, -42)));
    let s = s.probe.step(held(23, neighbor(0, 0, 0)));
    let s = s.probe.step(RangeEvent::RoundTrip(1));
    assert_eq!(
        line_of(&s),
        "range: role router neighbors 0x0400 -40/5 dBm 0xfffe -41/-42 dBm | leader ping 1 ms\r\n"
    );
}

#[test]
fn leader_without_neighbors() {
    let s = waited(4, 0, 1, 1);
    let s = s.probe.step(held(23, neighbor(0, 0, 0)));
    assert_eq!(line_of(&s), "range: role leader neighbors none | leader ping: no reply\r\n");
}

/// A round of a leader with the given neighbors, without a reply: its texts.
fn leader_texts(r: u32, neighbors: &[Held]) -> Vec<String> {
    let mut s = waited(4, r, 1, 1);
    let mut out = vec![];
    for n in neighbors {
        assert!(call_of(&s).call == OtCall::ThreadGetNextNeighborInfo);
        s = s.probe.step(held(0, *n));
        out.extend(texts_of(&s));
    }
    s = s.probe.step(held(23, neighbor(0, 0, 0)));
    assert!(matches!(s.next, RangeNext::Done));
    out.extend(texts_of(&s));
    out
}

fn texts_of(s: &RangeStep) -> Vec<String> {
    match &s.say {
        Say::Nothing => vec![],
        Say::Line(l) => vec![l.as_str().to_string()],
        Say::Two(a, b) => vec![a.as_str().to_string(), b.as_str().to_string()],
        _ => panic!("another text"),
    }
}

#[test]
fn every_neighbor_is_reported() {
    for k in [1usize, 7, 8, 9, 10, 17, 40, 300] {
        let n: Vec<Held> = (0..k).map(|i| neighbor(i as u16, -100, (i % 128) as i8)).collect();
        let mut want = String::from("range: role leader neighbors");
        for i in 0..k {
            want.push_str(&format!(" 0x{:04x} -100/{} dBm", i, i % 128));
        }
        want.push_str(" | leader ping: no reply\r\n");
        let out = leader_texts(0, &n);
        assert_eq!(out.concat(), want);
        assert!(out.iter().all(|t| t.len() <= 224));
        assert!(k > 8 || out.len() == 1);
    }
}

#[test]
fn longest_report_of_eight_neighbors_fills_a_line() {
    let out = leader_texts(12, &[neighbor(0xffff, -128, -128); 8]);
    assert_eq!(out.len(), 1);
    assert_eq!(out[0].len(), 224);
    assert!(out[0].ends_with(" | ping -> not-implemented\r\n"));
}

#[test]
fn ninth_neighbor_stays_in_the_line_and_the_end_follows() {
    let out = leader_texts(0, &[neighbor(1, -100, -100); 9]);
    assert_eq!(out.len(), 2);
    assert_eq!(out[0].len(), 28 + 9 * 21);
    assert_eq!(out[1], " | leader ping: no reply\r\n");
}

#[test]
fn tenth_neighbor_starts_a_new_part() {
    let out = leader_texts(0, &[neighbor(1, -100, -100); 10]);
    assert_eq!(out.len(), 2);
    assert_eq!(out[0].len(), 28 + 9 * 21);
    assert_eq!(out[1], " 0x0001 -100/-100 dBm | leader ping: no reply\r\n");
}

#[test]
fn prefix_is_learned_once() {
    let s = RangeProbe::new(None).range_tick().probe.step(reply(4));
    assert!(call_of(&s).call == OtCall::ThreadGetMeshLocalEid);
    let s = s.probe.step(reply(0x2000_0000));
    assert!(matches!(s.next, RangeNext::Read(0x2000_0000)));
    let mut a = [9u8; 16];
    a[..8].copy_from_slice(&P);
    let s = s.probe.step(RangeEvent::Memory(a));
    assert_eq!(s.probe.prefix, Some(P));
    assert!(matches!(s.next, RangeNext::Ping(_)));
    let s = s.probe.range_tick().probe.step(reply(4));
    assert!(matches!(s.next, RangeNext::Ping(_)));
}

#[test]
fn no_prefix_no_ping() {
    let s = RangeProbe::new(None).range_tick().probe.step(reply(2));
    let s = s.probe.step(reply(0x0800_0000));
    assert_eq!(line_of(&s), "");
    assert_eq!(s.link, Some(LINK_SILENT));
    assert!(s.probe.prefix.is_none());
}

#[test]
fn counted_reply_shows_in_the_link() {
    let mut p = Pings { replies: 0, last_rtt: 0, pulse: false };
    let before = p.replies;
    let mut b = [0u8; 24];
    b[16] = 33;
    let _ = ping_reply(&b, &mut p);
    let s = waited(4, 0, before, p.replies);
    assert_eq!(s.link, Some(LINK_ANSWERED));
    let s = s.probe.step(held(1, neighbor(0, 0, 0)));
    let s = s.probe.step(RangeEvent::RoundTrip(p.last_rtt));
    assert_eq!(line_of(&s), "range: role leader neighbors none | leader ping 33 ms\r\n");
}
