use sensor_board::ot_notify::{
    notification, ping_reply, ping_statistics, NotifyIds, NotifyStep, OtNotification, Pings,
};

const IDS: NotifyIds = NotifyIds { state_change: 10, ping_reply: 20, ping_statistics: 30 };

fn printed(id: u32, data0: u32, data1: u32) -> String {
    match notification(&IDS, &OtNotification { id, size: 2, data0, data1 }) {
        NotifyStep::Print(l) => l.as_str().to_string(),
        _ => panic!("nothing printed"),
    }
}

#[test]
fn state_changes_are_named() {
    assert_eq!(printed(10, 0, 0), "ot: state changed 0x00000000\r\n");
    assert_eq!(printed(10, 0x0245, 0), "ot: state changed 0x00000245 ip6-addr role netdata child\r\n");
    assert_eq!(printed(10, 0x10000004, 0), "ot: state changed 0x10000004 role\r\n");
}

#[test]
fn other_notifications_are_dumped() {
    assert_eq!(printed(77, 0x12, 0xdeadbeef), "ot: notification 77 size 2 data 00000012 deadbeef\r\n");
}

#[test]
fn ping_reply_is_read_where_it_can_be() {
    let n = OtNotification { id: 20, size: 1, data0: 0x2000_0100, data1: 0 };
    assert!(matches!(notification(&IDS, &n), NotifyStep::ReadReply(0x2000_0100)));
    assert_eq!(printed(20, 0x0800_0000, 0), "ot: ping reply @0x08000000\r\n");
}

#[test]
fn statistics_are_read_where_they_can_be() {
    let n = OtNotification { id: 30, size: 1, data0: 0x2003_ffff, data1: 0 };
    assert!(matches!(notification(&IDS, &n), NotifyStep::ReadStatistics(0x2003_ffff)));
    let n = OtNotification { data0: 0, ..n };
    assert!(matches!(notification(&IDS, &n), NotifyStep::Nothing));
}

#[test]
fn ping_reply_is_counted() {
    let mut b = [0u8; 24];
    b[0] = 0xfd;
    b[15] = 2;
    b[16..18].copy_from_slice(&345u16.to_le_bytes());
    b[18..20].copy_from_slice(&8u16.to_le_bytes());
    b[20..22].copy_from_slice(&65535u16.to_le_bytes());
    b[22] = 64;
    let mut p = Pings { replies: 5, last_rtt: 0, pulse: false };
    let l = ping_reply(&b, &mut p);
    assert_eq!(
        l.as_str(),
        "ot: ping reply from fd00:0:0:0:0:0:0:2: 8 bytes seq 65535 hop 64 rtt 345 ms\r\n"
    );
    assert_eq!((p.replies, p.last_rtt, p.pulse), (6, 345, true));
    p.replies = u32::MAX;
    let _ = ping_reply(&b, &mut p);
    assert_eq!(p.replies, 0);
}

#[test]
fn statistics_are_printed() {
    let mut b = [0u8; 16];
    b[0] = 10;
    b[2] = 9;
    b[4..8].copy_from_slice(&100_000u32.to_le_bytes());
    b[8..10].copy_from_slice(&12u16.to_le_bytes());
    b[10..12].copy_from_slice(&40_000u16.to_le_bytes());
    assert_eq!(
        ping_statistics(&b).as_str(),
        "ot: ping done: 10 sent, 9 received, rtt min 12 max 40000 total 100000 ms\r\n"
    );
}
