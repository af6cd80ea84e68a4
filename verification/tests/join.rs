use sensor_board::config::Config;
use sensor_board::join::{autostart, join, join_status, JoinEvent, JoinNext, JoinStep};
use sensor_board::ot::{Arg, Fill, OtCall};
use sensor_board::ot_text::autostart_line;
use sensor_board::text::Say;

fn line(s: &JoinStep) -> Option<String> {
    match &s.say {
        Say::Nothing => None,
        Say::Line(l) => Some(l.as_str().to_string()),
        _ => panic!("another text"),
    }
}

#[test]
fn autostart_makes_five_calls() {
    let c = Config::new(&[1, 2, 3], 1);
    let q: Vec<_> = (0..5).map(|k| autostart(&c, k).unwrap()).collect();
    assert!(q[0].call == OtCall::InstanceInitSingle);
    assert!(q[1].call == OtCall::SetStateChangedCallback);
    assert!(q[2].call == OtCall::DatasetSetActiveTlvs);
    assert!(matches!(q[2].fill, Fill::Tlvs(b) if b[..4] == [1, 2, 3, 0] && b[254] == 3));
    assert!(q[3].call == OtCall::Ip6SetEnabled && q[3].first == Some(Arg::Word(1)));
    assert!(q[4].call == OtCall::ThreadSetEnabled && q[4].first == Some(Arg::Word(1)));
    assert!(autostart(&c, 5).is_none());
    assert_eq!(
        autostart_line(0, 7, 24, 13).as_str(),
        "ot: autostart: callback ok, dataset invalid-args, ip6 already, thread invalid-state\r\n"
    );
}

/// A join whose calls return the given values: its last step.
fn joined(returned: [u32; 5]) -> JoinStep {
    let c = Config::new(&[1, 2, 3], 1);
    let s = join();
    assert!(matches!(s.next, JoinNext::StartThread) && line(&s).is_none() && s.range.is_none());
    let mut s = s.state.step(&c, JoinEvent::Started("Ok(ShciSuccess)"));
    assert_eq!(line(&s).unwrap(), "wpan: autostart: thread init -> Ok(ShciSuccess)\r\n");
    for (k, value) in returned.iter().enumerate() {
        match &s.next {
            JoinNext::Call(q) => assert!(q.call == autostart(&c, k).unwrap().call),
            _ => panic!("no call"),
        }
        assert!(s.range.is_none());
        assert!(k == 0 || line(&s).is_none());
        s = s.state.step(&c, JoinEvent::Returned(*value));
    }
    s
}

#[test]
fn joining_ends_in_range_mode() {
    let s = joined([0x2000_0000, 0, 0, 0, 0]);
    assert_eq!(line(&s).unwrap(), "ot: autostart: callback ok, dataset ok, ip6 ok, thread ok\r\n");
    assert_eq!(s.range, Some(true));
    assert!(matches!(s.next, JoinNext::Done(0)));
}

#[test]
fn failed_join_tells_its_status() {
    let s = joined([0, 0, 7, 24, 13]);
    assert_eq!(
        line(&s).unwrap(),
        "ot: autostart: callback ok, dataset invalid-args, ip6 already, thread invalid-state\r\n"
    );
    assert_eq!(s.range, Some(true));
    assert!(matches!(s.next, JoinNext::Done(7)));
}

#[test]
fn join_statuses() {
    assert_eq!(join_status(0, 0, 0, 0), 0);
    assert_eq!(join_status(1, 2, 3, 4), 1);
    assert_eq!(join_status(0, 2, 3, 4), 2);
    assert_eq!(join_status(0, 0, 3, 4), 3);
    assert_eq!(join_status(0, 0, 0, 4), 4);
}
