use sensor_board::housekeeping::{wants_pulse, watchdog_housekeeping, Chores, Housekeeping, Led, Seen};
use sensor_board::packets::write_all;
use sensor_board::usb_device::{
    clock_report, handle_command, heartbeat, Beat, Clocks, Console, ConsoleCommand, Pacer,
};

fn type_in(c: &mut Console, bytes: &[u8]) -> Vec<ConsoleCommand> {
    bytes.iter().filter_map(|b| c.feed(*b)).collect()
}

#[test]
fn typed_lines_are_obeyed() {
    let mut c = Console::new();
    let r = type_in(&mut c, b"dfu\rhang\n status \r\n");
    assert_eq!(r.len(), 3);
    assert!(matches!(r[0], ConsoleCommand::Dfu));
    assert!(matches!(r[1], ConsoleCommand::Hang));
    assert!(matches!(r[2], ConsoleCommand::Status));
    assert_eq!(c.line.as_str(), "");
}

#[test]
fn line_is_put_together_from_packets() {
    let mut c = Console::new();
    assert!(type_in(&mut c, b"  ot pi").is_empty());
    assert_eq!(c.line.as_str(), "  ot pi");
    let r = type_in(&mut c, b"ng ::1 \r");
    assert!(matches!(&r[0], ConsoleCommand::Forward(l) if l.as_str() == "ot ping ::1"));
}

#[test]
fn blank_lines_ask_for_nothing() {
    let mut c = Console::new();
    assert!(type_in(&mut c, b"\r\n \t\r\n").is_empty());
}

#[test]
fn overlong_line_loses_its_end() {
    let mut c = Console::new();
    assert!(type_in(&mut c, b"ot ").is_empty());
    assert!(type_in(&mut c, &[b'a'; 600]).is_empty());
    assert_eq!(c.line.len(), 512);
    let r = type_in(&mut c, b"\n");
    assert!(matches!(&r[0], ConsoleCommand::Forward(l) if l.len() == 512));
}

#[test]
fn bytes_beyond_ascii_take_two() {
    let mut c = Console::new();
    assert!(type_in(&mut c, &[b'x'; 511]).is_empty());
    assert!(c.feed(0xe9).is_none());
    assert_eq!(c.line.len(), 511);
    assert!(c.feed(b'y').is_none());
    assert_eq!(c.line.len(), 512);
    let mut c = Console::new();
    let _ = c.feed(0xe9);
    assert_eq!(c.line.as_str(), "\u{e9}");
}

#[test]
fn line_beyond_ascii_is_obeyed() {
    let mut c = Console::new();
    let mut bytes = b"ot ".to_vec();
    bytes.extend([0xe9; 254]);
    assert!(type_in(&mut c, &bytes).is_empty());
    let r = type_in(&mut c, b"\r");
    let want = format!("ot {}", "\u{e9}".repeat(254));
    assert!(matches!(&r[0], ConsoleCommand::Forward(l) if l.as_str() == want));
    assert_eq!(c.line.as_str(), "");
}

#[test]
fn longest_clock_report_is_whole() {
    let c = Clocks {
        sws: 1,
        pllsrc: 2,
        clk48sel: 1,
        rtcsel: 3,
        hse_rdy: false,
        lse_rdy: false,
        msi_on: false,
        hsi16_on: false,
        hsi48_on: false,
        pr: 7,
        rl: 4095,
    };
    let mut l = heapless::String::new();
    clock_report(&c, &mut l);
    assert_eq!(l.len(), 150);
    assert!(l.as_str().ends_with(" rl=4095\r\n"));
}

#[test]
fn commands_are_answered() {
    let cases = [
        ("dfu", Some("\r\nrebooting into DFU\r\n")),
        ("hang", Some("\r\nhanging; watchdog should fire in 4 s\r\n")),
        ("status", None),
        ("wpan info", None),
        ("help", Some("? (dfu, hang, wpan info, fus ..., thread init, ot <cli>)\r\n")),
        ("dfu now", Some("? (dfu, hang, wpan info, fus ..., thread init, ot <cli>)\r\n")),
    ];
    for (cmd, want) in cases {
        assert_eq!(handle_command(cmd).answer(false), want, "{cmd}");
    }
    assert_eq!(handle_command("fus state").answer(true), Some("wpan: busy\r\n"));
    assert_eq!(handle_command("status").answer(true), None);
}

#[test]
fn line_too_long_to_forward_arrives_empty() {
    let cmd = format!("ot {}", "x".repeat(510));
    assert!(matches!(handle_command(&cmd), ConsoleCommand::Forward(l) if l.is_empty()));
    let cmd = format!("ot {}", "x".repeat(509));
    assert!(matches!(handle_command(&cmd), ConsoleCommand::Forward(l) if l.as_str() == cmd));
}

#[test]
fn heartbeat_line() {
    let b = Beat { uptime_ms: 123_456, time: Some((9, 8, 7)), ss: 128, pressed: false };
    assert_eq!(
        heartbeat("today", &b).as_str(),
        "sensor-board (built today) alive: uptime 123456ms rtc 09:08:07.496 button up\r\n"
    );
    let b = Beat { uptime_ms: u64::MAX, time: None, ss: 255, pressed: true };
    assert_eq!(
        heartbeat("x", &b).as_str(),
        "sensor-board (built x) alive: uptime 18446744073709551615ms rtc 99:99:99.000 button down\r\n"
    );
    let b = Beat { uptime_ms: 0, time: Some((23, 59, 59)), ss: 0, pressed: false };
    assert!(heartbeat("x", &b).as_str().contains(" rtc 23:59:59.996 "));
    let b = Beat { ss: 60_000, ..b };
    assert!(heartbeat("x", &b).as_str().contains(" rtc 23:59:59.000 "));
}

#[test]
fn clock_report_line() {
    let c = Clocks {
        sws: 2,
        pllsrc: 3,
        clk48sel: 2,
        rtcsel: 1,
        hse_rdy: true,
        lse_rdy: true,
        msi_on: false,
        hsi16_on: true,
        hsi48_on: false,
        pr: 6,
        rl: 499,
    };
    let mut l = heapless::String::new();
    clock_report(&c, &mut l);
    assert_eq!(
        l.as_str(),
        "clocks: sysclk=HSE pllsrc=HSE usb48=PLLQ rtc=LSE hse_rdy=true lse_rdy=true msi_on=false hsi16_on=true hsi48_on=false iwdg pr=6 rl=499\r\n"
    );
    let names = [
        (0, "sysclk=MSI pllsrc=none usb48=HSI48 rtc=none"),
        (1, "sysclk=HSI16 pllsrc=MSI usb48=PLLSAI1Q rtc=LSE"),
        (2, "sysclk=HSE pllsrc=HSI16 usb48=PLLQ rtc=LSI"),
        (3, "sysclk=PLL pllsrc=HSE usb48=MSI rtc=HSE/32"),
    ];
    for (k, want) in names {
        let mut l = heapless::String::new();
        clock_report(&Clocks { sws: k, pllsrc: k, clk48sel: k, rtcsel: k, ..c }, &mut l);
        assert!(l.as_str().starts_with(&format!("clocks: {want} hse_rdy")));
    }
}

fn packets(data: &[u8], max: usize) -> Vec<Vec<u8>> {
    let mut t = write_all(true);
    let mut out = vec![];
    while let Some(p) = t.next(data, max) {
        out.push(p.to_vec());
    }
    assert!(t.next(data, max).is_none());
    out
}

#[test]
fn short_packet_ends_the_data() {
    for len in 0..200usize {
        let data: Vec<u8> = (0..len).map(|i| i as u8).collect();
        for max in [1, 7, 64] {
            let p = packets(&data, max);
            assert_eq!(p.concat(), data);
            if len == 0 {
                assert!(p.is_empty());
            } else {
                assert_eq!(p.len(), len / max + 1);
                assert!(p.last().unwrap().len() < max);
                assert!(p[..p.len() - 1].iter().all(|q| q.len() == max));
            }
        }
    }
}

#[test]
fn full_last_packet_is_followed_by_an_empty_one() {
    let p = packets(&[5; 128], 64);
    assert_eq!(p.iter().map(|q| q.len()).collect::<Vec<_>>(), [64, 64, 0]);
}

#[test]
fn closed_port_drops_everything() {
    assert!(write_all(false).next(b"text", 64).is_none());
}

#[test]
fn failed_packet_ends_the_transfer() {
    let data = [7u8; 128];
    let mut t = write_all(true);
    assert_eq!(t.next(&data, 64).unwrap(), &data[..64]);
    t.failed();
    assert!(t.next(&data, 64).is_none());
    let mut t = write_all(true);
    let _ = t.next(&data, 64);
    let _ = t.next(&data, 64);
    t.failed();
    assert!(t.next(&data, 64).is_none());
}

#[test]
fn heartbeat_is_not_put_off() {
    let mut p = Pacer::new(100, 1000);
    assert_eq!(p.due, 2100);
    let mut beats = vec![];
    for now in (100..10_000).step_by(7) {
        if p.beat(now) {
            beats.push(now);
        }
    }
    assert_eq!(beats.len(), 4);
    for (k, now) in beats.iter().enumerate() {
        let due = 2100 + 2000 * k as u64;
        assert!(due <= *now && *now < due + 7);
    }
}

#[test]
fn late_heartbeats_are_not_made_up_for() {
    let mut p = Pacer::new(0, 1000);
    assert!(!p.beat(1999));
    assert!(p.beat(3999));
    assert_eq!(p.due, 4000);
    assert!(p.beat(6000));
    assert_eq!(p.due, 8000);
    assert!(!p.beat(6000));
}

fn seen(range_mode: bool, link: u8) -> Seen {
    Seen { range_mode, link, pulse: false, pressed: false, now: 0, dfu: false }
}

const HZ: u64 = 1000;

fn leds(h: &mut Housekeeping, s: Seen, n: usize) -> Vec<Led> {
    (0..n).map(|_| h.step(&s, HZ).led).collect()
}

#[test]
fn heartbeat_blink() {
    let mut h = watchdog_housekeeping();
    let l = leds(&mut h, seen(false, 2), 100);
    for (i, led) in l.iter().enumerate() {
        assert!(*led == if (i + 1) % 25 == 0 { Led::Toggle } else { Led::Keep });
    }
}

#[test]
fn detached_blink() {
    let mut h = watchdog_housekeeping();
    let l = leds(&mut h, seen(true, 0), 50);
    for (i, led) in l.iter().enumerate() {
        assert!(*led == if (i + 1) % 5 == 0 { Led::Toggle } else { Led::Keep });
    }
}

#[test]
fn silent_flash() {
    let mut h = watchdog_housekeeping();
    let l = leds(&mut h, seen(true, 1), 300);
    for (i, led) in l.iter().enumerate() {
        assert!(*led == if (i + 1) % 100 < 3 { Led::On } else { Led::Off });
    }
}

#[test]
fn pulse_lasts_four_ticks() {
    let mut h = watchdog_housekeeping();
    assert!(wants_pulse(true, 2) && !wants_pulse(true, 1) && !wants_pulse(false, 2));
    assert!(h.step(&seen(true, 2), HZ).led == Led::On);
    let asked = Seen { pulse: true, ..seen(true, 2) };
    assert!(h.step(&asked, HZ).led == Led::Off);
    let l = leds(&mut h, seen(true, 2), 5);
    assert!(l == [Led::Off, Led::Off, Led::Off, Led::On, Led::On]);
}

#[test]
fn tick_wraps() {
    let mut h = Housekeeping { tick: u32::MAX, pulse: 0, held_since: None };
    assert!(h.step(&seen(false, 0), HZ).led == Led::Toggle);
    assert_eq!(h.tick, 0);
}

fn press(h: &mut Housekeeping, pressed: bool, now: u64) -> Chores {
    h.step(&Seen { pressed, now, ..seen(false, 0) }, HZ)
}

#[test]
fn held_button_asks_for_dfu() {
    let mut h = watchdog_housekeeping();
    assert!(!press(&mut h, true, 100).request_dfu);
    assert!(!press(&mut h, true, 2099).request_dfu);
    let c = press(&mut h, true, 2100);
    assert!(c.request_dfu && c.reboot);
}

#[test]
fn released_button_starts_over() {
    let mut h = watchdog_housekeeping();
    let _ = press(&mut h, true, 100);
    assert!(!press(&mut h, false, 2500).reboot);
    assert!(!press(&mut h, true, 2600).request_dfu);
    assert!(press(&mut h, true, 4600).request_dfu);
}

#[test]
fn requested_dfu_reboots() {
    let mut h = watchdog_housekeeping();
    let c = h.step(&Seen { dfu: true, ..seen(false, 0) }, HZ);
    assert!(c.reboot && !c.request_dfu);
}
