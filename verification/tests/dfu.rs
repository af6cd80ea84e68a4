use sensor_board::dfu::{
    enter_bootloader_if_requested, fus_busy, is_fus_busy, reboot_into_bootloader,
    reset_if_launched_by_bootloader, start_watchdog, watchdog_reload, WatchdogAction, WatchdogEvent,
    UPDATE_SPINS,
};

#[test]
fn busy_marker_is_read_back() {
    assert_eq!(fus_busy(true), 0xF05B_0511);
    assert_eq!(fus_busy(false), 0);
    assert!(is_fus_busy(fus_busy(true)));
    assert!(!is_fus_busy(fus_busy(false)));
    assert!(!is_fus_busy(0xF05B_0510));
}

#[test]
fn reboot_request_is_honoured_once() {
    let word = reboot_into_bootloader();
    assert_eq!(word, 0xB007_10AD);
    let boot = enter_bootloader_if_requested(false, 0, word);
    assert!(boot.jump);
    let next = enter_bootloader_if_requested(false, 0, boot.flag);
    assert!(!next.jump);
}

#[test]
fn watchdog_reset_ends_in_the_bootloader_unless_busy() {
    assert!(enter_bootloader_if_requested(true, 0, 0).jump);
    assert!(!enter_bootloader_if_requested(true, fus_busy(true), 0).jump);
    assert!(enter_bootloader_if_requested(true, fus_busy(true), 0xB007_10AD).jump);
    assert!(!enter_bootloader_if_requested(false, 0, 0x1234).jump);
}

#[test]
fn bootloader_marker_is_wiped() {
    assert_eq!(reset_if_launched_by_bootloader(0x2003_0024), Some(0));
    assert_eq!(reset_if_launched_by_bootloader(0x2003_0020), None);
}

#[test]
fn reload_follows_the_prescaler_in_effect() {
    let expected = [4095u16, 4095, 4095, 3999, 1999, 999, 499, 247];
    for (pr, want) in expected.iter().enumerate() {
        assert_eq!(watchdog_reload(pr as u8), *want);
    }
}

#[test]
fn watchdog_starts_in_order() {
    let mut s = start_watchdog();
    let mut log = String::new();
    loop {
        let event = match s.action() {
            WatchdogAction::Start => {
                log.push_str("start ");
                WatchdogEvent::Done
            }
            WatchdogAction::Unlock => {
                log.push_str("unlock ");
                WatchdogEvent::Done
            }
            WatchdogAction::DivideBy32 => {
                log.push_str("div32 ");
                WatchdogEvent::Done
            }
            WatchdogAction::ReadUpdating => {
                log.push_str("wait ");
                WatchdogEvent::Updating(false)
            }
            WatchdogAction::ReadPrescaler => {
                log.push_str("read ");
                WatchdogEvent::Prescaler(6)
            }
            WatchdogAction::Reload(v) => {
                log.push_str(&format!("reload:{v} "));
                WatchdogEvent::Done
            }
            WatchdogAction::Feed => {
                log.push_str("feed ");
                WatchdogEvent::Done
            }
            WatchdogAction::Finish => break,
        };
        s = s.step(event);
    }
    assert_eq!(log, "start unlock div32 wait read unlock reload:499 wait feed ");
}

#[test]
fn stuck_update_flag_is_given_up() {
    let mut s = start_watchdog();
    for _ in 0..3 {
        s = s.step(WatchdogEvent::Done);
    }
    let mut n = 0u32;
    while let WatchdogAction::ReadUpdating = s.action() {
        n += 1;
        s = s.step(WatchdogEvent::Updating(true));
    }
    assert_eq!(n, UPDATE_SPINS + 1);
    assert!(matches!(s.action(), WatchdogAction::ReadPrescaler));
}
