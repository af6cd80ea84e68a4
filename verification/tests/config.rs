use sensor_board::config::{
    erase, load, save, Config, FLAG_AUTOSTART, FLAG_KEEPALIVE, MAGIC, PAGE_ADDR, PAGE_OFFSET, VERSION,
};

fn prefix_tlv() -> [u8; 10] {
    [7, 8, 0xfd, 0x11, 0x22, 0x33, 0x44, 0x55, 0x66, 0x77]
}

#[test]
fn page_lies_at_the_end_of_the_app_region() {
    assert_eq!(PAGE_OFFSET, 0x3F000);
    assert_eq!(PAGE_ADDR, 0x0803_F000);
    assert_eq!(MAGIC, 0x5342_4346);
}

#[test]
fn new_config_holds_the_dataset() {
    let c = Config::new(&[1, 2, 3], FLAG_AUTOSTART);
    assert_eq!(c.tlvs(), &[1, 2, 3]);
    assert_eq!(c.dataset_len, 3);
    assert_eq!(c.dataset[3], 0xff);
    assert_eq!(c.dataset[255], 0xff);
    assert!(c.autostart());
    assert!(!c.keepalive());
    assert_eq!(c.magic, MAGIC);
    assert_eq!(c.version, VERSION);
}

#[test]
fn new_config_keeps_at_most_254_bytes() {
    let c = Config::new(&[9; 300], 0);
    assert_eq!(c.dataset_len, 254);
    assert_eq!(c.tlvs().len(), 254);
    assert_eq!(c.dataset[253], 9);
    assert_eq!(c.dataset[254], 0xff);
}

#[test]
fn length_out_of_bounds_is_cut() {
    let mut c = Config::new(&[1], 0);
    c.dataset_len = 1000;
    assert_eq!(c.tlvs().len(), 254);
}

#[test]
fn flags_are_independent() {
    for flags in 0..8u32 {
        let c = Config::new(&[], flags);
        assert_eq!(c.autostart(), flags & FLAG_AUTOSTART != 0);
        assert_eq!(c.keepalive(), flags & FLAG_KEEPALIVE != 0);
    }
}

#[test]
fn keepalive_flag_is_set_and_cleared() {
    let mut c = Config::new(&[5], FLAG_AUTOSTART);
    c.set_keepalive(true);
    assert_eq!(c.flags, 3);
    assert!(c.autostart() && c.keepalive());
    c.set_keepalive(false);
    assert_eq!(c.flags, 1);
    assert_eq!(c.tlvs(), &[5]);
}

#[test]
fn prefix_is_found_behind_other_entries() {
    let mut t = [0u8; 15];
    t[..5].copy_from_slice(&[0, 3, 7, 8, 9]);
    t[5..].copy_from_slice(&prefix_tlv());
    let c = Config::new(&t, 0);
    assert_eq!(c.mesh_local_prefix(), Some([0xfd, 0x11, 0x22, 0x33, 0x44, 0x55, 0x66, 0x77]));
}

#[test]
fn prefix_of_another_length_is_stepped_over() {
    let mut t = [0u8; 14];
    t[..4].copy_from_slice(&[7, 2, 1, 2]);
    t[4..].copy_from_slice(&prefix_tlv());
    assert!(Config::new(&t, 0).mesh_local_prefix().is_some());
}

#[test]
fn no_prefix_is_none() {
    assert_eq!(Config::new(&[], 0).mesh_local_prefix(), None);
    assert_eq!(Config::new(&[7], 0).mesh_local_prefix(), None);
    assert_eq!(Config::new(&[1, 200, 3], 0).mesh_local_prefix(), None);
    assert_eq!(Config::new(&prefix_tlv()[..9], 0).mesh_local_prefix(), None);
}

#[test]
fn image_has_four_words_and_the_dataset() {
    let c = Config::new(&[0xaa, 0xbb], 3);
    let b = c.to_image();
    assert_eq!(&b[..4], &[0x46, 0x43, 0x42, 0x53]);
    assert_eq!(&b[4..16], &[1, 0, 0, 0, 3, 0, 0, 0, 2, 0, 0, 0]);
    assert_eq!(&b[16..19], &[0xaa, 0xbb, 0xff]);
}

#[test]
fn load_gives_back_what_was_saved() {
    let c = Config::new(&prefix_tlv(), FLAG_AUTOSTART | FLAG_KEEPALIVE);
    let op = save(&c);
    let d = load(&op.image.unwrap()).unwrap();
    assert_eq!(d.flags, 3);
    assert_eq!(d.tlvs(), &prefix_tlv());
    assert_eq!(d.dataset, c.dataset);
}

#[test]
fn load_refuses_what_is_no_config() {
    assert!(load(&[0xff; 272]).is_none());
    let good = Config::new(&[1], 1).to_image();
    assert!(load(&good).is_some());
    let mut bad = good;
    bad[0] = 0;
    assert!(load(&bad).is_none());
    bad = good;
    bad[4] = 2;
    assert!(load(&bad).is_none());
    bad = good;
    bad[12] = 255;
    assert!(load(&bad).is_none());
    bad[12] = 254;
    assert!(load(&bad).is_some());
    bad[13] = 1;
    assert!(load(&bad).is_none());
}

#[test]
fn erase_writes_nothing() {
    assert!(erase().image.is_none());
}
