//! What the `ot` commands and the reports of CPU2 print, as plain text.

use vstd::prelude::*;
use crate::config::Config;
use crate::config::find_prefix;
use crate::flash::FlashError;
use crate::ip6::colons;
use crate::ip6::groups_in;
use crate::ip6::ip6_out;
use crate::ip6::lemma_address_written;
use crate::ot::err_text;
use crate::ot::role_text;
use crate::ot_notify::NotifyAct;
use crate::ot_notify::NotifyIds;
use crate::ot_notify::OtNotification;
use crate::ot_notify::PingReplyView;
use crate::ot_notify::PingStatistics;
use crate::ot_notify::notified;
use crate::ot_notify::other_text;
use crate::ot_notify::reply_at_text;
use crate::ot_notify::reply_in;
use crate::ot_notify::reply_text;
use crate::ot_notify::said;
use crate::ot_notify::state_change_text;
use crate::ot_notify::statistics_in;
use crate::ot_notify::statistics_text;
use crate::ot_text::NeighborView;
use crate::ot_text::autostart_text;
use crate::ot_text::config_text;
use crate::ot_text::count_text;
use crate::ot_text::down_text;
use crate::ot_text::erased_text;
use crate::ot_text::flash_text;
use crate::ot_text::info_text;
use crate::ot_text::init_text;
use crate::ot_text::keepalive_text;
use crate::ot_text::neighbor_in;
use crate::ot_text::neighbor_text;
use crate::ot_text::new_network_text;
use crate::ot_text::no_dataset_text;
use crate::ot_text::on_off;
use crate::ot_text::parent_text;
use crate::ot_text::ping_text;
use crate::ot_text::power_set_text;
use crate::ot_text::power_text;
use crate::ot_text::range_text;
use crate::ot_text::run_out;
use crate::ot_text::saved_text;
use crate::ot_text::set_tlvs_text;
use crate::ot_text::tlvs_error_text;
use crate::ot_text::tlvs_text;
use crate::ot_text::up_text;
use crate::ot_text::widened;
use crate::spelling::flag_text;
use crate::spelling::lemma_err_text;
use crate::spelling::lemma_flag;
use crate::spelling::lemma_flash_text;
use crate::spelling::lemma_number;
use crate::spelling::lemma_powers;
use crate::spelling::lemma_put;
use crate::spelling::lemma_role_text;
use crate::spelling::lemma_signed;
use crate::spelling::number_text;
use crate::spelling::signed_text;
use crate::text::Out;
use crate::text::byte_len;
use crate::text::digits;
use crate::text::lemma_ascii_byte_len;
use crate::text::line;

verus! {

// ---- commands ----

/// `ot init` names the instance and the outcome of the callback registration.
pub proof fn law_init_line(inst: u32, r: u32)
    ensures
        init_text(inst, r) == (
            "ot: instance 0x"@ + number_text(inst as nat, 16, 8) + ", state callback -> "@
                + err_text(r) + "\r\n"@
        ),
{
    reveal_strlit("ot: instance 0x");
    reveal_strlit(", state callback -> ");
    reveal_strlit("\r\n");
    lemma_ascii_byte_len(Seq::empty());
    lemma_ascii_byte_len("ot: instance 0x"@);
    lemma_ascii_byte_len(", state callback -> "@);
    lemma_ascii_byte_len("\r\n"@);
    lemma_powers();
    lemma_err_text(r);
    let o0 = line();
    lemma_put(o0, "ot: instance 0x"@);
    let o1 = o0.put("ot: instance 0x"@);
    assert(o1.text =~= "ot: instance 0x"@);
    lemma_number(o1, inst as nat, 16, 8, 8);
    let o2 = o1.hex(inst as nat, 8);
    lemma_put(o2, ", state callback -> "@);
    let o3 = o2.put(", state callback -> "@);
    lemma_put(o3, err_text(r));
    let o4 = o3.put(err_text(r));
    lemma_put(o4, "\r\n"@);
    let o5 = o4.put("\r\n"@);
}

/// `ot save` tells how many bytes were stored, and the outcome.
pub proof fn law_saved_line(n: usize, r: Result<(), FlashError>)
    ensures
        saved_text(n, r) == (
            "ot: saved "@ + digits(n as nat, 10) + " byte dataset with autostart -> "@
                + flash_text(r) + "\r\n"@
        ),
{
    reveal_strlit("ot: saved ");
    reveal_strlit(" byte dataset with autostart -> ");
    reveal_strlit("\r\n");
    lemma_ascii_byte_len(Seq::empty());
    lemma_ascii_byte_len("ot: saved "@);
    lemma_ascii_byte_len(" byte dataset with autostart -> "@);
    lemma_ascii_byte_len("\r\n"@);
    lemma_powers();
    lemma_flash_text(r);
    let o0 = line();
    lemma_put(o0, "ot: saved "@);
    let o1 = o0.put("ot: saved "@);
    assert(o1.text =~= "ot: saved "@);
    lemma_number(o1, n as nat, 10, 0, 20);
    let o2 = o1.dec(n as nat);
    lemma_put(o2, " byte dataset with autostart -> "@);
    let o3 = o2.put(" byte dataset with autostart -> "@);
    lemma_put(o3, flash_text(r));
    let o4 = o3.put(flash_text(r));
    lemma_put(o4, "\r\n"@);
    let o5 = o4.put("\r\n"@);
}

/// `ot save` without an active dataset names the error.
pub proof fn law_no_dataset_line(e: u32)
    ensures
        no_dataset_text(e) == (
            "ot: no active dataset ("@ + err_text(e) + ")\r\n"@
        ),
{
    reveal_strlit("ot: no active dataset (");
    reveal_strlit(")\r\n");
    lemma_ascii_byte_len(Seq::empty());
    lemma_ascii_byte_len("ot: no active dataset ("@);
    lemma_ascii_byte_len(")\r\n"@);
    lemma_powers();
    lemma_err_text(e);
    let o0 = line();
    lemma_put(o0, "ot: no active dataset ("@);
    let o1 = o0.put("ot: no active dataset ("@);
    assert(o1.text =~= "ot: no active dataset ("@);
    lemma_put(o1, err_text(e));
    let o2 = o1.put(err_text(e));
    lemma_put(o2, ")\r\n"@);
    let o3 = o2.put(")\r\n"@);
}

/// `ot keepalive` tells the setting, whatever the outcome of storing it.
pub proof fn law_keepalive_line(on: bool, r: Result<(), FlashError>)
    ensures
        keepalive_text(on, r) == (
            "ot: keepalive "@ + (if on { "on"@ } else { "off"@ }) + " (relay load) -> "@
                + flash_text(r) + "\r\n"@
        ),
{
    reveal_strlit("ot: keepalive ");
    reveal_strlit("on");
    reveal_strlit("off");
    reveal_strlit(" (relay load) -> ");
    reveal_strlit("\r\n");
    lemma_ascii_byte_len(Seq::empty());
    lemma_ascii_byte_len("ot: keepalive "@);
    lemma_ascii_byte_len("on"@);
    lemma_ascii_byte_len("off"@);
    lemma_ascii_byte_len(" (relay load) -> "@);
    lemma_ascii_byte_len("\r\n"@);
    lemma_powers();
    lemma_flash_text(r);
    let o0 = line();
    lemma_put(o0, "ot: keepalive "@);
    let o1 = o0.put("ot: keepalive "@);
    assert(o1.text =~= "ot: keepalive "@);
    lemma_put(o1, on_off(on));
    let o2 = o1.put(on_off(on));
    lemma_put(o2, " (relay load) -> "@);
    let o3 = o2.put(" (relay load) -> "@);
    lemma_put(o3, flash_text(r));
    let o4 = o3.put(flash_text(r));
    lemma_put(o4, "\r\n"@);
    let o5 = o4.put("\r\n"@);
}

/// `ot txpower` tells the power set and the outcome.
pub proof fn law_power_set_line(v: i8, r: u32)
    ensures
        power_set_text(v, r) == (
            "ot: set tx power "@ + signed_text(v as int) + " dBm -> "@ + err_text(r) + "\r\n"@
        ),
{
    reveal_strlit("ot: set tx power ");
    reveal_strlit(" dBm -> ");
    reveal_strlit("\r\n");
    lemma_ascii_byte_len(Seq::empty());
    lemma_ascii_byte_len("ot: set tx power "@);
    lemma_ascii_byte_len(" dBm -> "@);
    lemma_ascii_byte_len("\r\n"@);
    lemma_powers();
    lemma_err_text(r);
    let o0 = line();
    lemma_put(o0, "ot: set tx power "@);
    let o1 = o0.put("ot: set tx power "@);
    assert(o1.text =~= "ot: set tx power "@);
    lemma_signed(o1, v as int);
    let o2 = o1.signed(v as int);
    lemma_put(o2, " dBm -> "@);
    let o3 = o2.put(" dBm -> "@);
    lemma_put(o3, err_text(r));
    let o4 = o3.put(err_text(r));
    lemma_put(o4, "\r\n"@);
    let o5 = o4.put("\r\n"@);
}

/// `ot txpower` tells the power read and the outcome.
pub proof fn law_power_line(p: i8, r: u32)
    ensures
        power_text(p, r) == (
            "ot: tx power "@ + signed_text(p as int) + " dBm ("@ + err_text(r) + ")\r\n"@
        ),
{
    reveal_strlit("ot: tx power ");
    reveal_strlit(" dBm (");
    reveal_strlit(")\r\n");
    lemma_ascii_byte_len(Seq::empty());
    lemma_ascii_byte_len("ot: tx power "@);
    lemma_ascii_byte_len(" dBm ("@);
    lemma_ascii_byte_len(")\r\n"@);
    lemma_powers();
    lemma_err_text(r);
    let o0 = line();
    lemma_put(o0, "ot: tx power "@);
    let o1 = o0.put("ot: tx power "@);
    assert(o1.text =~= "ot: tx power "@);
    lemma_signed(o1, p as int);
    let o2 = o1.signed(p as int);
    lemma_put(o2, " dBm ("@);
    let o3 = o2.put(" dBm ("@);
    lemma_put(o3, err_text(r));
    let o4 = o3.put(err_text(r));
    lemma_put(o4, ")\r\n"@);
    let o5 = o4.put(")\r\n"@);
}

/// `ot forget` tells the outcome.
pub proof fn law_erased_line(r: Result<(), FlashError>)
    ensures
        erased_text(r) == (
            "ot: config erased -> "@ + flash_text(r) + "\r\n"@
        ),
{
    reveal_strlit("ot: config erased -> ");
    reveal_strlit("\r\n");
    lemma_ascii_byte_len(Seq::empty());
    lemma_ascii_byte_len("ot: config erased -> "@);
    lemma_ascii_byte_len("\r\n"@);
    lemma_powers();
    lemma_flash_text(r);
    let o0 = line();
    lemma_put(o0, "ot: config erased -> "@);
    let o1 = o0.put("ot: config erased -> "@);
    assert(o1.text =~= "ot: config erased -> "@);
    lemma_put(o1, flash_text(r));
    let o2 = o1.put(flash_text(r));
    lemma_put(o2, "\r\n"@);
    let o3 = o2.put("\r\n"@);
}

/// `ot range` tells the setting.
pub proof fn law_range_line(on: bool)
    ensures
        range_text(on) == (
            "ot: range mode "@ + (if on { "on"@ } else { "off"@ }) + "\r\n"@
        ),
{
    reveal_strlit("ot: range mode ");
    reveal_strlit("on");
    reveal_strlit("off");
    reveal_strlit("\r\n");
    lemma_ascii_byte_len(Seq::empty());
    lemma_ascii_byte_len("ot: range mode "@);
    lemma_ascii_byte_len("on"@);
    lemma_ascii_byte_len("off"@);
    lemma_ascii_byte_len("\r\n"@);
    lemma_powers();
    let o0 = line();
    lemma_put(o0, "ot: range mode "@);
    let o1 = o0.put("ot: range mode "@);
    assert(o1.text =~= "ot: range mode "@);
    lemma_put(o1, on_off(on));
    let o2 = o1.put(on_off(on));
    lemma_put(o2, "\r\n"@);
    let o3 = o2.put("\r\n"@);
}

/// `ot new` tells the outcome of both calls, in their order.
pub proof fn law_new_network_line(r1: u32, r2: u32)
    ensures
        new_network_text(r1, r2) == (
            "ot: create new network -> "@ + err_text(r1) + ", set active -> "@ + err_text(r2)
                + "\r\n"@
        ),
{
    reveal_strlit("ot: create new network -> ");
    reveal_strlit(", set active -> ");
    reveal_strlit("\r\n");
    lemma_ascii_byte_len(Seq::empty());
    lemma_ascii_byte_len("ot: create new network -> "@);
    lemma_ascii_byte_len(", set active -> "@);
    lemma_ascii_byte_len("\r\n"@);
    lemma_powers();
    lemma_err_text(r1);
    lemma_err_text(r2);
    let o0 = line();
    lemma_put(o0, "ot: create new network -> "@);
    let o1 = o0.put("ot: create new network -> "@);
    assert(o1.text =~= "ot: create new network -> "@);
    lemma_put(o1, err_text(r1));
    let o2 = o1.put(err_text(r1));
    lemma_put(o2, ", set active -> "@);
    let o3 = o2.put(", set active -> "@);
    lemma_put(o3, err_text(r2));
    let o4 = o3.put(err_text(r2));
    lemma_put(o4, "\r\n"@);
    let o5 = o4.put("\r\n"@);
}

/// `ot tlvs` tells the length of the dataset.
pub proof fn law_tlvs_line(n: usize)
    ensures
        tlvs_text(n) == (
            "ot: active tlvs -> ok ("@ + digits(n as nat, 10) + " bytes)\r\n"@
        ),
{
    reveal_strlit("ot: active tlvs -> ok (");
    reveal_strlit(" bytes)\r\n");
    lemma_ascii_byte_len(Seq::empty());
    lemma_ascii_byte_len("ot: active tlvs -> ok ("@);
    lemma_ascii_byte_len(" bytes)\r\n"@);
    lemma_powers();
    let o0 = line();
    lemma_put(o0, "ot: active tlvs -> ok ("@);
    let o1 = o0.put("ot: active tlvs -> ok ("@);
    assert(o1.text =~= "ot: active tlvs -> ok ("@);
    lemma_number(o1, n as nat, 10, 0, 20);
    let o2 = o1.dec(n as nat);
    lemma_put(o2, " bytes)\r\n"@);
    let o3 = o2.put(" bytes)\r\n"@);
}

/// `ot tlvs` without a dataset names the error.
pub proof fn law_tlvs_error_line(e: u32)
    ensures
        tlvs_error_text(e) == (
            "ot: active tlvs -> "@ + err_text(e) + "\r\n"@
        ),
{
    reveal_strlit("ot: active tlvs -> ");
    reveal_strlit("\r\n");
    lemma_ascii_byte_len(Seq::empty());
    lemma_ascii_byte_len("ot: active tlvs -> "@);
    lemma_ascii_byte_len("\r\n"@);
    lemma_powers();
    lemma_err_text(e);
    let o0 = line();
    lemma_put(o0, "ot: active tlvs -> "@);
    let o1 = o0.put("ot: active tlvs -> "@);
    assert(o1.text =~= "ot: active tlvs -> "@);
    lemma_put(o1, err_text(e));
    let o2 = o1.put(err_text(e));
    lemma_put(o2, "\r\n"@);
    let o3 = o2.put("\r\n"@);
}

/// `ot settlvs` tells the length that was set and the outcome.
pub proof fn law_set_tlvs_line(n: usize, r: u32)
    ensures
        set_tlvs_text(n, r) == (
            "ot: set active tlvs ("@ + digits(n as nat, 10) + " bytes) -> "@ + err_text(r)
                + "\r\n"@
        ),
{
    reveal_strlit("ot: set active tlvs (");
    reveal_strlit(" bytes) -> ");
    reveal_strlit("\r\n");
    lemma_ascii_byte_len(Seq::empty());
    lemma_ascii_byte_len("ot: set active tlvs ("@);
    lemma_ascii_byte_len(" bytes) -> "@);
    lemma_ascii_byte_len("\r\n"@);
    lemma_powers();
    lemma_err_text(r);
    let o0 = line();
    lemma_put(o0, "ot: set active tlvs ("@);
    let o1 = o0.put("ot: set active tlvs ("@);
    assert(o1.text =~= "ot: set active tlvs ("@);
    lemma_number(o1, n as nat, 10, 0, 20);
    let o2 = o1.dec(n as nat);
    lemma_put(o2, " bytes) -> "@);
    let o3 = o2.put(" bytes) -> "@);
    lemma_put(o3, err_text(r));
    let o4 = o3.put(err_text(r));
    lemma_put(o4, "\r\n"@);
    let o5 = o4.put("\r\n"@);
}

/// `ot up` tells the outcome of both calls, in their order.
pub proof fn law_up_line(r1: u32, r2: u32)
    ensures
        up_text(r1, r2) == (
            "ot: ip6 up -> "@ + err_text(r1) + ", thread start -> "@ + err_text(r2) + "\r\n"@
        ),
{
    reveal_strlit("ot: ip6 up -> ");
    reveal_strlit(", thread start -> ");
    reveal_strlit("\r\n");
    lemma_ascii_byte_len(Seq::empty());
    lemma_ascii_byte_len("ot: ip6 up -> "@);
    lemma_ascii_byte_len(", thread start -> "@);
    lemma_ascii_byte_len("\r\n"@);
    lemma_powers();
    lemma_err_text(r1);
    lemma_err_text(r2);
    let o0 = line();
    lemma_put(o0, "ot: ip6 up -> "@);
    let o1 = o0.put("ot: ip6 up -> "@);
    assert(o1.text =~= "ot: ip6 up -> "@);
    lemma_put(o1, err_text(r1));
    let o2 = o1.put(err_text(r1));
    lemma_put(o2, ", thread start -> "@);
    let o3 = o2.put(", thread start -> "@);
    lemma_put(o3, err_text(r2));
    let o4 = o3.put(err_text(r2));
    lemma_put(o4, "\r\n"@);
    let o5 = o4.put("\r\n"@);
}

/// `ot down` tells the outcome of both calls, in their order.
pub proof fn law_down_line(r1: u32, r2: u32)
    ensures
        down_text(r1, r2) == (
            "ot: thread stop -> "@ + err_text(r1) + ", ip6 down -> "@ + err_text(r2) + "\r\n"@
        ),
{
    reveal_strlit("ot: thread stop -> ");
    reveal_strlit(", ip6 down -> ");
    reveal_strlit("\r\n");
    lemma_ascii_byte_len(Seq::empty());
    lemma_ascii_byte_len("ot: thread stop -> "@);
    lemma_ascii_byte_len(", ip6 down -> "@);
    lemma_ascii_byte_len("\r\n"@);
    lemma_powers();
    lemma_err_text(r1);
    lemma_err_text(r2);
    let o0 = line();
    lemma_put(o0, "ot: thread stop -> "@);
    let o1 = o0.put("ot: thread stop -> "@);
    assert(o1.text =~= "ot: thread stop -> "@);
    lemma_put(o1, err_text(r1));
    let o2 = o1.put(err_text(r1));
    lemma_put(o2, ", ip6 down -> "@);
    let o3 = o2.put(", ip6 down -> "@);
    lemma_put(o3, err_text(r2));
    let o4 = o3.put(err_text(r2));
    lemma_put(o4, "\r\n"@);
    let o5 = o4.put("\r\n"@);
}

/// `ot neighbors` ends with how many there were.
pub proof fn law_count_line(count: u32)
    ensures
        count_text(count) == (
            "ot: "@ + digits(count as nat, 10) + " neighbor(s)\r\n"@
        ),
{
    reveal_strlit("ot: ");
    reveal_strlit(" neighbor(s)\r\n");
    lemma_ascii_byte_len(Seq::empty());
    lemma_ascii_byte_len("ot: "@);
    lemma_ascii_byte_len(" neighbor(s)\r\n"@);
    lemma_powers();
    let o0 = line();
    lemma_put(o0, "ot: "@);
    let o1 = o0.put("ot: "@);
    assert(o1.text =~= "ot: "@);
    lemma_number(o1, count as nat, 10, 0, 10);
    let o2 = o1.dec(count as nat);
    lemma_put(o2, " neighbor(s)\r\n"@);
    let o3 = o2.put(" neighbor(s)\r\n"@);
}

/// `ot parent` tells the average first and the last second.
pub proof fn law_parent_line(avg: i8, last: i8)
    ensures
        parent_text(avg, last) == (
            "ot: parent rssi avg "@ + signed_text(avg as int) + " dBm last "@
                + signed_text(last as int) + " dBm\r\n"@
        ),
{
    reveal_strlit("ot: parent rssi avg ");
    reveal_strlit(" dBm last ");
    reveal_strlit(" dBm\r\n");
    lemma_ascii_byte_len(Seq::empty());
    lemma_ascii_byte_len("ot: parent rssi avg "@);
    lemma_ascii_byte_len(" dBm last "@);
    lemma_ascii_byte_len(" dBm\r\n"@);
    lemma_powers();
    let o0 = line();
    lemma_put(o0, "ot: parent rssi avg "@);
    let o1 = o0.put("ot: parent rssi avg "@);
    assert(o1.text =~= "ot: parent rssi avg "@);
    lemma_signed(o1, avg as int);
    let o2 = o1.signed(avg as int);
    lemma_put(o2, " dBm last "@);
    let o3 = o2.put(" dBm last "@);
    lemma_signed(o3, last as int);
    let o4 = o3.signed(last as int);
    lemma_put(o4, " dBm\r\n"@);
    let o5 = o4.put(" dBm\r\n"@);
}

/// `ot ping` tells how many pings were asked for and the outcome.
pub proof fn law_ping_line(count: u16, r: u32)
    ensures
        ping_text(count, r) == (
            "ot: ping "@ + digits(count as nat, 10) + "x -> "@ + err_text(r) + "\r\n"@
        ),
{
    reveal_strlit("ot: ping ");
    reveal_strlit("x -> ");
    reveal_strlit("\r\n");
    lemma_ascii_byte_len(Seq::empty());
    lemma_ascii_byte_len("ot: ping "@);
    lemma_ascii_byte_len("x -> "@);
    lemma_ascii_byte_len("\r\n"@);
    lemma_powers();
    lemma_err_text(r);
    let o0 = line();
    lemma_put(o0, "ot: ping "@);
    let o1 = o0.put("ot: ping "@);
    assert(o1.text =~= "ot: ping "@);
    lemma_number(o1, count as nat, 10, 0, 5);
    let o2 = o1.dec(count as nat);
    lemma_put(o2, "x -> "@);
    let o3 = o2.put("x -> "@);
    lemma_put(o3, err_text(r));
    let o4 = o3.put(err_text(r));
    lemma_put(o4, "\r\n"@);
    let o5 = o4.put("\r\n"@);
}

/// The autostart tells the outcome of its calls, in their order.
pub proof fn law_autostart_line(cb: u32, r: u32, r1: u32, r2: u32)
    ensures
        autostart_text(cb, r, r1, r2) == (
            "ot: autostart: callback "@ + err_text(cb) + ", dataset "@ + err_text(r) + ", ip6 "@
                + err_text(r1) + ", thread "@ + err_text(r2) + "\r\n"@
        ),
{
    reveal_strlit("ot: autostart: callback ");
    reveal_strlit(", dataset ");
    reveal_strlit(", ip6 ");
    reveal_strlit(", thread ");
    reveal_strlit("\r\n");
    lemma_ascii_byte_len(Seq::empty());
    lemma_ascii_byte_len("ot: autostart: callback "@);
    lemma_ascii_byte_len(", dataset "@);
    lemma_ascii_byte_len(", ip6 "@);
    lemma_ascii_byte_len(", thread "@);
    lemma_ascii_byte_len("\r\n"@);
    lemma_powers();
    lemma_err_text(cb);
    lemma_err_text(r);
    lemma_err_text(r1);
    lemma_err_text(r2);
    let o0 = line();
    lemma_put(o0, "ot: autostart: callback "@);
    let o1 = o0.put("ot: autostart: callback "@);
    assert(o1.text =~= "ot: autostart: callback "@);
    lemma_put(o1, err_text(cb));
    let o2 = o1.put(err_text(cb));
    lemma_put(o2, ", dataset "@);
    let o3 = o2.put(", dataset "@);
    lemma_put(o3, err_text(r));
    let o4 = o3.put(err_text(r));
    lemma_put(o4, ", ip6 "@);
    let o5 = o4.put(", ip6 "@);
    lemma_put(o5, err_text(r1));
    let o6 = o5.put(err_text(r1));
    lemma_put(o6, ", thread "@);
    let o7 = o6.put(", thread "@);
    lemma_put(o7, err_text(r2));
    let o8 = o7.put(err_text(r2));
    lemma_put(o8, "\r\n"@);
    let o9 = o8.put("\r\n"@);
}

/// `ot info` tells the role and the numbers of the device, each cut to its width, and
/// the address where CPU1 may read it.
pub proof fn law_info_line(role: u32, rloc: u32, ch: u32, pan: u32, comm: u32, eid: u32, a: Seq<u8>)
    requires
        a.len() == 16,
    ensures
        info_text(role, rloc, ch, pan, comm, eid, Some(a)) == (
            "ot: role "@ + role_text(role) + " rloc16 0x"@
                + number_text((rloc & 0xffff) as nat, 16, 4) + " channel "@
                + digits((ch & 0xff) as nat, 10) + " panid 0x"@
                + number_text((pan & 0xffff) as nat, 16, 4) + " commissioned "@
                + digits((comm & 1) as nat, 10) + " mleid "@ + colons(groups_in(a)) + "\r\n"@
        ),
{
    reveal_strlit("ot: role ");
    reveal_strlit(" rloc16 0x");
    reveal_strlit(" channel ");
    reveal_strlit(" panid 0x");
    reveal_strlit(" commissioned ");
    reveal_strlit(" mleid ");
    reveal_strlit("\r\n");
    lemma_ascii_byte_len(Seq::empty());
    lemma_ascii_byte_len("ot: role "@);
    lemma_ascii_byte_len(" rloc16 0x"@);
    lemma_ascii_byte_len(" channel "@);
    lemma_ascii_byte_len(" panid 0x"@);
    lemma_ascii_byte_len(" commissioned "@);
    lemma_ascii_byte_len(" mleid "@);
    lemma_ascii_byte_len("\r\n"@);
    lemma_powers();
    lemma_low_bits(rloc);
    lemma_low_bits(ch);
    lemma_low_bits(pan);
    lemma_low_bits(comm);
    lemma_role_text(role);
    let o0 = line();
    lemma_put(o0, "ot: role "@);
    let o1 = o0.put("ot: role "@);
    assert(o1.text =~= "ot: role "@);
    lemma_put(o1, role_text(role));
    let o2 = o1.put(role_text(role));
    lemma_put(o2, " rloc16 0x"@);
    let o3 = o2.put(" rloc16 0x"@);
    lemma_number(o3, (rloc % 0x10000) as nat, 16, 4, 4);
    let o4 = o3.hex((rloc % 0x10000) as nat, 4);
    lemma_put(o4, " channel "@);
    let o5 = o4.put(" channel "@);
    lemma_number(o5, (ch % 0x100) as nat, 10, 0, 3);
    let o6 = o5.dec((ch % 0x100) as nat);
    lemma_put(o6, " panid 0x"@);
    let o7 = o6.put(" panid 0x"@);
    lemma_number(o7, (pan % 0x10000) as nat, 16, 4, 4);
    let o8 = o7.hex((pan % 0x10000) as nat, 4);
    lemma_put(o8, " commissioned "@);
    let o9 = o8.put(" commissioned "@);
    lemma_number(o9, (comm % 2) as nat, 10, 0, 1);
    let o10 = o9.dec((comm % 2) as nat);
    lemma_put(o10, " mleid "@);
    let o11 = o10.put(" mleid "@);
    assert(o11.again() == o11);
    lemma_address_written(o11, a);
    let o12 = ip6_out(o11, a, 8);
    assert(o12.again() == o12);
    lemma_put(o12, "\r\n"@);
    let o13 = o12.put("\r\n"@);
}

/// `ot info` tells where CPU2 keeps the address when CPU1 may not read it.
pub proof fn law_info_line_without_address(
    role: u32,
    rloc: u32,
    ch: u32,
    pan: u32,
    comm: u32,
    eid: u32,
)
    ensures
        info_text(role, rloc, ch, pan, comm, eid, None) == (
            "ot: role "@ + role_text(role) + " rloc16 0x"@
                + number_text((rloc & 0xffff) as nat, 16, 4) + " channel "@
                + digits((ch & 0xff) as nat, 10) + " panid 0x"@
                + number_text((pan & 0xffff) as nat, 16, 4) + " commissioned "@
                + digits((comm & 1) as nat, 10) + " mleid "@ + "@0x"@
                + number_text(eid as nat, 16, 8) + "\r\n"@
        ),
{
    reveal_strlit("ot: role ");
    reveal_strlit(" rloc16 0x");
    reveal_strlit(" channel ");
    reveal_strlit(" panid 0x");
    reveal_strlit(" commissioned ");
    reveal_strlit(" mleid ");
    reveal_strlit("@0x");
    reveal_strlit("\r\n");
    lemma_ascii_byte_len(Seq::empty());
    lemma_ascii_byte_len("ot: role "@);
    lemma_ascii_byte_len(" rloc16 0x"@);
    lemma_ascii_byte_len(" channel "@);
    lemma_ascii_byte_len(" panid 0x"@);
    lemma_ascii_byte_len(" commissioned "@);
    lemma_ascii_byte_len(" mleid "@);
    lemma_ascii_byte_len("@0x"@);
    lemma_ascii_byte_len("\r\n"@);
    lemma_powers();
    lemma_low_bits(rloc);
    lemma_low_bits(ch);
    lemma_low_bits(pan);
    lemma_low_bits(comm);
    lemma_role_text(role);
    let o0 = line();
    lemma_put(o0, "ot: role "@);
    let o1 = o0.put("ot: role "@);
    assert(o1.text =~= "ot: role "@);
    lemma_put(o1, role_text(role));
    let o2 = o1.put(role_text(role));
    lemma_put(o2, " rloc16 0x"@);
    let o3 = o2.put(" rloc16 0x"@);
    lemma_number(o3, (rloc % 0x10000) as nat, 16, 4, 4);
    let o4 = o3.hex((rloc % 0x10000) as nat, 4);
    lemma_put(o4, " channel "@);
    let o5 = o4.put(" channel "@);
    lemma_number(o5, (ch % 0x100) as nat, 10, 0, 3);
    let o6 = o5.dec((ch % 0x100) as nat);
    lemma_put(o6, " panid 0x"@);
    let o7 = o6.put(" panid 0x"@);
    lemma_number(o7, (pan % 0x10000) as nat, 16, 4, 4);
    let o8 = o7.hex((pan % 0x10000) as nat, 4);
    lemma_put(o8, " commissioned "@);
    let o9 = o8.put(" commissioned "@);
    lemma_number(o9, (comm % 2) as nat, 10, 0, 1);
    let o10 = o9.dec((comm % 2) as nat);
    lemma_put(o10, " mleid "@);
    let o11 = o10.put(" mleid "@);
    assert(o11.again() == o11);
    lemma_put(o11, "@0x"@);
    let o12 = o11.put("@0x"@);
    lemma_number(o12, eid as nat, 16, 8, 8);
    let o13 = o12.hex(eid as nat, 8);
    assert(o13.again() == o13);
    lemma_put(o13, "\r\n"@);
    let o14 = o13.put("\r\n"@);
}

proof fn lemma_low_bits(x: u32)
    ensures
        x % 0x10000 == x & 0xffff,
        x % 0x100 == x & 0xff,
        x % 2 == x & 1,
{
    assert(x % 0x10000 == x & 0xffff && x % 0x100 == x & 0xff && x % 2 == x & 1) by (bit_vector);
}

/// `ot config` tells the length of the dataset, both flags, and the prefix as an
/// address.
pub proof fn law_config_line(c: Config, p: Seq<u8>)
    requires
        find_prefix(c.used()) == Some(p),
        p.len() == 8,
    ensures
        config_text(c) == (
            "ot: config: "@ + digits(c.used().len(), 10) + " byte dataset, autostart "@
                + flag_text(c.flags & 1 != 0) + ", keepalive "@ + flag_text(c.flags & 2 != 0)
                + ", mesh-local prefix "@ + colons(groups_in(widened(p))) + "\r\n"@
        ),
{
    reveal_strlit("ot: config: ");
    reveal_strlit(" byte dataset, autostart ");
    reveal_strlit(", keepalive ");
    reveal_strlit(", mesh-local prefix ");
    reveal_strlit("\r\n");
    lemma_ascii_byte_len(Seq::empty());
    lemma_ascii_byte_len("ot: config: "@);
    lemma_ascii_byte_len(" byte dataset, autostart "@);
    lemma_ascii_byte_len(", keepalive "@);
    lemma_ascii_byte_len(", mesh-local prefix "@);
    lemma_ascii_byte_len("\r\n"@);
    lemma_powers();
    lemma_flag_bits(c.flags);
    let o0 = line();
    lemma_put(o0, "ot: config: "@);
    let o1 = o0.put("ot: config: "@);
    assert(o1.text =~= "ot: config: "@);
    lemma_number(o1, c.used().len(), 10, 0, 3);
    let o2 = o1.dec(c.used().len());
    lemma_put(o2, " byte dataset, autostart "@);
    let o3 = o2.put(" byte dataset, autostart "@);
    lemma_flag(o3, c.flags % 2 == 1);
    let o4 = o3.flag(c.flags % 2 == 1);
    lemma_put(o4, ", keepalive "@);
    let o5 = o4.put(", keepalive "@);
    lemma_flag(o5, c.flags / 2 % 2 == 1);
    let o6 = o5.flag(c.flags / 2 % 2 == 1);
    lemma_put(o6, ", mesh-local prefix "@);
    let o7 = o6.put(", mesh-local prefix "@);
    assert(o7.again() == o7);
    lemma_address_written(o7, widened(p));
    let o8 = ip6_out(o7, widened(p), 8);
    assert(o8.again() == o8);
    lemma_put(o8, "\r\n"@);
    let o9 = o8.put("\r\n"@);
}

/// `ot config` has a question mark for a prefix that is not there.
pub proof fn law_config_line_without_prefix(c: Config)
    requires
        find_prefix(c.used()) is None,
    ensures
        config_text(c) == (
            "ot: config: "@ + digits(c.used().len(), 10) + " byte dataset, autostart "@
                + flag_text(c.flags & 1 != 0) + ", keepalive "@ + flag_text(c.flags & 2 != 0)
                + ", mesh-local prefix "@ + "?"@ + "\r\n"@
        ),
{
    reveal_strlit("ot: config: ");
    reveal_strlit(" byte dataset, autostart ");
    reveal_strlit(", keepalive ");
    reveal_strlit(", mesh-local prefix ");
    reveal_strlit("?");
    reveal_strlit("\r\n");
    lemma_ascii_byte_len(Seq::empty());
    lemma_ascii_byte_len("ot: config: "@);
    lemma_ascii_byte_len(" byte dataset, autostart "@);
    lemma_ascii_byte_len(", keepalive "@);
    lemma_ascii_byte_len(", mesh-local prefix "@);
    lemma_ascii_byte_len("?"@);
    lemma_ascii_byte_len("\r\n"@);
    lemma_powers();
    lemma_flag_bits(c.flags);
    let o0 = line();
    lemma_put(o0, "ot: config: "@);
    let o1 = o0.put("ot: config: "@);
    assert(o1.text =~= "ot: config: "@);
    lemma_number(o1, c.used().len(), 10, 0, 3);
    let o2 = o1.dec(c.used().len());
    lemma_put(o2, " byte dataset, autostart "@);
    let o3 = o2.put(" byte dataset, autostart "@);
    lemma_flag(o3, c.flags % 2 == 1);
    let o4 = o3.flag(c.flags % 2 == 1);
    lemma_put(o4, ", keepalive "@);
    let o5 = o4.put(", keepalive "@);
    lemma_flag(o5, c.flags / 2 % 2 == 1);
    let o6 = o5.flag(c.flags / 2 % 2 == 1);
    lemma_put(o6, ", mesh-local prefix "@);
    let o7 = o6.put(", mesh-local prefix "@);
    assert(o7.again() == o7);
    lemma_put(o7, "?"@);
    let o8 = o7.put("?"@);
    assert(o8.again() == o8);
    lemma_put(o8, "\r\n"@);
    let o9 = o8.put("\r\n"@);
}

proof fn lemma_flag_bits(x: u32)
    ensures
        (x % 2 == 1) == (x & 1 != 0),
        (x / 2 % 2 == 1) == (x & 2 != 0),
{
    assert((x % 2 == 1) == (x & 1 != 0) && (x / 2 % 2 == 1) == (x & 2 != 0)) by (bit_vector);
}

/// A prefix shown as an address is the prefix and zeros.
pub proof fn law_prefix_is_shown_in_front(p: Seq<u8>, k: int)
    requires
        p.len() == 8,
        0 <= k < 16,
    ensures
        widened(p).len() == 16,
        widened(p)[k] == (if k < 8 {
            p[k]
        } else {
            0u8
        }),
{
}

// ---- neighbors ----

/// What CPU2 tells of a neighbor, byte by byte: the extended address, the age
/// and the short address, the least significant byte first, the link quality,
/// the signal strengths, the margin, and a byte of flags in which bit 1 is for
/// full Thread devices and bit 3 for children, each whatever the other bits.
pub proof fn law_neighbor_block(n: Seq<u8>)
    requires
        n.len() == 48,
    ensures
        neighbor_in(n).ext == n.subrange(0, 8),
        neighbor_in(n).age == n[8] + 0x100 * n[9] + 0x1_0000 * n[10] + 0x100_0000 * n[11],
        neighbor_in(n).rloc == n[16] + 0x100 * n[17],
        neighbor_in(n).lqi == n[28],
        (neighbor_in(n).avg - n[29]) % 256 == 0,
        (neighbor_in(n).last - n[30]) % 256 == 0,
        neighbor_in(n).margin == n[31],
        neighbor_in(n).ftd <==> n[38] & 0x02 != 0,
        neighbor_in(n).child <==> n[38] & 0x08 != 0,
{
    let b = n[38];
    assert((b / 2 % 2 == 1) == (b & 0x02 != 0) && (b / 8 % 2 == 1) == (b & 0x08 != 0))
        by (bit_vector);
    assert(n.take(8) =~= n.subrange(0, 8));
}

/// Bytes in hexadecimal, two digits each.
pub open spec fn bytes_text(n: Seq<u8>, k: nat) -> Seq<char>
    decreases k,
{
    if k == 0 {
        Seq::empty()
    } else {
        bytes_text(n, (k - 1) as nat) + number_text(n[k - 1] as nat, 16, 2)
    }
}

proof fn lemma_run(o: Out, n: Seq<u8>, k: nat)
    requires
        o.ok,
        byte_len(o.text) + 2 * k <= o.room,
    ensures
        run_out(o, n, k) == (Out { text: o.text + bytes_text(n, k), ..o }),
        byte_len(o.text + bytes_text(n, k)) <= byte_len(o.text) + 2 * k,
    decreases k,
{
    if k == 0 {
        assert(o.text + bytes_text(n, 0) =~= o.text);
    } else {
        let m = (k - 1) as nat;
        lemma_run(o, n, m);
        lemma_powers();
        lemma_number(run_out(o, n, m), n[k - 1] as nat, 16, 2, 2);
        assert(o.text + bytes_text(n, m) + number_text(n[k - 1] as nat, 16, 2) =~= o.text
            + bytes_text(n, k));
    }
}

/// `ot neighbors` tells all of a neighbor: `ftd` or `mtd` by one flag, `child` or
/// `router` by the other.
pub proof fn law_neighbor_line(n: NeighborView)
    ensures
        neighbor_text(n) == (
            "ot: neighbor rloc16 0x"@ + number_text(n.rloc as nat, 16, 4) + " ext "@
                + bytes_text(n.ext, 8) + " age "@ + digits(n.age as nat, 10) + "s lqi "@
                + digits(n.lqi as nat, 10) + " rssi avg "@ + signed_text(n.avg as int)
                + " last "@ + signed_text(n.last as int) + " dBm margin "@
                + digits(n.margin as nat, 10) + " dB "@ + (if n.ftd { "ftd "@ } else { "mtd "@ })
                + (if n.child { "child"@ } else { "router"@ }) + "\r\n"@
        ),
{
    reveal_strlit("ot: neighbor rloc16 0x");
    reveal_strlit(" ext ");
    reveal_strlit(" age ");
    reveal_strlit("s lqi ");
    reveal_strlit(" rssi avg ");
    reveal_strlit(" last ");
    reveal_strlit(" dBm margin ");
    reveal_strlit(" dB ");
    reveal_strlit("ftd ");
    reveal_strlit("mtd ");
    reveal_strlit("child");
    reveal_strlit("router");
    reveal_strlit("\r\n");
    lemma_ascii_byte_len(Seq::empty());
    lemma_ascii_byte_len("ot: neighbor rloc16 0x"@);
    lemma_ascii_byte_len(" ext "@);
    lemma_ascii_byte_len(" age "@);
    lemma_ascii_byte_len("s lqi "@);
    lemma_ascii_byte_len(" rssi avg "@);
    lemma_ascii_byte_len(" last "@);
    lemma_ascii_byte_len(" dBm margin "@);
    lemma_ascii_byte_len(" dB "@);
    lemma_ascii_byte_len("ftd "@);
    lemma_ascii_byte_len("mtd "@);
    lemma_ascii_byte_len("child"@);
    lemma_ascii_byte_len("router"@);
    lemma_ascii_byte_len("\r\n"@);
    lemma_powers();
    let o0 = line();
    lemma_put(o0, "ot: neighbor rloc16 0x"@);
    let o1 = o0.put("ot: neighbor rloc16 0x"@);
    assert(o1.text =~= "ot: neighbor rloc16 0x"@);
    lemma_number(o1, n.rloc as nat, 16, 4, 4);
    let o2 = o1.hex(n.rloc as nat, 4);
    lemma_put(o2, " ext "@);
    let o3 = o2.put(" ext "@);
    lemma_run(o3, n.ext, 8);
    let o4 = run_out(o3, n.ext, 8);
    lemma_put(o4, " age "@);
    let o5 = o4.put(" age "@);
    lemma_number(o5, n.age as nat, 10, 0, 10);
    let o6 = o5.dec(n.age as nat);
    lemma_put(o6, "s lqi "@);
    let o7 = o6.put("s lqi "@);
    lemma_number(o7, n.lqi as nat, 10, 0, 3);
    let o8 = o7.dec(n.lqi as nat);
    lemma_put(o8, " rssi avg "@);
    let o9 = o8.put(" rssi avg "@);
    lemma_signed(o9, n.avg as int);
    let o10 = o9.signed(n.avg as int);
    lemma_put(o10, " last "@);
    let o11 = o10.put(" last "@);
    lemma_signed(o11, n.last as int);
    let o12 = o11.signed(n.last as int);
    lemma_put(o12, " dBm margin "@);
    let o13 = o12.put(" dBm margin "@);
    lemma_number(o13, n.margin as nat, 10, 0, 3);
    let o14 = o13.dec(n.margin as nat);
    lemma_put(o14, " dB "@);
    let o15 = o14.put(" dB "@);
    lemma_put(o15, if n.ftd { "ftd "@ } else { "mtd "@ });
    let o16 = o15.put(if n.ftd { "ftd "@ } else { "mtd "@ });
    lemma_put(o16, if n.child { "child"@ } else { "router"@ });
    let o17 = o16.put(if n.child { "child"@ } else { "router"@ });
    lemma_put(o17, "\r\n"@);
    let o18 = o17.put("\r\n"@);
}

// ---- notifications ----

/// A state change is told by its flags, and those that matter by name, each by one
/// bit.
pub proof fn law_state_change_line(f: u32)
    ensures
        state_change_text(f) == (
            "ot: state changed 0x"@ + number_text(f as nat, 16, 8)
                + (if f & 0x0001 != 0 { " ip6-addr"@ } else { ""@ })
                + (if f & 0x0004 != 0 { " role"@ } else { ""@ })
                + (if f & 0x0200 != 0 { " netdata"@ } else { ""@ })
                + (if f & 0x0040 != 0 { " child"@ } else { ""@ }) + "\r\n"@
        ),
{
    reveal_strlit("ot: state changed 0x");
    reveal_strlit(" ip6-addr");
    reveal_strlit("");
    reveal_strlit(" role");
    reveal_strlit(" netdata");
    reveal_strlit(" child");
    reveal_strlit("\r\n");
    lemma_ascii_byte_len(Seq::empty());
    lemma_ascii_byte_len("ot: state changed 0x"@);
    lemma_ascii_byte_len(" ip6-addr"@);
    lemma_ascii_byte_len(""@);
    lemma_ascii_byte_len(" role"@);
    lemma_ascii_byte_len(" netdata"@);
    lemma_ascii_byte_len(" child"@);
    lemma_ascii_byte_len("\r\n"@);
    lemma_powers();
    lemma_bit(f);
    let o0 = line();
    lemma_put(o0, "ot: state changed 0x"@);
    let o1 = o0.put("ot: state changed 0x"@);
    assert(o1.text =~= "ot: state changed 0x"@);
    lemma_number(o1, f as nat, 16, 8, 8);
    let o2 = o1.hex(f as nat, 8);
    lemma_put(o2, said(f, 0x0001, " ip6-addr"@));
    let o3 = o2.put(said(f, 0x0001, " ip6-addr"@));
    lemma_put(o3, said(f, 0x0004, " role"@));
    let o4 = o3.put(said(f, 0x0004, " role"@));
    lemma_put(o4, said(f, 0x0200, " netdata"@));
    let o5 = o4.put(said(f, 0x0200, " netdata"@));
    lemma_put(o5, said(f, 0x0040, " child"@));
    let o6 = o5.put(said(f, 0x0040, " child"@));
    lemma_put(o6, "\r\n"@);
    let o7 = o6.put("\r\n"@);
}

proof fn lemma_bit(f: u32)
    ensures
        (f / 0x0001 % 2 == 1) == (f & 0x0001 != 0),
        (f / 0x0004 % 2 == 1) == (f & 0x0004 != 0),
        (f / 0x0200 % 2 == 1) == (f & 0x0200 != 0),
        (f / 0x0040 % 2 == 1) == (f & 0x0040 != 0),
{
    assert((f / 0x0001 % 2 == 1) == (f & 0x0001 != 0) && (f / 0x0004 % 2 == 1) == (f & 0x0004 != 0)
        && (f / 0x0200 % 2 == 1) == (f & 0x0200 != 0) && (f / 0x0040 % 2 == 1) == (f & 0x0040
        != 0)) by (bit_vector);
}

/// A ping reply that CPU1 may not read is told by its address.
pub proof fn law_reply_at_line(p: u32)
    ensures
        reply_at_text(p) == (
            "ot: ping reply @0x"@ + number_text(p as nat, 16, 8) + "\r\n"@
        ),
{
    reveal_strlit("ot: ping reply @0x");
    reveal_strlit("\r\n");
    lemma_ascii_byte_len(Seq::empty());
    lemma_ascii_byte_len("ot: ping reply @0x"@);
    lemma_ascii_byte_len("\r\n"@);
    lemma_powers();
    let o0 = line();
    lemma_put(o0, "ot: ping reply @0x"@);
    let o1 = o0.put("ot: ping reply @0x"@);
    assert(o1.text =~= "ot: ping reply @0x"@);
    lemma_number(o1, p as nat, 16, 8, 8);
    let o2 = o1.hex(p as nat, 8);
    lemma_put(o2, "\r\n"@);
    let o3 = o2.put("\r\n"@);
}

/// Any other notification is told by its number, size and first two words.
pub proof fn law_other_line(n: OtNotification)
    ensures
        other_text(n) == (
            "ot: notification "@ + digits(n.id as nat, 10) + " size "@
                + digits(n.size as nat, 10) + " data "@ + number_text(n.data0 as nat, 16, 8)
                + " "@ + number_text(n.data1 as nat, 16, 8) + "\r\n"@
        ),
{
    reveal_strlit("ot: notification ");
    reveal_strlit(" size ");
    reveal_strlit(" data ");
    reveal_strlit(" ");
    reveal_strlit("\r\n");
    lemma_ascii_byte_len(Seq::empty());
    lemma_ascii_byte_len("ot: notification "@);
    lemma_ascii_byte_len(" size "@);
    lemma_ascii_byte_len(" data "@);
    lemma_ascii_byte_len(" "@);
    lemma_ascii_byte_len("\r\n"@);
    lemma_powers();
    let o0 = line();
    lemma_put(o0, "ot: notification "@);
    let o1 = o0.put("ot: notification "@);
    assert(o1.text =~= "ot: notification "@);
    lemma_number(o1, n.id as nat, 10, 0, 10);
    let o2 = o1.dec(n.id as nat);
    lemma_put(o2, " size "@);
    let o3 = o2.put(" size "@);
    lemma_number(o3, n.size as nat, 10, 0, 10);
    let o4 = o3.dec(n.size as nat);
    lemma_put(o4, " data "@);
    let o5 = o4.put(" data "@);
    lemma_number(o5, n.data0 as nat, 16, 8, 8);
    let o6 = o5.hex(n.data0 as nat, 8);
    lemma_put(o6, " "@);
    let o7 = o6.put(" "@);
    lemma_number(o7, n.data1 as nat, 16, 8, 8);
    let o8 = o7.hex(n.data1 as nat, 8);
    lemma_put(o8, "\r\n"@);
    let o9 = o8.put("\r\n"@);
}

/// A ping reply is told by its sender, size, sequence number, hop limit and
/// round-trip time.
pub proof fn law_reply_line(r: PingReplyView)
    requires
        r.from.len() == 16,
    ensures
        reply_text(r) == (
            "ot: ping reply from "@ + colons(groups_in(r.from)) + ": "@
                + digits(r.size as nat, 10) + " bytes seq "@ + digits(r.seq as nat, 10)
                + " hop "@ + digits(r.hop as nat, 10) + " rtt "@ + digits(r.rtt as nat, 10)
                + " ms\r\n"@
        ),
{
    reveal_strlit("ot: ping reply from ");
    reveal_strlit(": ");
    reveal_strlit(" bytes seq ");
    reveal_strlit(" hop ");
    reveal_strlit(" rtt ");
    reveal_strlit(" ms\r\n");
    lemma_ascii_byte_len(Seq::empty());
    lemma_ascii_byte_len("ot: ping reply from "@);
    lemma_ascii_byte_len(": "@);
    lemma_ascii_byte_len(" bytes seq "@);
    lemma_ascii_byte_len(" hop "@);
    lemma_ascii_byte_len(" rtt "@);
    lemma_ascii_byte_len(" ms\r\n"@);
    lemma_powers();
    let o0 = line();
    lemma_put(o0, "ot: ping reply from "@);
    let o1 = o0.put("ot: ping reply from "@);
    assert(o1.text =~= "ot: ping reply from "@);
    assert(o1.again() == o1);
    lemma_address_written(o1, r.from);
    let o2 = ip6_out(o1, r.from, 8);
    assert(o2.again() == o2);
    lemma_put(o2, ": "@);
    let o3 = o2.put(": "@);
    lemma_number(o3, r.size as nat, 10, 0, 5);
    let o4 = o3.dec(r.size as nat);
    lemma_put(o4, " bytes seq "@);
    let o5 = o4.put(" bytes seq "@);
    lemma_number(o5, r.seq as nat, 10, 0, 5);
    let o6 = o5.dec(r.seq as nat);
    lemma_put(o6, " hop "@);
    let o7 = o6.put(" hop "@);
    lemma_number(o7, r.hop as nat, 10, 0, 3);
    let o8 = o7.dec(r.hop as nat);
    lemma_put(o8, " rtt "@);
    let o9 = o8.put(" rtt "@);
    lemma_number(o9, r.rtt as nat, 10, 0, 5);
    let o10 = o9.dec(r.rtt as nat);
    lemma_put(o10, " ms\r\n"@);
    let o11 = o10.put(" ms\r\n"@);
}

/// The outcome of a run of pings.
pub proof fn law_statistics_line(s: PingStatistics)
    ensures
        statistics_text(s) == (
            "ot: ping done: "@ + digits(s.sent as nat, 10) + " sent, "@
                + digits(s.recv as nat, 10) + " received, rtt min "@ + digits(s.min as nat, 10)
                + " max "@ + digits(s.max as nat, 10) + " total "@ + digits(s.total as nat, 10)
                + " ms\r\n"@
        ),
{
    reveal_strlit("ot: ping done: ");
    reveal_strlit(" sent, ");
    reveal_strlit(" received, rtt min ");
    reveal_strlit(" max ");
    reveal_strlit(" total ");
    reveal_strlit(" ms\r\n");
    lemma_ascii_byte_len(Seq::empty());
    lemma_ascii_byte_len("ot: ping done: "@);
    lemma_ascii_byte_len(" sent, "@);
    lemma_ascii_byte_len(" received, rtt min "@);
    lemma_ascii_byte_len(" max "@);
    lemma_ascii_byte_len(" total "@);
    lemma_ascii_byte_len(" ms\r\n"@);
    lemma_powers();
    let o0 = line();
    lemma_put(o0, "ot: ping done: "@);
    let o1 = o0.put("ot: ping done: "@);
    assert(o1.text =~= "ot: ping done: "@);
    lemma_number(o1, s.sent as nat, 10, 0, 5);
    let o2 = o1.dec(s.sent as nat);
    lemma_put(o2, " sent, "@);
    let o3 = o2.put(" sent, "@);
    lemma_number(o3, s.recv as nat, 10, 0, 5);
    let o4 = o3.dec(s.recv as nat);
    lemma_put(o4, " received, rtt min "@);
    let o5 = o4.put(" received, rtt min "@);
    lemma_number(o5, s.min as nat, 10, 0, 5);
    let o6 = o5.dec(s.min as nat);
    lemma_put(o6, " max "@);
    let o7 = o6.put(" max "@);
    lemma_number(o7, s.max as nat, 10, 0, 5);
    let o8 = o7.dec(s.max as nat);
    lemma_put(o8, " total "@);
    let o9 = o8.put(" total "@);
    lemma_number(o9, s.total as nat, 10, 0, 10);
    let o10 = o9.dec(s.total as nat);
    lemma_put(o10, " ms\r\n"@);
    let o11 = o10.put(" ms\r\n"@);
}

/// A ping reply, byte by byte: the sender, then round-trip time, size and
/// sequence number, the least significant byte first, then the hop limit.
pub proof fn law_reply_block(b: Seq<u8>)
    requires
        b.len() == 24,
    ensures
        reply_in(b).from == b.subrange(0, 16),
        reply_in(b).rtt == b[16] + 0x100 * b[17],
        reply_in(b).size == b[18] + 0x100 * b[19],
        reply_in(b).seq == b[20] + 0x100 * b[21],
        reply_in(b).hop == b[22],
{
    assert(b.take(16) =~= b.subrange(0, 16));
}

/// The ping statistics, byte by byte, the least significant first: sent,
/// received, total, minimum and maximum round-trip time.
pub proof fn law_statistics_block(b: Seq<u8>)
    requires
        b.len() == 16,
    ensures
        statistics_in(b).sent == b[0] + 0x100 * b[1],
        statistics_in(b).recv == b[2] + 0x100 * b[3],
        statistics_in(b).total == b[4] + 0x100 * b[5] + 0x1_0000 * b[6] + 0x100_0000 * b[7],
        statistics_in(b).min == b[8] + 0x100 * b[9],
        statistics_in(b).max == b[10] + 0x100 * b[11],
{
}

/// What a notification leads to: replies and statistics are read exactly where
/// CPU1 may read; a state change and what is not known are printed; nothing is
/// read that lies outside of SRAM.
pub proof fn law_notifications(ids: NotifyIds, n: OtNotification)
    requires
        ids.state_change != ids.ping_reply,
        ids.state_change != ids.ping_statistics,
        ids.ping_reply != ids.ping_statistics,
    ensures
        notified(ids, n) matches NotifyAct::ReadReply(p) ==> p == n.data0,
        notified(ids, n) matches NotifyAct::ReadStatistics(p) ==> p == n.data0,
        notified(ids, n) is ReadReply <==> n.id == ids.ping_reply && 0x2000_0000 <= n.data0
            <= 0x2003_ffff,
        notified(ids, n) is ReadStatistics <==> n.id == ids.ping_statistics && 0x2000_0000
            <= n.data0 <= 0x2003_ffff,
        notified(ids, n) is Nothing <==> n.id == ids.ping_statistics && !(0x2000_0000 <= n.data0
            <= 0x2003_ffff),
        n.id == ids.state_change ==> notified(ids, n) == NotifyAct::Print(
            state_change_text(n.data0),
        ),
        n.id == ids.ping_reply && !(0x2000_0000 <= n.data0 <= 0x2003_ffff) ==> notified(ids, n)
            == NotifyAct::Print(reply_at_text(n.data0)),
        n.id != ids.state_change && n.id != ids.ping_reply && n.id != ids.ping_statistics
            ==> notified(ids, n) == NotifyAct::Print(other_text(n)),
{
}

} // verus!
