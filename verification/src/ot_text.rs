//! What the `ot` commands print.

use vstd::prelude::*;
use crate::bounded::dataset_of;
use crate::bounded::dataset_slice;
use crate::bytes::from_le16;
use crate::bytes::from_le32;
use crate::bytes::i8_of;
use crate::bytes::signed8;
use crate::bytes::u16_le;
use crate::bytes::u32_le;
use crate::config::Config;
use crate::config::find_prefix;
use crate::flash::FlashError;
use crate::ip6::fmt_ip6;
use crate::ip6::ip6_out;
use crate::ot::err_name;
use crate::ot::err_text;
use crate::ot::role_name;
use crate::ot::role_text;
use crate::text::Out;
use crate::text::Text;
use crate::text::as_str;
use crate::text::fits;
use crate::text::line;
use crate::text::new_command;
use crate::text::new_line;
use crate::text::push_str;
use crate::text::put;
use crate::text::put_dec;
use crate::text::put_flag;
use crate::text::put_hex;
use crate::text::put_signed;
use crate::text::wrote;

verus! {

/// The outcome of a flash operation, as printed.
pub open spec fn flash_text(r: Result<(), FlashError>) -> Seq<char> {
    match r {
        Ok(_) => "Ok(())"@,
        Err(FlashError::Prog) => "Err(Prog)"@,
        Err(FlashError::Size) => "Err(Size)"@,
        Err(FlashError::Miss) => "Err(Miss)"@,
        Err(FlashError::Sequence) => "Err(Seq)"@,
        Err(FlashError::Protected) => "Err(Protected)"@,
        Err(FlashError::Unaligned) => "Err(Unaligned)"@,
        Err(FlashError::Parallelism) => "Err(Parallelism)"@,
    }
}

pub fn flash_name(r: Result<(), FlashError>) -> (s: &'static str)
    ensures
        s@ == flash_text(r),
{
    match r {
        Ok(_) => "Ok(())",
        Err(FlashError::Prog) => "Err(Prog)",
        Err(FlashError::Size) => "Err(Size)",
        Err(FlashError::Miss) => "Err(Miss)",
        Err(FlashError::Sequence) => "Err(Seq)",
        Err(FlashError::Protected) => "Err(Protected)",
        Err(FlashError::Unaligned) => "Err(Unaligned)",
        Err(FlashError::Parallelism) => "Err(Parallelism)",
    }
}

/// `on` or `off`.
pub open spec fn on_off(on: bool) -> Seq<char> {
    if on {
        "on"@
    } else {
        "off"@
    }
}

fn on_off_name(on: bool) -> (s: &'static str)
    ensures
        s@ == on_off(on),
{
    if on {
        "on"
    } else {
        "off"
    }
}

/// `ot init`: the instance and the outcome of the callback registration.
pub open spec fn init_text(inst: u32, r: u32) -> Seq<char> {
    line().put("ot: instance 0x"@).hex(inst as nat, 8).put(", state callback -> "@)
        .put(err_text(r)).put("\r\n"@).text
}

pub fn init_line(inst: u32, r: u32) -> (l: heapless::String<224>)
    ensures
        l.text() == init_text(inst, r),
{
    let mut l = new_line();
    let w = put(&mut l, true, "ot: instance 0x");
    let w = put_hex(&mut l, w, inst, 8);
    let w = put(&mut l, w, ", state callback -> ");
    let w = put(&mut l, w, err_name(r));
    let _ = put(&mut l, w, "\r\n");
    l
}

/// `ot save`: the length of the dataset and the outcome.
pub open spec fn saved_text(n: usize, r: Result<(), FlashError>) -> Seq<char> {
    line().put("ot: saved "@).dec(n as nat).put(" byte dataset with autostart -> "@)
        .put(flash_text(r)).put("\r\n"@).text
}

pub fn saved_line(n: usize, r: Result<(), FlashError>) -> (l: heapless::String<224>)
    ensures
        l.text() == saved_text(n, r),
{
    let mut l = new_line();
    let w = put(&mut l, true, "ot: saved ");
    let w = put_dec(&mut l, w, n as u64);
    let w = put(&mut l, w, " byte dataset with autostart -> ");
    let w = put(&mut l, w, flash_name(r));
    let _ = put(&mut l, w, "\r\n");
    l
}

/// `ot save` without an active dataset.
pub open spec fn no_dataset_text(e: u32) -> Seq<char> {
    line().put("ot: no active dataset ("@).put(err_text(e)).put(")\r\n"@).text
}

pub fn no_dataset_line(e: u32) -> (l: heapless::String<224>)
    ensures
        l.text() == no_dataset_text(e),
{
    let mut l = new_line();
    let w = put(&mut l, true, "ot: no active dataset (");
    let w = put(&mut l, w, err_name(e));
    let _ = put(&mut l, w, ")\r\n");
    l
}

/// `ot keepalive`: the setting and the outcome of storing it.
pub open spec fn keepalive_text(on: bool, r: Result<(), FlashError>) -> Seq<char> {
    line().put("ot: keepalive "@).put(on_off(on)).put(" (relay load) -> "@).put(flash_text(r))
        .put("\r\n"@).text
}

pub fn keepalive_line(on: bool, r: Result<(), FlashError>) -> (l: heapless::String<224>)
    ensures
        l.text() == keepalive_text(on, r),
{
    let mut l = new_line();
    let w = put(&mut l, true, "ot: keepalive ");
    let w = put(&mut l, w, on_off_name(on));
    let w = put(&mut l, w, " (relay load) -> ");
    let w = put(&mut l, w, flash_name(r));
    let _ = put(&mut l, w, "\r\n");
    l
}

/// `ot txpower` with a value: the value and the outcome.
pub open spec fn power_set_text(v: i8, r: u32) -> Seq<char> {
    line().put("ot: set tx power "@).signed(v as int).put(" dBm -> "@).put(err_text(r))
        .put("\r\n"@).text
}

pub fn power_set_line(v: i8, r: u32) -> (l: heapless::String<224>)
    ensures
        l.text() == power_set_text(v, r),
{
    let mut l = new_line();
    let w = put(&mut l, true, "ot: set tx power ");
    let w = put_signed(&mut l, w, v);
    let w = put(&mut l, w, " dBm -> ");
    let w = put(&mut l, w, err_name(r));
    let _ = put(&mut l, w, "\r\n");
    l
}

/// `ot txpower`: the power in effect.
pub open spec fn power_text(p: i8, r: u32) -> Seq<char> {
    line().put("ot: tx power "@).signed(p as int).put(" dBm ("@).put(err_text(r)).put(")\r\n"@).text
}

pub fn power_line(p: i8, r: u32) -> (l: heapless::String<224>)
    ensures
        l.text() == power_text(p, r),
{
    let mut l = new_line();
    let w = put(&mut l, true, "ot: tx power ");
    let w = put_signed(&mut l, w, p);
    let w = put(&mut l, w, " dBm (");
    let w = put(&mut l, w, err_name(r));
    let _ = put(&mut l, w, ")\r\n");
    l
}

/// `ot forget`: the outcome.
pub open spec fn erased_text(r: Result<(), FlashError>) -> Seq<char> {
    line().put("ot: config erased -> "@).put(flash_text(r)).put("\r\n"@).text
}

pub fn erased_line(r: Result<(), FlashError>) -> (l: heapless::String<224>)
    ensures
        l.text() == erased_text(r),
{
    let mut l = new_line();
    let w = put(&mut l, true, "ot: config erased -> ");
    let w = put(&mut l, w, flash_name(r));
    let _ = put(&mut l, w, "\r\n");
    l
}

/// `ot range`: the setting.
pub open spec fn range_text(on: bool) -> Seq<char> {
    line().put("ot: range mode "@).put(on_off(on)).put("\r\n"@).text
}

pub fn range_line(on: bool) -> (l: heapless::String<224>)
    ensures
        l.text() == range_text(on),
{
    let mut l = new_line();
    let w = put(&mut l, true, "ot: range mode ");
    let w = put(&mut l, w, on_off_name(on));
    let _ = put(&mut l, w, "\r\n");
    l
}

/// `ot new`: the outcomes.
pub open spec fn new_network_text(r1: u32, r2: u32) -> Seq<char> {
    line().put("ot: create new network -> "@).put(err_text(r1)).put(", set active -> "@)
        .put(err_text(r2)).put("\r\n"@).text
}

pub fn new_network_line(r1: u32, r2: u32) -> (l: heapless::String<224>)
    ensures
        l.text() == new_network_text(r1, r2),
{
    let mut l = new_line();
    let w = put(&mut l, true, "ot: create new network -> ");
    let w = put(&mut l, w, err_name(r1));
    let w = put(&mut l, w, ", set active -> ");
    let w = put(&mut l, w, err_name(r2));
    let _ = put(&mut l, w, "\r\n");
    l
}

/// `ot tlvs`: the length of the dataset.
pub open spec fn tlvs_text(n: usize) -> Seq<char> {
    line().put("ot: active tlvs -> ok ("@).dec(n as nat).put(" bytes)\r\n"@).text
}

pub fn tlvs_line(n: usize) -> (l: heapless::String<224>)
    ensures
        l.text() == tlvs_text(n),
{
    let mut l = new_line();
    let w = put(&mut l, true, "ot: active tlvs -> ok (");
    let w = put_dec(&mut l, w, n as u64);
    let _ = put(&mut l, w, " bytes)\r\n");
    l
}

/// `ot tlvs` without an active dataset.
pub open spec fn tlvs_error_text(e: u32) -> Seq<char> {
    line().put("ot: active tlvs -> "@).put(err_text(e)).put("\r\n"@).text
}

pub fn tlvs_error_line(e: u32) -> (l: heapless::String<224>)
    ensures
        l.text() == tlvs_error_text(e),
{
    let mut l = new_line();
    let w = put(&mut l, true, "ot: active tlvs -> ");
    let w = put(&mut l, w, err_name(e));
    let _ = put(&mut l, w, "\r\n");
    l
}

/// `ot settlvs`: the length of the dataset and the outcome.
pub open spec fn set_tlvs_text(n: usize, r: u32) -> Seq<char> {
    line().put("ot: set active tlvs ("@).dec(n as nat).put(" bytes) -> "@).put(err_text(r))
        .put("\r\n"@).text
}

pub fn set_tlvs_line(n: usize, r: u32) -> (l: heapless::String<224>)
    ensures
        l.text() == set_tlvs_text(n, r),
{
    let mut l = new_line();
    let w = put(&mut l, true, "ot: set active tlvs (");
    let w = put_dec(&mut l, w, n as u64);
    let w = put(&mut l, w, " bytes) -> ");
    let w = put(&mut l, w, err_name(r));
    let _ = put(&mut l, w, "\r\n");
    l
}

/// `ot up`: the outcomes.
pub open spec fn up_text(r1: u32, r2: u32) -> Seq<char> {
    line().put("ot: ip6 up -> "@).put(err_text(r1)).put(", thread start -> "@).put(err_text(r2))
        .put("\r\n"@).text
}

pub fn up_line(r1: u32, r2: u32) -> (l: heapless::String<224>)
    ensures
        l.text() == up_text(r1, r2),
{
    let mut l = new_line();
    let w = put(&mut l, true, "ot: ip6 up -> ");
    let w = put(&mut l, w, err_name(r1));
    let w = put(&mut l, w, ", thread start -> ");
    let w = put(&mut l, w, err_name(r2));
    let _ = put(&mut l, w, "\r\n");
    l
}

/// `ot down`: the outcomes.
pub open spec fn down_text(r1: u32, r2: u32) -> Seq<char> {
    line().put("ot: thread stop -> "@).put(err_text(r1)).put(", ip6 down -> "@)
        .put(err_text(r2)).put("\r\n"@).text
}

pub fn down_line(r1: u32, r2: u32) -> (l: heapless::String<224>)
    ensures
        l.text() == down_text(r1, r2),
{
    let mut l = new_line();
    let w = put(&mut l, true, "ot: thread stop -> ");
    let w = put(&mut l, w, err_name(r1));
    let w = put(&mut l, w, ", ip6 down -> ");
    let w = put(&mut l, w, err_name(r2));
    let _ = put(&mut l, w, "\r\n");
    l
}

/// `ot neighbors`: how many there were.
pub open spec fn count_text(count: u32) -> Seq<char> {
    line().put("ot: "@).dec(count as nat).put(" neighbor(s)\r\n"@).text
}

pub fn count_line(count: u32) -> (l: heapless::String<224>)
    ensures
        l.text() == count_text(count),
{
    let mut l = new_line();
    let w = put(&mut l, true, "ot: ");
    let w = put_dec(&mut l, w, count as u64);
    let _ = put(&mut l, w, " neighbor(s)\r\n");
    l
}

/// `ot parent`: the signal strengths.
pub open spec fn parent_text(avg: i8, last: i8) -> Seq<char> {
    line().put("ot: parent rssi avg "@).signed(avg as int).put(" dBm last "@)
        .signed(last as int).put(" dBm\r\n"@).text
}

pub fn parent_line(avg: i8, last: i8) -> (l: heapless::String<224>)
    ensures
        l.text() == parent_text(avg, last),
{
    let mut l = new_line();
    let w = put(&mut l, true, "ot: parent rssi avg ");
    let w = put_signed(&mut l, w, avg);
    let w = put(&mut l, w, " dBm last ");
    let w = put_signed(&mut l, w, last);
    let _ = put(&mut l, w, " dBm\r\n");
    l
}

/// `ot ping`: how many were asked for and the outcome.
pub open spec fn ping_text(count: u16, r: u32) -> Seq<char> {
    line().put("ot: ping "@).dec(count as nat).put("x -> "@).put(err_text(r)).put("\r\n"@).text
}

pub fn ping_line(count: u16, r: u32) -> (l: heapless::String<224>)
    ensures
        l.text() == ping_text(count, r),
{
    let mut l = new_line();
    let w = put(&mut l, true, "ot: ping ");
    let w = put_dec(&mut l, w, count as u64);
    let w = put(&mut l, w, "x -> ");
    let w = put(&mut l, w, err_name(r));
    let _ = put(&mut l, w, "\r\n");
    l
}

/// Joining at power-up: the outcomes.
pub open spec fn autostart_text(cb: u32, r: u32, r1: u32, r2: u32) -> Seq<char> {
    line().put("ot: autostart: callback "@).put(err_text(cb)).put(", dataset "@)
        .put(err_text(r)).put(", ip6 "@).put(err_text(r1)).put(", thread "@).put(err_text(r2))
        .put("\r\n"@).text
}

pub fn autostart_line(cb: u32, r: u32, r1: u32, r2: u32) -> (l: heapless::String<224>)
    ensures
        l.text() == autostart_text(cb, r, r1, r2),
{
    let mut l = new_line();
    let w = put(&mut l, true, "ot: autostart: callback ");
    let w = put(&mut l, w, err_name(cb));
    let w = put(&mut l, w, ", dataset ");
    let w = put(&mut l, w, err_name(r));
    let w = put(&mut l, w, ", ip6 ");
    let w = put(&mut l, w, err_name(r1));
    let w = put(&mut l, w, ", thread ");
    let w = put(&mut l, w, err_name(r2));
    let _ = put(&mut l, w, "\r\n");
    l
}

/// The prefix of an address as the address itself.
pub open spec fn widened(prefix: Seq<u8>) -> Seq<u8> {
    prefix + Seq::new(8, |i: int| 0u8)
}

/// `ot config`: what is stored.
pub open spec fn config_text(c: Config) -> Seq<char> {
    let o = line().put("ot: config: "@).dec(c.used().len()).put(" byte dataset, autostart "@).flag(
        c.flags % 2 == 1,
    ).put(", keepalive "@).flag(c.flags / 2 % 2 == 1).put(", mesh-local prefix "@);
    let p = match find_prefix(c.used()) {
        Some(p) => ip6_out(o.again(), widened(p), 8),
        None => o.again().put("?"@),
    };
    p.again().put("\r\n"@).text
}

pub fn config_line(c: &Config) -> (l: heapless::String<224>)
    ensures
        l.text() == config_text(*c),
{
    let mut l = new_line();
    let w = put(&mut l, true, "ot: config: ");
    let w = put_dec(&mut l, w, c.tlvs().len() as u64);
    let w = put(&mut l, w, " byte dataset, autostart ");
    let w = put_flag(&mut l, w, c.autostart());
    let w = put(&mut l, w, ", keepalive ");
    let w = put_flag(&mut l, w, c.keepalive());
    let _ = put(&mut l, w, ", mesh-local prefix ");
    match c.mesh_local_prefix() {
        Some(p) => {
            let a: [u8; 16] = [
                p[0],
                p[1],
                p[2],
                p[3],
                p[4],
                p[5],
                p[6],
                p[7],
                0,
                0,
                0,
                0,
                0,
                0,
                0,
                0,
            ];
            assert(a@ =~= widened(p@));
            fmt_ip6(&a, &mut l);
        },
        None => {
            let _ = put(&mut l, true, "?");
        },
    }
    let _ = put(&mut l, true, "\r\n");
    l
}

/// A dataset on a line of its own, in hexadecimal, each byte a write of its
/// own. Of the longest datasets, 253 or 254 bytes, the end does not fit.
pub open spec fn hex_out(o: Out, tlvs: Seq<u8>) -> Out
    decreases tlvs.len(),
{
    if tlvs.len() == 0 {
        o
    } else {
        hex_out(o, tlvs.drop_last()).again().hex(tlvs.last() as nat, 2)
    }
}

/// `ot tlvs`: the dataset.
pub open spec fn ottlvs_text(tlvs: Seq<u8>) -> Seq<char> {
    let o = Out { room: 512, text: Seq::empty(), ok: true };
    hex_out(o.put("ottlvs "@), tlvs).again().put("\r\n"@).text
}

pub fn ottlvs_line(tlvs: &heapless::Vec<u8, 254>) -> (l: heapless::String<512>)
    ensures
        l.text() == ottlvs_text(dataset_of(*tlvs)),
{
    let t: &[u8] = dataset_slice(tlvs);
    let mut l = new_command();
    let w = put(&mut l, true, "ottlvs ");
    let ghost start = wrote(l, w);
    let ghost mut ok = w;
    let mut i: usize = 0;
    assert(t@.take(0) =~= Seq::<u8>::empty());
    while i < t.len()
        invariant
            i <= t@.len(),
            wrote(l, ok) == hex_out(start, t@.take(i as int)),
        decreases t.len() - i,
    {
        proof {
            assert(t@.take(i + 1).drop_last() =~= t@.take(i as int));
        }
        let w = put_hex(&mut l, true, t[i] as u32, 2);
        proof {
            ok = w;
        }
        i = i + 1;
    }
    assert(t@.take(i as int) =~= t@);
    let _ = put(&mut l, true, "\r\n");
    l
}

/// The start of `ot info`: the role and the numbers of the device.
pub open spec fn info_out(role: u32, rloc: u32, ch: u32, pan: u32, comm: u32) -> Out {
    line().put("ot: role "@).put(role_text(role)).put(" rloc16 0x"@).hex(
        (rloc % 0x10000) as nat,
        4,
    ).put(" channel "@).dec((ch % 0x100) as nat).put(" panid 0x"@).hex((pan % 0x10000) as nat, 4).put(
        " commissioned "@,
    ).dec((comm % 2) as nat).put(" mleid "@)
}

/// `ot info`: the role, the numbers of the device, and its mesh-local address,
/// or where CPU2 keeps it when CPU1 may not read there.
pub open spec fn info_text(
    role: u32,
    rloc: u32,
    ch: u32,
    pan: u32,
    comm: u32,
    eid: u32,
    a: Option<Seq<u8>>,
) -> Seq<char> {
    let o = info_out(role, rloc, ch, pan, comm).again();
    let p = match a {
        Some(a) => ip6_out(o, a, 8),
        None => o.put("@0x"@).hex(eid as nat, 8),
    };
    p.again().put("\r\n"@).text
}

pub fn info_line(
    role: u32,
    rloc: u32,
    ch: u32,
    pan: u32,
    comm: u32,
    eid: u32,
    a: Option<[u8; 16]>,
) -> (l: heapless::String<224>)
    ensures
        l.text() == info_text(
            role,
            rloc,
            ch,
            pan,
            comm,
            eid,
            match a {
                Some(a) => Some(a@),
                None => None,
            },
        ),
{
    let mut l = new_line();
    let w = put(&mut l, true, "ot: role ");
    let w = put(&mut l, w, role_name(role));
    let w = put(&mut l, w, " rloc16 0x");
    let w = put_hex(&mut l, w, rloc % 0x10000, 4);
    let w = put(&mut l, w, " channel ");
    let w = put_dec(&mut l, w, (ch % 0x100) as u64);
    let w = put(&mut l, w, " panid 0x");
    let w = put_hex(&mut l, w, pan % 0x10000, 4);
    let w = put(&mut l, w, " commissioned ");
    let w = put_dec(&mut l, w, (comm % 2) as u64);
    let _ = put(&mut l, w, " mleid ");
    match a {
        Some(a) => {
            fmt_ip6(&a, &mut l);
        },
        None => {
            let w = put(&mut l, true, "@0x");
            let _ = put_hex(&mut l, w, eid, 8);
        },
    }
    let _ = put(&mut l, true, "\r\n");
    l
}

/// The first `k` bytes of `n` in hexadecimal, two digits each.
pub open spec fn run_out(o: Out, n: Seq<u8>, k: nat) -> Out
    decreases k,
{
    if k == 0 {
        o
    } else {
        run_out(o, n, (k - 1) as nat).hex(n[k - 1] as nat, 2)
    }
}

/// What CPU2 tells about a neighbor.
#[derive(Clone, Copy)]
pub struct Neighbor {
    pub ext: [u8; 8],
    pub age: u32,
    pub rloc: u16,
    pub lqi: u8,
    pub avg: i8,
    pub last: i8,
    pub margin: u8,
    pub ftd: bool,
    pub child: bool,
}

/// The contents of [`Neighbor`].
pub ghost struct NeighborView {
    pub ext: Seq<u8>,
    pub age: u32,
    pub rloc: u16,
    pub lqi: u8,
    pub avg: i8,
    pub last: i8,
    pub margin: u8,
    pub ftd: bool,
    pub child: bool,
}

impl View for Neighbor {
    type V = NeighborView;

    open spec fn view(&self) -> NeighborView {
        NeighborView {
            ext: self.ext@,
            age: self.age,
            rloc: self.rloc,
            lqi: self.lqi,
            avg: self.avg,
            last: self.last,
            margin: self.margin,
            ftd: self.ftd,
            child: self.child,
        }
    }
}

/// What a neighbor block holds.
pub open spec fn neighbor_in(n: Seq<u8>) -> NeighborView {
    NeighborView {
        ext: n.take(8),
        age: from_le32(n[8], n[9], n[10], n[11]) as u32,
        rloc: from_le16(n[16], n[17]) as u16,
        lqi: n[28],
        avg: signed8(n[29]) as i8,
        last: signed8(n[30]) as i8,
        margin: n[31],
        ftd: n[38] / 2 % 2 == 1,
        child: n[38] / 8 % 2 == 1,
    }
}

pub fn neighbor_of(n: &[u8; 48]) -> (r: Neighbor)
    ensures
        r@ == neighbor_in(n@),
{
    let ext: [u8; 8] = [n[0], n[1], n[2], n[3], n[4], n[5], n[6], n[7]];
    assert(ext@ =~= n@.take(8));
    Neighbor {
        ext,
        age: u32_le(n[8], n[9], n[10], n[11]),
        rloc: u16_le(n[16], n[17]),
        lqi: n[28],
        avg: i8_of(n[29]),
        last: i8_of(n[30]),
        margin: n[31],
        ftd: n[38] / 2 % 2 == 1,
        child: n[38] / 8 % 2 == 1,
    }
}

/// Appends an extended address.
fn put_ext(l: &mut heapless::String<224>, ok: bool, n: &[u8; 8]) -> (r: bool)
    ensures
        wrote(*final(l), r) == run_out(wrote(*old(l), ok), n@, 8),
{
    let ghost start = wrote(*l, ok);
    let mut w: bool = ok;
    let mut i: usize = 0;
    while i < 8
        invariant
            i <= 8,
            wrote(*l, w) == run_out(start, n@, i as nat),
        decreases 8 - i,
    {
        w = put_hex(l, w, n[i] as u32, 2);
        i = i + 1;
    }
    w
}

/// `ot neighbors`: one neighbor.
pub open spec fn neighbor_text(n: NeighborView) -> Seq<char> {
    run_out(
        line().put("ot: neighbor rloc16 0x"@).hex(n.rloc as nat, 4).put(" ext "@),
        n.ext,
        8,
    ).put(" age "@).dec(n.age as nat).put("s lqi "@).dec(n.lqi as nat).put(" rssi avg "@).signed(
        n.avg as int,
    ).put(" last "@).signed(n.last as int).put(" dBm margin "@).dec(n.margin as nat).put(
        " dB "@,
    ).put(
        if n.ftd {
            "ftd "@
        } else {
            "mtd "@
        },
    ).put(
        if n.child {
            "child"@
        } else {
            "router"@
        },
    ).put("\r\n"@).text
}

pub fn neighbor_line(n: &Neighbor) -> (l: heapless::String<224>)
    ensures
        l.text() == neighbor_text(n@),
{
    let mut l = new_line();
    let w = put(&mut l, true, "ot: neighbor rloc16 0x");
    let w = put_hex(&mut l, w, n.rloc as u32, 4);
    let w = put(&mut l, w, " ext ");
    let w = put_ext(&mut l, w, &n.ext);
    let w = put(&mut l, w, " age ");
    let w = put_dec(&mut l, w, n.age as u64);
    let w = put(&mut l, w, "s lqi ");
    let w = put_dec(&mut l, w, n.lqi as u64);
    let w = put(&mut l, w, " rssi avg ");
    let w = put_signed(&mut l, w, n.avg);
    let w = put(&mut l, w, " last ");
    let w = put_signed(&mut l, w, n.last);
    let w = put(&mut l, w, " dBm margin ");
    let w = put_dec(&mut l, w, n.margin as u64);
    let w = put(&mut l, w, " dB ");
    let w = put(
        &mut l,
        w,
        if n.ftd {
            "ftd "
        } else {
            "mtd "
        },
    );
    let w = put(
        &mut l,
        w,
        if n.child {
            "child"
        } else {
            "router"
        },
    );
    let _ = put(&mut l, w, "\r\n");
    l
}

/// " rloc16 avg/last dBm" of a neighbor, in one write.
pub open spec fn neighbor_out(o: Out, n: NeighborView) -> Out {
    o.put(" 0x"@).hex(n.rloc as nat, 4).put(" "@).signed(n.avg as int).put("/"@).signed(
        n.last as int,
    ).put(" dBm"@)
}

/// " rloc16 avg/last dBm" of a neighbor.
pub open spec fn neighbor_part(n: NeighborView) -> Seq<char> {
    neighbor_out(line(), n).text
}

/// Appends " rloc16 avg/last dBm" of a neighbor to a line. When the line has no
/// room for it, the line stays as it is and the text comes back.
pub fn neighbors_summary(n: &Neighbor, l: &mut heapless::String<224>) -> (r: Option<
    heapless::String<224>,
>)
    ensures
        r is None <==> fits(old(l).text(), neighbor_part(n@), 224),
        r is None ==> final(l).text() == old(l).text() + neighbor_part(n@),
        r matches Some(t) ==> t.text() == neighbor_part(n@) && final(l).text() == old(l).text(),
{
    let mut t = new_line();
    let w = put(&mut t, true, " 0x");
    let w = put_hex(&mut t, w, n.rloc as u32, 4);
    let w = put(&mut t, w, " ");
    let w = put_signed(&mut t, w, n.avg);
    let w = put(&mut t, w, "/");
    let w = put_signed(&mut t, w, n.last);
    let _ = put(&mut t, w, " dBm");
    match push_str(l, as_str(&t)) {
        Ok(_) => None,
        Err(_) => Some(t),
    }
}

} // verus!
