//! What holds across the parts of the firmware.

use vstd::prelude::*;
use vstd::utf8::encode_utf8;
use vstd::utf8::is_ascii_chars;
use vstd::utf8::is_ascii_chars_encode_utf8;
use crate::config::Config;
use crate::config::FLAG_AUTOSTART;
use crate::config::at_most;
use crate::config::fresh;
use crate::config::keepalive_flags;
use crate::config::law_load_gives_back_what_was_saved;
use crate::config::stored;
use crate::dfu::boots_to_bootloader;
use crate::join::autostart_asks;
use crate::ot::Held;
use crate::ot::aloc;
use crate::ot::ask_set_active_tlvs;
use crate::ot::block_tlvs;
use crate::ot::hex_bytes;
use crate::ot::nibble;
use crate::ot::tlvs_block;
use crate::ot_command::Next;
use crate::ot_command::OtCmd;
use crate::ot_command::OtEvent;
use crate::ot_command::OtState;
use crate::ot_command::begins;
use crate::ot_command::follows;
use crate::ot_command::follows_reply;
use crate::ot_command::ot_command;
use crate::ot_command::tlvs_arg;
use crate::ot_notify::PingReplyView;
use crate::ot_notify::Pings;
use crate::ot_notify::counted;
use crate::ot_text::hex_out;
use crate::ot_text::ottlvs_text;
use crate::range::LINK_ANSWERED;
use crate::range::LINK_SILENT;
use crate::range::ProbeView;
use crate::range::RangeEvent;
use crate::range::RangeStage;
use crate::range::range_follows;
use crate::text::Out;
use crate::text::ascii;
use crate::text::byte_len;
use crate::text::digit;
use crate::text::digits;
use crate::text::lemma_ascii_byte_len;
use crate::text::lemma_bytes_of_join;
use crate::text::lemma_digits_ascii;
use crate::usb_device::Wish;
use crate::usb_device::typed;
use crate::usb_device::typed_wish;
use crate::words::Sep;
use crate::words::is_white;
use crate::words::lemma_first_run;
use crate::words::lemma_leading_separator;
use crate::words::lemma_no_runs;
use crate::words::lemma_sep_prefix_bound;
use crate::words::sep_prefix;
use crate::words::trim_end;
use crate::words::trimmed;
use crate::words::word;
use crate::words::words;
use crate::wpan::WpanCommand;
use crate::wpan::begin_mark;
use crate::wpan::hands_over;
use crate::wpan::owned;
use crate::wpan::plan_of;
use crate::wpan::report_mark;

verus! {

// ---- datasets ----

/// A dataset given to CPU2 in its block is read back from the block; of more
/// than 254 bytes, the first 254.
pub proof fn law_dataset_block_read_back(tlvs: Seq<u8>)
    ensures
        tlvs_block(tlvs).len() == 256,
        block_tlvs(tlvs_block(tlvs)) == tlvs.take(at_most(tlvs.len() as int, 254)),
{
    let n = at_most(tlvs.len() as int, 254);
    assert(tlvs_block(tlvs)[254] == n as u8);
    assert(block_tlvs(tlvs_block(tlvs)) =~= tlvs.take(n));
}

/// A dataset in hexadecimal, two lower-case digits for each byte.
pub open spec fn in_hex(tlvs: Seq<u8>) -> Seq<char> {
    Seq::new(
        2 * tlvs.len(),
        |i: int|
            if i % 2 == 0 {
                digit(tlvs[i / 2] as int / 16)
            } else {
                digit(tlvs[i / 2] as int % 16)
            },
    )
}

proof fn lemma_in_hex_plain(tlvs: Seq<u8>)
    ensures
        ascii(in_hex(tlvs)),
        is_ascii_chars(in_hex(tlvs)),
        forall|i: int| 0 <= i < in_hex(tlvs).len() ==> !is_white(#[trigger] in_hex(tlvs)[i]),
{
}

/// A byte in hexadecimal takes two digits, and where there is room for them
/// they are written.
proof fn lemma_byte_in_hex(o: Out, b: u8)
    requires
        o.ok,
        ascii(o.text),
        o.text.len() + 2 <= o.room,
    ensures
        o.hex(b as nat, 2).text == o.text + seq![digit(b as int / 16), digit(b as int % 16)],
        o.hex(b as nat, 2).room == o.room,
{
    reveal(Out::put);
    reveal(Out::padded);
    let v = b as nat;
    lemma_ascii_byte_len(o.text);
    lemma_digits_ascii(v, 16);
    lemma_ascii_byte_len(seq!['0']);
    if v < 16 {
        assert(digits(v, 16) =~= seq![digit(v as int)]);
        assert(o.zeros(0) == o);
        let p = o.zeros(1);
        assert(p.text =~= o.text + seq!['0']);
        lemma_bytes_of_join(o.text, seq!['0']);
        assert(p.text + digits(v, 16) =~= o.text + seq![digit(0), digit(v as int)]);
    } else {
        assert(digits(v / 16, 16) =~= seq![digit(v as int / 16)]);
        assert(digits(v, 16) =~= seq![digit(v as int / 16), digit(v as int % 16)]);
    }
}

proof fn lemma_hex_out(o: Out, tlvs: Seq<u8>)
    requires
        ascii(o.text),
        o.text.len() + 2 * tlvs.len() <= o.room,
    ensures
        hex_out(o, tlvs).text == o.text + in_hex(tlvs),
        hex_out(o, tlvs).room == o.room,
    decreases tlvs.len(),
{
    if tlvs.len() == 0 {
        assert(o.text + in_hex(tlvs) =~= o.text);
    } else {
        let t = tlvs.drop_last();
        lemma_hex_out(o, t);
        let p = hex_out(o, t).again();
        lemma_in_hex_plain(t);
        let b = tlvs.last();
        assert(ascii(p.text)) by {
            assert forall|i: int| 0 <= i < p.text.len() implies (#[trigger] p.text[i] as u32)
                < 128 by {
                if i < o.text.len() {
                    assert(p.text[i] == o.text[i]);
                } else {
                    assert(p.text[i] == in_hex(t)[i - o.text.len()]);
                }
            }
        }
        lemma_byte_in_hex(p, b);
        assert(in_hex(tlvs) =~= in_hex(t) + seq![digit(b as int / 16), digit(b as int % 16)]);
        assert(o.text + in_hex(t) + seq![digit(b as int / 16), digit(b as int % 16)] =~= o.text
            + in_hex(tlvs));
    }
}

/// Hexadecimal digits spell the bytes they were made from.
pub proof fn law_hex_read_back(tlvs: Seq<u8>)
    ensures
        hex_bytes(encode_utf8(in_hex(tlvs))) == tlvs,
    decreases tlvs.len(),
{
    let s = encode_utf8(in_hex(tlvs));
    lemma_in_hex_plain(tlvs);
    is_ascii_chars_encode_utf8(in_hex(tlvs));
    if tlvs.len() == 0 {
        assert(s.len() == 0);
        assert(hex_bytes(s) =~= tlvs);
    } else {
        let t = tlvs.drop_first();
        law_hex_read_back(t);
        lemma_in_hex_plain(t);
        is_ascii_chars_encode_utf8(in_hex(t));
        assert forall|i: int| 0 <= i < in_hex(t).len() implies in_hex(tlvs)[i + 2] == #[trigger] in_hex(
            t,
        )[i] by {
            assert((i + 2) / 2 == i / 2 + 1);
            assert((i + 2) % 2 == i % 2);
        }
        assert(s.skip(2) =~= encode_utf8(in_hex(t)));
        let b = tlvs[0];
        assert(s[0] == digit(b as int / 16) as u8);
        assert(s[1] == digit(b as int % 16) as u8);
        assert(nibble(s[0]) == Some((b as int / 16) as u8));
        assert(nibble(s[1]) == Some((b as int % 16) as u8));
        assert(hex_bytes(s) =~= seq![b] + hex_bytes(s.skip(2)));
        assert(hex_bytes(s) =~= tlvs);
    }
}

proof fn lemma_two_words(first: Seq<char>, second: Seq<char>, rest: Seq<char>)
    requires
        first.len() > 0,
        forall|i: int| 0 <= i < first.len() ==> !is_white(#[trigger] first[i]),
        forall|i: int| 0 <= i < second.len() ==> !is_white(#[trigger] second[i]),
        rest.len() > 0 ==> is_white(rest[0]),
        second.len() == 0 ==> words(rest).len() == 0,
    ensures
        words(first + seq![' '] + second + rest) == (if second.len() == 0 {
            seq![first]
        } else {
            seq![first, second] + words(rest)
        }),
{
    let tail = seq![' '] + (second + rest);
    assert(first + seq![' '] + second + rest =~= first + tail);
    lemma_first_run(Sep::White, first, tail);
    lemma_leading_separator(Sep::White, ' ', second + rest);
    if second.len() > 0 {
        lemma_first_run(Sep::White, second, rest);
        assert(seq![first] + (seq![second] + words(rest)) =~= seq![first, second] + words(rest));
    } else {
        assert(second + rest =~= rest);
        assert(seq![first] + words(rest) =~= seq![first]);
    }
}

proof fn lemma_line_end_holds_no_words()
    ensures
        words("\r\n"@).len() == 0,
        words(Seq::<char>::empty()).len() == 0,
{
    reveal_strlit("\r\n");
    lemma_no_runs(Sep::White);
    let e = Seq::<char>::empty();
    assert("\r\n"@ =~= seq!['\r'] + (seq!['\n'] + e));
    lemma_leading_separator(Sep::White, '\n', e);
    lemma_leading_separator(Sep::White, '\r', seq!['\n'] + e);
}

/// What `ot tlvs` prints is what `ot settlvs` reads: the second word of the
/// line spells the dataset, up to 252 bytes of it.
pub proof fn law_printed_dataset_read_back(tlvs: Seq<u8>)
    requires
        tlvs.len() <= 252,
    ensures
        tlvs_arg(word(ottlvs_text(tlvs), 1)) == tlvs,
{
    reveal(Out::put);
    reveal_strlit("ottlvs ");
    reveal_strlit("\r\n");
    let o = Out { room: 512, text: Seq::empty(), ok: true };
    let head = "ottlvs "@;
    let first = head.drop_last();
    let hex = in_hex(tlvs);
    assert(head =~= first + seq![' ']);
    assert(head.len() == 7 && ascii(head));
    lemma_ascii_byte_len(Seq::empty());
    lemma_ascii_byte_len(head);
    let p = o.put(head);
    assert(p.text =~= head);
    lemma_hex_out(p, tlvs);
    lemma_in_hex_plain(tlvs);
    let text = ottlvs_text(tlvs);
    let rest = if text == head + hex {
        Seq::<char>::empty()
    } else {
        "\r\n"@
    };
    assert(text =~= head + hex + rest);
    assert(text =~= first + seq![' '] + hex + rest);
    lemma_line_end_holds_no_words();
    lemma_two_words(first, hex, rest);
    law_hex_read_back(tlvs);
    assert(tlvs.take(tlvs.len() as int) =~= tlvs);
    if tlvs.len() == 0 {
        assert(hex =~= Seq::<char>::empty());
    }
}

proof fn lemma_settlvs_words(hex: Seq<char>)
    requires
        forall|i: int| 0 <= i < hex.len() ==> !is_white(#[trigger] hex[i]),
    ensures
        word("ot settlvs "@ + hex, 1) == Some("settlvs"@),
        word("ot settlvs "@ + hex, 2) == (if hex.len() > 0 {
            Some(hex)
        } else {
            None
        }),
{
    reveal_strlit("ot settlvs ");
    reveal_strlit("settlvs");
    let s = "ot settlvs "@ + hex;
    let e = Seq::<char>::empty();
    let tail = seq![' '] + hex;
    let first = seq!['o', 't'];
    assert(s =~= first + seq![' '] + "settlvs"@ + tail);
    lemma_two_words(first, "settlvs"@, tail);
    lemma_leading_separator(Sep::White, ' ', hex);
    lemma_no_runs(Sep::White);
    assert(hex + e =~= hex);
    if hex.len() > 0 {
        lemma_first_run(Sep::White, hex, e);
        assert(words(s)[2] == hex);
    } else {
        assert(hex =~= e);
    }
    assert(words(s)[1] == "settlvs"@);
}

/// `ot settlvs` with a dataset in hexadecimal hands that dataset to CPU2.
pub proof fn law_spelled_dataset_is_set(tlvs: Seq<u8>)
    requires
        tlvs.len() <= 254,
    ensures
        ot_command("ot settlvs "@ + in_hex(tlvs)) == OtCmd::SetTlvs(tlvs),
        begins(OtCmd::SetTlvs(tlvs)).next == Next::Call(ask_set_active_tlvs(tlvs)),
{
    lemma_in_hex_plain(tlvs);
    lemma_settlvs_words(in_hex(tlvs));
    law_hex_read_back(tlvs);
    assert(tlvs.take(tlvs.len() as int) =~= tlvs);
    if tlvs.len() == 0 {
        assert(tlvs =~= Seq::<u8>::empty());
    }
    lemma_settlvs_is_no_other();
}

/// The words that are tried before `settlvs` differ from it.
proof fn lemma_settlvs_is_no_other()
    ensures
        "settlvs"@ != "init"@,
        "settlvs"@ != "save"@,
        "settlvs"@ != "keepalive"@,
        "settlvs"@ != "txpower"@,
        "settlvs"@ != "forget"@,
        "settlvs"@ != "config"@,
        "settlvs"@ != "range"@,
        "settlvs"@ != "new"@,
        "settlvs"@ != "tlvs"@,
{
    reveal_strlit("settlvs");
    reveal_strlit("init");
    reveal_strlit("save");
    reveal_strlit("keepalive");
    reveal_strlit("txpower");
    reveal_strlit("forget");
    reveal_strlit("config");
    reveal_strlit("range");
    reveal_strlit("new");
    reveal_strlit("tlvs");
    assert("settlvs"@.len() == 7 && "init"@.len() == 4 && "save"@.len() == 4 && "keepalive"@.len()
        == 9 && "forget"@.len() == 6 && "config"@.len() == 6 && "range"@.len() == 5
        && "new"@.len() == 3 && "tlvs"@.len() == 4);
    assert("settlvs"@[0] == 's' && "txpower"@[0] == 't');
}

// ---- the stored network ----

proof fn lemma_fresh_dataset(c: Config, t: Seq<u8>)
    requires
        t.len() <= 254,
        c.contents() == fresh(t, FLAG_AUTOSTART),
    ensures
        c.flags % 2 == 1,
        c.used() == t,
{
    assert(t.take(t.len() as int) =~= t);
    assert(c.used() =~= t);
}

proof fn lemma_loaded_as_saved(saved: Config, loaded: Config)
    requires
        saved.valid(),
        Some(loaded.contents()) == stored(saved.image()),
    ensures
        loaded.contents() == saved.contents(),
{
    law_load_gives_back_what_was_saved(saved);
}

proof fn lemma_save_stores(held: Held)
    requires
        held is Tlvs,
    ensures
        follows_reply(OtState::SaveDataset, 0, held).next == Next::Save(
            fresh(block_tlvs(held->Tlvs_0@), FLAG_AUTOSTART),
        ),
        block_tlvs(held->Tlvs_0@).len() <= 254,
{
}

/// What `ot save` stores is what the next boot joins: the configuration read
/// back from flash has the autostart flag, and the dataset handed to CPU2 is
/// the one that was active.
pub proof fn law_saved_network_is_rejoined(held: Held, saved: Config, loaded: Config)
    requires
        held is Tlvs,
        saved.valid(),
        follows_reply(OtState::SaveDataset, 0, held).next == Next::Save(saved.contents()),
        Some(loaded.contents()) == stored(saved.image()),
    ensures
        loaded.flags % 2 == 1,
        plan_of(Some(loaded), true).join,
        loaded.used() == block_tlvs(held->Tlvs_0@),
        autostart_asks(loaded.used())[2] == ask_set_active_tlvs(block_tlvs(held->Tlvs_0@)),
{
    let t = block_tlvs(held->Tlvs_0@);
    assert(loaded.used() == t && loaded.flags % 2 == 1) by {
        lemma_loaded_as_saved(saved, loaded);
        lemma_save_stores(held);
        lemma_fresh_dataset(loaded, t);
    }
    lemma_autostart_sets(t);
}

proof fn lemma_autostart_sets(tlvs: Seq<u8>)
    ensures
        autostart_asks(tlvs)[2] == ask_set_active_tlvs(tlvs),
{
}

/// `ot keepalive` changes nothing stored but the keep-alive flag, and the next
/// boot turns the relay load on or off as it says.
pub proof fn law_keepalive_survives(before: Config, on: bool, saved: Config, loaded: Config)
    requires
        before.valid(),
        saved.valid(),
        follows(OtState::KeepaliveLoad { on }, OtEvent::Loaded(Some(before))).next == Next::Save(
            saved.contents(),
        ),
        Some(loaded.contents()) == stored(saved.image()),
    ensures
        (loaded.flags / 2 % 2 == 1) == on,
        plan_of(Some(loaded), true).relay == Some(on),
        plan_of(Some(loaded), true).join == plan_of(Some(before), true).join,
        loaded.flags % 2 == before.flags % 2,
        loaded.used() == before.used(),
{
    lemma_loaded_as_saved(saved, loaded);
    let a = before.flags;
    let b = loaded.flags;
    assert(b == keepalive_flags(a, on));
    assert((a | 2) / 2 % 2 == 1 && (a | 2) % 2 == a % 2) by (bit_vector);
    assert((a & !2) / 2 % 2 == 0 && (a & !2) % 2 == a % 2) by (bit_vector);
}

// ---- the link ----

/// A ping reply that comes in while the probe waits shows in the link.
pub proof fn law_reply_is_noticed(
    probe: ProbeView,
    role: u32,
    r: u32,
    pings: Pings,
    reply: PingReplyView,
    after: Pings,
)
    requires
        probe.stage == (RangeStage::Waiting { role, before: pings.replies, r }),
        after == counted(pings, reply),
    ensures
        range_follows(probe, RangeEvent::Waited { replies: after.replies }).link == Some(
            LINK_ANSWERED,
        ),
        range_follows(probe, RangeEvent::Waited { replies: pings.replies }).link == Some(
            LINK_SILENT,
        ),
{
}

/// The leader's anycast address lies under the prefix, and prefixes that
/// differ give addresses that differ.
pub proof fn law_leader_address_under_prefix(p: Seq<u8>, q: Seq<u8>)
    requires
        p.len() == 8,
        q.len() == 8,
    ensures
        aloc(p).len() == 16,
        aloc(p).take(8) == p,
        aloc(p) == aloc(q) <==> p == q,
{
    assert(aloc(p).take(8) =~= p);
    assert(aloc(q).take(8) =~= q);
}

// ---- the console ----

proof fn lemma_trim_takes_no_room(s: Seq<char>)
    ensures
        byte_len(trim_end(s)) <= byte_len(s),
    decreases s.len(),
{
    if s.len() > 0 && is_white(s.last()) {
        let t = s.drop_last();
        assert(s =~= t + seq![s.last()]);
        lemma_bytes_of_join(t, seq![s.last()]);
        lemma_trim_takes_no_room(t);
    }
}

/// A command line never outgrows its room, whatever is typed.
pub proof fn law_typed_line_stays_in_room(line: Seq<char>, b: u8)
    requires
        byte_len(line) <= 512,
    ensures
        byte_len(typed(line, b)) <= 512,
{
    lemma_bytes_of_join(line, seq![b as char]);
    lemma_ascii_byte_len(Seq::empty());
}

/// A line that the console hands on reaches the CPU2 task whole, but for the
/// white space around it, and belongs to it.
pub proof fn law_forwarded_line_is_whole(line: Seq<char>, b: u8)
    requires
        byte_len(line) <= 512,
        typed_wish(line, b) is Some,
        typed_wish(line, b)->0 is Forward,
    ensures
        typed_wish(line, b) == Some(Wish::Forward(trimmed(line))),
        owned(trimmed(line)),
{
    let n = sep_prefix(Sep::White, line) as int;
    lemma_sep_prefix_bound(Sep::White, line);
    assert(line =~= line.take(n) + line.skip(n));
    lemma_bytes_of_join(line.take(n), line.skip(n));
    lemma_trim_takes_no_room(line.skip(n));
}

// ---- lines ----

/// A write only ever appends, and never beyond the room of its line; a piece is
/// written whole when there is room and none was left out before, and not at all
/// otherwise; the next write starts anew.
pub proof fn law_writes_append_within_room(o: Out, piece: Seq<char>)
    requires
        byte_len(o.text) <= o.room,
    ensures
        o.text.is_prefix_of(o.put(piece).text),
        byte_len(o.put(piece).text) <= o.room,
        o.put(piece).room == o.room,
        o.put(piece).ok ==> o.put(piece).text == o.text + piece,
        o.put(piece).ok <==> o.ok && byte_len(o.text) + byte_len(piece) <= o.room,
        !o.put(piece).ok ==> o.put(piece).text == o.text,
        o.again().ok && o.again().text == o.text && o.again().room == o.room,
{
    reveal(Out::put);
    lemma_bytes_of_join(o.text, piece);
}

// ---- CPU2 firmware operations ----

/// A command that starts a CPU2 firmware operation keeps a watchdog reset out
/// of the bootloader from then on, until FUS reports itself idle.
pub proof fn law_busy_marker_holds_off_the_bootloader(cmd: WpanCommand, state: u8)
    requires
        hands_over(cmd),
    ensures
        begin_mark(cmd) matches Some(m) && !boots_to_bootloader(true, m, 0) && (report_mark(
            state,
            m,
        ) is Some <==> state == 0),
        report_mark(0, begin_mark(cmd)->0) matches Some(m) && boots_to_bootloader(true, m, 0),
{
}

// ---- hexadecimal in either case ----

/// Whether a character is the digit for `d`, in either case.
pub open spec fn is_hex_digit(c: u8, d: int) -> bool {
    if d < 10 {
        c == '0' as u8 + d
    } else {
        c == 'a' as u8 + (d - 10) || c == 'A' as u8 + (d - 10)
    }
}

/// Whether a character is any hexadecimal digit.
pub open spec fn is_hex(c: u8) -> bool {
    exists|d: int| 0 <= d < 16 && is_hex_digit(c, d)
}

/// Whether characters spell bytes in hexadecimal, two digits each, each digit in
/// either case.
pub open spec fn spells(s: Seq<u8>, bytes: Seq<u8>) -> bool {
    s.len() == 2 * bytes.len() && forall|k: int|
        0 <= k < bytes.len() ==> is_hex_digit(s[2 * k], #[trigger] bytes[k] as int / 16)
            && is_hex_digit(s[2 * k + 1], bytes[k] as int % 16)
}

/// Hexadecimal is read in either case, and up to the first pair that holds
/// anything but two digits.
pub proof fn law_hex_is_read_in_either_case(s: Seq<u8>, bytes: Seq<u8>, rest: Seq<u8>)
    requires
        spells(s, bytes),
        rest.len() < 2 || !is_hex(rest[0]) || !is_hex(rest[1]),
    ensures
        hex_bytes(s) == bytes,
        hex_bytes(s + rest) == bytes,
    decreases bytes.len(),
{
    if bytes.len() == 0 {
        assert(s =~= Seq::<u8>::empty());
        assert(s + rest =~= rest);
        assert(hex_bytes(s) =~= bytes);
        if rest.len() >= 2 && nibble(rest[0]) is Some && nibble(rest[1]) is Some {
            let d = nibble(rest[0])->0 as int;
            let e = nibble(rest[1])->0 as int;
            assert(is_hex_digit(rest[0], d) && is_hex_digit(rest[1], e));
        }
        assert(hex_bytes(rest) =~= bytes);
    } else {
        let t = s.skip(2);
        let b = bytes.drop_first();
        assert forall|k: int| 0 <= k < b.len() implies is_hex_digit(
            t[2 * k],
            #[trigger] b[k] as int / 16,
        ) && is_hex_digit(t[2 * k + 1], b[k] as int % 16) by {
            assert(b[k] == bytes[k + 1]);
            assert(t[2 * k] == s[2 * (k + 1)]);
            assert(t[2 * k + 1] == s[2 * (k + 1) + 1]);
        }
        law_hex_is_read_in_either_case(t, b, rest);
        let x = bytes[0];
        let first: int = 0;
        assert(bytes[first] == x);
        assert(is_hex_digit(s[2 * first], x as int / 16));
        assert(is_hex_digit(s[2 * first + 1], x as int % 16));
        assert(nibble(s[0]) == Some((x as int / 16) as u8));
        assert(nibble(s[1]) == Some((x as int % 16) as u8));
        assert((s + rest)[0] == s[0] && (s + rest)[1] == s[1]);
        assert((s + rest).skip(2) =~= t + rest);
        assert(seq![x] + b =~= bytes);
    }
}

/// The digits a dataset is printed in are digits of its bytes.
pub proof fn law_printed_hex_spells(tlvs: Seq<u8>)
    ensures
        spells(encode_utf8(in_hex(tlvs)), tlvs),
{
    lemma_in_hex_plain(tlvs);
    is_ascii_chars_encode_utf8(in_hex(tlvs));
    let s = encode_utf8(in_hex(tlvs));
    assert forall|k: int| 0 <= k < tlvs.len() implies is_hex_digit(
        s[2 * k],
        #[trigger] tlvs[k] as int / 16,
    ) && is_hex_digit(s[2 * k + 1], tlvs[k] as int % 16) by {
        assert(in_hex(tlvs)[2 * k] == digit(tlvs[k] as int / 16));
        assert(in_hex(tlvs)[2 * k + 1] == digit(tlvs[k] as int % 16));
    }
}

/// Digits are those of ASCII, and a number is written most significant digit
/// first.
pub proof fn law_digits_are_written_in_order(v: nat, base: nat, d: int)
    requires
        2 <= base <= 16,
        0 <= d < 16,
    ensures
        d < 10 ==> digit(d) as u32 == '0' as u32 + d,
        d >= 10 ==> digit(d) as u32 == 'a' as u32 + (d - 10),
        v < base ==> digits(v, base) == seq![digit(v as int)],
        v >= base ==> digits(v, base) == digits(v / base, base) + seq![digit((v % base) as int)],
{
    assert(v >= base ==> digits(v, base) =~= digits(v / base, base) + seq![
        digit((v % base) as int),
    ]);
}

// ---- long datasets ----

/// Of more than 254 bytes in hexadecimal, the first 254 are taken.
pub proof fn law_long_dataset_is_cut(tlvs: Seq<u8>)
    ensures
        tlvs.len() <= 254 ==> tlvs_arg(Some(in_hex(tlvs))) == tlvs,
        tlvs.len() > 254 ==> tlvs_arg(Some(in_hex(tlvs))) == tlvs.take(254),
        tlvs_arg(None).len() == 0,
{
    law_hex_read_back(tlvs);
    assert(tlvs.take(tlvs.len() as int) =~= tlvs);
}

proof fn lemma_hex_only_appends(o: Out, tlvs: Seq<u8>, k: int)
    requires
        0 <= k <= tlvs.len(),
    ensures
        hex_out(o, tlvs.take(k)).text.is_prefix_of(hex_out(o, tlvs).text),
    decreases tlvs.len(),
{
    if k == tlvs.len() {
        assert(tlvs.take(k) =~= tlvs);
    } else {
        let t = tlvs.drop_last();
        lemma_hex_only_appends(o, t, k);
        assert(t.take(k) =~= tlvs.take(k));
        let p = hex_out(o, t).again();
        lemma_number_only_appends(p, tlvs.last() as nat, 16, 2);
    }
}

proof fn lemma_number_only_appends(o: Out, v: nat, base: nat, width: nat)
    ensures
        o.text.is_prefix_of(o.padded(v, base, width).text),
{
    reveal(Out::put);
    reveal(Out::padded);
    let d = digits(v, base);
    if d.len() < width {
        lemma_zeros_only_append(o, (width - d.len()) as nat);
    }
}

proof fn lemma_zeros_only_append(o: Out, n: nat)
    ensures
        o.text.is_prefix_of(o.zeros(n).text),
    decreases n,
{
    reveal(Out::put);
    if n > 0 {
        lemma_zeros_only_append(o, (n - 1) as nat);
    }
}

/// However long a dataset is, `ot tlvs` prints its first 252 bytes.
pub proof fn law_long_dataset_is_printed(tlvs: Seq<u8>)
    requires
        tlvs.len() >= 252,
    ensures
        ("ottlvs "@ + in_hex(tlvs.take(252))).is_prefix_of(ottlvs_text(tlvs)),
{
    reveal(Out::put);
    reveal_strlit("ottlvs ");
    let o = Out { room: 512, text: Seq::empty(), ok: true };
    let head = "ottlvs "@;
    assert(head.len() == 7 && ascii(head));
    lemma_ascii_byte_len(Seq::empty());
    lemma_ascii_byte_len(head);
    let p = o.put(head);
    assert(p.text =~= head);
    lemma_hex_out(p, tlvs.take(252));
    lemma_hex_only_appends(p, tlvs, 252);
}

} // verus!
