//! What is written to a line with room for it: pieces, numbers and flags, as
//! plain text.

use vstd::prelude::*;
use crate::flash::FlashError;
use crate::ot::err_text;
use crate::ot::role_text;
use crate::ot_text::flash_text;
use crate::text::Out;
use crate::text::byte_len;
use crate::text::digits;
use crate::text::lemma_ascii_byte_len;
use crate::text::lemma_bytes_of_join;
use crate::text::lemma_digits_ascii;
use crate::words::law_leading_zero;
use crate::words::law_number_read_back;
use crate::words::law_signed_byte_read_back;
use crate::words::signed_byte;
use crate::words::value;

verus! {

/// A piece that has room is written.
pub proof fn lemma_put(o: Out, piece: Seq<char>)
    requires
        o.ok,
        byte_len(o.text) + byte_len(piece) <= o.room,
    ensures
        o.put(piece) == (Out { text: o.text + piece, ..o }),
        byte_len(o.text + piece) == byte_len(o.text) + byte_len(piece),
{
    reveal(Out::put);
    lemma_bytes_of_join(o.text, piece);
}

/// Zeros.
pub open spec fn zeros_text(n: nat) -> Seq<char> {
    Seq::new(n, |i: int| '0')
}

pub proof fn lemma_zeros(o: Out, n: nat)
    requires
        o.ok,
        byte_len(o.text) + n <= o.room,
    ensures
        o.zeros(n) == (Out { text: o.text + zeros_text(n), ..o }),
        byte_len(o.text + zeros_text(n)) == byte_len(o.text) + n,
    decreases n,
{
    if n == 0 {
        assert(o.text + zeros_text(0) =~= o.text);
    } else {
        let m = (n - 1) as nat;
        lemma_zeros(o, m);
        lemma_ascii_byte_len(seq!['0']);
        lemma_put(o.zeros(m), seq!['0']);
        assert(o.text + zeros_text(m) + seq!['0'] =~= o.text + zeros_text(n));
    }
}

/// A number, zero-padded on the left to `width` digits.
pub open spec fn number_text(v: nat, base: nat, width: nat) -> Seq<char> {
    let d = digits(v, base);
    if d.len() < width {
        zeros_text((width - d.len()) as nat) + d
    } else {
        d
    }
}

/// A number in decimal with its sign.
pub open spec fn signed_text(v: int) -> Seq<char> {
    if v < 0 {
        seq!['-'] + digits((-v) as nat, 10)
    } else {
        digits(v as nat, 10)
    }
}

/// `base` to the `k`.
pub open spec fn power(base: nat, k: nat) -> nat
    decreases k,
{
    if k == 0 {
        1
    } else {
        base * power(base, (k - 1) as nat)
    }
}

/// A number below the `k`-th power of the base has at most `k` digits.
pub proof fn lemma_digit_count(v: nat, base: nat, k: nat)
    requires
        2 <= base <= 16,
        1 <= k,
        v < power(base, k),
    ensures
        1 <= digits(v, base).len() <= k,
    decreases k,
{
    if v >= base {
        if k == 1 {
            assert(power(base, 0) == 1);
            assert(base * 1 == base) by (nonlinear_arith);
        } else {
            let p = power(base, (k - 1) as nat);
            assert(v / base < p) by (nonlinear_arith)
                requires
                    v < base * p,
                    2 <= base,
            ;
            lemma_digit_count(v / base, base, (k - 1) as nat);
        }
    }
}

/// A number that has room is written, and takes `k` bytes at most.
pub proof fn lemma_number(o: Out, v: nat, base: nat, width: nat, k: nat)
    requires
        o.ok,
        2 <= base <= 16,
        width <= k,
        1 <= k,
        v < power(base, k),
        byte_len(o.text) + k <= o.room,
    ensures
        o.padded(v, base, width) == (Out { text: o.text + number_text(v, base, width), ..o }),
        byte_len(o.text + number_text(v, base, width)) <= byte_len(o.text) + k,
{
    reveal(Out::padded);
    let d = digits(v, base);
    lemma_digit_count(v, base, k);
    lemma_digits_ascii(v, base);
    if d.len() < width {
        let z = (width - d.len()) as nat;
        lemma_zeros(o, z);
        lemma_put(o.zeros(z), d);
        assert(o.text + zeros_text(z) + d =~= o.text + number_text(v, base, width));
    } else {
        lemma_put(o, d);
    }
}

/// A number of eight bits with its sign that has room is written, and takes four
/// bytes at most.
pub proof fn lemma_signed(o: Out, v: int)
    requires
        o.ok,
        -128 <= v <= 127,
        byte_len(o.text) + 4 <= o.room,
    ensures
        o.signed(v) == (Out { text: o.text + signed_text(v), ..o }),
        byte_len(o.text + signed_text(v)) <= byte_len(o.text) + 4,
{
    reveal_with_fuel(power, 4);
    assert(power(10, 3) == 1000);
    if v < 0 {
        lemma_ascii_byte_len(seq!['-']);
        lemma_put(o, seq!['-']);
        lemma_number(o.put(seq!['-']), (-v) as nat, 10, 0, 3);
        assert(o.text + seq!['-'] + digits((-v) as nat, 10) =~= o.text + signed_text(v));
    } else {
        lemma_number(o, v as nat, 10, 0, 3);
    }
}

/// `true` or `false`.
pub open spec fn flag_text(b: bool) -> Seq<char> {
    if b {
        "true"@
    } else {
        "false"@
    }
}

/// A flag that has room is written, and takes five bytes at most.
pub proof fn lemma_flag(o: Out, b: bool)
    requires
        o.ok,
        byte_len(o.text) + 5 <= o.room,
    ensures
        o.flag(b) == (Out { text: o.text + flag_text(b), ..o }),
        byte_len(o.text + flag_text(b)) <= byte_len(o.text) + 5,
{
    reveal_strlit("true");
    reveal_strlit("false");
    lemma_ascii_byte_len("true"@);
    lemma_ascii_byte_len("false"@);
    lemma_put(o, flag_text(b));
}

/// No error name takes more than 15 bytes.
pub proof fn lemma_err_text(e: u32)
    ensures
        byte_len(err_text(e)) <= 15,
{
    reveal_strlit("ok");
    reveal_strlit("failed");
    reveal_strlit("drop");
    reveal_strlit("no-bufs");
    reveal_strlit("no-route");
    reveal_strlit("busy");
    reveal_strlit("parse");
    reveal_strlit("invalid-args");
    reveal_strlit("security");
    reveal_strlit("abort");
    reveal_strlit("not-implemented");
    reveal_strlit("invalid-state");
    reveal_strlit("no-ack");
    reveal_strlit("detached");
    reveal_strlit("not-found");
    reveal_strlit("already");
    reveal_strlit("error");
    lemma_ascii_byte_len(err_text(e));
}

/// No role name takes more than 8 bytes.
pub proof fn lemma_role_text(role: u32)
    ensures
        byte_len(role_text(role)) <= 8,
        role >= 2 ==> byte_len(role_text(role)) <= 6,
{
    reveal_strlit("disabled");
    reveal_strlit("detached");
    reveal_strlit("child");
    reveal_strlit("router");
    reveal_strlit("leader");
    reveal_strlit("?");
    lemma_ascii_byte_len(role_text(role));
}

/// No outcome of a flash operation takes more than 16 bytes.
pub proof fn lemma_flash_text(r: Result<(), FlashError>)
    ensures
        byte_len(flash_text(r)) <= 16,
{
    reveal_strlit("Ok(())");
    reveal_strlit("Err(Prog)");
    reveal_strlit("Err(Size)");
    reveal_strlit("Err(Miss)");
    reveal_strlit("Err(Seq)");
    reveal_strlit("Err(Protected)");
    reveal_strlit("Err(Unaligned)");
    reveal_strlit("Err(Parallelism)");
    lemma_ascii_byte_len(flash_text(r));
}

/// The powers that bound the numbers of a word of 8, 16, 32 and 64 bits.
pub proof fn lemma_powers()
    ensures
        power(10, 1) == 10,
        power(10, 3) == 1000,
        power(10, 4) == 10_000,
        power(10, 5) == 100_000,
        power(10, 10) == 10_000_000_000,
        power(10, 20) == 100_000_000_000_000_000_000,
        power(16, 2) == 0x100,
        power(16, 3) == 0x1000,
        power(16, 4) == 0x1_0000,
        power(16, 8) == 0x1_0000_0000,
{
    reveal_with_fuel(power, 21);
}

/// Numbers are written so that they read back: padding with zeros changes
/// nothing but the length.
pub proof fn law_padded_number_read_back(v: nat, base: nat, width: nat)
    requires
        2 <= base <= 16,
    ensures
        value(number_text(v, base, width), base) == Some(v),
        number_text(v, base, width).len() >= width,
        number_text(v, base, width).len() == width || number_text(v, base, width) == digits(
            v,
            base,
        ),
{
    law_number_read_back(v, base, v);
    let d = digits(v, base);
    if d.len() < width {
        lemma_zeros_change_nothing((width - d.len()) as nat, d, base);
    }
}

proof fn lemma_zeros_change_nothing(n: nat, s: Seq<char>, base: nat)
    requires
        2 <= base <= 16,
    ensures
        value(zeros_text(n) + s, base) == value(s, base),
    decreases n,
{
    if n == 0 {
        assert(zeros_text(0) + s =~= s);
    } else {
        lemma_zeros_change_nothing((n - 1) as nat, s, base);
        law_leading_zero(zeros_text((n - 1) as nat) + s, base);
        assert(zeros_text(n) + s =~= seq!['0'] + (zeros_text((n - 1) as nat) + s));
    }
}

/// Signed numbers are written so that they read back.
pub proof fn law_signed_text_read_back(v: int)
    requires
        -128 <= v <= 127,
    ensures
        signed_byte(signed_text(v)) == Some(v),
{
    law_signed_byte_read_back(v, 0);
}

} // verus!
