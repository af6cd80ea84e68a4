//! IPv6 addresses as text.

use vstd::prelude::*;
use vstd::utf8::encode_utf8;
use crate::bounded::group_slice;
use crate::bounded::groups_of;
use crate::bounded::no_groups;
use crate::bounded::push_group;
use crate::bytes::u16_be;
use crate::text::Out;
use crate::text::byte_len;
use crate::text::digits;
use crate::text::lemma_ascii_byte_len;
use crate::text::lemma_bytes_of_join;
use crate::text::lemma_digits_ascii;
use crate::text::line;
use crate::text::put_char;
use crate::text::put_hex;
use crate::text::wrote;
use crate::words::Parts;
use crate::words::Sep;
use crate::words::law_number_read_back;
use crate::words::lemma_digits_plain;
use crate::words::lemma_first_run;
use crate::words::lemma_leading_separator;
use crate::words::lemma_no_runs;
use crate::words::parse_unsigned;
use crate::words::run_prefix;
use crate::words::runs;
use crate::words::sep_prefix;
use crate::words::unsigned;
use crate::words::value;

verus! {

/// The 16-bit group number `i` of an address.
pub open spec fn group(a: Seq<u8>, i: int) -> nat {
    (256 * a[2 * i] + a[2 * i + 1]) as nat
}

/// The first `n` groups of an address written to a line, in hexadecimal with
/// colons between them. Every colon and every group is a write of its own.
pub open spec fn ip6_out(o: Out, a: Seq<u8>, n: nat) -> Out
    decreases n,
{
    if n == 0 {
        o
    } else {
        let p = ip6_out(o, a, (n - 1) as nat);
        let q = if n > 1 {
            p.again().put(seq![':'])
        } else {
            p
        };
        q.again().hex(group(a, n - 1), 0)
    }
}

/// Appends an address to a line: eight groups in hexadecimal, none left out.
pub fn fmt_ip6(a: &[u8; 16], l: &mut heapless::String<224>)
    ensures
        wrote(*final(l), true) == ip6_out(wrote(*old(l), true), a@, 8).again(),
{
    let ghost start = wrote(*l, true);
    let mut i: usize = 0;
    let ghost mut ok = true;
    while i < 8
        invariant
            i <= 8,
            wrote(*l, ok) == ip6_out(start, a@, i as nat),
        decreases 8 - i,
    {
        if i > 0 {
            let _ = put_char(l, true, ':');
        }
        let w = put_hex(l, true, u16_be(a[2 * i], a[2 * i + 1]) as u32, 0);
        proof {
            ok = w;
        }
        i = i + 1;
    }
}

/// The groups that the parts spell, when each is a number of 16 bits.
pub open spec fn values(parts: Seq<Seq<char>>) -> Option<Seq<u16>>
    decreases parts.len(),
{
    if parts.len() == 0 {
        Some(Seq::empty())
    } else {
        match (values(parts.drop_last()), unsigned(parts.last(), 16, 0xFFFF)) {
            (Some(v), Some(x)) => Some(v.push(x as u16)),
            _ => None,
        }
    }
}

/// The groups between the colons of `s`, at most eight. A colon at either end
/// parts nothing.
pub open spec fn hextets(s: Seq<char>) -> Option<Seq<u16>> {
    match values(runs(Sep::Colon, s)) {
        Some(v) if v.len() <= 8 => Some(v),
        _ => None,
    }
}

/// Whether a `::` stands at `i`.
pub open spec fn gap_at(s: Seq<char>, i: int) -> bool {
    0 <= i && i + 1 < s.len() && s[i] == ':' && s[i + 1] == ':'
}

/// Whether a `::` stands in `s`.
pub open spec fn has_gap(s: Seq<char>) -> bool {
    exists|i: int| gap_at(s, i)
}

/// Whether `i` is where the first `::` of `s` stands.
pub open spec fn first_gap(s: Seq<char>, i: int) -> bool {
    gap_at(s, i) && forall|j: int| 0 <= j < i ==> !gap_at(s, j)
}

/// `n` groups of zero.
pub open spec fn no_words(n: nat) -> Seq<u16> {
    Seq::new(n, |i: int| 0u16)
}

/// The eight groups that `s` spells: all of them, or those before and after
/// the `::` with zeros between. There is one `::` at most.
pub open spec fn ip6_groups(s: Seq<char>) -> Option<Seq<u16>> {
    if exists|i: int| first_gap(s, i) {
        let i = choose|i: int| first_gap(s, i);
        match (hextets(s.take(i)), hextets(s.skip(i + 2))) {
            (Some(h), Some(t)) if !has_gap(s.skip(i + 2)) && h.len() + t.len() <= 8 => Some(
                h + no_words((8 - h.len() - t.len()) as nat) + t,
            ),
            _ => None,
        }
    } else {
        match hextets(s) {
            Some(h) if h.len() == 8 => Some(h),
            _ => None,
        }
    }
}

/// The bytes of eight groups, most significant first.
pub open spec fn group_bytes(w: Seq<u16>) -> Seq<u8> {
    Seq::new(
        16,
        |k: int|
            if k % 2 == 0 {
                (w[k / 2] / 256) as u8
            } else {
                (w[k / 2] % 256) as u8
            },
    )
}

/// The address that `s` spells, if it spells one.
pub open spec fn ip6_of(s: Seq<char>) -> Option<Seq<u8>> {
    match ip6_groups(s) {
        Some(w) => Some(group_bytes(w)),
        None => None,
    }
}

/// There is one first `::` at most.
proof fn lemma_first_gap_is(s: Seq<char>, i: int)
    requires
        first_gap(s, i),
    ensures
        (choose|k: int| first_gap(s, k)) == i,
{
    let k = choose|k: int| first_gap(s, k);
    if k < i {
        assert(!gap_at(s, k));
    } else if i < k {
        assert(!gap_at(s, i));
    }
}

/// As many groups as parts, and all parts are numbers if the later ones are.
proof fn lemma_values(parts: Seq<Seq<char>>, i: int)
    requires
        0 <= i <= parts.len(),
        values(parts) is Some,
    ensures
        values(parts)->0.len() == parts.len(),
        values(parts.take(i)) is Some,
    decreases parts.len(),
{
    if i == parts.len() {
        assert(parts.take(i) =~= parts);
        if parts.len() > 0 {
            lemma_values(parts.drop_last(), i - 1);
        }
    } else {
        lemma_values(parts.drop_last(), i);
        assert(parts.drop_last().take(i) =~= parts.take(i));
    }
}

/// Reads the groups between the colons of `s`.
fn parse_hextets(s: &str) -> (r: Option<heapless::Vec<u16, 8>>)
    ensures
        r is Some <==> hextets(s@) is Some,
        r is Some ==> groups_of(r->0) == hextets(s@)->0,
{
    let ghost all = runs(Sep::Colon, s@);
    let mut groups = no_groups();
    let mut parts = Parts::of(Sep::Colon, s);
    let ghost mut i: int = 0;
    assert(all.skip(0) =~= all);
    loop
        invariant
            0 <= i <= all.len(),
            i <= 8,
            all == runs(Sep::Colon, s@),
            parts.left() == all.skip(i),
            values(all.take(i)) == Some(groups_of(groups)),
            groups_of(groups).len() == i,
        ensures
            i == all.len(),
        decreases parts.size(),
    {
        let part = match parts.next() {
            Some(p) => p,
            None => {
                break ;
            },
        };
        proof {
            let t = all.take(i + 1);
            assert(t.drop_last() =~= all.take(i));
            assert(t.last() == part@);
            assert(all.skip(i).drop_first() =~= all.skip(i + 1));
            if values(all) is Some {
                lemma_values(all, i + 1);
            }
        }
        let g = match parse_unsigned(part, 16, 0xFFFF) {
            Some(g) => g as u16,
            None => {
                return None;
            },
        };
        match push_group(&mut groups, g) {
            Ok(_) => {},
            Err(_) => {
                return None;
            },
        }
        proof {
            i = i + 1;
        }
    }
    assert(all.take(i) =~= all);
    Some(groups)
}

/// The character index of the first `::` in `s`, if there is one.
fn find_gap(s: &str) -> (r: Option<usize>)
    ensures
        r is Some ==> first_gap(s@, r->0 as int),
        r is Some <==> has_gap(s@),
{
    let n: usize = s.unicode_len();
    let mut i: usize = 0;
    while i < n && i + 1 < n
        invariant
            n == s@.len(),
            i <= n,
            forall|j: int| 0 <= j < i ==> !gap_at(s@, j),
        decreases n - i,
    {
        if s.get_char(i) == ':' && s.get_char(i + 1) == ':' {
            assert(gap_at(s@, i as int));
            return Some(i);
        }
        i = i + 1;
    }
    None
}

/// Minimal IPv6 text parser: groups of hexadecimal digits with colons between
/// them, one `::` for a run of zeros, no embedded IPv4.
pub fn parse_ip6(s: &str) -> (r: Option<[u8; 16]>)
    ensures
        r is Some <==> ip6_of(s@) is Some,
        r is Some ==> r->0@ == ip6_of(s@)->0,
{
    let n: usize = s.unicode_len();
    let gap = find_gap(s);
    let (h, t): (&str, Option<&str>) = match gap {
        Some(i) => (s.substring_char(0, i), Some(s.substring_char(i + 2, n))),
        None => (s, None),
    };
    proof {
        if gap is Some {
            let i = gap->0 as int;
            lemma_first_gap_is(s@, i);
            assert(s@.subrange(0, i) =~= s@.take(i));
            assert(s@.subrange(i + 2, n as int) =~= s@.skip(i + 2));
        }
    }
    if let Some(t) = t {
        if find_gap(t).is_some() {
            return None;
        }
    }
    let head = match parse_hextets(h) {
        Some(v) => v,
        None => {
            return None;
        },
    };
    let tail = match t {
        Some(t) => match parse_hextets(t) {
            Some(v) => v,
            None => {
                return None;
            },
        },
        None => no_groups(),
    };
    let hs: &[u16] = group_slice(&head);
    let ts: &[u16] = group_slice(&tail);
    let hn: usize = hs.len();
    let tn: usize = ts.len();
    if t.is_none() && hn != 8 {
        return None;
    }
    if hn + tn > 8 {
        return None;
    }
    let mut w: [u16; 8] = [0; 8];
    let mut i: usize = 0;
    while i < hn
        invariant
            i <= hn <= 8,
            hn == hs@.len(),
            forall|k: int| 0 <= k < i ==> w@[k] == hs@[k],
            forall|k: int| i <= k < 8 ==> w@[k] == 0,
        decreases hn - i,
    {
        w[i] = hs[i];
        i = i + 1;
    }
    let mut j: usize = 0;
    while j < tn
        invariant
            j <= tn <= 8,
            hn + tn <= 8,
            hn == hs@.len(),
            tn == ts@.len(),
            forall|k: int| 0 <= k < hn ==> w@[k] == hs@[k],
            forall|k: int| hn <= k < 8 - tn ==> w@[k] == 0,
            forall|k: int| 8 - tn <= k < 8 - tn + j ==> w@[k] == ts@[k - (8 - tn)],
        decreases tn - j,
    {
        w[8 - tn + j] = ts[j];
        j = j + 1;
    }
    proof {
        let want = ip6_groups(s@)->0;
        assert(w@ =~= want);
    }
    let mut a: [u8; 16] = [0; 16];
    let mut g: usize = 0;
    while g < 8
        invariant
            g <= 8,
            forall|k: int| 0 <= k < 2 * g ==> a@[k] == group_bytes(w@)[k],
        decreases 8 - g,
    {
        a[2 * g] = (w[g] / 256) as u8;
        a[2 * g + 1] = (w[g] % 256) as u8;
        g = g + 1;
    }
    assert(a@ =~= group_bytes(w@));
    Some(a)
}

// ---- laws ----

/// The groups of an address from number `i` on, as text.
spec fn tail_text(a: Seq<u8>, i: nat) -> Seq<char>
    decreases 8 - i,
{
    if i >= 7 {
        digits(group(a, 7), 16)
    } else {
        digits(group(a, i as int), 16) + (seq![':'] + tail_text(a, i + 1))
    }
}

/// The first `n` groups of an address, as text.
spec fn head_text(a: Seq<u8>, n: nat) -> Seq<char>
    decreases n,
{
    if n == 0 {
        Seq::empty()
    } else if n == 1 {
        digits(group(a, 0), 16)
    } else {
        head_text(a, (n - 1) as nat) + seq![':'] + digits(group(a, n - 1), 16)
    }
}

/// A number of `k` hexadecimal digits is written with `k` at most.
proof fn lemma_group_digits(v: nat)
    requires
        v < 65536,
    ensures
        1 <= digits(v, 16).len() <= 4,
        byte_len(digits(v, 16)) == digits(v, 16).len(),
{
    reveal_with_fuel(digits, 5);
    lemma_digits_ascii(v, 16);
    if v >= 16 {
        assert(v / 16 < 4096);
        if v / 16 >= 16 {
            assert(v / 16 / 16 < 256);
            if v / 16 / 16 >= 16 {
                assert(v / 16 / 16 / 16 < 16);
            }
        }
    }
}

/// An address takes at most forty bytes of a line with room for them.
proof fn lemma_ip6_out(o: Out, a: Seq<u8>, n: nat)
    requires
        n <= 8,
        o.ok,
        byte_len(o.text) + 5 * n <= o.room,
    ensures
        ip6_out(o, a, n).ok,
        ip6_out(o, a, n).room == o.room,
        ip6_out(o, a, n).text == o.text + head_text(a, n),
        byte_len(head_text(a, n)) <= 5 * n,
    decreases n,
{
    if n == 0 {
        assert(o.text + head_text(a, 0) =~= o.text);
        assert(head_text(a, 0) =~= Seq::<char>::empty());
        assert(encode_utf8(Seq::<char>::empty()).len() == 0);
    } else {
        reveal(Out::put);
        reveal(Out::padded);
        lemma_ip6_out(o, a, (n - 1) as nat);
        let g = group(a, n - 1);
        let d = digits(g, 16);
        lemma_group_digits(g);
        let t = head_text(a, (n - 1) as nat);
        lemma_bytes_of_join(o.text, t);
        lemma_ascii_byte_len(seq![':']);
        lemma_bytes_of_join(o.text + t, seq![':']);
        lemma_bytes_of_join(t, seq![':']);
        lemma_bytes_of_join(t + seq![':'], d);
        if n == 1 {
            assert(o.text + t =~= o.text);
            assert(o.text + d =~= o.text + head_text(a, 1));
        } else {
            assert(o.text + t + seq![':'] + d =~= o.text + head_text(a, n));
        }
    }
}

/// The two ways to put the groups together agree.
proof fn lemma_head_and_tail(a: Seq<u8>, n: nat)
    requires
        1 <= n <= 8,
    ensures
        tail_text(a, 0) == (if n == 8 {
            head_text(a, 8)
        } else {
            head_text(a, n) + (seq![':'] + tail_text(a, n))
        }),
    decreases n,
{
    if n > 1 {
        lemma_head_and_tail(a, (n - 1) as nat);
        let h = head_text(a, (n - 1) as nat);
        let d = digits(group(a, n - 1), 16);
        if n == 8 {
            assert(h + (seq![':'] + tail_text(a, 7)) =~= h + seq![':'] + d);
        } else {
            assert(h + (seq![':'] + (d + (seq![':'] + tail_text(a, n)))) =~= h + seq![':'] + d + (
            seq![':'] + tail_text(a, n)));
        }
    }
}

/// The groups of an address, as text each.
spec fn group_texts(a: Seq<u8>, i: nat) -> Seq<Seq<char>> {
    Seq::new((8 - i) as nat, |k: int| digits(group(a, i + k), 16))
}

proof fn lemma_tail_runs(a: Seq<u8>, i: nat)
    requires
        i <= 7,
    ensures
        tail_text(a, i).len() > 0,
        tail_text(a, i)[0] != ':',
        runs(Sep::Colon, tail_text(a, i)) == group_texts(a, i),
        forall|j: int| !gap_at(tail_text(a, i), j),
    decreases 8 - i,
{
    let s = tail_text(a, i);
    let d = digits(group(a, i as int), 16);
    lemma_digits_plain(group(a, i as int), 16);
    assert(d[0] != ':');
    if i == 7 {
        let none = Seq::<char>::empty();
        lemma_first_run(Sep::Colon, d, none);
        lemma_no_runs(Sep::Colon);
        assert(d + none =~= d);
        assert(seq![d] + Seq::<Seq<char>>::empty() =~= group_texts(a, 7));
        assert forall|j: int| !gap_at(s, j) by {
            if 0 <= j < d.len() {
                assert(d[j] != ':');
            }
        }
    } else {
        let t = tail_text(a, i + 1);
        lemma_tail_runs(a, i + 1);
        let rest = seq![':'] + t;
        lemma_first_run(Sep::Colon, d, rest);
        lemma_leading_separator(Sep::Colon, ':', t);
        assert(seq![d] + group_texts(a, i + 1) =~= group_texts(a, i));
        assert forall|j: int| !gap_at(s, j) by {
            if gap_at(s, j) {
                if j < d.len() {
                    assert(s[j] == d[j]);
                } else if j == d.len() {
                    assert(s[j + 1] == t[0]);
                } else {
                    assert(s[j] == t[j - d.len() - 1]);
                    assert(s[j + 1] == t[j - d.len()]);
                    assert(gap_at(t, j - d.len() - 1));
                }
            }
        }
    }
}

proof fn lemma_values_of_texts(a: Seq<u8>, n: nat)
    requires
        n <= 8,
    ensures
        values(group_texts(a, 0).take(n as int)) == Some(
            Seq::new(n, |k: int| group(a, k) as u16),
        ),
    decreases n,
{
    let t = group_texts(a, 0).take(n as int);
    if n == 0 {
        assert(Seq::<u16>::empty() =~= Seq::new(n, |k: int| group(a, k) as u16));
    } else {
        lemma_values_of_texts(a, (n - 1) as nat);
        assert(t.drop_last() =~= group_texts(a, 0).take(n - 1));
        assert(t.last() == digits(group(a, n - 1), 16));
        law_number_read_back(group(a, n - 1), 16, 0xFFFF);
        assert(Seq::new((n - 1) as nat, |k: int| group(a, k) as u16).push(group(a, n - 1) as u16)
            =~= Seq::new(n, |k: int| group(a, k) as u16));
    }
}

proof fn lemma_some_gap_is_first(s: Seq<char>, i: int)
    requires
        gap_at(s, i),
    ensures
        exists|f: int| f <= i && first_gap(s, f),
    decreases i,
{
    if exists|j: int| 0 <= j < i && gap_at(s, j) {
        let j = choose|j: int| 0 <= j < i && gap_at(s, j);
        lemma_some_gap_is_first(s, j);
        let f = choose|f: int| f <= j && first_gap(s, f);
        assert(f <= i && first_gap(s, f));
    } else {
        assert(first_gap(s, i));
    }
}

/// Text with a second `::` behind another is no address.
pub proof fn law_second_gap_is_refused(s: Seq<char>, i: int, j: int)
    requires
        gap_at(s, i),
        gap_at(s, j),
        i + 2 <= j,
    ensures
        ip6_of(s) is None,
{
    lemma_some_gap_is_first(s, i);
    let f = choose|f: int| f <= i && first_gap(s, f);
    lemma_first_gap_is(s, f);
    assert(gap_at(s.skip(f + 2), j - f - 2));
}

/// An address printed is read back as the same address.
pub proof fn law_address_read_back(a: Seq<u8>)
    requires
        a.len() == 16,
    ensures
        ip6_of(ip6_out(line(), a, 8).text) == Some(a),
{
    let o = line();
    assert(encode_utf8(o.text).len() == 0);
    lemma_ip6_out(o, a, 8);
    let s = ip6_out(o, a, 8).text;
    lemma_head_and_tail(a, 8);
    assert(s =~= tail_text(a, 0));
    lemma_tail_runs(a, 0);
    assert(forall|i: int| !first_gap(s, i));
    let w = Seq::new(8, |k: int| group(a, k) as u16);
    lemma_values_of_texts(a, 8);
    assert(group_texts(a, 0).take(8) =~= group_texts(a, 0));
    assert(group_bytes(w) =~= a) by {
        assert forall|k: int| 0 <= k < 16 implies group_bytes(w)[k] == a[k] by {
            let g = k / 2;
            assert(w[g] == 256 * a[2 * g] + a[2 * g + 1]);
        }
    }
}

/// Groups in hexadecimal with colons between them.
pub open spec fn colons(w: Seq<u16>) -> Seq<char>
    decreases w.len(),
{
    if w.len() == 0 {
        Seq::empty()
    } else if w.len() == 1 {
        digits(w[0] as nat, 16)
    } else {
        digits(w[0] as nat, 16) + (seq![':'] + colons(w.drop_first()))
    }
}

/// Groups, as text each.
spec fn texts_of(w: Seq<u16>) -> Seq<Seq<char>> {
    Seq::new(w.len(), |k: int| digits(w[k] as nat, 16))
}

proof fn lemma_colons(w: Seq<u16>)
    ensures
        runs(Sep::Colon, colons(w)) == texts_of(w),
        !has_gap(colons(w)),
        w.len() > 0 ==> colons(w).len() > 0 && colons(w)[0] != ':' && colons(w).last() != ':',
    decreases w.len(),
{
    let s = colons(w);
    if w.len() == 0 {
        lemma_no_runs(Sep::Colon);
        assert(texts_of(w) =~= Seq::<Seq<char>>::empty());
    } else {
        let d = digits(w[0] as nat, 16);
        lemma_digits_plain(w[0] as nat, 16);
        assert(d[0] != ':' && d[d.len() - 1] != ':');
        if w.len() == 1 {
            let none = Seq::<char>::empty();
            lemma_first_run(Sep::Colon, d, none);
            lemma_no_runs(Sep::Colon);
            assert(d + none =~= d);
            assert(seq![d] + Seq::<Seq<char>>::empty() =~= texts_of(w));
            assert forall|j: int| !gap_at(s, j) by {
                if 0 <= j < d.len() {
                    assert(d[j] != ':');
                }
            }
        } else {
            let v = w.drop_first();
            let t = colons(v);
            lemma_colons(v);
            lemma_first_run(Sep::Colon, d, seq![':'] + t);
            lemma_leading_separator(Sep::Colon, ':', t);
            assert(seq![d] + texts_of(v) =~= texts_of(w));
            assert(s.last() == t.last());
            assert forall|j: int| !gap_at(s, j) by {
                if gap_at(s, j) {
                    if j < d.len() {
                        assert(s[j] == d[j]);
                    } else if j == d.len() {
                        assert(s[j + 1] == t[0]);
                    } else {
                        assert(s[j] == t[j - d.len() - 1]);
                        assert(s[j + 1] == t[j - d.len()]);
                        assert(gap_at(t, j - d.len() - 1));
                    }
                }
            }
        }
    }
}

proof fn lemma_values_back(w: Seq<u16>)
    ensures
        values(texts_of(w)) == Some(w),
    decreases w.len(),
{
    let t = texts_of(w);
    if w.len() == 0 {
        assert(w =~= Seq::<u16>::empty());
    } else {
        let v = w.drop_last();
        lemma_values_back(v);
        assert(t.drop_last() =~= texts_of(v));
        law_number_read_back(w.last() as nat, 16, 0xFFFF);
        assert(v.push(w.last()) =~= w);
    }
}

/// Whether an address holds eight groups, most significant byte first.
pub open spec fn holds(a: Seq<u8>, w: Seq<u16>) -> bool {
    a.len() == 16 && forall|k: int| 0 <= k < 8 ==> 256 * a[2 * k] + a[2 * k + 1] == #[trigger] w[k]
}

/// Eight groups written out with colons between them are read as the address
/// that holds them in order.
pub proof fn law_groups_are_read_in_order(w: Seq<u16>)
    requires
        w.len() == 8,
    ensures
        ip6_of(colons(w)) matches Some(a) && holds(a, w),
{
    lemma_colons(w);
    lemma_values_back(w);
    assert(forall|i: int| !gap_at(colons(w), i));
    assert(ip6_groups(colons(w)) == Some(w));
}

/// Writing `::` for a run of zeros, even an empty one, does not change the
/// address: the groups before it come first and those behind it last, each in
/// order.
#[verifier::rlimit(40)]
pub proof fn law_compressed_address_is_the_same(w: Seq<u16>, i: int, j: int)
    requires
        w.len() == 8,
        0 <= i <= j <= 8,
        forall|k: int| i <= k < j ==> w[k] == 0,
    ensures
        ip6_of(colons(w.take(i)) + seq![':', ':'] + colons(w.skip(j))) matches Some(a) && holds(
            a,
            w,
        ),
        ip6_of(colons(w.take(i)) + seq![':', ':'] + colons(w.skip(j))) == ip6_of(colons(w)),
{
    let h = w.take(i);
    let t = w.skip(j);
    let s = colons(h) + seq![':', ':'] + colons(t);
    lemma_gap_text(h, t);
    lemma_hextets_back(h);
    lemma_hextets_back(t);
    let zeros = no_words((8 - h.len() - t.len()) as nat);
    assert(h + zeros + t =~= w) by {
        assert forall|k: int| 0 <= k < 8 implies (h + zeros + t)[k] == w[k] by {}
    }
    assert(ip6_groups(s) == Some(w));
    lemma_colons(w);
    lemma_hextets_back(w);
    assert(forall|k: int| !gap_at(colons(w), k));
    assert(ip6_groups(colons(w)) == Some(w));
}

/// Groups with colons between them are read back, up to eight of them.
proof fn lemma_hextets_back(w: Seq<u16>)
    ensures
        hextets(colons(w)) == (if w.len() <= 8 {
            Some(w)
        } else {
            None
        }),
{
    lemma_colons(w);
    lemma_values_back(w);
}

/// Where the `::` stands between two runs of groups.
proof fn lemma_gap_text(h: Seq<u16>, t: Seq<u16>)
    ensures
        ({
            let s = colons(h) + seq![':', ':'] + colons(t);
            let n = colons(h).len() as int;
            &&& first_gap(s, n)
            &&& (choose|k: int| first_gap(s, k)) == n
            &&& s.take(n) == colons(h)
            &&& s.skip(n + 2) == colons(t)
            &&& !has_gap(s.skip(n + 2))
        }),
{
    let x = colons(h);
    let y = colons(t);
    let n = x.len() as int;
    let s = x + seq![':', ':'] + y;
    lemma_colons(h);
    lemma_colons(t);
    assert(forall|k: int| !gap_at(x, k));
    assert(gap_at(s, n));
    assert forall|k: int| 0 <= k < n implies !gap_at(s, k) by {
        assert(s[k] == x[k]);
        if k < n - 1 {
            assert(s[k + 1] == x[k + 1]);
            assert(!gap_at(x, k));
        } else {
            assert(x.last() != ':');
        }
    }
    assert(first_gap(s, n));
    lemma_first_gap_is(s, n);
    assert(s.take(n) =~= x);
    assert(s.skip(n + 2) =~= y);
}

/// Any other number of groups is refused: other than eight without `::`, and more
/// than eight with it.
pub proof fn law_wrong_number_of_groups(h: Seq<u16>, t: Seq<u16>)
    ensures
        h.len() != 8 ==> ip6_of(colons(h)) is None,
        h.len() + t.len() > 8 ==> ip6_of(colons(h) + seq![':', ':'] + colons(t)) is None,
{
    lemma_gap_text(h, t);
    lemma_colons(h);
    lemma_hextets_back(h);
    lemma_hextets_back(t);
    assert(forall|k: int| !gap_at(colons(h), k));
}

/// An address is printed as its eight groups with colons between them.
pub proof fn law_address_is_printed_in_groups(a: Seq<u8>, w: Seq<u16>)
    requires
        holds(a, w),
        w.len() == 8,
    ensures
        ip6_out(line(), a, 8).text == colons(w),
{
    assert(encode_utf8(line().text).len() == 0);
    lemma_ip6_out(line(), a, 8);
    lemma_head_and_tail(a, 8);
    assert(line().text + head_text(a, 8) =~= head_text(a, 8));
    lemma_tail_is_colons(a, w, 0);
    assert(w.skip(0) =~= w);
}

proof fn lemma_tail_is_colons(a: Seq<u8>, w: Seq<u16>, i: nat)
    requires
        holds(a, w),
        w.len() == 8,
        i <= 7,
    ensures
        tail_text(a, i) == colons(w.skip(i as int)),
    decreases 8 - i,
{
    let v = w.skip(i as int);
    assert(v[0] == w[i as int]);
    assert(group(a, i as int) == w[i as int]);
    if i < 7 {
        lemma_tail_is_colons(a, w, i + 1);
        assert(v.drop_first() =~= w.skip(i as int + 1));
    }
}

/// Nothing but hexadecimal digits, plus signs and colons is read as an address.
pub proof fn law_addresses_hold_no_other_text(s: Seq<char>, k: int)
    requires
        ip6_of(s) is Some,
        0 <= k < s.len(),
    ensures
        s[k] == ':' || s[k] == '+' || 48 <= s[k] as u32 <= 57 || 97 <= s[k] as u32 <= 102 || 65
            <= s[k] as u32 <= 70,
{
    if exists|i: int| first_gap(s, i) {
        let i = choose|i: int| first_gap(s, i);
        if k < i {
            lemma_plain_parts(s.take(i), k);
            assert(s.take(i)[k] == s[k]);
        } else if k >= i + 2 {
            lemma_plain_parts(s.skip(i + 2), k - i - 2);
            assert(s.skip(i + 2)[k - i - 2] == s[k]);
        }
    } else {
        lemma_plain_parts(s, k);
    }
}

spec fn plain_char(c: char) -> bool {
    c == ':' || c == '+' || 48 <= c as u32 <= 57 || 97 <= c as u32 <= 102 || 65 <= c as u32 <= 70
}

proof fn lemma_plain_parts(s: Seq<char>, k: int)
    requires
        hextets(s) is Some,
        0 <= k < s.len(),
    ensures
        plain_char(s[k]),
{
    assert forall|i: int| 0 <= i < runs(Sep::Colon, s).len() implies unsigned(
        #[trigger] runs(Sep::Colon, s)[i],
        16,
        0xFFFF,
    ) is Some by {
        lemma_each_value(runs(Sep::Colon, s), i);
    }
    lemma_plain_runs(s, k);
}

/// Every character of a number is plain.
proof fn lemma_plain_value(s: Seq<char>, k: int)
    requires
        value(s, 16) is Some,
        0 <= k < s.len(),
    ensures
        plain_char(s[k]),
    decreases s.len(),
{
    if k < s.len() - 1 {
        lemma_plain_value(s.drop_last(), k);
    }
}

proof fn lemma_each_value(parts: Seq<Seq<char>>, i: int)
    requires
        values(parts) is Some,
        0 <= i < parts.len(),
    ensures
        unsigned(parts[i], 16, 0xFFFF) is Some,
    decreases parts.len(),
{
    if i < parts.len() - 1 {
        lemma_each_value(parts.drop_last(), i);
    }
}

proof fn lemma_plain_runs(s: Seq<char>, k: int)
    requires
        forall|i: int|
            0 <= i < runs(Sep::Colon, s).len() ==> unsigned(
                #[trigger] runs(Sep::Colon, s)[i],
                16,
                0xFFFF,
            ) is Some,
        0 <= k < s.len(),
    ensures
        plain_char(s[k]),
    decreases s.len(),
{
    let n = sep_prefix(Sep::Colon, s) as int;
    lemma_prefixes(s);
    let t = s.skip(n);
    let m = run_prefix(Sep::Colon, t) as int;
    lemma_run_prefix_all(t);
    if k >= n {
        assert(t[k - n] == s[k]);
        if m > 0 {
            let all = runs(Sep::Colon, s);
            let w = t.take(m);
            let rest = t.skip(m);
            assert(all =~= seq![w] + runs(Sep::Colon, rest));
            assert(all[0] == w);
            if k < n + m {
                assert(w[k - n] == s[k]);
                let body = if w[0] == '+' {
                    w.skip(1)
                } else {
                    w
                };
                if w[0] == '+' {
                    if k > n {
                        lemma_plain_value(body, k - n - 1);
                    }
                } else {
                    lemma_plain_value(body, k - n);
                }
            } else {
                assert forall|i: int| 0 <= i < runs(Sep::Colon, rest).len() implies unsigned(
                    #[trigger] runs(Sep::Colon, rest)[i],
                    16,
                    0xFFFF,
                ) is Some by {
                    assert(all[i + 1] == runs(Sep::Colon, rest)[i]);
                }
                lemma_plain_runs(rest, k - n - m);
                assert(rest[k - n - m] == s[k]);
            }
        }
    }
}

proof fn lemma_prefixes(s: Seq<char>)
    ensures
        sep_prefix(Sep::Colon, s) <= s.len(),
        forall|i: int| 0 <= i < sep_prefix(Sep::Colon, s) ==> #[trigger] s[i] == ':',
        sep_prefix(Sep::Colon, s) < s.len() ==> s[sep_prefix(Sep::Colon, s) as int] != ':',
    decreases s.len(),
{
    if s.len() > 0 && s[0] == ':' {
        let t = s.drop_first();
        lemma_prefixes(t);
        assert forall|i: int| 0 <= i < sep_prefix(Sep::Colon, s) implies #[trigger] s[i] == ':' by {
            if i > 0 {
                assert(t[i - 1] == s[i]);
            }
        }
        if sep_prefix(Sep::Colon, s) < s.len() {
            assert(t[sep_prefix(Sep::Colon, t) as int] == s[sep_prefix(Sep::Colon, s) as int]);
        }
    }
}

proof fn lemma_run_prefix_all(s: Seq<char>)
    ensures
        run_prefix(Sep::Colon, s) <= s.len(),
        s.len() > 0 && s[0] != ':' ==> run_prefix(Sep::Colon, s) > 0,
    decreases s.len(),
{
    if s.len() > 0 && s[0] != ':' {
        lemma_run_prefix_all(s.drop_first());
    }
}

/// The eight groups of an address.
pub open spec fn groups_in(a: Seq<u8>) -> Seq<u16> {
    Seq::new(8, |k: int| (0x100 * a[2 * k] + a[2 * k + 1]) as u16)
}

/// An address that has room is written in its eight groups.
pub proof fn lemma_address_written(o: Out, a: Seq<u8>)
    requires
        a.len() == 16,
        o.ok,
        byte_len(o.text) + 40 <= o.room,
    ensures
        ip6_out(o, a, 8) == (Out { text: o.text + colons(groups_in(a)), ..o }),
        byte_len(o.text + colons(groups_in(a))) <= byte_len(o.text) + 40,
{
    let w = groups_in(a);
    lemma_ip6_out(o, a, 8);
    lemma_head_and_tail(a, 8);
    lemma_tail_is_colons(a, w, 0);
    assert(w.skip(0) =~= w);
    lemma_bytes_of_join(o.text, colons(w));
}

} // verus!
