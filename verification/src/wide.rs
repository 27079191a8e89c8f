//! Wide strings: UTF-16 text that ends in a zero, as Windows takes it.

use crate::text::chars_of;
use vstd::prelude::*;

verus! {

/// `char::from_u32` gives the character of a Unicode scalar value, and nothing for a number
/// that is none.
pub assume_specification[ char::from_u32 ](i: u32) -> (r: Option<char>)
    ensures
        r == if i < 0xD800 || 0xE000 <= i <= 0x10FFFF {
            Some(i as char)
        } else {
            None
        },
;

/// The UTF-16 units of one character: itself, or a surrogate pair from 0x10000 on.
pub open spec fn units(c: char) -> Seq<u16> {
    let n = c as u32;
    if n < 0x10000 {
        seq![n as u16]
    } else {
        seq![
            (0xD800 + (n - 0x10000) / 0x400) as u16,
            (0xDC00 + (n - 0x10000) % 0x400) as u16,
        ]
    }
}

/// The UTF-16 units of a text.
pub open spec fn utf16(s: Seq<char>) -> Seq<u16>
    decreases s.len(),
{
    if s.len() == 0 {
        Seq::empty()
    } else {
        units(s.first()) + utf16(s.drop_first())
    }
}

/// A unit that is the first of a surrogate pair.
pub open spec fn is_high(u: u16) -> bool {
    0xD800 <= u <= 0xDBFF
}

/// A unit that is the second of a surrogate pair.
pub open spec fn is_low(u: u16) -> bool {
    0xDC00 <= u <= 0xDFFF
}

/// The text that UTF-16 units stand for, with U+FFFD for each surrogate without a partner.
pub open spec fn from_utf16(s: Seq<u16>) -> Seq<char>
    decreases s.len(),
{
    if s.len() == 0 {
        Seq::empty()
    } else if !is_high(s[0]) && !is_low(s[0]) {
        seq![s[0] as char] + from_utf16(s.skip(1))
    } else if is_high(s[0]) && s.len() > 1 && is_low(s[1]) {
        seq![(0x10000 + (s[0] - 0xD800) * 0x400 + (s[1] - 0xDC00)) as char] + from_utf16(s.skip(2))
    } else {
        seq!['\u{FFFD}'] + from_utf16(s.skip(1))
    }
}

/// The units before the first zero: all of them where there is none.
pub open spec fn before_zero(s: Seq<u16>) -> Seq<u16>
    decreases s.len(),
{
    if s.len() == 0 || s[0] == 0 {
        Seq::empty()
    } else {
        seq![s[0]] + before_zero(s.skip(1))
    }
}

/// Units as bytes, the low byte of each first.
pub open spec fn low_byte_first(s: Seq<u16>) -> Seq<u8> {
    Seq::new(
        2 * s.len(),
        |i: int|
            if i % 2 == 0 {
                (s[i / 2] % 256) as u8
            } else {
                (s[i / 2] / 256) as u8
            },
    )
}

/// The part of a wide string that fits in a buffer of `capacity` units.
pub open spec fn fitted(s: Seq<char>, capacity: nat) -> Seq<u16> {
    if utf16(s).len() < capacity {
        utf16(s).push(0)
    } else {
        utf16(s).push(0).take(capacity as int)
    }
}

/// A text as a wide string: its UTF-16 units and a zero.
pub fn wide(s: &str) -> (r: Vec<u16>)
    ensures
        r@ == utf16(s@).push(0),
{
    let chars = chars_of(s);
    let mut r: Vec<u16> = Vec::new();
    let mut i: usize = 0;
    assert(s@.skip(0) =~= s@);
    assert(r@ + utf16(s@.skip(0)) =~= utf16(s@));
    while i < chars.len()
        invariant
            i <= chars@.len(),
            chars@ == s@,
            r@ + utf16(s@.skip(i as int)) == utf16(s@),
        decreases chars@.len() - i,
    {
        let ghost before = r@;
        let n: u32 = chars[i] as u32;
        if n < 0x10000 {
            r.push(n as u16);
        } else {
            r.push((0xD800 + (n - 0x10000) / 0x400) as u16);
            r.push((0xDC00 + (n - 0x10000) % 0x400) as u16);
        }
        proof {
            let rest = s@.skip(i as int);
            assert(rest.first() == chars@[i as int]);
            assert(rest.drop_first() =~= s@.skip(i + 1));
            assert(r@ =~= before + units(rest.first()));
            assert(before + (units(rest.first()) + utf16(s@.skip(i + 1))) =~= r@ + utf16(
                s@.skip(i + 1),
            ));
        }
        i = i + 1;
    }
    assert(r@ =~= utf16(s@));
    r.push(0);
    r
}

/// The part of a wide string that fits in a buffer of `capacity` units.
pub fn fit(s: &str, capacity: usize) -> (r: Vec<u16>)
    ensures
        r@ == if utf16(s@).len() < capacity {
            utf16(s@).push(0)
        } else {
            utf16(s@).push(0).take(capacity as int)
        },
        r@ == fitted(s@, capacity as nat),
{
    let mut r = wide(s);
    if r.len() > capacity {
        r.truncate(capacity);
    }
    assert(utf16(s@).len() + 1 == capacity ==> utf16(s@).push(0).take(capacity as int)
        =~= utf16(s@).push(0));
    r
}

/// The bytes of a row of units, the low byte of each first.
pub fn le_bytes(v: &Vec<u16>) -> (r: Vec<u8>)
    requires
        2 * v@.len() <= usize::MAX,
    ensures
        r@ == low_byte_first(v@),
{
    let mut r: Vec<u8> = Vec::new();
    let mut i: usize = 0;
    while i < v.len()
        invariant
            i <= v@.len(),
            r@ =~= low_byte_first(v@.take(i as int)),
        decreases v@.len() - i,
    {
        let ghost before = r@;
        r.push((v[i] % 256) as u8);
        r.push((v[i] / 256) as u8);
        proof {
            let upto = v@.take(i + 1);
            assert forall|k: int| 0 <= k < r@.len() implies r@[k] == low_byte_first(upto)[k] by {
                if k < 2 * i {
                    assert(before[k] == low_byte_first(v@.take(i as int))[k]);
                    assert(upto[k / 2] == v@.take(i as int)[k / 2]);
                } else {
                    assert(upto[k / 2] == v@[i as int]);
                }
            }
        }
        i = i + 1;
    }
    assert(v@.take(i as int) =~= v@);
    r
}

fn push_char(out: &mut String, n: u32)
    requires
        n < 0xD800 || 0xE000 <= n <= 0x10FFFF,
    ensures
        final(out)@ == old(out)@.push(n as char),
{
    if let Some(c) = char::from_u32(n) {
        out.push(c);
    }
}

/// The text in a buffer that a zero ends, with U+FFFD for each surrogate without a partner.
pub fn text_in_buffer(buf: &Vec<u16>) -> (s: String)
    ensures
        s@ == from_utf16(before_zero(buf@)),
{
    let mut len: usize = 0;
    assert(buf@.skip(0) =~= buf@);
    assert(buf@.take(0) + before_zero(buf@) =~= before_zero(buf@));
    while len < buf.len() && buf[len] != 0
        invariant
            len <= buf@.len(),
            buf@.take(len as int) + before_zero(buf@.skip(len as int)) == before_zero(buf@),
        decreases buf@.len() - len,
    {
        proof {
            let rest = buf@.skip(len as int);
            assert(rest.skip(1) =~= buf@.skip(len + 1));
            assert(buf@.take(len as int) + (seq![rest[0]] + before_zero(rest.skip(1)))
                =~= buf@.take(len + 1) + before_zero(buf@.skip(len + 1)));
        }
        len = len + 1;
    }
    let ghost t = buf@.take(len as int);
    assert(t =~= before_zero(buf@));
    let mut out = String::new();
    let mut i: usize = 0;
    assert(t.skip(0) =~= t);
    assert(out@ + from_utf16(t.skip(0)) =~= from_utf16(t));
    while i < len
        invariant
            i <= len <= buf@.len(),
            t == buf@.take(len as int),
            out@ + from_utf16(t.skip(i as int)) == from_utf16(t),
        decreases len - i,
    {
        let ghost before = out@;
        let ghost rest = t.skip(i as int);
        let u: u16 = buf[i];
        assert(rest[0] == u);
        assert(rest.skip(1) =~= t.skip(i + 1));
        if u < 0xD800 || u > 0xDFFF {
            push_char(&mut out, u as u32);
            assert(before + (seq![u as char] + from_utf16(t.skip(i + 1))) =~= out@ + from_utf16(
                t.skip(i + 1),
            ));
            i = i + 1;
        } else if u <= 0xDBFF && len - i > 1 && 0xDC00 <= buf[i + 1] && buf[i + 1] <= 0xDFFF {
            let w: u16 = buf[i + 1];
            assert(rest[1] == w);
            assert(rest.skip(2) =~= t.skip(i + 2));
            let n: u32 = 0x10000 + (u as u32 - 0xD800) * 0x400 + (w as u32 - 0xDC00);
            push_char(&mut out, n);
            assert(before + (seq![n as char] + from_utf16(t.skip(i + 2))) =~= out@ + from_utf16(
                t.skip(i + 2),
            ));
            i = i + 2;
        } else {
            if len - i > 1 {
                assert(rest[1] == buf@[i + 1]);
            }
            out.push('\u{FFFD}');
            assert(before + (seq!['\u{FFFD}'] + from_utf16(t.skip(i + 1))) =~= out@ + from_utf16(
                t.skip(i + 1),
            ));
            i = i + 1;
        }
    }
    assert(out@ =~= from_utf16(t));
    out
}

proof fn lemma_units(c: char)
    ensures
        (c as u32) < 0x10000 ==> units(c) == seq![c as u32 as u16] && units(c)[0] as char == c
            && !is_high(units(c)[0]) && !is_low(units(c)[0]),
        c as u32 >= 0x10000 ==> units(c).len() == 2 && is_high(units(c)[0]) && is_low(units(c)[1])
            && (0x10000 + (units(c)[0] - 0xD800) * 0x400 + (units(c)[1] - 0xDC00)) as char == c,
        c != '\0' ==> forall|i: int| 0 <= i < units(c).len() ==> units(c)[i] != 0,
{
}

/// Reading a text's UTF-16 units gives the text back.
pub proof fn law_utf16_reads_back(s: Seq<char>)
    ensures
        from_utf16(utf16(s)) == s,
    decreases s.len(),
{
    if s.len() > 0 {
        let c = s.first();
        let n = c as u32;
        let rest = utf16(s.drop_first());
        let all = units(c) + rest;
        law_utf16_reads_back(s.drop_first());
        lemma_units(c);
        if n < 0x10000 {
            assert(all.skip(1) =~= rest);
        } else {
            assert(all[0] == units(c)[0] && all[1] == units(c)[1]);
            assert(all.skip(2) =~= rest);
        }
        assert(from_utf16(all) =~= seq![c] + s.drop_first());
        assert(seq![c] + s.drop_first() =~= s);
    }
}

/// A wide string gives its text back where the text holds no zero of its own.
pub proof fn law_wide_reads_back(s: Seq<char>)
    requires
        !s.contains('\0'),
    ensures
        from_utf16(before_zero(utf16(s).push(0))) == s,
{
    lemma_no_zero_inside(s);
    law_utf16_reads_back(s);
}

proof fn lemma_no_zero_inside(s: Seq<char>)
    requires
        !s.contains('\0'),
    ensures
        before_zero(utf16(s).push(0)) == utf16(s),
    decreases s.len(),
{
    let all = utf16(s).push(0);
    if s.len() > 0 {
        let c = s.first();
        let n = c as u32;
        assert(s[0] == c);
        lemma_units(c);
        let tail = s.drop_first();
        assert(!tail.contains('\0')) by {
            if tail.contains('\0') {
                let k = choose|k: int| 0 <= k < tail.len() && tail[k] == '\0';
                assert(s[k + 1] == '\0');
            }
        }
        lemma_no_zero_inside(tail);
        let rest = utf16(tail).push(0);
        if n < 0x10000 {
            assert(all.skip(1) =~= rest);
            assert(before_zero(all) =~= utf16(s));
        } else {
            assert(all[0] == units(c)[0] && all[1] == units(c)[1]);
            assert(all.skip(1).skip(1) =~= rest);
            assert(before_zero(all.skip(1)) == seq![all[1]] + before_zero(rest));
            assert(before_zero(all) =~= utf16(s));
        }
    }
}

/// A character below 0x10000 is one unit, its own number; any other one is a high surrogate with
/// its upper ten bits and a low one with its lower ten.
pub proof fn law_units_stand_for_their_character(c: char)
    ensures
        (c as int) < 0x10000 ==> units(c).len() == 1 && units(c)[0] == c as int,
        c as int >= 0x10000 ==> {
            &&& units(c).len() == 2
            &&& 0xD800 <= units(c)[0] < 0xDC00
            &&& 0xDC00 <= units(c)[1] < 0xE000
            &&& (units(c)[0] - 0xD800) * 0x400 + (units(c)[1] - 0xDC00) + 0x10000 == c as int
        },
{
}

/// The units of two texts joined are those of the one and then those of the other.
pub proof fn law_utf16_joins(a: Seq<char>, b: Seq<char>)
    ensures
        utf16(a + b) == utf16(a) + utf16(b),
        utf16(Seq::empty()) == Seq::<u16>::empty(),
    decreases a.len(),
{
    if a.len() == 0 {
        assert(a + b =~= b);
        assert(utf16(a) + utf16(b) =~= utf16(b));
    } else {
        assert((a + b).drop_first() =~= a.drop_first() + b);
        assert((a + b).first() == a.first());
        law_utf16_joins(a.drop_first(), b);
        assert(units(a.first()) + (utf16(a.drop_first()) + utf16(b)) =~= utf16(a) + utf16(b));
    }
}

/// The units of one character are the units of the text that is made of it.
pub proof fn law_utf16_of_one_character(c: char)
    ensures
        utf16(seq![c]) == units(c),
{
    let s = seq![c];
    assert(s.drop_first() =~= Seq::<char>::empty());
    assert(utf16(s.drop_first()) =~= Seq::<u16>::empty());
    assert(utf16(s) =~= units(c));
}

/// A surrogate without a partner becomes U+FFFD, and what follows it is read as if it began there.
pub proof fn law_lone_surrogates_are_replaced(u: u16, rest: Seq<u16>)
    requires
        0xD800 <= u < 0xE000,
        u < 0xDC00 ==> rest.len() == 0 || !(0xDC00 <= rest[0] < 0xE000),
    ensures
        from_utf16(seq![u] + rest) == seq!['\u{FFFD}'] + from_utf16(rest),
{
    let s = seq![u] + rest;
    assert(s.skip(1) =~= rest);
    if rest.len() > 0 {
        assert(s[1] == rest[0]);
    }
}

/// The text of a buffer ends before the first zero, or with the buffer where it has none.
pub proof fn law_text_ends_before_the_zero(s: Seq<u16>)
    ensures
        before_zero(s).len() <= s.len(),
        before_zero(s) == s.take(before_zero(s).len() as int),
        forall|i: int| 0 <= i < before_zero(s).len() ==> #[trigger] s[i] != 0,
        before_zero(s).len() < s.len() ==> s[before_zero(s).len() as int] == 0,
    decreases s.len(),
{
    if s.len() > 0 && s[0] != 0 {
        let rest = s.skip(1);
        law_text_ends_before_the_zero(rest);
        let b = before_zero(rest);
        assert(before_zero(s) =~= s.take(b.len() as int + 1)) by {
            assert forall|i: int| 0 <= i < b.len() implies #[trigger] b[i] == s[i + 1] by {
                assert(b[i] == rest[i]);
            }
        }
        assert forall|i: int| 0 <= i < before_zero(s).len() implies #[trigger] s[i] != 0 by {
            if i > 0 {
                assert(rest[i - 1] == s[i]);
            }
        }
        if b.len() < rest.len() {
            assert(rest[b.len() as int] == s[b.len() as int + 1]);
        }
    }
}

/// Each unit is two bytes, the first worth itself and the second 256 times as much.
pub proof fn law_bytes_are_worth_their_unit(s: Seq<u16>, i: int)
    ensures
        low_byte_first(s).len() == 2 * s.len(),
        0 <= i < s.len() ==> low_byte_first(s)[2 * i] + 256 * low_byte_first(s)[2 * i + 1] == s[i],
{
    if 0 <= i < s.len() {
        assert((2 * i) / 2 == i && (2 * i + 1) / 2 == i);
        let u = s[i];
        assert(low_byte_first(s)[2 * i] == u % 256);
        assert(low_byte_first(s)[2 * i + 1] == u / 256);
    }
}

/// What fits in a buffer begins as the text does, and is as long as there is room: the zero at the
/// end is there where it fits.
pub proof fn law_what_fits_begins_the_text(s: Seq<char>, capacity: nat, i: int)
    ensures
        fitted(s, capacity).len() <= capacity,
        utf16(s).len() < capacity ==> fitted(s, capacity) == utf16(s).push(0),
        utf16(s).len() >= capacity ==> fitted(s, capacity).len() == capacity,
        0 <= i < fitted(s, capacity).len() && i < utf16(s).len() ==> fitted(s, capacity)[i]
            == utf16(s)[i],
{
}

} // verus!
