//! Text: numbers written and read, white space, and the characters of a string.

use vstd::prelude::*;

verus! {

/// `String::push` appends one character.
pub assume_specification[ String::push ](s: &mut String, c: char)
    ensures
        final(s)@ == old(s)@.push(c),
;

/// `String::push_str` appends a text.
pub assume_specification[ String::push_str ](s: &mut String, t: &str)
    ensures
        final(s)@ == old(s)@ + t@,
;

/// The texts of a row of strings.
pub open spec fn texts(s: Seq<String>) -> Seq<Seq<char>> {
    s.map_values(|t: String| t@)
}

/// The digit that stands for `d` in bases up to sixteen, upper case.
pub open spec fn digit_char(d: nat) -> char {
    if d < 10 {
        (48 + d) as char
    } else {
        (55 + d) as char
    }
}

/// The digits of `n` in `base`, most significant first, without leading zeros.
pub open spec fn digits(n: nat, base: nat) -> Seq<char>
    decreases n,
{
    if base < 2 || n < base {
        seq![digit_char(n)]
    } else {
        proof {
            assert(n / base < n) by (nonlinear_arith)
                requires
                    base >= 2,
                    n >= base,
            ;
        }
        digits(n / base, base).push(digit_char(n % base))
    }
}

/// `n` in decimal.
pub open spec fn decimal(n: nat) -> Seq<char> {
    digits(n, 10)
}

/// `s` with zeros put in front of it until it is `width` characters long.
pub open spec fn zero_padded(s: Seq<char>, width: nat) -> Seq<char> {
    if s.len() >= width {
        s
    } else {
        Seq::new((width - s.len()) as nat, |i: int| '0') + s
    }
}

fn digit(d: u8) -> (c: char)
    requires
        d < 16,
    ensures
        c == digit_char(d as nat),
{
    if d < 10 {
        (48 + d) as char
    } else {
        (55 + d) as char
    }
}

/// The digits of `n`, least significant first.
fn reversed_digits(n: u64, base: u64) -> (r: Vec<char>)
    requires
        2 <= base <= 16,
    ensures
        r@.reverse() == digits(n as nat, base as nat),
        r@.len() > 0,
{
    let mut r: Vec<char> = Vec::new();
    let mut rest: u64 = n;
    while rest >= base
        invariant
            2 <= base <= 16,
            digits(n as nat, base as nat) == digits(rest as nat, base as nat) + r@.reverse(),
        decreases rest,
    {
        let ghost before = r@;
        let ghost was = rest;
        let c = digit((rest % base) as u8);
        r.push(c);
        rest = rest / base;
        proof {
            assert(r@.reverse() =~= seq![c] + before.reverse());
            assert(digits(was as nat, base as nat) == digits(rest as nat, base as nat).push(c));
            assert(digits(rest as nat, base as nat).push(c) + before.reverse() =~= digits(
                rest as nat,
                base as nat,
            ) + (seq![c] + before.reverse()));
            assert(rest < was) by (nonlinear_arith)
                requires
                    rest == was / base,
                    base >= 2,
                    was >= base,
            ;
        }
    }
    let ghost before = r@;
    let c = digit(rest as u8);
    r.push(c);
    proof {
        assert(r@.reverse() =~= seq![c] + before.reverse());
    }
    r
}

/// Appends `n` in `base`, padded with zeros to `width` characters.
pub fn push_number(out: &mut String, n: u64, base: u64, width: usize)
    requires
        2 <= base <= 16,
    ensures
        final(out)@ == old(out)@ + zero_padded(digits(n as nat, base as nat), width as nat),
{
    let r = reversed_digits(n, base);
    let ghost ds = digits(n as nat, base as nat);
    let ghost start = out@;
    assert(r@.len() == ds.len()) by {
        assert(r@.reverse().len() == r@.len());
    }
    let zeros: usize = if r.len() < width {
        width - r.len()
    } else {
        0
    };
    let mut z: usize = 0;
    while z < zeros
        invariant
            z <= zeros,
            out@ =~= start + Seq::new(z as nat, |i: int| '0'),
        decreases zeros - z,
    {
        out.push('0');
        z = z + 1;
    }
    let ghost padded = out@;
    let mut i: usize = r.len();
    assert(out@ =~= padded + ds.take(0));
    while i > 0
        invariant
            i <= r@.len(),
            r@.reverse() == ds,
            r@.len() == ds.len(),
            out@ =~= padded + ds.take(ds.len() - i),
        decreases i,
    {
        i = i - 1;
        assert(ds[ds.len() - 1 - i] == r@[i as int]);
        assert(ds.take(ds.len() - i) =~= ds.take(ds.len() - 1 - i).push(r@[i as int]));
        out.push(r[i]);
    }
    assert(ds.take(ds.len() as int) =~= ds);
    assert(out@ =~= start + zero_padded(ds, width as nat));
}

/// Appends `n` in decimal.
pub fn push_decimal(out: &mut String, n: u64)
    ensures
        final(out)@ == old(out)@ + decimal(n as nat),
{
    push_number(out, n, 10, 0);
}

/// `n` in decimal, as a string of its own.
pub fn decimal_string(n: u64) -> (s: String)
    ensures
        s@ == decimal(n as nat),
{
    let mut s = String::new();
    push_decimal(&mut s, n);
    assert(s@ =~= decimal(n as nat));
    s
}

/// Whether a character is white space: Unicode's `White_Space` property.
pub open spec fn is_space(c: char) -> bool {
    let n = c as u32;
    ||| 0x09 <= n <= 0x0D
    ||| n == 0x20
    ||| n == 0x85
    ||| n == 0xA0
    ||| n == 0x1680
    ||| 0x2000 <= n <= 0x200A
    ||| n == 0x2028
    ||| n == 0x2029
    ||| n == 0x202F
    ||| n == 0x205F
    ||| n == 0x3000
}

/// `s` without the white space at its two ends.
pub open spec fn trimmed(s: Seq<char>) -> Seq<char>
    decreases s.len(),
{
    if s.len() == 0 {
        s
    } else if is_space(s.first()) {
        trimmed(s.drop_first())
    } else if is_space(s.last()) {
        trimmed(s.drop_last())
    } else {
        s
    }
}

/// `text` cut at its line feeds: one row more than there are line feeds.
pub open spec fn rows(text: Seq<char>) -> Seq<Seq<char>>
    decreases text.len(),
{
    if text.len() == 0 {
        seq![Seq::empty()]
    } else {
        let before = rows(text.drop_last());
        if text.last() == '\n' {
            before.push(Seq::empty())
        } else {
            before.drop_last().push(before.last().push(text.last()))
        }
    }
}

/// Whether `c` is one of the ten decimal digits.
pub open spec fn is_digit(c: char) -> bool {
    '0' <= c <= '9'
}

/// The number that a row of decimal digits stands for.
pub open spec fn digits_value(s: Seq<char>) -> nat
    decreases s.len(),
{
    if s.len() == 0 {
        0
    } else {
        digits_value(s.drop_last()) * 10 + (s.last() as nat - 48) as nat
    }
}

/// `s` without the plus sign that it may begin with.
pub open spec fn after_plus(s: Seq<char>) -> Seq<char> {
    if s.len() > 0 && s.first() == '+' {
        s.drop_first()
    } else {
        s
    }
}

/// Whether `s` is made of decimal digits, one at least.
pub open spec fn is_number(s: Seq<char>) -> bool {
    s.len() > 0 && forall|i: int| 0 <= i < s.len() ==> is_digit(#[trigger] s[i])
}

/// The `u32` that `s` writes: digits, after one plus sign or none.
pub open spec fn number_in(s: Seq<char>) -> Option<u32> {
    let body = after_plus(s);
    if is_number(body) && digits_value(body) <= u32::MAX {
        Some(digits_value(body) as u32)
    } else {
        None
    }
}

/// Whether `c` is white space.
pub fn is_whitespace(c: char) -> (r: bool)
    ensures
        r == is_space(c),
{
    let n: u32 = c as u32;
    (0x09 <= n && n <= 0x0D) || n == 0x20 || n == 0x85 || n == 0xA0 || n == 0x1680 || (0x2000 <= n
        && n <= 0x200A) || n == 0x2028 || n == 0x2029 || n == 0x202F || n == 0x205F || n == 0x3000
}

/// The characters of a string.
pub fn chars_of(s: &str) -> (v: Vec<char>)
    ensures
        v@ == s@,
{
    let mut v: Vec<char> = Vec::new();
    for c in it: s.chars()
        invariant
            v@ == it.seq().take(it.index()),
            it.seq() == s@,
    {
        v.push(c);
        assert(v@ =~= it.seq().take(it.index() + 1));
    }
    assert(v@ =~= s@);
    v
}

/// The string made of `v[lo..hi]`.
pub fn string_of(v: &Vec<char>, lo: usize, hi: usize) -> (s: String)
    requires
        lo <= hi <= v@.len(),
    ensures
        s@ == v@.subrange(lo as int, hi as int),
{
    let mut s = String::new();
    let mut i: usize = lo;
    while i < hi
        invariant
            lo <= i <= hi <= v@.len(),
            s@ =~= v@.subrange(lo as int, i as int),
        decreases hi - i,
    {
        s.push(v[i]);
        i = i + 1;
    }
    s
}

/// Whether `v[lo..hi]` is the text of `lit`.
pub fn text_is(v: &Vec<char>, lo: usize, hi: usize, lit: &str) -> (r: bool)
    requires
        lo <= hi <= v@.len(),
    ensures
        r == (v@.subrange(lo as int, hi as int) == lit@),
{
    let l = chars_of(lit);
    let ghost part = v@.subrange(lo as int, hi as int);
    if l.len() != hi - lo {
        assert(part.len() != lit@.len());
        return false;
    }
    let mut i: usize = 0;
    while i < l.len()
        invariant
            lo <= hi <= v@.len(),
            l@ == lit@,
            l@.len() == hi - lo,
            i <= l@.len(),
            part == v@.subrange(lo as int, hi as int),
            forall|j: int| 0 <= j < i ==> part[j] == l@[j],
        decreases l@.len() - i,
    {
        if v[lo + i] != l[i] {
            assert(part[i as int] != lit@[i as int]);
            return false;
        }
        i = i + 1;
    }
    assert(part =~= lit@);
    true
}

/// The ends of `v[lo..hi]` once the white space around it is left out.
pub fn trim(v: &Vec<char>, lo: usize, hi: usize) -> (r: (usize, usize))
    requires
        lo <= hi <= v@.len(),
    ensures
        lo <= r.0 <= r.1 <= hi,
        v@.subrange(r.0 as int, r.1 as int) == trimmed(v@.subrange(lo as int, hi as int)),
{
    let mut a: usize = lo;
    let mut b: usize = hi;
    while a < b && is_whitespace(v[a])
        invariant
            lo <= a <= b == hi <= v@.len(),
            trimmed(v@.subrange(a as int, b as int)) == trimmed(
                v@.subrange(lo as int, hi as int),
            ),
        decreases b - a,
    {
        assert(v@.subrange(a as int, b as int).drop_first() =~= v@.subrange(a + 1, b as int));
        a = a + 1;
    }
    while a < b && is_whitespace(v[b - 1])
        invariant
            lo <= a <= b <= hi <= v@.len(),
            a < b ==> !is_space(v@[a as int]),
            trimmed(v@.subrange(a as int, b as int)) == trimmed(
                v@.subrange(lo as int, hi as int),
            ),
        decreases b - a,
    {
        assert(v@.subrange(a as int, b as int).drop_last() =~= v@.subrange(a as int, b - 1));
        b = b - 1;
    }
    (a, b)
}

/// The `u32` that `v[lo..hi]` writes, if it writes one.
pub fn parse_u32(v: &Vec<char>, lo: usize, hi: usize) -> (r: Option<u32>)
    requires
        lo <= hi <= v@.len(),
    ensures
        r == number_in(v@.subrange(lo as int, hi as int)),
{
    let ghost whole = v@.subrange(lo as int, hi as int);
    let mut at: usize = lo;
    if lo < hi && v[lo] == '+' {
        assert(whole.drop_first() =~= v@.subrange(lo + 1, hi as int));
        at = lo + 1;
    }
    let first: usize = at;
    let ghost body = v@.subrange(first as int, hi as int);
    if first >= hi {
        return None;
    }
    let mut n: u64 = 0;
    while at < hi
        invariant
            lo <= first <= at <= hi <= v@.len(),
            body == v@.subrange(first as int, hi as int),
            forall|i: int| 0 <= i < at - first ==> is_digit(#[trigger] body[i]),
            n == digits_value(body.take(at - first)),
            n <= u32::MAX,
            body.len() > 0,
            whole == v@.subrange(lo as int, hi as int),
            body == after_plus(whole),
        decreases hi - at,
    {
        let c = v[at];
        assert(body[at - first] == c);
        if !('0' <= c && c <= '9') {
            assert(!is_digit(body[at - first]));
            return None;
        }
        assert(body.take(at - first + 1).drop_last() =~= body.take(at - first));
        n = n * 10 + (c as u64 - 48);
        at = at + 1;
        if n > 0xFFFF_FFFF {
            proof {
                lemma_digits_value_grows(body, at - first);
            }
            return None;
        }
    }
    assert(body.take(hi - first) =~= body);
    Some(n as u32)
}

/// A number's digits are worth no less than any run that they begin with.
proof fn lemma_digits_value_grows(s: Seq<char>, k: int)
    requires
        0 <= k <= s.len(),
    ensures
        digits_value(s.take(k)) <= digits_value(s),
    decreases s.len(),
{
    if k == s.len() {
        assert(s.take(k) =~= s);
    } else {
        lemma_digits_value_grows(s.drop_last(), k);
        assert(s.drop_last().take(k) =~= s.take(k));
    }
}

/// The decimal digits of a number are digits, and they are worth the number.
pub proof fn lemma_decimal(n: nat)
    ensures
        is_number(decimal(n)),
        digits_value(decimal(n)) == n,
    decreases n,
{
    if n >= 10 {
        lemma_decimal(n / 10);
        let front = digits(n / 10, 10);
        let last = digit_char(n % 10);
        assert(decimal(n) == front.push(last));
        assert(front.push(last).drop_last() =~= front);
        assert forall|i: int| 0 <= i < decimal(n).len() implies is_digit(#[trigger] decimal(n)[i]) by {
            if i < front.len() {
                assert(is_digit(front[i]));
            }
        }
    } else {
        let s = seq![digit_char(n)];
        assert(s.drop_last() =~= Seq::<char>::empty());
        assert(digits_value(s.drop_last()) == 0);
    }
}

/// Reading a number's decimal digits gives the number back.
pub proof fn law_number_reads_back(n: u32)
    ensures
        number_in(decimal(n as nat)) == Some(n),
{
    lemma_decimal(n as nat);
    assert(is_digit(decimal(n as nat)[0]));
    assert(after_plus(decimal(n as nat)) == decimal(n as nat));
}

/// Two texts joined by a line feed have the rows of the one and then those of the other.
pub proof fn law_rows_of_joined(a: Seq<char>, b: Seq<char>)
    ensures
        rows(a.push('\n') + b) == rows(a) + rows(b),
        rows(b).len() > 0,
    decreases b.len(),
{
    let t = a.push('\n') + b;
    if b.len() == 0 {
        assert(t =~= a.push('\n'));
        assert(t.drop_last() =~= a);
        assert(rows(t) =~= rows(a) + rows(b));
    } else {
        law_rows_of_joined(a, b.drop_last());
        assert(t.drop_last() =~= a.push('\n') + b.drop_last());
        let x = rows(a);
        let y = rows(b.drop_last());
        assert((x + y).last() == y.last());
        assert((x + y).drop_last() =~= x + y.drop_last());
        assert(rows(t) =~= rows(a) + rows(b));
    }
}

/// A text without a line feed is one row.
pub proof fn law_rows_of_one_line(a: Seq<char>)
    requires
        !a.contains('\n'),
    ensures
        rows(a) == seq![a],
    decreases a.len(),
{
    if a.len() > 0 {
        let front = a.drop_last();
        assert(a[a.len() - 1] == a.last());
        assert(!front.contains('\n')) by {
            if front.contains('\n') {
                let k = choose|k: int| 0 <= k < front.len() && front[k] == '\n';
                assert(a[k] == '\n');
            }
        }
        law_rows_of_one_line(front);
        assert(front.push(a.last()) =~= a);
        assert(rows(a) =~= seq![a]);
    } else {
        assert(a =~= Seq::<char>::empty());
    }
}

/// A text that neither begins nor ends with white space is left as it is.
pub proof fn law_trimmed_stays(s: Seq<char>)
    requires
        s.len() > 0 ==> !is_space(s.first()) && !is_space(s.last()),
    ensures
        trimmed(s) == s,
{
}

/// What a digit in bases up to sixteen is worth.
pub open spec fn digit_worth(c: char) -> int {
    if '0' <= c <= '9' {
        c as int - '0' as int
    } else {
        c as int - 'A' as int + 10
    }
}

/// What a row of digits is worth in `base`.
pub open spec fn worth(s: Seq<char>, base: int) -> int
    decreases s.len(),
{
    if s.len() == 0 {
        0
    } else {
        worth(s.drop_last(), base) * base + digit_worth(s.last())
    }
}

/// The digits of a number are worth the number in their base; they are upper case, and the
/// first of them is a zero for the number zero only.
pub proof fn law_digits_are_worth_the_number(n: nat, base: nat)
    requires
        2 <= base <= 16,
    ensures
        worth(digits(n, base), base as int) == n,
        digits(n, base).len() > 0,
        digits(n, base).first() == '0' ==> n == 0,
        n == 0 ==> digits(n, base).len() == 1,
        forall|i: int|
            0 <= i < digits(n, base).len() ==> {
                let c = #[trigger] digits(n, base)[i];
                '0' <= c <= '9' || 'A' <= c <= 'F'
            },
    decreases n,
{
    let s = digits(n, base);
    if n >= base {
        assert(n / base < n && n == (n / base) * base + n % base && 0 < n / base && 0 <= n % base
            < base) by (nonlinear_arith)
            requires
                base >= 2,
                n >= base,
        ;
        law_digits_are_worth_the_number(n / base, base);
        let front = digits(n / base, base);
        let last = digit_char(n % base);
        assert(s == front.push(last));
        assert(s.drop_last() =~= front);
        assert forall|i: int| 0 <= i < s.len() implies {
            let c = #[trigger] s[i];
            '0' <= c <= '9' || 'A' <= c <= 'F'
        } by {
            if i < front.len() {
                assert(s[i] == front[i]);
            }
        }
    } else {
        assert(s.drop_last() =~= Seq::<char>::empty());
        assert(worth(s.drop_last(), base as int) == 0);
        assert(0 * base == 0) by (nonlinear_arith);
    }
}

/// Padding puts zeros in front of a text, as many as the width asks for, and keeps the text.
pub proof fn law_zeros_stand_in_front(s: Seq<char>, width: nat, i: int)
    ensures
        zero_padded(s, width).len() == if s.len() < width {
            width
        } else {
            s.len()
        },
        0 <= i < s.len() ==> zero_padded(s, width)[zero_padded(s, width).len() - s.len() + i]
            == s[i],
        0 <= i < zero_padded(s, width).len() - s.len() ==> zero_padded(s, width)[i] == '0',
{
}

/// Trimming leaves a stretch of the text, whose place it gives: all that is left out around it
/// is white space, and what is kept neither begins nor ends with any.
pub proof fn law_only_space_is_trimmed(s: Seq<char>) -> (at: int)
    ensures
        0 <= at <= at + trimmed(s).len() <= s.len(),
        trimmed(s) == s.subrange(at, at + trimmed(s).len()),
        forall|i: int| 0 <= i < at ==> is_space(#[trigger] s[i]),
        forall|i: int| at + trimmed(s).len() <= i < s.len() ==> is_space(#[trigger] s[i]),
        trimmed(s).len() > 0 ==> !is_space(trimmed(s).first()) && !is_space(trimmed(s).last()),
    decreases s.len(),
{
    if s.len() == 0 {
        assert(s.subrange(0, 0) =~= s);
        0
    } else if is_space(s.first()) {
        let rest = s.drop_first();
        let at = law_only_space_is_trimmed(rest);
        assert(rest.subrange(at, at + trimmed(rest).len()) =~= s.subrange(
            at + 1,
            at + 1 + trimmed(s).len(),
        ));
        assert forall|i: int| 0 <= i < at + 1 implies is_space(#[trigger] s[i]) by {
            if i > 0 {
                assert(s[i] == rest[i - 1]);
            }
        }
        assert forall|i: int| at + 1 + trimmed(s).len() <= i < s.len() implies is_space(
            #[trigger] s[i],
        ) by {
            assert(s[i] == rest[i - 1]);
        }
        at + 1
    } else if is_space(s.last()) {
        let rest = s.drop_last();
        let at = law_only_space_is_trimmed(rest);
        assert(rest.subrange(at, at + trimmed(rest).len()) =~= s.subrange(
            at,
            at + trimmed(s).len(),
        ));
        assert forall|i: int| 0 <= i < at implies is_space(#[trigger] s[i]) by {
            assert(s[i] == rest[i]);
        }
        assert forall|i: int| at + trimmed(s).len() <= i < s.len() implies is_space(
            #[trigger] s[i],
        ) by {
            if i < rest.len() {
                assert(s[i] == rest[i]);
            }
        }
        at
    } else {
        assert(s.subrange(0, s.len() as int) =~= s);
        0
    }
}

/// One character writes a number if and only if it is a digit.
pub proof fn law_one_digit_is_a_number(c: char)
    ensures
        '0' <= c <= '9' ==> number_in(seq![c]) == Some((c as int - '0' as int) as u32),
        !('0' <= c <= '9') ==> number_in(seq![c]) is None,
{
    let s = seq![c];
    assert(s.drop_last() =~= Seq::<char>::empty());
    assert(s.drop_first() =~= Seq::<char>::empty());
    assert(digits_value(s.drop_last()) == 0);
    if is_digit(c) {
        assert(after_plus(s) == s);
        assert(is_number(s));
    } else {
        assert(!is_digit(s[0]));
    }
}

/// A digit more makes a number ten times as large, and the digit's worth larger, as long as it
/// stays below two to the power of thirty-two; what writes no number still writes none.
pub proof fn law_numbers_grow_digit_by_digit(s: Seq<char>, c: char)
    requires
        after_plus(s).len() > 0,
    ensures
        !('0' <= c <= '9') ==> number_in(s.push(c)) is None,
        number_in(s) is None ==> number_in(s.push(c)) is None,
        number_in(s) matches Some(n) ==> '0' <= c <= '9' ==> {
            let more = n * 10 + (c as int - '0' as int);
            &&& more < 0x1_0000_0000 ==> number_in(s.push(c)) == Some(more as u32)
            &&& more >= 0x1_0000_0000 ==> number_in(s.push(c)) is None
        },
{
    let body = after_plus(s);
    let longer = after_plus(s.push(c));
    assert(longer =~= body.push(c));
    assert(longer.drop_last() =~= body);
    assert(longer[body.len() as int] == c);
    if is_number(longer) {
        assert forall|i: int| 0 <= i < body.len() implies is_digit(#[trigger] body[i]) by {
            assert(longer[i] == body[i]);
        }
    }
    if is_number(body) && is_digit(c) {
        assert forall|i: int| 0 <= i < longer.len() implies is_digit(#[trigger] longer[i]) by {
            if i < body.len() {
                assert(longer[i] == body[i]);
            }
        }
    }
}

/// One plus sign in front of a number changes nothing; two write no number, and neither does a
/// text that is empty but for one.
pub proof fn law_plus_sign_changes_nothing(s: Seq<char>)
    ensures
        s.len() > 0 && s.first() != '+' ==> number_in(seq!['+'] + s) == number_in(s),
        s.len() > 0 && s.first() == '+' ==> number_in(seq!['+'] + s) is None,
        s.len() == 0 ==> number_in(s) is None && number_in(seq!['+'] + s) is None,
{
    let t = seq!['+'] + s;
    assert(t.drop_first() =~= s);
    if s.len() > 0 && s.first() == '+' {
        assert(!is_digit(s[0]));
    }
}

/// White space put around a text is trimmed off again, however much there is of it.
pub proof fn law_space_around_is_trimmed(a: Seq<char>, s: Seq<char>, b: Seq<char>)
    requires
        forall|i: int| 0 <= i < a.len() ==> is_space(#[trigger] a[i]),
        forall|i: int| 0 <= i < b.len() ==> is_space(#[trigger] b[i]),
    ensures
        trimmed(a + s + b) == trimmed(s),
    decreases a.len() + b.len(),
{
    let t = a + s + b;
    if a.len() > 0 {
        let fewer = a.drop_first();
        assert(t.first() == a[0]);
        assert(t.drop_first() =~= fewer + s + b);
        assert forall|i: int| 0 <= i < fewer.len() implies is_space(#[trigger] fewer[i]) by {
            assert(fewer[i] == a[i + 1]);
        }
        law_space_around_is_trimmed(fewer, s, b);
    } else if b.len() > 0 {
        let fewer = b.drop_last();
        assert(t =~= s + b);
        assert(t.last() == b[b.len() - 1]);
        assert forall|i: int| 0 <= i < fewer.len() implies is_space(#[trigger] fewer[i]) by {
            assert(fewer[i] == b[i]);
        }
        if is_space(t.first()) {
            lemma_trimmed_from_the_end(t);
        }
        assert(trimmed(t) == trimmed(t.drop_last()));
        assert(t.drop_last() =~= a + s + fewer);
        law_space_around_is_trimmed(a, s, fewer);
    } else {
        assert(t =~= s);
    }
}

/// White space at the end can be trimmed off first.
proof fn lemma_trimmed_from_the_end(s: Seq<char>)
    requires
        s.len() > 0,
        is_space(s.last()),
    ensures
        trimmed(s) == trimmed(s.drop_last()),
    decreases s.len(),
{
    if is_space(s.first()) {
        let rest = s.drop_first();
        if rest.len() > 0 {
            assert(rest.last() == s.last());
            lemma_trimmed_from_the_end(rest);
            assert(rest.drop_last() =~= s.drop_last().drop_first());
            assert(s.drop_last().first() == s.first());
        } else {
            assert(s.drop_last() =~= rest);
        }
    }
}

} // verus!
