//! Character-level building blocks for the command text: decimal and
//! fixed-point rendering, filter-language escaping, and small string tests.
use vstd::prelude::*;
use vstd::string::*;

verus! {

/// Relies on `String::push`: the character is added at the end.
#[verifier::external_body]
pub(crate) fn push_char(s: &mut String, c: char)
    ensures
        final(s)@ == old(s)@.push(c),
{
    s.push(c);
}

/// The digit character for a value below sixteen (lower-case hexadecimal).
pub open spec fn digit_char(d: nat) -> char {
    if d == 0 { '0' } else if d == 1 { '1' } else if d == 2 { '2' } else if d == 3 { '3' }
    else if d == 4 { '4' } else if d == 5 { '5' } else if d == 6 { '6' } else if d == 7 { '7' }
    else if d == 8 { '8' } else if d == 9 { '9' } else if d == 10 { 'a' } else if d == 11 { 'b' }
    else if d == 12 { 'c' } else if d == 13 { 'd' } else if d == 14 { 'e' } else { 'f' }
}

fn digit(d: u64) -> (c: char)
    requires
        d < 16,
    ensures
        c == digit_char(d as nat),
{
    match d {
        0 => '0', 1 => '1', 2 => '2', 3 => '3', 4 => '4', 5 => '5', 6 => '6', 7 => '7',
        8 => '8', 9 => '9', 10 => 'a', 11 => 'b', 12 => 'c', 13 => 'd', 14 => 'e', _ => 'f',
    }
}

/// Decimal text of a natural number, without leading zeros.
pub open spec fn dec(n: nat) -> Seq<char>
    decreases n,
{
    if n < 10 {
        seq![digit_char(n)]
    } else {
        dec(n / 10).push(digit_char(n % 10))
    }
}

/// Lower-case hexadecimal text of a natural number, without leading zeros.
pub open spec fn hex(n: nat) -> Seq<char>
    decreases n,
{
    if n < 16 {
        seq![digit_char(n)]
    } else {
        hex(n / 16).push(digit_char(n % 16))
    }
}

/// The last `width` decimal digits of `n`, padded with zeros.
pub open spec fn padded(n: nat, width: nat) -> Seq<char>
    decreases width,
{
    if width == 0 {
        Seq::empty()
    } else {
        padded(n / 10, (width - 1) as nat).push(digit_char(n % 10))
    }
}

/// `n / 10^places` written with exactly `places` decimals.
pub open spec fn fixed(n: nat, places: nat) -> Seq<char> {
    dec(n / pow10(places)) + seq!['.'] + padded(n % pow10(places), places)
}

/// A signed count of millionths written with six decimals.
pub open spec fn fixed6(m: int) -> Seq<char> {
    if m < 0 {
        seq!['-'] + fixed((-m) as nat, 6)
    } else {
        fixed(m as nat, 6)
    }
}

/// Ten to the power `k`.
pub open spec fn pow10(k: nat) -> nat
    decreases k,
{
    if k == 0 { 1 } else { 10 * pow10((k - 1) as nat) }
}

/// Appends the decimal text of `n`.
pub(crate) fn push_dec(out: &mut String, n: u64)
    ensures
        final(out)@ == old(out)@ + dec(n as nat),
    decreases n,
{
    if n >= 10 {
        push_dec(out, n / 10);
    }
    push_char(out, digit(n % 10));
    assert(final(out)@ =~= old(out)@ + dec(n as nat));
}

/// Appends the lower-case hexadecimal text of `n`.
pub(crate) fn push_hex(out: &mut String, n: u64)
    ensures
        final(out)@ == old(out)@ + hex(n as nat),
    decreases n,
{
    if n >= 16 {
        push_hex(out, n / 16);
    }
    push_char(out, digit(n % 16));
    assert(final(out)@ =~= old(out)@ + hex(n as nat));
}

/// Appends the last `width` decimal digits of `n`, zero-padded.
pub(crate) fn push_padded(out: &mut String, n: u64, width: u64)
    ensures
        final(out)@ == old(out)@ + padded(n as nat, width as nat),
    decreases width,
{
    if width > 0 {
        push_padded(out, n / 10, width - 1);
        push_char(out, digit(n % 10));
        assert(final(out)@ =~= old(out)@ + padded(n as nat, width as nat));
    } else {
        assert(final(out)@ =~= old(out)@ + padded(n as nat, width as nat));
    }
}

/// Appends `n / 10^places` with exactly `places` decimals.
pub(crate) fn push_fixed(out: &mut String, n: u64, places: u64)
    requires
        places <= 6,
    ensures
        final(out)@ == old(out)@ + fixed(n as nat, places as nat),
{
    let scale: u64 = match places {
        0 => 1,
        1 => 10,
        2 => 100,
        3 => 1000,
        4 => 10_000,
        5 => 100_000,
        _ => 1_000_000,
    };
    proof {
        reveal_with_fuel(pow10, 7);
    }
    push_dec(out, n / scale);
    push_char(out, '.');
    push_padded(out, n % scale, places);
    assert(final(out)@ =~= old(out)@ + fixed(n as nat, places as nat));
}

/// Appends a signed count of millionths with six decimals.
pub(crate) fn push_fixed6(out: &mut String, m: i64)
    ensures
        final(out)@ == old(out)@ + fixed6(m as int),
{
    if m < 0 {
        push_char(out, '-');
        let mag: u64 = (0 - (m as i128)) as u64;
        push_fixed(out, mag, 6);
    } else {
        push_fixed(out, m as u64, 6);
    }
    assert(final(out)@ =~= old(out)@ + fixed6(m as int));
}

/// The fractional digits `f` (of `width` places) with trailing zeros dropped.
pub open spec fn trimmed_fraction(f: nat, width: nat) -> Seq<char>
    decreases width,
{
    if width > 0 && f % 10 == 0 {
        trimmed_fraction(f / 10, (width - 1) as nat)
    } else {
        padded(f, width)
    }
}

/// A signed count of millionths in its shortest decimal form:
/// `1.5`, `-0.25`, `2`.
pub open spec fn short_decimal(m: int) -> Seq<char> {
    let mag: nat = if m < 0 { (-m) as nat } else { m as nat };
    let sign: Seq<char> = if m < 0 { seq!['-'] } else { Seq::empty() };
    let frac: nat = mag % 1_000_000;
    if frac == 0 {
        sign + dec(mag / 1_000_000)
    } else {
        sign + dec(mag / 1_000_000) + seq!['.'] + trimmed_fraction(frac, 6)
    }
}

/// Appends a signed count of millionths in its shortest decimal form.
pub(crate) fn push_short_decimal(out: &mut String, m: i64)
    ensures
        final(out)@ == old(out)@ + short_decimal(m as int),
{
    let mag: u64 = if m < 0 { (0 - (m as i128)) as u64 } else { m as u64 };
    if m < 0 {
        push_char(out, '-');
    }
    push_dec(out, mag / 1_000_000);
    let frac: u64 = mag % 1_000_000;
    if frac != 0 {
        push_char(out, '.');
        let mut f: u64 = frac;
        let mut w: u64 = 6;
        while w > 0 && f % 10 == 0
            invariant
                w <= 6,
                trimmed_fraction(f as nat, w as nat) == trimmed_fraction(frac as nat, 6),
            decreases w,
        {
            f = f / 10;
            w = w - 1;
        }
        push_padded(out, f, w);
    }
    assert(final(out)@ =~= old(out)@ + short_decimal(m as int));
}

/// Whether a character is escaped in quoted filter text: the characters
/// the filter language reads as syntax.
pub open spec fn is_special(c: char) -> bool {
    c == '\\' || c == '\'' || c == ':' || c == '%' || c == '{' || c == '}'
}

/// Escaping in the filter language: every special character is preceded by
/// a backslash, every other character is kept.
pub open spec fn escaped(s: Seq<char>) -> Seq<char>
    decreases s.len(),
{
    if s.len() == 0 {
        Seq::empty()
    } else {
        let c = s[0];
        let special = is_special(c);
        let head: Seq<char> = if special { seq!['\\', c] } else { seq![c] };
        head + escaped(s.drop_first())
    }
}

/// How the filter language reads escaped text: a backslash takes the next
/// character literally.
pub open spec fn unescaped(s: Seq<char>) -> Seq<char>
    decreases s.len(),
{
    if s.len() == 0 {
        Seq::empty()
    } else if s[0] == '\\' && s.len() >= 2 {
        seq![s[1]] + unescaped(s.subrange(2, s.len() as int))
    } else {
        seq![s[0]] + unescaped(s.drop_first())
    }
}

/// Read as the filter language reads it, the text holds no special
/// character outside an escape: each one, and each backslash, is taken
/// literally after a backslash.
pub open spec fn no_bare_special(e: Seq<char>) -> bool
    decreases e.len(),
{
    if e.len() == 0 {
        true
    } else if e[0] == '\\' && e.len() >= 2 {
        no_bare_special(e.subrange(2, e.len() as int))
    } else {
        !is_special(e[0]) && no_bare_special(e.drop_first())
    }
}

proof fn lemma_escaped_push(s: Seq<char>, c: char)
    ensures
        escaped(s.push(c)) == escaped(s) + escaped(seq![c]),
    decreases s.len(),
{
    if s.len() == 0 {
        assert(s.push(c) =~= seq![c]);
        assert(escaped(s) =~= Seq::<char>::empty());
        assert(escaped(s.push(c)) =~= escaped(s) + escaped(seq![c]));
    } else {
        assert(s.push(c).drop_first() =~= s.drop_first().push(c));
        lemma_escaped_push(s.drop_first(), c);
        assert(seq![c].drop_first() =~= Seq::<char>::empty());
        assert(escaped(s.push(c)) =~= escaped(s) + escaped(seq![c]));
    }
}

/// Reading escaped text back in the filter language gives back the text
/// that was escaped, and no special character of it is read as syntax.
pub proof fn lemma_escape_round_trip(s: Seq<char>)
    ensures
        unescaped(escaped(s)) == s,
        no_bare_special(escaped(s)),
    decreases s.len(),
{
    if s.len() > 0 {
        let c = s[0];
        let e = escaped(s);
        let rest = escaped(s.drop_first());
        lemma_escape_round_trip(s.drop_first());
        let special = is_special(c);
        if special {
            assert(e.subrange(2, e.len() as int) =~= rest);
        } else {
            assert(e.drop_first() =~= rest);
        }
        assert(unescaped(e) =~= s);
        assert(no_bare_special(e));
    }
}

/// Appends the filter-language escaping of `s`.
pub(crate) fn push_escaped(out: &mut String, s: &str)
    ensures
        final(out)@ == old(out)@ + escaped(s@),
{
    let n = s.unicode_len();
    let mut i: usize = 0;
    while i < n
        invariant
            n == s@.len(),
            i <= n,
            out@ == old(out)@ + escaped(s@.subrange(0, i as int)),
        decreases n - i,
    {
        let c = s.get_char(i);
        let special = c == '\\' || c == '\'' || c == ':' || c == '%' || c == '{' || c == '}';
        proof {
            lemma_escaped_push(s@.subrange(0, i as int), c);
            assert(s@.subrange(0, i + 1) =~= s@.subrange(0, i as int).push(c));
            assert(seq![c].drop_first() =~= Seq::<char>::empty());
            assert(escaped(Seq::<char>::empty()) =~= Seq::<char>::empty());
            if special {
                assert(escaped(seq![c]) =~= seq!['\\', c]);
            } else {
                assert(escaped(seq![c]) =~= seq![c]);
            }
        }
        if special {
            push_char(out, '\\');
        }
        push_char(out, c);
        i = i + 1;
        assert(out@ =~= old(out)@ + escaped(s@.subrange(0, i as int)));
    }
    assert(s@.subrange(0, n as int) =~= s@);
}

/// Whether two strings hold the same characters.
pub(crate) fn str_eq(a: &str, b: &str) -> (r: bool)
    ensures
        r == (a@ == b@),
{
    let n = a.unicode_len();
    let m = b.unicode_len();
    if n != m {
        return false;
    }
    let mut i: usize = 0;
    while i < n
        invariant
            n == a@.len(),
            m == b@.len(),
            n == m,
            i <= n,
            forall|j: int| 0 <= j < i ==> a@[j] == b@[j],
        decreases n - i,
    {
        if a.get_char(i) != b.get_char(i) {
            return false;
        }
        i = i + 1;
    }
    assert(a@ =~= b@);
    true
}

/// Whether a character occurs in a string.
pub(crate) fn contains_char(s: &str, c: char) -> (r: bool)
    ensures
        r == s@.contains(c),
{
    let n = s.unicode_len();
    let mut i: usize = 0;
    while i < n
        invariant
            n == s@.len(),
            i <= n,
            forall|j: int| 0 <= j < i ==> s@[j] != c,
        decreases n - i,
    {
        if s.get_char(i) == c {
            return true;
        }
        i = i + 1;
    }
    false
}

/// The characters that Unicode gives the White_Space property.
pub open spec fn is_white_space(c: char) -> bool {
    let u = c as u32;
    (0x09 <= u <= 0x0D) || u == 0x20 || u == 0x85 || u == 0xA0 || u == 0x1680
        || (0x2000 <= u <= 0x200A) || u == 0x2028 || u == 0x2029 || u == 0x202F
        || u == 0x205F || u == 0x3000
}

/// A string that is empty once surrounding white space is trimmed.
pub open spec fn is_blank(s: Seq<char>) -> bool {
    forall|i: int| 0 <= i < s.len() ==> is_white_space(#[trigger] s[i])
}

/// Whether the string holds nothing but white space.
pub(crate) fn blank(s: &str) -> (r: bool)
    ensures
        r == is_blank(s@),
{
    let n = s.unicode_len();
    let mut i: usize = 0;
    while i < n
        invariant
            n == s@.len(),
            i <= n,
            forall|j: int| 0 <= j < i ==> is_white_space(#[trigger] s@[j]),
        decreases n - i,
    {
        let u = s.get_char(i) as u32;
        let ws = (0x09 <= u && u <= 0x0D) || u == 0x20 || u == 0x85 || u == 0xA0 || u == 0x1680
            || (0x2000 <= u && u <= 0x200A) || u == 0x2028 || u == 0x2029 || u == 0x202F
            || u == 0x205F || u == 0x3000;
        if !ws {
            return false;
        }
        i = i + 1;
    }
    true
}

} // verus!
