//! Text: decimal numbers, white space, padding, and lists of strings.

use vstd::arithmetic::div_mod::lemma_div_denominator;
use vstd::arithmetic::power::{lemma_pow0, lemma_pow1, lemma_pow_positive, pow};
use vstd::prelude::*;

verus! {

/// The contents of a sequence of strings.
pub open spec fn texts(strings: Seq<String>) -> Seq<Seq<char>> {
    strings.map_values(|s: String| s@)
}

/// The contents of an optional string.
pub open spec fn opt_text(s: Option<String>) -> Option<Seq<char>> {
    match s {
        Some(t) => Some(t@),
        None => None,
    }
}

// ---------------------------------------------------------------------------
// Copies
// ---------------------------------------------------------------------------

/// Copies a list of strings.
pub fn clone_texts(strings: &Vec<String>) -> (copy: Vec<String>)
    ensures
        texts(copy@) == texts(strings@),
        copy@.len() == strings@.len(),
{
    let mut copy: Vec<String> = Vec::new();
    let mut i: usize = 0;
    while i < strings.len()
        invariant
            i <= strings@.len(),
            copy@.len() == i,
            forall|j: int| 0 <= j < i ==> copy@[j]@ == strings@[j]@,
        decreases strings@.len() - i,
    {
        copy.push(strings[i].clone());
        i += 1;
    }
    assert(texts(copy@) =~= texts(strings@));
    copy
}

/// Copies an optional string.
pub fn clone_opt(s: &Option<String>) -> (copy: Option<String>)
    ensures
        opt_text(copy) == opt_text(*s),
        copy == *s,
{
    match s {
        Some(t) => Some(t.clone()),
        None => None,
    }
}

/// Whether `name` is one of `strings`.
pub fn contains_text(strings: &Vec<String>, name: &str) -> (found: bool)
    ensures
        found == texts(strings@).contains(name@),
{
    let wanted = name.to_owned();
    let mut i: usize = 0;
    while i < strings.len()
        invariant
            i <= strings@.len(),
            wanted@ == name@,
            forall|j: int| 0 <= j < i ==> strings@[j]@ != name@,
        decreases strings@.len() - i,
    {
        if strings[i] == wanted {
            assert(texts(strings@)[i as int] == name@);
            return true;
        }
        i += 1;
    }
    assert forall|j: int| 0 <= j < texts(strings@).len() implies texts(strings@)[j] != name@ by {
        assert(texts(strings@)[j] == strings@[j]@);
    }
    false
}

/// Whether two texts are the same, character by character.
pub fn same_text(a: &str, b: &str) -> (same: bool)
    ensures
        same == (a@ == b@),
{
    let left = a.to_owned();
    let right = b.to_owned();
    left == right
}

/// A name between two pieces of text.
pub fn quoted(before: &str, name: &str, after: &str) -> (t: String)
    ensures
        t@ == before@ + name@ + after@,
{
    let mut t = before.to_string();
    t.append(name);
    t.append(after);
    t
}

// ---------------------------------------------------------------------------
// Decimal numbers
// ---------------------------------------------------------------------------

/// The decimal digit of value `d`.
pub open spec fn digit_char(d: nat) -> char {
    ('0' as nat + d) as char
}

/// `n` in decimal, without leading zeros.
pub open spec fn decimal(n: nat) -> Seq<char>
    decreases n,
{
    if n < 10 {
        seq![digit_char(n)]
    } else {
        decimal(n / 10).push(digit_char(n % 10))
    }
}

fn digit_text(d: u64) -> (t: &'static str)
    requires
        d < 10,
    ensures
        t@ == seq![digit_char(d as nat)],
{
    proof {
        reveal_strlit("0");
        reveal_strlit("1");
        reveal_strlit("2");
        reveal_strlit("3");
        reveal_strlit("4");
        reveal_strlit("5");
        reveal_strlit("6");
        reveal_strlit("7");
        reveal_strlit("8");
        reveal_strlit("9");
    }
    match d {
        0 => "0",
        1 => "1",
        2 => "2",
        3 => "3",
        4 => "4",
        5 => "5",
        6 => "6",
        7 => "7",
        8 => "8",
        _ => "9",
    }
}

/// Writes a number in decimal.
pub fn decimal_text(n: u64) -> (t: String)
    ensures
        t@ == decimal(n as nat),
    decreases n,
{
    if n < 10 {
        digit_text(n).to_string()
    } else {
        let mut t = decimal_text(n / 10);
        t.append(digit_text(n % 10));
        assert(t@ =~= decimal((n / 10) as nat).push(digit_char((n % 10) as nat)));
        t
    }
}

/// Whether every character is an ASCII decimal digit.
pub open spec fn all_digits(s: Seq<char>) -> bool {
    forall|i: int| 0 <= i < s.len() ==> '0' <= #[trigger] s[i] <= '9'
}

/// The number that a sequence of decimal digits stands for.
pub open spec fn digits_value(s: Seq<char>) -> int
    decreases s.len(),
{
    if s.len() == 0 {
        0
    } else {
        digits_value(s.drop_last()) * 10 + (s.last() as int - '0' as int)
    }
}

/// The digits of a number that may be preceded by one plus sign.
pub open spec fn unsigned_part(s: Seq<char>) -> Seq<char> {
    if s.len() > 0 && s[0] == '+' {
        s.skip(1)
    } else {
        s
    }
}

/// The port number that a text stands for: an optional plus sign and then
/// decimal digits only, at least one, of a value that fits in sixteen bits.
pub open spec fn port_of(s: Seq<char>) -> Option<u16> {
    let digits = unsigned_part(s);
    if digits.len() > 0 && all_digits(digits) && digits_value(digits) <= u16::MAX {
        Some(digits_value(digits) as u16)
    } else {
        None
    }
}

proof fn lemma_digits_value_prefix(s: Seq<char>, k: int)
    requires
        all_digits(s),
        0 <= k <= s.len(),
    ensures
        0 <= digits_value(s.take(k)) <= digits_value(s),
    decreases s.len(),
{
    if s.len() == 0 {
        assert(s.take(k) =~= s);
    } else {
        let front = s.drop_last();
        assert(all_digits(front)) by {
            assert forall|i: int| 0 <= i < front.len() implies '0' <= #[trigger] front[i] <= '9' by {
                assert(front[i] == s[i]);
            }
        }
        assert('0' <= s[s.len() - 1] <= '9');
        if k == s.len() {
            lemma_digits_value_prefix(front, front.len() as int);
            assert(front.take(front.len() as int) =~= front);
            assert(s.take(k) =~= s);
        } else {
            lemma_digits_value_prefix(front, k);
            assert(front.take(k) =~= s.take(k));
        }
    }
}

/// Reads a port number.
pub fn parse_port(s: &str) -> (port: Option<u16>)
    ensures
        port == port_of(s@),
{
    let n = s.unicode_len();
    let mut i: usize = 0;
    if n > 0 && s.get_char(0) == '+' {
        i = 1;
    }
    let ghost digits = unsigned_part(s@);
    let ghost start = i as int;
    assert(digits =~= s@.skip(start));
    if i == n {
        return None;
    }
    let mut value: u32 = 0;
    assert(digits.take(0) =~= Seq::<char>::empty());
    while i < n
        invariant
            n == s@.len(),
            0 <= start <= i <= n,
            digits == unsigned_part(s@),
            digits == s@.skip(start),
            start < n,
            forall|j: int| 0 <= j < i - start ==> '0' <= #[trigger] digits[j] <= '9',
            value == digits_value(digits.take(i - start)),
            value <= u16::MAX,
        decreases n - i,
    {
        let c = s.get_char(i);
        assert(digits[i - start] == c);
        if c < '0' || '9' < c {
            assert(!all_digits(digits));
            return None;
        }
        let ghost k = i - start;
        assert(digits.take(k + 1).drop_last() =~= digits.take(k));
        assert(digits.take(k + 1).last() == c);
        value = value * 10 + (c as u32 - '0' as u32);
        if value > 65535 {
            proof {
                if all_digits(digits) {
                    lemma_digits_value_prefix(digits, k + 1);
                }
            }
            return None;
        }
        i += 1;
    }
    assert(digits.take(n - start) =~= digits);
    Some(value as u16)
}

pub(crate) proof fn lemma_decimal_digits(n: nat)
    ensures
        decimal(n).len() > 0,
        all_digits(decimal(n)),
        digits_value(decimal(n)) == n,
    decreases n,
{
    if n < 10 {
        let s = decimal(n);
        assert(s.drop_last() =~= Seq::<char>::empty());
        assert(digits_value(s.drop_last()) == 0);
    } else {
        lemma_decimal_digits(n / 10);
        let s = decimal(n);
        assert(s.drop_last() =~= decimal(n / 10));
        assert forall|i: int| 0 <= i < s.len() implies '0' <= #[trigger] s[i] <= '9' by {
            if i < s.len() - 1 {
                assert(s[i] == decimal(n / 10)[i]);
            }
        }
    }
}

/// A port number written in decimal is read back as itself.
pub proof fn port_of_decimal(port: u16)
    ensures
        port_of(decimal(port as nat)) == Some(port),
{
    lemma_decimal_digits(port as nat);
    let s = decimal(port as nat);
    assert('0' <= s[0] <= '9');
}

// ---------------------------------------------------------------------------
// White space
// ---------------------------------------------------------------------------

/// Unicode's white space characters.
pub open spec fn white_space(c: char) -> bool {
    ||| '\u{9}' <= c <= '\u{d}'
    ||| c == ' '
    ||| c == '\u{85}'
    ||| c == '\u{a0}'
    ||| c == '\u{1680}'
    ||| '\u{2000}' <= c <= '\u{200a}'
    ||| c == '\u{2028}'
    ||| c == '\u{2029}'
    ||| c == '\u{202f}'
    ||| c == '\u{205f}'
    ||| c == '\u{3000}'
}

/// `s` without the white space at its start.
pub open spec fn trim_start(s: Seq<char>) -> Seq<char>
    decreases s.len(),
{
    if s.len() > 0 && white_space(s[0]) {
        trim_start(s.skip(1))
    } else {
        s
    }
}

/// `s` without the white space at its end.
pub open spec fn trim_end(s: Seq<char>) -> Seq<char>
    decreases s.len(),
{
    if s.len() > 0 && white_space(s.last()) {
        trim_end(s.drop_last())
    } else {
        s
    }
}

/// `s` without the white space at its two ends.
pub open spec fn trimmed(s: Seq<char>) -> Seq<char> {
    trim_end(trim_start(s))
}

fn is_white_space(c: char) -> (white: bool)
    ensures
        white == white_space(c),
{
    ('\u{9}' <= c && c <= '\u{d}') || c == ' ' || c == '\u{85}' || c == '\u{a0}' || c == '\u{1680}'
        || ('\u{2000}' <= c && c <= '\u{200a}') || c == '\u{2028}' || c == '\u{2029}' || c
        == '\u{202f}' || c == '\u{205f}' || c == '\u{3000}'
}

/// Cuts the white space off both ends of a text.
pub fn trim(s: &str) -> (t: String)
    ensures
        t@ == trimmed(s@),
{
    let n = s.unicode_len();
    let mut from: usize = 0;
    assert(s@.skip(0) =~= s@);
    while from < n && is_white_space(s.get_char(from))
        invariant
            from <= n,
            n == s@.len(),
            trim_start(s@) == trim_start(s@.skip(from as int)),
        decreases n - from,
    {
        assert(s@.skip(from as int).skip(1) =~= s@.skip(from + 1));
        from += 1;
    }
    let mut to: usize = n;
    assert(s@.subrange(from as int, n as int) =~= s@.skip(from as int));
    while to > from && is_white_space(s.get_char(to - 1))
        invariant
            from <= to <= n,
            n == s@.len(),
            trimmed(s@) == trim_end(s@.subrange(from as int, to as int)),
        decreases to,
    {
        assert(s@.subrange(from as int, to as int).drop_last() =~= s@.subrange(
            from as int,
            to - 1,
        ));
        to -= 1;
    }
    s.substring_char(from, to).to_string()
}

// ---------------------------------------------------------------------------
// Columns and lists
// ---------------------------------------------------------------------------

/// `s` followed by as many blanks as bring it to `width` characters.
pub open spec fn padded(s: Seq<char>, width: nat) -> Seq<char> {
    if s.len() >= width {
        s
    } else {
        s + Seq::new((width - s.len()) as nat, |i: int| ' ')
    }
}

/// Pads a text with blanks on its right; a longer text is left as it is.
pub fn pad(s: &str, width: usize) -> (t: String)
    ensures
        t@ == padded(s@, width as nat),
{
    let mut t = s.to_string();
    let mut n = s.unicode_len();
    let ghost full = s@;
    assert(t@ =~= full + Seq::new((n - full.len()) as nat, |i: int| ' '));
    while n < width
        invariant
            full == s@,
            full.len() <= n,
            n <= width || n == full.len(),
            t@ == full + Seq::new((n - full.len()) as nat, |i: int| ' '),
        decreases width - n,
    {
        t.append(" ");
        proof {
            reveal_strlit(" ");
            assert(t@ =~= full + Seq::new((n + 1 - full.len()) as nat, |i: int| ' '));
        }
        n += 1;
    }
    t
}

/// The texts one after the other, with `separator` between neighbours.
pub open spec fn joined(parts: Seq<Seq<char>>, separator: Seq<char>) -> Seq<char>
    decreases parts.len(),
{
    if parts.len() == 0 {
        Seq::empty()
    } else if parts.len() == 1 {
        parts[0]
    } else {
        joined(parts.drop_last(), separator) + separator + parts.last()
    }
}

/// Joins texts with a separator.
pub fn join(parts: &Vec<String>, separator: &str) -> (t: String)
    ensures
        t@ == joined(texts(parts@), separator@),
{
    let mut t = String::new();
    let ghost all = texts(parts@);
    let mut i: usize = 0;
    while i < parts.len()
        invariant
            i <= parts@.len(),
            all == texts(parts@),
            t@ == joined(all.take(i as int), separator@),
        decreases parts@.len() - i,
    {
        assert(all.take(i + 1).drop_last() =~= all.take(i as int));
        assert(all.take(i + 1).last() == parts@[i as int]@);
        if i > 0 {
            t.append(separator);
        }
        t.append(parts[i].as_str());
        assert(t@ =~= joined(all.take(i + 1), separator@));
        i += 1;
    }
    assert(all.take(i as int) =~= all);
    t
}

// ---------------------------------------------------------------------------
// Laws
// ---------------------------------------------------------------------------

/// Lists and options of strings hold what their strings hold, each in its place.
pub proof fn texts_are_in_place(strings: Seq<String>, i: int, s: String)
    requires
        0 <= i < strings.len(),
    ensures
        texts(strings).len() == strings.len(),
        texts(strings)[i] == strings[i]@,
        opt_text(Some(s)) == Some(s@),
        opt_text(None) is None,
{
}

/// The digit at each place of a number in decimal is the one that its power of ten
/// calls for. There are as many digits as the number needs, and at least one.
pub proof fn decimals_are_positional(n: nat, i: int)
    requires
        0 <= i < decimal(n).len(),
    ensures
        decimal(n)[i] as int == '0' as int + (n as int / pow(
            10,
            (decimal(n).len() - 1 - i) as nat,
        )) % 10,
        n < pow(10, decimal(n).len()),
        decimal(n).len() > 1 ==> pow(10, (decimal(n).len() - 1) as nat) <= n,
    decreases n,
{
    lemma_pow0(10);
    lemma_pow1(10);
    if n >= 10 {
        let front = decimal(n / 10);
        let len = front.len();
        lemma_decimal_digits(n / 10);
        reveal(pow);
        assert(pow(10, len + 1) == 10 * pow(10, len));
        if i < len {
            decimals_are_positional(n / 10, i);
            let e = (len - 1 - i) as nat;
            assert(pow(10, e + 1) == 10 * pow(10, e));
            lemma_pow_positive(10, e);
            lemma_div_denominator(n as int, 10, pow(10, e));
            assert(decimal(n)[i] == front[i]);
        } else {
            decimals_are_positional(n / 10, 0);
        }
        if len > 1 {
            assert(pow(10, len) == 10 * pow(10, (len - 1) as nat));
        }
    }
}

/// Digits one after the other stand for the number that their places call for.
pub proof fn digits_count_by_their_place(a: Seq<char>, b: Seq<char>)
    ensures
        digits_value(a + b) == digits_value(a) * pow(10, b.len()) + digits_value(b),
        a.len() == 1 ==> digits_value(a) == a[0] as int - '0' as int,
    decreases b.len(),
{
    if a.len() == 1 {
        assert(a.drop_last() =~= Seq::<char>::empty());
        assert(digits_value(a.drop_last()) == 0);
    }
    if b.len() == 0 {
        lemma_pow0(10);
        assert(a + b =~= a);
    } else {
        let front = b.drop_last();
        digits_count_by_their_place(a, front);
        assert((a + b).drop_last() =~= a + front);
        assert((a + b).last() == b.last());
        reveal(pow);
        assert(pow(10, b.len()) == 10 * pow(10, front.len()));
        assert(digits_value(a) * pow(10, b.len()) == 10 * (digits_value(a) * pow(10, front.len())))
            by (nonlinear_arith)
            requires
                pow(10, b.len()) == 10 * pow(10, front.len()),
        ;
    }
}

/// So many zeros.
pub open spec fn zeros(k: nat) -> Seq<char> {
    Seq::new(k, |i: int| '0')
}

proof fn lemma_leading_zeros(k: nat, t: Seq<char>)
    ensures
        digits_value(zeros(k) + t) == digits_value(t),
    decreases k + t.len(),
{
    if t.len() > 0 {
        lemma_leading_zeros(k, t.drop_last());
        assert((zeros(k) + t).drop_last() =~= zeros(k) + t.drop_last());
    } else if k > 0 {
        lemma_leading_zeros((k - 1) as nat, t);
        assert((zeros(k) + t).drop_last() =~= zeros((k - 1) as nat) + t);
    } else {
        assert(zeros(k) + t =~= t);
    }
}

proof fn lemma_digits_are_decimal(s: Seq<char>)
    requires
        s.len() > 0,
        all_digits(s),
    ensures
        digits_value(s) >= 0,
        exists|k: nat| s == #[trigger] zeros(k) + decimal(digits_value(s) as nat),
    decreases s.len(),
{
    let front = s.drop_last();
    let d = s.last() as int - '0' as int;
    assert('0' <= s[s.len() - 1] <= '9');
    if front.len() == 0 {
        assert(digits_value(front) == 0);
        assert(s =~= zeros(0) + decimal(d as nat));
    } else {
        assert forall|i: int| 0 <= i < front.len() implies '0' <= #[trigger] front[i] <= '9' by {
            assert(front[i] == s[i]);
        }
        lemma_digits_are_decimal(front);
        let v = digits_value(front) as nat;
        let k = choose|k: nat| front == #[trigger] zeros(k) + decimal(v);
        if v == 0 {
            assert(decimal(0) =~= seq!['0']);
            assert(decimal(d as nat) =~= seq![s.last()]);
            assert(s =~= front.push(s.last()));
            assert(front =~= zeros(k + 1));
            assert(s =~= zeros(k + 1) + decimal(d as nat));
        } else {
            assert(decimal((10 * v + d) as nat) =~= decimal(v).push(s.last()));
            assert(s =~= front.push(s.last()));
            assert(s =~= zeros(k) + decimal((10 * v + d) as nat));
        }
    }
}

/// A text stands for a port exactly where it is that port in decimal, after any
/// number of zeros and at most one plus sign.
pub proof fn ports_are_read_in_decimal(s: Seq<char>, port: u16)
    ensures
        port_of(s) == Some(port) <==> exists|k: nat|
            s == #[trigger] zeros(k) + decimal(port as nat) || s == seq!['+'] + (zeros(k)
                + decimal(port as nat)),
{
    let digits = unsigned_part(s);
    lemma_decimal_digits(port as nat);
    if port_of(s) == Some(port) {
        lemma_digits_are_decimal(digits);
        let k = choose|k: nat| digits == #[trigger] zeros(k) + decimal(port as nat);
        if s[0] == '+' {
            assert(s =~= seq!['+'] + digits);
        }
        assert(s == zeros(k) + decimal(port as nat) || s == seq!['+'] + (zeros(k) + decimal(
            port as nat,
        )));
    }
    if exists|k: nat|
        s == #[trigger] zeros(k) + decimal(port as nat) || s == seq!['+'] + (zeros(k) + decimal(
            port as nat,
        )) {
        let k = choose|k: nat|
            s == #[trigger] zeros(k) + decimal(port as nat) || s == seq!['+'] + (zeros(k)
                + decimal(port as nat));
        let t = zeros(k) + decimal(port as nat);
        assert forall|i: int| 0 <= i < t.len() implies '0' <= #[trigger] t[i] <= '9' by {
            if i >= k {
                assert(t[i] == decimal(port as nat)[i - k]);
            }
        }
        if s == t {
            assert('0' <= t[0] <= '9');
        } else {
            assert(s.skip(1) =~= t);
        }
        assert(digits == t);
        lemma_leading_zeros(k, decimal(port as nat));
    }
}

/// White space is what Unicode has as such.
pub proof fn white_space_is_unicodes(c: char)
    ensures
        white_space(c) == {
            let n = c as u32;
            ||| 9 <= n <= 13
            ||| n == 32
            ||| n == 133
            ||| n == 160
            ||| n == 5760
            ||| 8192 <= n <= 8202
            ||| n == 8232
            ||| n == 8233
            ||| n == 8239
            ||| n == 8287
            ||| n == 12288
        },
{
}

proof fn lemma_trim_start(s: Seq<char>)
    ensures
        exists|a: int|
            {
                &&& 0 <= a <= s.len()
                &&& trim_start(s) == #[trigger] s.skip(a)
                &&& forall|i: int| 0 <= i < a ==> white_space(#[trigger] s[i])
                &&& a < s.len() ==> !white_space(s[a])
            },
    decreases s.len(),
{
    if s.len() > 0 && white_space(s[0]) {
        let rest = s.skip(1);
        lemma_trim_start(rest);
        let a = choose|a: int|
            {
                &&& 0 <= a <= rest.len()
                &&& trim_start(rest) == #[trigger] rest.skip(a)
                &&& forall|i: int| 0 <= i < a ==> white_space(#[trigger] rest[i])
                &&& a < rest.len() ==> !white_space(rest[a])
            };
        assert(s.skip(a + 1) =~= rest.skip(a));
        assert forall|i: int| 0 <= i < a + 1 implies white_space(#[trigger] s[i]) by {
            if i > 0 {
                assert(s[i] == rest[i - 1]);
            }
        }
    } else {
        assert(s.skip(0) =~= s);
    }
}

proof fn lemma_trim_end(s: Seq<char>)
    ensures
        exists|b: int|
            {
                &&& 0 <= b <= s.len()
                &&& trim_end(s) == #[trigger] s.take(b)
                &&& forall|i: int| b <= i < s.len() ==> white_space(#[trigger] s[i])
                &&& b > 0 ==> !white_space(s[b - 1])
            },
    decreases s.len(),
{
    if s.len() > 0 && white_space(s.last()) {
        let front = s.drop_last();
        lemma_trim_end(front);
        let b = choose|b: int|
            {
                &&& 0 <= b <= front.len()
                &&& trim_end(front) == #[trigger] front.take(b)
                &&& forall|i: int| b <= i < front.len() ==> white_space(#[trigger] front[i])
                &&& b > 0 ==> !white_space(front[b - 1])
            };
        assert(s.take(b) =~= front.take(b));
        assert forall|i: int| b <= i < s.len() implies white_space(#[trigger] s[i]) by {
            if i < front.len() {
                assert(s[i] == front[i]);
            }
        }
    } else {
        assert(s.take(s.len() as int) =~= s);
    }
}

/// What is trimmed off a text is white space at its ends, and all of it: what is left
/// starts and ends with something else, or is empty.
pub proof fn trimming_takes_all_white_space_at_the_ends(s: Seq<char>)
    ensures
        exists|a: int, b: int|
            {
                &&& 0 <= a <= b <= s.len()
                &&& trimmed(s) == #[trigger] s.subrange(a, b)
                &&& forall|i: int| 0 <= i < a || b <= i < s.len() ==> white_space(#[trigger] s[i])
                &&& a < b ==> !white_space(s[a]) && !white_space(s[b - 1])
            },
{
    lemma_trim_start(s);
    let a = choose|a: int|
        {
            &&& 0 <= a <= s.len()
            &&& trim_start(s) == #[trigger] s.skip(a)
            &&& forall|i: int| 0 <= i < a ==> white_space(#[trigger] s[i])
            &&& a < s.len() ==> !white_space(s[a])
        };
    let t = s.skip(a);
    lemma_trim_end(t);
    let b = choose|b: int|
        {
            &&& 0 <= b <= t.len()
            &&& trim_end(t) == #[trigger] t.take(b)
            &&& forall|i: int| b <= i < t.len() ==> white_space(#[trigger] t[i])
            &&& b > 0 ==> !white_space(t[b - 1])
        };
    assert(t.take(b) =~= s.subrange(a, a + b));
    assert forall|i: int| 0 <= i < a || a + b <= i < s.len() implies white_space(#[trigger] s[i]) by {
        if i >= a {
            assert(s[i] == t[i - a]);
        }
    }
    if b > 0 {
        assert(s[a + b - 1] == t[b - 1]);
    }
}

/// A padded text starts with the text and goes on with blanks to the width, unless
/// the text is as long already.
pub proof fn padding_adds_blanks(s: Seq<char>, width: nat)
    ensures
        padded(s, width).len() == if s.len() < width {
            width
        } else {
            s.len()
        },
        forall|i: int| 0 <= i < s.len() ==> #[trigger] padded(s, width)[i] == s[i],
        forall|i: int| s.len() <= i < width ==> #[trigger] padded(s, width)[i] == ' ',
{
}

/// Texts are joined with the separator between neighbours, and nowhere else.
pub proof fn joining_puts_separators_between(
    a: Seq<Seq<char>>,
    b: Seq<Seq<char>>,
    one: Seq<char>,
    separator: Seq<char>,
)
    requires
        a.len() > 0,
        b.len() > 0,
    ensures
        joined(seq![one], separator) == one,
        joined(a + b, separator) == joined(a, separator) + separator + joined(b, separator),
    decreases b.len(),
{
    if b.len() == 1 {
        assert((a + b).drop_last() =~= a);
        assert((a + b).last() == b[0]);
    } else {
        let front = b.drop_last();
        joining_puts_separators_between(a, front, one, separator);
        assert((a + b).drop_last() =~= a + front);
        assert((a + b).last() == b.last());
        assert(joined(a + b, separator) =~= joined(a, separator) + separator + joined(
            b,
            separator,
        ));
    }
}

} // verus!
