//! Text helpers: comparison, prefixes and suffixes, splitting and decimal numbers.
//!
//! Contracts speak of the characters of a string (`s@`).

use vstd::prelude::*;
use vstd::string::*;

verus! {

/// The characters `s` begin with the characters `p`
pub open spec fn begins_with(s: Seq<char>, p: Seq<char>) -> bool {
    s.len() >= p.len() && s.take(p.len() as int) == p
}

/// The characters `s` end with the characters `p`
pub open spec fn finishes_with(s: Seq<char>, p: Seq<char>) -> bool {
    s.len() >= p.len() && s.skip(s.len() - p.len()) == p
}

/// `s` without the prefix `p`, or `s` itself if it does not begin with `p`
pub open spec fn without_prefix(s: Seq<char>, p: Seq<char>) -> Seq<char> {
    if begins_with(s, p) {
        s.skip(p.len() as int)
    } else {
        s
    }
}

/// The decimal digit `d`
pub open spec fn digit_char(d: int) -> char
    recommends
        0 <= d < 10,
{
    (48 + d) as char
}

/// The decimal digits of `n`, without leading zeros
pub open spec fn digits(n: nat) -> Seq<char>
    decreases n,
{
    if n < 10 {
        seq![digit_char(n as int)]
    } else {
        digits(n / 10).push(digit_char((n % 10) as int))
    }
}

/// The decimal form of `i`
pub open spec fn decimal(i: int) -> Seq<char> {
    if i < 0 {
        seq!['-'] + digits((-i) as nat)
    } else {
        digits(i as nat)
    }
}

/// `c` is an ASCII digit
pub open spec fn is_digit(c: char) -> bool {
    '0' <= c <= '9'
}

/// All characters of `s` are ASCII digits
pub open spec fn all_digits(s: Seq<char>) -> bool {
    forall|i: int| 0 <= i < s.len() ==> is_digit(#[trigger] s[i])
}

/// The number that a sequence of digits denotes
pub open spec fn digits_value(s: Seq<char>) -> nat
    decreases s.len(),
{
    if s.len() == 0 {
        0
    } else {
        digits_value(s.drop_last()) * 10 + ((s.last() as int - 48) as nat)
    }
}

/// The `i32` that `s` denotes: an optional sign, then at least one digit
pub open spec fn parsed_i32(s: Seq<char>) -> Option<i32> {
    let negative = s.len() > 0 && s[0] == '-';
    let signed = s.len() > 0 && (s[0] == '-' || s[0] == '+');
    let body = if signed {
        s.skip(1)
    } else {
        s
    };
    let value = if negative {
        -(digits_value(body) as int)
    } else {
        digits_value(body) as int
    };
    if body.len() > 0 && all_digits(body) && i32::MIN <= value <= i32::MAX {
        Some(value as i32)
    } else {
        None
    }
}

/// The parts of `s` between the separators `sep`
///
/// There is always one part more than there are separators.
pub open spec fn split(s: Seq<char>, sep: char) -> Seq<Seq<char>>
    decreases s.len(),
{
    if s.len() == 0 {
        seq![Seq::<char>::empty()]
    } else {
        let parts = split(s.drop_last(), sep);
        if s.last() == sep {
            parts.push(Seq::<char>::empty())
        } else {
            parts.update(parts.len() - 1, parts.last().push(s.last()))
        }
    }
}

/// `a` comes before `b` in dictionary order of their characters, or equals it
pub open spec fn lex_le(a: Seq<char>, b: Seq<char>) -> bool
    decreases a.len(),
{
    if a.len() == 0 {
        true
    } else if b.len() == 0 {
        false
    } else if a[0] == b[0] {
        lex_le(a.skip(1), b.skip(1))
    } else {
        a[0] < b[0]
    }
}

/// Dictionary order is total
pub proof fn lex_le_total(a: Seq<char>, b: Seq<char>)
    ensures
        lex_le(a, b) || lex_le(b, a),
    decreases a.len(),
{
    if a.len() > 0 && b.len() > 0 && a[0] == b[0] {
        lex_le_total(a.skip(1), b.skip(1));
    }
}

/// Dictionary order is transitive
pub proof fn lex_le_transitive(a: Seq<char>, b: Seq<char>, c: Seq<char>)
    requires
        lex_le(a, b),
        lex_le(b, c),
    ensures
        lex_le(a, c),
    decreases a.len(),
{
    if a.len() > 0 && b.len() > 0 && c.len() > 0 && a[0] == b[0] && b[0] == c[0] {
        lex_le_transitive(a.skip(1), b.skip(1), c.skip(1));
    }
}

/// Two texts that precede each other in dictionary order are equal
pub proof fn lex_le_antisymmetric(a: Seq<char>, b: Seq<char>)
    requires
        lex_le(a, b),
        lex_le(b, a),
    ensures
        a == b,
    decreases a.len(),
{
    if a.len() > 0 && b.len() > 0 {
        lex_le_antisymmetric(a.skip(1), b.skip(1));
        assert(a =~= seq![a[0]] + a.skip(1));
        assert(b =~= seq![b[0]] + b.skip(1));
    } else {
        assert(a =~= b);
    }
}

/// Splitting always gives at least one part
pub proof fn split_nonempty(s: Seq<char>, sep: char)
    ensures
        split(s, sep).len() >= 1,
    decreases s.len(),
{
    if s.len() > 0 {
        split_nonempty(s.drop_last(), sep);
    }
}

/// A text without the separator is its only part
pub proof fn split_single(s: Seq<char>, sep: char)
    requires
        !s.contains(sep),
    ensures
        split(s, sep) == seq![s],
    decreases s.len(),
{
    if s.len() == 0 {
        assert(s =~= Seq::<char>::empty());
    } else {
        assert forall|i: int| 0 <= i < s.drop_last().len() implies s.drop_last()[i] != sep by {
            assert(s[i] == s.drop_last()[i]);
        }
        split_single(s.drop_last(), sep);
        assert(s.contains(s.last()));
        assert(s.drop_last().push(s.last()) =~= s);
        assert(split(s, sep) =~= seq![s]);
    }
}

/// The parts of two texts joined by the separator are the parts of both
pub proof fn split_joined(a: Seq<char>, b: Seq<char>, sep: char)
    ensures
        split(a.push(sep) + b, sep) == split(a, sep) + split(b, sep),
    decreases b.len(),
{
    if b.len() == 0 {
        assert(a.push(sep) + b =~= a.push(sep));
        assert(a.push(sep).drop_last() =~= a);
        assert(split(a.push(sep), sep) =~= split(a, sep) + split(b, sep));
    } else {
        let whole = a.push(sep) + b;
        split_joined(a, b.drop_last(), sep);
        split_nonempty(b.drop_last(), sep);
        assert(whole.drop_last() =~= a.push(sep) + b.drop_last());
        assert(whole.last() == b.last());
        assert(split(whole, sep) =~= split(a, sep) + split(b, sep));
    }
}

/// The digits of a number are digits, denote the number, and there is at least one
pub proof fn digits_denote(n: nat)
    ensures
        digits(n).len() > 0,
        all_digits(digits(n)),
        digits_value(digits(n)) == n,
    decreases n,
{
    reveal_with_fuel(digits_value, 2);
    if n >= 10 {
        digits_denote(n / 10);
        assert(digits(n).drop_last() =~= digits(n / 10));
    } else {
        assert(digits(n).drop_last() =~= Seq::<char>::empty());
    }
}

/// Parsing the decimal form of an `i32` gives the number back
pub proof fn decimal_parses(i: i32)
    ensures
        parsed_i32(decimal(i as int)) == Some(i),
{
    if i < 0 {
        let n = (-(i as int)) as nat;
        digits_denote(n);
        assert(decimal(i as int).skip(1) =~= digits(n));
    } else {
        digits_denote(i as nat);
        let s = digits(i as nat);
        assert(is_digit(s[0]));
    }
}

/// A decimal number holds no full stop
pub proof fn decimal_without_dot(i: int)
    ensures
        !decimal(i).contains('.'),
{
    let n: nat = if i < 0 {
        (-i) as nat
    } else {
        i as nat
    };
    digits_denote(n);
    let d = digits(n);
    assert forall|k: int| 0 <= k < decimal(i).len() implies decimal(i)[k] != '.' by {
        if i < 0 {
            if k > 0 {
                assert(is_digit(d[k - 1]));
            }
        } else {
            assert(is_digit(d[k]));
        }
    }
}

/// Returns whether two strings hold the same characters
pub fn same(a: &str, b: &str) -> (r: bool)
    ensures
        r == (a@ == b@),
{
    let x = a.as_bytes();
    let y = b.as_bytes();
    proof {
        vstd::utf8::encode_utf8_decode_utf8(a@);
        vstd::utf8::encode_utf8_decode_utf8(b@);
    }
    if x.len() != y.len() {
        return false;
    }
    let mut i: usize = 0;
    while i < x.len()
        invariant
            i <= x.len(),
            x@.len() == y@.len(),
            forall|j: int| 0 <= j < i ==> x@[j] == y@[j],
            x@ == vstd::utf8::encode_utf8(a@),
            y@ == vstd::utf8::encode_utf8(b@),
        decreases x.len() - i,
    {
        if x[i] != y[i] {
            return false;
        }
        i = i + 1;
    }
    assert(x@ =~= y@);
    true
}

/// Collects the characters of a string
pub fn to_chars(s: &str) -> (r: Vec<char>)
    ensures
        r@ == s@,
{
    let mut out: Vec<char> = Vec::new();
    for c in it: s.chars()
        invariant
            out@ == it.seq().take(it.index() as int),
            it.seq() == s@,
    {
        out.push(c);
    }
    out
}

/// Returns whether `a` comes before `b` in dictionary order, or equals it
pub fn at_most(a: &str, b: &str) -> (r: bool)
    ensures
        r == lex_le(a@, b@),
{
    let x = to_chars(a);
    let y = to_chars(b);
    let mut i: usize = 0;
    assert(x@.skip(0) =~= a@);
    assert(y@.skip(0) =~= b@);
    while i < x.len()
        invariant
            i <= x@.len(),
            i <= y@.len(),
            x@ == a@,
            y@ == b@,
            lex_le(a@, b@) == lex_le(x@.skip(i as int), y@.skip(i as int)),
        decreases x.len() - i,
    {
        if i >= y.len() {
            return false;
        }
        if x[i] != y[i] {
            return x[i] < y[i];
        }
        assert(x@.skip(i as int).skip(1) =~= x@.skip(i + 1));
        assert(y@.skip(i as int).skip(1) =~= y@.skip(i + 1));
        i = i + 1;
    }
    true
}

/// Removes a prefix, if the string begins with it
pub fn strip_prefix<'a>(s: &'a str, prefix: &str) -> (r: Option<&'a str>)
    ensures
        r is Some <==> begins_with(s@, prefix@),
        r matches Some(rest) ==> rest@ == s@.skip(prefix@.len() as int),
{
    let x = to_chars(s);
    let p = to_chars(prefix);
    if x.len() < p.len() {
        return None;
    }
    let mut i: usize = 0;
    while i < p.len()
        invariant
            i <= p@.len() <= x@.len(),
            x@ == s@,
            p@ == prefix@,
            forall|j: int| 0 <= j < i ==> x@[j] == p@[j],
        decreases p.len() - i,
    {
        if x[i] != p[i] {
            assert(s@.take(prefix@.len() as int)[i as int] != prefix@[i as int]);
            return None;
        }
        i = i + 1;
    }
    assert(s@.take(prefix@.len() as int) =~= prefix@);
    Some(s.substring_char(p.len(), x.len()))
}

/// Removes a suffix, if the string ends with it
pub fn strip_suffix<'a>(s: &'a str, suffix: &str) -> (r: Option<&'a str>)
    ensures
        r is Some <==> finishes_with(s@, suffix@),
        r matches Some(rest) ==> rest@ == s@.take(s@.len() - suffix@.len()),
{
    let x = to_chars(s);
    let p = to_chars(suffix);
    if x.len() < p.len() {
        return None;
    }
    let start: usize = x.len() - p.len();
    let mut i: usize = 0;
    while i < p.len()
        invariant
            i <= p@.len() <= x@.len(),
            start + p.len() == x.len(),
            x@ == s@,
            p@ == suffix@,
            forall|j: int| 0 <= j < i ==> x@[start + j] == p@[j],
        decreases p.len() - i,
    {
        if x[start + i] != p[i] {
            assert(s@.skip(s@.len() - suffix@.len())[i as int] != suffix@[i as int]);
            return None;
        }
        i = i + 1;
    }
    assert(s@.skip(s@.len() - suffix@.len()) =~= suffix@);
    Some(s.substring_char(0, start))
}

/// Returns whether the string ends with a suffix
pub fn ends_with(s: &str, suffix: &str) -> (r: bool)
    ensures
        r == finishes_with(s@, suffix@),
{
    strip_suffix(s, suffix).is_some()
}

/// Returns whether a list of characters spells a string
pub fn spells(chars: &Vec<char>, s: &str) -> (r: bool)
    ensures
        r == (chars@ == s@),
{
    let y = to_chars(s);
    if chars.len() != y.len() {
        return false;
    }
    let mut i: usize = 0;
    while i < y.len()
        invariant
            i <= y@.len(),
            y@ == s@,
            chars@.len() == y@.len(),
            forall|j: int| 0 <= j < i ==> chars@[j] == y@[j],
        decreases y.len() - i,
    {
        if chars[i] != y[i] {
            return false;
        }
        i = i + 1;
    }
    assert(chars@ =~= s@);
    true
}

/// The characters of each part
pub open spec fn parts_view(parts: Seq<Vec<char>>) -> Seq<Seq<char>> {
    parts.map_values(|p: Vec<char>| p@)
}

/// Splits a string at every occurrence of a separator
pub fn split_at_each(s: &str, sep: char) -> (r: Vec<Vec<char>>)
    ensures
        parts_view(r@) == split(s@, sep),
{
    let x = to_chars(s);
    let mut done: Vec<Vec<char>> = Vec::new();
    let mut current: Vec<char> = Vec::new();
    let mut i: usize = 0;
    assert(x@.take(0) =~= Seq::<char>::empty());
    assert(parts_view(done@).push(current@) =~= split(x@.take(0), sep));
    while i < x.len()
        invariant
            i <= x@.len(),
            x@ == s@,
            parts_view(done@).push(current@) == split(x@.take(i as int), sep),
        decreases x.len() - i,
    {
        let ghost before = parts_view(done@).push(current@);
        let ghost prefix = x@.take(i + 1);
        assert(prefix.drop_last() =~= x@.take(i as int));
        assert(prefix.last() == x@[i as int]);
        if x[i] == sep {
            done.push(current);
            current = Vec::new();
            assert(parts_view(done@) =~= before);
        } else {
            let ghost was = current@;
            current.push(x[i]);
            assert(before.last() == was);
            assert(parts_view(done@).push(current@) =~= before.update(
                before.len() - 1,
                before.last().push(x@[i as int]),
            ));
        }
        i = i + 1;
    }
    assert(x@.take(i as int) =~= s@);
    let ghost before = parts_view(done@);
    let ghost last = current@;
    done.push(current);
    assert(parts_view(done@) =~= before.push(last));
    done
}

/// Parses a decimal `i32`
pub fn parse_i32(s: &Vec<char>) -> (r: Option<i32>)
    ensures
        r == parsed_i32(s@),
{
    let mut start: usize = 0;
    let mut negative: bool = false;
    if s.len() > 0 && (s[0] == '-' || s[0] == '+') {
        negative = s[0] == '-';
        start = 1;
    }
    let ghost body = s@.skip(start as int);
    assert(start == 0 ==> body =~= s@);
    if start >= s.len() {
        return None;
    }
    let mut value: i64 = 0;
    let mut i: usize = start;
    assert(body.take(0) =~= Seq::<char>::empty());
    while i < s.len()
        invariant
            start <= i <= s@.len(),
            start < s@.len(),
            body == s@.skip(start as int),
            0 <= value <= 2147483648,
            value == digits_value(body.take(i - start)),
            all_digits(body.take(i - start)),
            parsed_i32(s@) is Some ==> all_digits(body) && digits_value(body) <= 2147483648,
        decreases s.len() - i,
    {
        let c = s[i];
        let ghost k = i - start;
        assert(body[k] == c);
        assert(body.take(k + 1).drop_last() =~= body.take(k));
        assert(body.take(k + 1).last() == c);
        if !('0' <= c && c <= '9') {
            assert(!is_digit(body[k]));
            return None;
        }
        let d: i64 = (c as u32 - 48) as i64;
        let next: i64 = value * 10 + d;
        assert(next == digits_value(body.take(k + 1)));
        if next > 2147483648 {
            proof {
                digits_value_grows(body, k + 1);
            }
            return None;
        }
        value = next;
        assert forall|j: int| 0 <= j < k + 1 implies is_digit(#[trigger] body.take(k + 1)[j]) by {
            if j < k {
                assert(is_digit(body.take(k)[j]));
            }
        }
        i = i + 1;
    }
    assert(body.take(i - start) =~= body);
    if negative {
        Some((-value) as i32)
    } else if value <= 2147483647 {
        Some(value as i32)
    } else {
        None
    }
}

/// More digits never denote a smaller number
proof fn digits_value_grows(s: Seq<char>, k: int)
    requires
        0 <= k <= s.len(),
    ensures
        digits_value(s.take(k)) <= digits_value(s),
    decreases s.len(),
{
    if k == s.len() {
        assert(s.take(k) =~= s);
    } else {
        digits_value_grows(s.drop_last(), k);
        assert(s.drop_last().take(k) =~= s.take(k));
    }
}

/// Appends a decimal digit
fn push_digit(out: &mut String, d: u64)
    requires
        d < 10,
    ensures
        final(out)@ == old(out)@.push(digit_char(d as int)),
{
    proof {
        reveal_strlit("0");
        reveal_strlit("1");
        reveal_strlit("2");
        reveal_strlit("3");
        reveal_strlit("4");
        reveal_strlit("5");
        reveal_strlit("6");
        reveal_strlit("7");
        reveal_strlit("8");
        reveal_strlit("9");
    }
    let digit = if d == 0 {
        "0"
    } else if d == 1 {
        "1"
    } else if d == 2 {
        "2"
    } else if d == 3 {
        "3"
    } else if d == 4 {
        "4"
    } else if d == 5 {
        "5"
    } else if d == 6 {
        "6"
    } else if d == 7 {
        "7"
    } else if d == 8 {
        "8"
    } else {
        "9"
    };
    assert(digit@ =~= seq![digit_char(d as int)]);
    let ghost before = out@;
    out.append(digit);
    assert(out@ =~= before.push(digit_char(d as int)));
}

/// Appends the decimal digits of a number
pub fn push_digits(out: &mut String, n: u64)
    ensures
        final(out)@ == old(out)@ + digits(n as nat),
    decreases n,
{
    let ghost before = out@;
    if n >= 10 {
        push_digits(out, n / 10);
    }
    push_digit(out, n % 10);
    assert(out@ =~= before + digits(n as nat));
}

/// Appends the decimal form of a number
pub fn push_decimal(out: &mut String, i: i32)
    ensures
        final(out)@ == old(out)@ + decimal(i as int),
{
    let ghost before = out@;
    if i < 0 {
        proof {
            reveal_strlit("-");
        }
        out.append("-");
        assert("-"@ =~= seq!['-']);
        push_digits(out, (-(i as i64)) as u64);
    } else {
        push_digits(out, i as u64);
    }
    assert(out@ =~= before + decimal(i as int));
}

/// Dictionary order is decided by the first character in which two texts differ; a text comes
/// before those that it begins
pub proof fn lex_le_by_first_difference(a: Seq<char>, b: Seq<char>, k: int)
    requires
        0 <= k <= a.len(),
        k <= b.len(),
        forall|i: int| 0 <= i < k ==> a[i] == b[i],
    ensures
        k == a.len() ==> lex_le(a, b),
        k == b.len() && k < a.len() ==> !lex_le(a, b),
        k < a.len() && k < b.len() && a[k] != b[k] ==> lex_le(a, b) == (a[k] < b[k]),
    decreases a.len(),
{
    if k > 0 {
        assert(a[0] == b[0]);
        assert forall|i: int| 0 <= i < k - 1 implies a.skip(1)[i] == b.skip(1)[i] by {
            assert(a[i + 1] == b[i + 1]);
        }
        lex_le_by_first_difference(a.skip(1), b.skip(1), k - 1);
        if k < a.len() && k < b.len() {
            assert(a.skip(1)[k - 1] == a[k] && b.skip(1)[k - 1] == b[k]);
        }
    }
}

/// A prefix that was put before a text is taken off again, and a text without the prefix is
/// left as it is
pub proof fn prefix_taken_off(s: Seq<char>, p: Seq<char>)
    ensures
        begins_with(p + s, p),
        without_prefix(p + s, p) == s,
        begins_with(s, p) ==> p + without_prefix(s, p) == s,
        !begins_with(s, p) ==> without_prefix(s, p) == s,
        finishes_with(s + p, p),
        finishes_with(s, p) ==> s.take(s.len() - p.len()) + p == s,
{
    assert((p + s).take(p.len() as int) =~= p);
    assert((p + s).skip(p.len() as int) =~= s);
    assert((s + p).skip((s + p).len() - p.len()) =~= p);
    if begins_with(s, p) {
        assert(p + s.skip(p.len() as int) =~= s);
    }
    if finishes_with(s, p) {
        assert(s.take(s.len() - p.len()) + p =~= s);
    }
}

/// A number may be written with a sign and with leading zeros, and with nothing but digits
pub proof fn number_forms(n: nat, s: Seq<char>, i: int)
    requires
        n <= 0x7fff_ffff,
    ensures
        parsed_i32(digits(n)) == Some(n as i32),
        parsed_i32(seq!['+'] + digits(n)) == Some(n as i32),
        parsed_i32(seq!['-'] + digits(n)) == Some((-n) as i32),
        parsed_i32(seq!['0'] + digits(n)) == Some(n as i32),
        s.len() == 0 ==> parsed_i32(s) is None,
        0 < i < s.len() && !('0' <= s[i] <= '9') ==> parsed_i32(s) is None,
        s.len() > 0 && s[0] != '+' && s[0] != '-' && !('0' <= s[0] <= '9') ==> parsed_i32(
            s,
        ) is None,
{
    let d = digits(n);
    digits_denote(n);
    assert((seq!['+'] + d).skip(1) =~= d);
    assert((seq!['-'] + d).skip(1) =~= d);
    let z = seq!['0'] + d;
    leading_zero(d);
    assert(is_digit(d[0]));
    assert(all_digits(z));
    if 0 < i < s.len() && !is_digit(s[i]) {
        assert(s.skip(1)[i - 1] == s[i]);
    }
}

proof fn leading_zero(d: Seq<char>)
    ensures
        digits_value(seq!['0'] + d) == digits_value(d),
    decreases d.len(),
{
    let z = seq!['0'] + d;
    if d.len() == 0 {
        assert(z.drop_last() =~= Seq::<char>::empty());
        reveal_with_fuel(digits_value, 2);
    } else {
        assert(z.drop_last() =~= seq!['0'] + d.drop_last());
        leading_zero(d.drop_last());
    }
}

/// The parts of a text joined with the separator again give the text, and no part contains the
/// separator
pub proof fn split_rejoined(s: Seq<char>, sep: char)
    ensures
        rejoined(split(s, sep), sep) == s,
        forall|i: int|
            0 <= i < split(s, sep).len() ==> !(#[trigger] split(s, sep)[i]).contains(sep),
    decreases s.len(),
{
    if s.len() == 0 {
        reveal_with_fuel(rejoined, 2);
        assert(rejoined(split(s, sep), sep) =~= s);
    } else {
        let rest = s.drop_last();
        let parts = split(rest, sep);
        split_nonempty(rest, sep);
        split_rejoined(rest, sep);
        let all = split(s, sep);
        let last = parts.len() - 1;
        if s.last() == sep {
            assert(all.drop_last() =~= parts);
            assert(rejoined(all, sep) =~= s);
        } else {
            assert(all.drop_last() =~= parts.drop_last());
            assert(rejoined(all, sep) =~= rejoined(parts, sep).push(s.last()));
            assert(rejoined(parts, sep).push(s.last()) =~= s);
            assert forall|i: int| 0 <= i < all.len() implies !(#[trigger] all[i]).contains(
                sep,
            ) by {
                if i < last {
                    assert(all[i] == parts[i]);
                } else {
                    assert(!parts[last].contains(sep));
                    if all[i].contains(sep) {
                        let k = choose|k: int| 0 <= k < all[i].len() && all[i][k] == sep;
                        assert(parts[last][k] == sep);
                    }
                }
            }
        }
    }
}

/// Parts of a text, joined with a separator
pub open spec fn rejoined(parts: Seq<Seq<char>>, sep: char) -> Seq<char>
    decreases parts.len(),
{
    if parts.len() == 0 {
        Seq::empty()
    } else if parts.len() == 1 {
        parts[0]
    } else {
        rejoined(parts.drop_last(), sep).push(sep) + parts.last()
    }
}

/// Decimal numbers have no leading zeros, and a minus sign if they are negative
pub proof fn decimal_form(n: nat)
    ensures
        digits(0) == seq!['0'],
        n > 0 ==> digits(n)[0] != '0',
        decimal(n as int) == digits(n),
        n > 0 ==> decimal(-n) == seq!['-'] + digits(n),
    decreases n,
{
    digits_denote(n);
    if n >= 10 {
        decimal_form(n / 10);
        digits_denote(n / 10);
    }
    assert(digits(0) =~= seq!['0']);
}

} // verus!
