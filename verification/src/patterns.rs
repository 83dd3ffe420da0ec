//! Sign filters and sign text transformations

use crate::text;
use regex::{Regex, RegexSet};
use vstd::prelude::*;
use vstd::string::*;

verus! {

/// `regex::Regex`, a compiled regular expression
#[verifier::external_type_specification]
#[verifier::external_body]
pub struct ExRegex(Regex);

/// `regex::RegexSet`, a compiled set of regular expressions
#[verifier::external_type_specification]
#[verifier::external_body]
pub struct ExRegexSet(RegexSet);

/// `regex::Error`
#[verifier::external_type_specification]
#[verifier::external_body]
pub struct ExRegexError(regex::Error);

/// The regular expression that a [Regex] was compiled from
pub uninterp spec fn source(regex: Regex) -> Seq<char>;

/// The regular expressions that a [RegexSet] was compiled from
pub uninterp spec fn sources(set: RegexSet) -> Seq<Seq<char>>;

/// A string can be compiled as a regular expression
pub uninterp spec fn compiles(pattern: Seq<char>) -> bool;

/// Strings can be compiled as a set of regular expressions
pub uninterp spec fn compile_together(patterns: Seq<Seq<char>>) -> bool;

/// A character has a meaning in regular expressions
pub open spec fn is_meta(c: char) -> bool {
    ||| c == '\\'
    ||| c == '.'
    ||| c == '+'
    ||| c == '*'
    ||| c == '?'
    ||| c == '('
    ||| c == ')'
    ||| c == '|'
    ||| c == '['
    ||| c == ']'
    ||| c == '{'
    ||| c == '}'
    ||| c == '^'
    ||| c == '$'
    ||| c == '#'
    ||| c == '&'
    ||| c == '-'
    ||| c == '~'
}

/// A text with a backslash before each character that has a meaning in regular
/// expressions
pub open spec fn escaped(s: Seq<char>) -> Seq<char>
    decreases s.len(),
{
    if s.len() == 0 {
        s
    } else if is_meta(s.last()) {
        escaped(s.drop_last()).push('\\').push(s.last())
    } else {
        escaped(s.drop_last()).push(s.last())
    }
}

/// `regex::escape`: puts a backslash before each character that has a meaning in regular
/// expressions
#[verifier::external_body]
fn escape(s: &str) -> (r: String)
    ensures
        r@ == escaped(s@),
{
    regex::escape(s)
}

/// `Regex::new`: whether a regular expression can be compiled depends on it alone, and the
/// compiled regular expression keeps it
#[verifier::external_body]
fn compile(pattern: &str) -> (r: Result<Regex, regex::Error>)
    ensures
        r is Ok <==> compiles(pattern@),
        r matches Ok(regex) ==> source(regex) == pattern@,
{
    Regex::new(pattern)
}

/// `RegexSet::new`: whether regular expressions can be compiled depends on them alone, and
/// the set keeps them in their order
#[verifier::external_body]
fn compile_set(patterns: &Vec<String>) -> (r: Result<RegexSet, regex::Error>)
    ensures
        r is Ok <==> compile_together(texts(patterns@)),
        r matches Ok(set) ==> sources(set) == texts(patterns@),
{
    RegexSet::new(patterns)
}

/// `Regex::clone`: the copy was compiled from the same regular expression
#[verifier::external_body]
fn copy_regex(regex: &Regex) -> (r: Regex)
    ensures
        source(r) == source(*regex),
{
    regex.clone()
}

/// `RegexSet::clone`: the copy was compiled from the same regular expressions
#[verifier::external_body]
pub(crate) fn copy_set(set: &RegexSet) -> (r: RegexSet)
    ensures
        sources(r) == sources(*set),
{
    set.clone()
}

/// The characters of each text
pub open spec fn texts(s: Seq<String>) -> Seq<Seq<char>> {
    s.map_values(|t: String| t@)
}

/// The regular expressions for sign prefixes and sign filters
pub open spec fn sign_expressions(prefixes: Seq<String>, filters: Seq<String>) -> Seq<Seq<char>> {
    prefixes.map_values(|p: String| seq!['^'] + escaped(p@)) + texts(filters)
}

/// Compiles the regular expressions for sign prefixes and sign filters
pub fn sign_patterns(prefixes: &Vec<String>, filters: &Vec<String>) -> (r: Option<RegexSet>)
    ensures
        r is Some <==> compile_together(sign_expressions(prefixes@, filters@)),
        r matches Some(set) ==> sources(set) == sign_expressions(prefixes@, filters@),
{
    let mut patterns: Vec<String> = Vec::new();
    let ghost anchored = |p: String| seq!['^'] + escaped(p@);
    let mut i: usize = 0;
    while i < prefixes.len()
        invariant
            i <= prefixes.len(),
            anchored == (|p: String| seq!['^'] + escaped(p@)),
            texts(patterns@) == prefixes@.take(i as int).map_values(anchored),
        decreases prefixes.len() - i,
    {
        let ghost before = patterns@;
        proof {
            reveal_strlit("^");
        }
        let mut pattern: String = "^".to_owned();
        pattern.append(escape(prefixes[i].as_str()).as_str());
        assert(pattern@ =~= seq!['^'] + escaped(prefixes@[i as int]@));
        patterns.push(pattern);
        assert(texts(patterns@) =~= texts(before).push(pattern@));
        i = i + 1;
        assert(texts(patterns@) =~= prefixes@.take(i as int).map_values(anchored));
    }
    assert(prefixes@.take(i as int) =~= prefixes@);
    let ghost first = texts(patterns@);
    i = 0;
    assert(texts(patterns@) =~= first + texts(filters@.take(0)));
    while i < filters.len()
        invariant
            i <= filters.len(),
            texts(patterns@) == first + texts(filters@.take(i as int)),
        decreases filters.len() - i,
    {
        let ghost before = patterns@;
        patterns.push(filters[i].clone());
        assert(texts(patterns@) =~= texts(before).push(filters@[i as int]@));
        i = i + 1;
        assert(texts(patterns@) =~= first + texts(filters@.take(i as int)));
    }
    assert(filters@.take(i as int) =~= filters@);
    match compile_set(&patterns) {
        Ok(set) => Some(set),
        Err(_) => None,
    }
}

/// The position of the separator that ends a field of a transform, if there is one
///
/// A backslash stands for itself together with the character behind it, which may be
/// anything but a line break.
pub open spec fn field_end(s: Seq<char>, pos: int) -> Option<int>
    decreases s.len() - pos,
{
    if pos < 0 || pos >= s.len() {
        None
    } else if s[pos] == '/' {
        Some(pos)
    } else if s[pos] == '\\' {
        if pos + 1 >= s.len() || s[pos + 1] == '\n' {
            None
        } else {
            field_end(s, pos + 2)
        }
    } else {
        field_end(s, pos + 1)
    }
}

/// The fields of a transform of the form `s/regexp/replacement/`
pub open spec fn transform_fields(s: Seq<char>) -> Option<(Seq<char>, Seq<char>)> {
    if s.len() < 2 || s[0] != 's' || s[1] != '/' {
        None
    } else {
        match field_end(s, 2) {
            None => None,
            Some(a) => match field_end(s, a + 1) {
                None => None,
                Some(b) => if b + 1 == s.len() {
                    Some((s.subrange(2, a), s.subrange(a + 1, b)))
                } else {
                    None
                },
            },
        }
    }
}

/// A text can be a field of a transform: no separator without a backslash, and something
/// other than a line break behind each backslash
pub open spec fn is_field(s: Seq<char>) -> bool {
    field_end(s.push('/'), 0) == Some(s.len() as int)
}

proof fn field_end_shifted(s: Seq<char>, t: Seq<char>, pos: int, shift: int, end: int)
    requires
        0 <= pos,
        0 <= shift + pos,
        field_end(s, pos) == Some(end),
        shift + end < t.len(),
        forall|i: int| pos <= i <= end ==> #[trigger] t[shift + i] == s[i],
    ensures
        field_end(t, shift + pos) == Some(shift + end),
        pos <= end < s.len(),
    decreases s.len() - pos,
{
    assert(field_end(s, pos) is Some);
    field_end_bounds(s, pos);
    assert(t[shift + pos] == s[pos]);
    if s[pos] == '/' {
    } else if s[pos] == '\\' {
        field_end_bounds(s, pos + 2);
        assert(t[shift + (pos + 1)] == s[pos + 1]);
        field_end_shifted(s, t, pos + 2, shift, end);
    } else {
        field_end_shifted(s, t, pos + 1, shift, end);
    }
}

proof fn field_end_bounds(s: Seq<char>, pos: int)
    requires
        0 <= pos,
    ensures
        field_end(s, pos) matches Some(e) ==> pos <= e < s.len() && s[e] == '/',
    decreases s.len() - pos,
{
    if pos < s.len() && s[pos] != '/' {
        if s[pos] == '\\' {
            if pos + 1 < s.len() && s[pos + 1] != '\n' {
                field_end_bounds(s, pos + 2);
            }
        } else {
            field_end_bounds(s, pos + 1);
        }
    }
}

/// The fields of a written transform are read back
pub proof fn transform_read_back(regexp: Seq<char>, replacement: Seq<char>)
    requires
        is_field(regexp),
        is_field(replacement),
    ensures
        transform_fields(
            seq!['s', '/'] + regexp + seq!['/'] + replacement + seq!['/'],
        ) == Some((regexp, replacement)),
{
    let s = seq!['s', '/'] + regexp + seq!['/'] + replacement + seq!['/'];
    let a = 2 + regexp.len() as int;
    let b = a + 1 + replacement.len() as int;
    field_end_shifted(regexp.push('/'), s, 0, 2, regexp.len() as int);
    field_end_shifted(replacement.push('/'), s, 0, a + 1, replacement.len() as int);
    assert(s.subrange(2, a) =~= regexp);
    assert(s.subrange(a + 1, b) =~= replacement);
}

/// Returns the position of the separator that ends a field of a transform
fn find_field_end(s: &Vec<char>, start: usize) -> (r: Option<usize>)
    requires
        start <= s.len(),
    ensures
        match field_end(s@, start as int) {
            Some(e) => r == Some(e as usize) && start <= e < s@.len(),
            None => r is None,
        },
{
    let mut pos: usize = start;
    while pos < s.len()
        invariant
            start <= pos <= s.len(),
            field_end(s@, start as int) == field_end(s@, pos as int),
        decreases s.len() - pos,
    {
        if s[pos] == '/' {
            return Some(pos);
        }
        if s[pos] == '\\' {
            if s.len() - pos < 2 || s[pos + 1] == '\n' {
                return None;
            }
            pos = pos + 2;
        } else {
            pos = pos + 1;
        }
    }
    None
}

/// Reasons why a sign transform is not valid
#[derive(Debug, Clone, Copy, PartialEq, Eq, Structural)]
pub enum TransformError {
    /// The transform is not of the form `s/regexp/replacement/`
    Form,
    /// The regular expression cannot be compiled
    Regexp,
}

/// The regular expression and the replacement string of a transform
pub open spec fn transform_of(transform: Seq<char>) -> Result<
    (Seq<char>, Seq<char>),
    TransformError,
> {
    match transform_fields(transform) {
        None => Err(TransformError::Form),
        Some((regexp, replacement)) => if compiles(regexp) {
            Ok((regexp, replacement))
        } else {
            Err(TransformError::Regexp)
        },
    }
}

/// Parses the sign transform argument into a [Regex] and its corresponding
/// replacement string
pub fn sign_transform(transform: &str) -> (r: Result<(Regex, String), TransformError>)
    ensures
        match transform_of(transform@) {
            Ok((regexp, replacement)) => {
                &&& r matches Ok(t)
                &&& source(t.0) == regexp
                &&& t.1@ == replacement
            },
            Err(e) => r == Err::<(Regex, String), TransformError>(e),
        },
{
    let chars = text::to_chars(transform);
    if chars.len() < 2 || chars[0] != 's' || chars[1] != '/' {
        return Err(TransformError::Form);
    }
    let a: usize = match find_field_end(&chars, 2) {
        Some(a) => a,
        None => return Err(TransformError::Form),
    };
    let b: usize = match find_field_end(&chars, a + 1) {
        Some(b) => b,
        None => return Err(TransformError::Form),
    };
    if b + 1 != chars.len() {
        return Err(TransformError::Form);
    }
    let regexp = match compile(transform.substring_char(2, a)) {
        Ok(regexp) => regexp,
        Err(_) => return Err(TransformError::Regexp),
    };
    Ok((regexp, transform.substring_char(a + 1, b).to_owned()))
}

/// The regular expressions and replacement strings of transforms; the first transform that
/// is not valid is an error
pub open spec fn transforms_of(transforms: Seq<String>) -> Result<
    Seq<(Seq<char>, Seq<char>)>,
    TransformError,
>
    decreases transforms.len(),
{
    if transforms.len() == 0 {
        Ok(Seq::empty())
    } else {
        match transforms_of(transforms.drop_last()) {
            Err(e) => Err(e),
            Ok(done) => match transform_of(transforms.last()@) {
                Err(e) => Err(e),
                Ok(t) => Ok(done.push(t)),
            },
        }
    }
}

/// The regular expressions and replacement strings of compiled transforms
pub open spec fn transforms_view(transforms: Seq<(Regex, String)>) -> Seq<(Seq<char>, Seq<char>)> {
    transforms.map_values(|t: (Regex, String)| (source(t.0), t.1@))
}

proof fn transforms_of_failed(transforms: Seq<String>, n: int)
    requires
        0 <= n <= transforms.len(),
        transforms_of(transforms.take(n)) is Err,
    ensures
        transforms_of(transforms) == transforms_of(transforms.take(n)),
    decreases transforms.len() - n,
{
    if n < transforms.len() {
        assert(transforms.take(n + 1).drop_last() =~= transforms.take(n));
        transforms_of_failed(transforms, n + 1);
    } else {
        assert(transforms.take(n) =~= transforms);
    }
}

/// Parses the sign transform argument into a vector of [Regex] and
/// corresponding replacement strings
pub fn sign_transforms(transforms: &Vec<String>) -> (r: Result<
    Vec<(Regex, String)>,
    TransformError,
>)
    ensures
        match transforms_of(transforms@) {
            Ok(all) => r matches Ok(v) && transforms_view(v@) == all,
            Err(e) => r == Err::<Vec<(Regex, String)>, TransformError>(e),
        },
{
    let mut out: Vec<(Regex, String)> = Vec::new();
    let mut i: usize = 0;
    assert(transforms@.take(0) =~= Seq::<String>::empty());
    assert(transforms_view(out@) =~= Seq::<(Seq<char>, Seq<char>)>::empty());
    while i < transforms.len()
        invariant
            i <= transforms.len(),
            transforms_of(transforms@.take(i as int)) == Ok::<
                Seq<(Seq<char>, Seq<char>)>,
                TransformError,
            >(transforms_view(out@)),
        decreases transforms.len() - i,
    {
        assert(transforms@.take(i + 1).drop_last() =~= transforms@.take(i as int));
        match sign_transform(transforms[i].as_str()) {
            Ok(t) => {
                let ghost before = out@;
                out.push(t);
                assert(transforms_view(out@) =~= transforms_view(before).push((source(t.0), t.1@)));
            },
            Err(e) => {
                proof {
                    transforms_of_failed(transforms@, i + 1);
                }
                return Err(e);
            },
        }
        i = i + 1;
    }
    assert(transforms@.take(i as int) =~= transforms@);
    Ok(out)
}

/// Returns a copy of compiled transforms
pub(crate) fn copy_transforms(transforms: &Vec<(Regex, String)>) -> (r: Vec<(Regex, String)>)
    ensures
        transforms_view(r@) == transforms_view(transforms@),
{
    let mut out: Vec<(Regex, String)> = Vec::new();
    let mut i: usize = 0;
    assert(transforms_view(out@) =~= transforms_view(transforms@.take(0)));
    while i < transforms.len()
        invariant
            i <= transforms.len(),
            transforms_view(out@) == transforms_view(transforms@.take(i as int)),
        decreases transforms.len() - i,
    {
        let ghost before = out@;
        let t = &transforms[i];
        out.push((copy_regex(&t.0), t.1.clone()));
        assert(transforms_view(out@) =~= transforms_view(before).push((source(t.0), t.1@)));
        i = i + 1;
        assert(transforms_view(out@) =~= transforms_view(transforms@.take(i as int)));
    }
    assert(transforms@.take(i as int) =~= transforms@);
    out
}

/// The characters that have a meaning in regular expressions get a backslash, and all others
/// stay as they are
pub proof fn characters_escaped(a: Seq<char>, b: Seq<char>, c: char)
    ensures
        escaped(a + b) == escaped(a) + escaped(b),
        escaped(Seq::empty()) == Seq::<char>::empty(),
        "\\.+*?()|[]{}^$#&-~"@.contains(c) ==> escaped(seq![c]) == seq!['\\', c],
        !"\\.+*?()|[]{}^$#&-~"@.contains(c) ==> escaped(seq![c]) == seq![c],
    decreases b.len(),
{
    if b.len() == 0 {
        assert(a + b =~= a);
        assert(escaped(a) + escaped(b) =~= escaped(a));
    } else {
        characters_escaped(a, b.drop_last(), c);
        assert((a + b).drop_last() =~= a + b.drop_last());
        assert((a + b).last() == b.last());
        assert(escaped(a + b) =~= escaped(a) + escaped(b));
    }
    let one = seq![c];
    assert(one.drop_last() =~= Seq::<char>::empty());
    reveal_with_fuel(escaped, 2);
    meta_listed(c);
    if is_meta(c) {
        assert(escaped(one) =~= seq!['\\', c]);
    } else {
        assert(escaped(one) =~= seq![c]);
    }
}

proof fn meta_listed(c: char)
    ensures
        is_meta(c) <==> "\\.+*?()|[]{}^$#&-~"@.contains(c),
{
    reveal_strlit("\\.+*?()|[]{}^$#&-~");
    let all = "\\.+*?()|[]{}^$#&-~"@;
    assert(all.len() == 18);
    assert(all[0] == '\\' && all[1] == '.' && all[2] == '+' && all[3] == '*' && all[4] == '?');
    assert(all[5] == '(' && all[6] == ')' && all[7] == '|' && all[8] == '[' && all[9] == ']');
    assert(all[10] == '{' && all[11] == '}' && all[12] == '^' && all[13] == '$');
    assert(all[14] == '#' && all[15] == '&' && all[16] == '-' && all[17] == '~');
}

/// Signs are searched for each prefix, at the beginning of the text and character by
/// character, and for each filter as it is
pub proof fn sign_searches(prefixes: Seq<String>, filters: Seq<String>, i: int)
    ensures
        sign_expressions(prefixes, filters).len() == prefixes.len() + filters.len(),
        0 <= i < prefixes.len() ==> sign_expressions(prefixes, filters)[i] == "^"@ + escaped(
            prefixes[i]@,
        ),
        0 <= i < filters.len() ==> sign_expressions(prefixes, filters)[prefixes.len() + i]
            == filters[i]@,
{
    reveal_strlit("^");
    assert("^"@ =~= seq!['^']);
}

/// A field of a transform is made of characters other than separators and backslashes, and of
/// characters behind backslashes
pub proof fn field_forms(a: Seq<char>, b: Seq<char>, c: char)
    ensures
        is_field(Seq::empty()),
        c != '/' && c != '\\' ==> is_field(seq![c]),
        c != '\n' ==> is_field(seq!['\\', c]),
        !is_field(seq!['\\', '\n']),
        !is_field(seq!['/']),
        !is_field(seq!['\\']),
        is_field(a) && is_field(b) ==> is_field(a + b),
{
    reveal_with_fuel(field_end, 3);
    let empty = Seq::<char>::empty().push('/');
    assert(empty.len() == 1 && empty[0] == '/');
    let one = seq![c].push('/');
    assert(one.len() == 2 && one[0] == c && one[1] == '/');
    let two = seq!['\\', c].push('/');
    assert(two.len() == 3 && two[0] == '\\' && two[1] == c && two[2] == '/');
    let broken = seq!['\\', '\n'].push('/');
    assert(broken.len() == 3 && broken[0] == '\\' && broken[1] == '\n');
    let slash = seq!['/'].push('/');
    assert(slash.len() == 2 && slash[0] == '/');
    let last = seq!['\\'].push('/');
    assert(last.len() == 2 && last[0] == '\\' && last[1] == '/');
    if is_field(a) && is_field(b) {
        fields_joined(a.push('/'), (a + b).push('/'), 0, a.len() as int);
        field_end_shifted(b.push('/'), (a + b).push('/'), 0, a.len() as int, b.len() as int);
    }
}

/// Where a field would end, the search goes on if another character stands there
proof fn fields_joined(s: Seq<char>, t: Seq<char>, pos: int, end: int)
    requires
        0 <= pos,
        field_end(s, pos) == Some(end),
        end < t.len(),
        s.len() == end + 1,
        forall|i: int| pos <= i < end ==> #[trigger] t[i] == s[i],
    ensures
        field_end(t, pos) == field_end(t, end),
    decreases s.len() - pos,
{
    field_end_bounds(s, pos);
    if s[pos] == '/' {
    } else {
        assert(pos < end);
        assert(t[pos] == s[pos]);
        if s[pos] == '\\' {
            field_end_bounds(s, pos + 2);
            assert(t[pos + 1] == s[pos + 1]);
            fields_joined(s, t, pos + 2, end);
        } else {
            fields_joined(s, t, pos + 1, end);
        }
    }
}

/// A transform is made of an `s` and two fields, each between separators
pub proof fn transform_form(s: Seq<char>)
    requires
        transform_fields(s) is Some,
    ensures
        ({
            let (regexp, replacement) = transform_fields(s)->0;
            &&& is_field(regexp)
            &&& is_field(replacement)
            &&& s == seq!['s', '/'] + regexp + seq!['/'] + replacement + seq!['/']
        }),
{
    let a = field_end(s, 2)->0;
    let b = field_end(s, a + 1)->0;
    let (regexp, replacement) = transform_fields(s)->0;
    field_end_bounds(s, 2);
    field_end_bounds(s, a + 1);
    field_end_shifted(s, regexp.push('/'), 2, -2, a);
    field_end_shifted(s, replacement.push('/'), a + 1, -(a + 1), b);
    assert(s =~= seq!['s', '/'] + regexp + seq!['/'] + replacement + seq!['/']);
}

/// A transform is valid if it has the right form and its regular expression can be compiled
pub proof fn transform_checked(regexp: Seq<char>, replacement: Seq<char>, s: Seq<char>)
    requires
        is_field(regexp),
        is_field(replacement),
    ensures
        ({
            let written = seq!['s', '/'] + regexp + seq!['/'] + replacement + seq!['/'];
            &&& compiles(regexp) ==> transform_of(written) == Ok::<
                (Seq<char>, Seq<char>),
                TransformError,
            >((regexp, replacement))
            &&& !compiles(regexp) ==> transform_of(written) == Err::<
                (Seq<char>, Seq<char>),
                TransformError,
            >(TransformError::Regexp)
        }),
        transform_of(s) == Err::<(Seq<char>, Seq<char>), TransformError>(TransformError::Form)
            <==> transform_fields(s) is None,
{
    transform_read_back(regexp, replacement);
}

/// All transforms are valid, or the first that is not decides the error
pub proof fn transforms_checked(transforms: Seq<String>, i: int)
    requires
        0 <= i <= transforms.len(),
        forall|j: int| 0 <= j < i ==> transform_of((#[trigger] transforms[j])@) is Ok,
    ensures
        i == transforms.len() ==> {
            &&& transforms_of(transforms) matches Ok(all)
            &&& all.len() == transforms.len()
            &&& forall|j: int|
                0 <= j < all.len() ==> transform_of(transforms[j]@) == Ok::<
                    (Seq<char>, Seq<char>),
                    TransformError,
                >(#[trigger] all[j])
        },
        i < transforms.len() ==> (transform_of(transforms[i]@) matches Err(e) ==> transforms_of(
            transforms,
        ) == Err::<Seq<(Seq<char>, Seq<char>)>, TransformError>(e)),
    decreases transforms.len(),
{
    if transforms.len() > 0 {
        let rest = transforms.drop_last();
        if i < transforms.len() {
            transforms_checked(rest, i);
            if i == rest.len() {
                assert(transforms.last() == transforms[i]);
            } else {
                assert(rest[i] == transforms[i]);
            }
        } else {
            transforms_checked(rest, i - 1);
            assert(transform_of(transforms[i - 1]@) is Ok);
        }
    }
}

} // verus!
