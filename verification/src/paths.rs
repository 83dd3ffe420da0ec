//! File paths, as strings with `/` as separator

use crate::text;
use vstd::prelude::*;
use vstd::string::*;

verus! {

/// `rest` below the directory `base`; an absolute `rest` stands for itself
pub open spec fn joined(base: Seq<char>, rest: Seq<char>) -> Seq<char> {
    if rest.len() > 0 && rest[0] == '/' {
        rest
    } else if base.len() == 0 || base.last() == '/' {
        base + rest
    } else {
        base + seq!['/'] + rest
    }
}

/// Returns the path `rest` below the directory `base`
pub fn join(base: &str, rest: &str) -> (r: String)
    ensures
        r@ == joined(base@, rest@),
{
    let b = text::to_chars(base);
    let t = text::to_chars(rest);
    if t.len() > 0 && t[0] == '/' {
        return rest.to_owned();
    }
    let mut out: String = base.to_owned();
    if b.len() > 0 && b[b.len() - 1] != '/' {
        proof {
            reveal_strlit("/");
        }
        assert("/"@ =~= seq!['/']);
        out.append("/");
    }
    out.append(rest);
    out
}

/// A path without trailing separators and `.` components
pub open spec fn trimmed(path: Seq<char>) -> Seq<char>
    decreases path.len(),
{
    let n = path.len();
    if n > 1 && path.last() == '/' {
        trimmed(path.drop_last())
    } else if n > 1 && path.last() == '.' && path[n - 2] == '/' {
        trimmed(path.drop_last())
    } else {
        path
    }
}

/// The position behind the last separator
pub open spec fn name_start(path: Seq<char>) -> int
    decreases path.len(),
{
    if path.len() == 0 || path.last() == '/' {
        path.len() as int
    } else {
        name_start(path.drop_last())
    }
}

/// The last component of a path, if it is a name
pub open spec fn file_name(path: Seq<char>) -> Option<Seq<char>> {
    let t = trimmed(path);
    let name = t.skip(name_start(t));
    if name.len() == 0 || name == seq!['.'] || name == seq!['.', '.'] {
        None
    } else {
        Some(name)
    }
}

/// A path without its last component; the root and the empty path have none
pub open spec fn parent(path: Seq<char>) -> Option<Seq<char>> {
    let t = trimmed(path);
    if t.len() == 0 || t == seq!['/'] {
        None
    } else {
        Some(trimmed(t.take(name_start(t))))
    }
}

/// The part of a file name behind its last dot, if there is something before the dot
pub open spec fn extension(name: Seq<char>) -> Option<Seq<char>> {
    let dot = last_dot(name);
    if dot > 0 {
        Some(name.skip(dot + 1))
    } else {
        None
    }
}

/// The position of the last dot, or -1
pub open spec fn last_dot(name: Seq<char>) -> int
    decreases name.len(),
{
    if name.len() == 0 || name.last() == '.' {
        name.len() - 1
    } else {
        last_dot(name.drop_last())
    }
}

/// A path whose file name has a suffix appended
pub open spec fn with_suffix(path: Seq<char>, suffix: Seq<char>) -> Seq<char> {
    match (file_name(path), parent(path)) {
        (Some(name), Some(dir)) => joined(dir, name + suffix),
        _ => joined(path, suffix),
    }
}

proof fn name_start_found(path: Seq<char>)
    ensures
        0 <= name_start(path) <= path.len(),
        name_start(path) > 0 ==> path[name_start(path) - 1] == '/',
        forall|i: int| name_start(path) <= i < path.len() ==> #[trigger] path[i] != '/',
    decreases path.len(),
{
    if path.len() > 0 && path.last() != '/' {
        name_start_found(path.drop_last());
        assert forall|i: int| name_start(path) <= i < path.len() implies #[trigger] path[i]
            != '/' by {
            if i < path.len() - 1 {
                assert(path[i] == path.drop_last()[i]);
            }
        }
    }
}

/// Returns the length of a path without trailing separators and `.` components
fn trimmed_len(path: &Vec<char>, end: usize) -> (r: usize)
    requires
        end <= path.len(),
    ensures
        r <= end,
        path@.take(r as int) == trimmed(path@.take(end as int)),
{
    let mut n: usize = end;
    while n > 1 && (path[n - 1] == '/' || (path[n - 1] == '.' && path[n - 2] == '/'))
        invariant
            n <= end <= path.len(),
            trimmed(path@.take(end as int)) == trimmed(path@.take(n as int)),
        decreases n,
    {
        assert(path@.take(n as int).drop_last() =~= path@.take(n - 1));
        n = n - 1;
    }
    n
}

/// Returns the position behind the last separator
fn find_name_start(path: &Vec<char>, end: usize) -> (r: usize)
    requires
        end <= path.len(),
    ensures
        r == name_start(path@.take(end as int)),
        r <= end,
{
    let mut n: usize = end;
    while n > 0 && path[n - 1] != '/'
        invariant
            n <= end <= path.len(),
            name_start(path@.take(end as int)) == name_start(path@.take(n as int)),
        decreases n,
    {
        assert(path@.take(n as int).drop_last() =~= path@.take(n - 1));
        n = n - 1;
    }
    n
}

/// Returns the last component of a path, if it is a name
pub fn name_of(path: &str) -> (r: Option<&str>)
    ensures
        match file_name(path@) {
            Some(name) => r matches Some(n) && n@ == name,
            None => r is None,
        },
{
    let chars = text::to_chars(path);
    assert(chars@.take(chars@.len() as int) =~= path@);
    let end: usize = trimmed_len(&chars, chars.len());
    let start: usize = find_name_start(&chars, end);
    let ghost t = trimmed(path@);
    let ghost name = t.skip(start as int);
    assert(name =~= path@.subrange(start as int, end as int));
    if start == end {
        return None;
    }
    if end - start == 1 && chars[start] == '.' {
        assert(name =~= seq!['.']);
        return None;
    }
    if end - start == 2 && chars[start] == '.' && chars[start + 1] == '.' {
        assert(name =~= seq!['.', '.']);
        return None;
    }
    assert(name.len() == end - start);
    assert(name[0] == chars@[start as int]);
    Some(path.substring_char(start, end))
}

/// Returns a path without its last component; the root and the empty path have none
pub fn parent_of(path: &str) -> (r: Option<&str>)
    ensures
        match parent(path@) {
            Some(dir) => r matches Some(d) && d@ == dir,
            None => r is None,
        },
{
    let chars = text::to_chars(path);
    assert(chars@.take(chars@.len() as int) =~= path@);
    let end: usize = trimmed_len(&chars, chars.len());
    let ghost t = trimmed(path@);
    if end == 0 {
        return None;
    }
    if end == 1 && chars[0] == '/' {
        assert(t =~= seq!['/']);
        return None;
    }
    assert(t[0] == chars@[0]);
    let start: usize = find_name_start(&chars, end);
    assert(t.take(start as int) =~= chars@.take(start as int));
    let dir_end: usize = trimmed_len(&chars, start);
    assert(path@.subrange(0, dir_end as int) =~= chars@.take(dir_end as int));
    Some(path.substring_char(0, dir_end))
}

/// Returns the part of a file name behind its last dot, if there is something before the
/// dot
pub fn extension_of(name: &str) -> (r: Option<&str>)
    ensures
        match extension(name@) {
            Some(ext) => r matches Some(e) && e@ == ext,
            None => r is None,
        },
{
    let chars = text::to_chars(name);
    let mut n: usize = chars.len();
    assert(chars@.take(n as int) =~= name@);
    while n > 0 && chars[n - 1] != '.'
        invariant
            n <= chars.len(),
            chars@ == name@,
            last_dot(name@) == last_dot(chars@.take(n as int)),
        decreases n,
    {
        assert(chars@.take(n as int).drop_last() =~= chars@.take(n - 1));
        n = n - 1;
    }
    if n <= 1 {
        return None;
    }
    assert(name@.subrange(n as int, name@.len() as int) =~= name@.skip(n as int));
    Some(name.substring_char(n, chars.len()))
}

/// Helper for creating suffixed file paths
pub fn suffix_name(path: &str, suffix: &str) -> (r: String)
    ensures
        r@ == with_suffix(path@, suffix@),
{
    match (name_of(path), parent_of(path)) {
        (Some(name), Some(dir)) => {
            let mut file: String = name.to_owned();
            file.append(suffix);
            join(dir, file.as_str())
        },
        _ => join(path, suffix),
    }
}

/// A path with a file name has a parent directory, and the suffixed path has the suffixed
/// file name in the same directory
pub proof fn suffix_keeps_directory(path: Seq<char>, suffix: Seq<char>)
    requires
        file_name(path) is Some,
        suffix.len() > 0,
        forall|i: int| 0 <= i < suffix.len() ==> suffix[i] != '/',
        suffix.last() != '.',
    ensures
        parent(path) is Some,
        file_name(with_suffix(path, suffix)) == Some(file_name(path)->0 + suffix),
        parent(with_suffix(path, suffix)) == parent(path),
{
    let t = trimmed(path);
    let name = file_name(path)->0;
    name_start_found(t);
    assert(t != seq!['/']) by {
        if t == seq!['/'] {
            assert(t.last() == '/');
            assert(name.len() == 0);
        }
    }
    let dir = trimmed(t.take(name_start(t)));
    let new = name + suffix;
    let whole = with_suffix(path, suffix);
    assert(new[0] != '/') by {
        assert(t[name_start(t)] == name[0]);
    }
    assert forall|i: int| 0 <= i < new.len() implies new[i] != '/' by {
        if i < name.len() {
            assert(t[name_start(t) + i] == name[i]);
        }
    }
    assert(whole.last() == suffix.last());
    assert(trimmed(whole) == whole);
    let head = whole.take(whole.len() - new.len());
    assert(whole =~= head + new);
    name_start_of_name(head, new);
    assert(whole.skip(head.len() as int) =~= new);
    assert(new != seq!['.'] && new != seq!['.', '.']) by {
        assert(new.last() == suffix.last());
    }
    // What stands before the name is the directory, with a separator where one is needed
    trimmed_idempotent(t.take(name_start(t)));
    if dir.len() == 0 || dir.last() == '/' {
        assert(head =~= dir);
    } else {
        assert(head =~= dir.push('/'));
        assert(dir.push('/').drop_last() =~= dir);
    }
    assert(trimmed(head) == dir);
    assert(whole != seq!['/']);
}

proof fn name_start_of_name(head: Seq<char>, name: Seq<char>)
    requires
        head.len() == 0 || head.last() == '/',
        forall|i: int| 0 <= i < name.len() ==> name[i] != '/',
    ensures
        name_start(head + name) == head.len(),
    decreases name.len(),
{
    if name.len() == 0 {
        assert(head + name =~= head);
    } else {
        assert((head + name).drop_last() =~= head + name.drop_last());
        name_start_of_name(head, name.drop_last());
    }
}

proof fn trimmed_idempotent(path: Seq<char>)
    ensures
        trimmed(trimmed(path)) == trimmed(path),
    decreases path.len(),
{
    if path.len() > 1 && (path.last() == '/' || (path.last() == '.' && path[path.len() - 2]
        == '/')) {
        trimmed_idempotent(path.drop_last());
    }
}

/// A file name: not empty, without separators, and not one of the special names
pub open spec fn is_name(name: Seq<char>) -> bool {
    &&& name.len() > 0
    &&& !name.contains('/')
    &&& name != seq!['.']
    &&& name != seq!['.', '.']
}

/// A file that is put in a directory is found in that directory under its name
#[verifier::spinoff_prover]
pub proof fn joined_found(dir: Seq<char>, name: Seq<char>)
    requires
        is_name(name),
    ensures
        file_name(joined(dir, name)) == Some(name),
        parent(joined(dir, name)) == Some(trimmed(dir)),
        text::begins_with(joined(dir, name), dir),
        text::finishes_with(joined(dir, name), name),
{
    let whole = joined(dir, name);
    assert forall|i: int| 0 <= i < name.len() implies name[i] != '/' by {
        assert(name.contains(name[i]));
    }
    let head = whole.take(whole.len() - name.len());
    assert(whole =~= head + name);
    assert(whole.skip(whole.len() - name.len()) =~= name);
    assert(whole.take(dir.len() as int) =~= dir);
    assert(whole.last() == name.last());
    if whole.len() > 1 && whole.last() == '.' && whole[whole.len() - 2] == '/' {
        if name.len() > 1 {
            assert(name[name.len() - 2] == '/');
        } else {
            assert(name =~= seq!['.']);
        }
    }
    assert(trimmed(whole) == whole);
    name_start_of_name(head, name);
    if dir.len() == 0 || dir.last() == '/' {
        assert(head =~= dir);
    } else {
        assert(head =~= dir.push('/'));
        assert(dir.push('/').drop_last() =~= dir);
    }
    assert(trimmed(head) == trimmed(dir));
    assert(whole.take(head.len() as int) =~= head);
    if whole == seq!['/'] {
        assert(whole.last() == '/');
    }
}

/// The extension of a file name is what stands behind its last dot; a name that begins with its
/// only dot has none
pub proof fn extension_found(stem: Seq<char>, ext: Seq<char>)
    requires
        !ext.contains('.'),
    ensures
        stem.len() > 0 ==> extension(stem.push('.') + ext) == Some(ext),
        stem.len() == 0 ==> extension(stem.push('.') + ext) is None,
        extension(ext) is None,
{
    last_dot_of(stem.push('.'), ext);
    last_dot_of(Seq::empty(), ext);
    assert(Seq::<char>::empty() + ext =~= ext);
    assert((stem.push('.') + ext).skip(stem.len() as int + 1) =~= ext);
}

proof fn last_dot_of(head: Seq<char>, ext: Seq<char>)
    requires
        head.len() == 0 || head.last() == '.',
        !ext.contains('.'),
    ensures
        last_dot(head + ext) == head.len() - 1,
    decreases ext.len(),
{
    if ext.len() == 0 {
        assert(head + ext =~= head);
    } else {
        assert((head + ext).drop_last() =~= head + ext.drop_last());
        assert(ext.contains(ext.last()));
        assert forall|c: char| ext.drop_last().contains(c) implies ext.contains(c) by {
            let i = choose|i: int| 0 <= i < ext.drop_last().len() && ext.drop_last()[i] == c;
            assert(ext[i] == c);
        }
        last_dot_of(head, ext.drop_last());
    }
}

} // verus!
