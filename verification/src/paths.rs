//! Paths as texts whose components are parted by `/`, and the checks on paths
//! that were looked up in the file system.

use vstd::prelude::*;

use crate::error::{Error, ErrorKind, ErrorView, KindView};
use crate::text::{from_chars, os_quote, os_quoted, to_chars};

verus! {

/// `s` without the separators and `.` components that follow its last component.
pub open spec fn trim_tail(s: Seq<char>) -> Seq<char>
    decreases s.len(),
{
    if s.len() >= 2 && (s.last() == '/' || (s.last() == '.' && s[s.len() - 2] == '/')) {
        trim_tail(s.drop_last())
    } else {
        s
    }
}

/// The index just behind the last separator of `s`, or 0.
pub open spec fn name_start(s: Seq<char>) -> int
    decreases s.len(),
{
    if s.len() == 0 || s.last() == '/' {
        s.len() as int
    } else {
        name_start(s.drop_last())
    }
}

/// The path `s` names nothing below a root: it is empty or the root itself.
pub open spec fn is_bare(s: Seq<char>) -> bool {
    s.len() == 0 || s == seq!['/']
}

/// The path without its last component, if it has one that can be taken off.
pub open spec fn parent(s: Seq<char>) -> Option<Seq<char>> {
    let t = trim_tail(s);
    if is_bare(t) {
        None
    } else {
        Some(trim_tail(t.take(name_start(t))))
    }
}

/// The last component of the path, if it is the name of something.
pub open spec fn file_name(s: Seq<char>) -> Option<Seq<char>> {
    let t = trim_tail(s);
    let name = t.skip(name_start(t));
    if is_bare(t) || name == seq!['.'] || name == seq!['.', '.'] {
        None
    } else {
        Some(name)
    }
}

/// `path` extended by `other`: an absolute `other` takes its place.
pub open spec fn pushed(path: Seq<char>, other: Seq<char>) -> Seq<char> {
    if other.len() > 0 && other[0] == '/' {
        other
    } else if path.len() > 0 && path.last() != '/' {
        path + seq!['/'] + other
    } else {
        path + other
    }
}

proof fn lemma_name_start(s: Seq<char>)
    ensures
        0 <= name_start(s) <= s.len(),
        forall|i: int| name_start(s) <= i < s.len() ==> #[trigger] s[i] != '/',
        name_start(s) > 0 ==> s[name_start(s) - 1] == '/',
    decreases s.len(),
{
    if s.len() > 0 && s.last() != '/' {
        lemma_name_start(s.drop_last());
        assert forall|i: int| name_start(s) <= i < s.len() implies #[trigger] s[i] != '/' by {
            if i < s.len() - 1 {
                assert(s[i] == s.drop_last()[i]);
            }
        }
    }
}

/// The length of `trim_tail` of the first `end` characters of `s`.
fn tail_trimmed(s: &Vec<char>, end: usize) -> (r: usize)
    requires
        end <= s@.len(),
    ensures
        r <= end,
        trim_tail(s@.take(end as int)) == s@.take(r as int),
{
    let mut r: usize = end;
    while r >= 2 && (s[r - 1] == '/' || (s[r - 1] == '.' && s[r - 2] == '/'))
        invariant
            r <= end <= s@.len(),
            trim_tail(s@.take(end as int)) == trim_tail(s@.take(r as int)),
        decreases r,
    {
        assert(s@.take(r as int).drop_last() =~= s@.take(r - 1));
        assert(s@.take(r as int).last() == s@[r - 1]);
        r = r - 1;
    }
    r
}

/// The index just behind the last separator of the first `end` characters.
fn name_index(s: &Vec<char>, end: usize) -> (r: usize)
    requires
        end <= s@.len(),
    ensures
        r <= end,
        r == name_start(s@.take(end as int)),
{
    let mut r: usize = end;
    while r > 0 && s[r - 1] != '/'
        invariant
            r <= end <= s@.len(),
            name_start(s@.take(end as int)) == name_start(s@.take(r as int)),
        decreases r,
    {
        assert(s@.take(r as int).drop_last() =~= s@.take(r - 1));
        r = r - 1;
    }
    r
}

/// The path without its last component, if it has one that can be taken off.
pub fn parent_path(path: &str) -> (r: Option<String>)
    ensures
        match r {
            Some(p) => parent(path@) == Some(p@),
            None => parent(path@) is None,
        },
{
    let s: Vec<char> = to_chars(path);
    assert(s@.take(s@.len() as int) =~= path@);
    let end: usize = tail_trimmed(&s, s.len());
    let ghost t = s@.take(end as int);
    if end == 0 || (end == 1 && s[0] == '/') {
        assert(is_bare(t)) by {
            if end == 1 {
                assert(t =~= seq!['/']);
            }
        }
        return None;
    }
    assert(!is_bare(t)) by {
        if t == seq!['/'] {
            assert(t.len() == 1);
            assert(t[0] == '/');
            assert(t[0] == s@[0]);
        }
    }
    let start: usize = name_index(&s, end);
    assert(t.take(start as int) =~= s@.take(start as int));
    let end: usize = tail_trimmed(&s, start);
    assert(s@.subrange(0, end as int) =~= s@.take(end as int));
    Some(from_chars(&s, 0, end))
}

/// The last component of the path, if it is the name of something.
pub fn last_name(path: &str) -> (r: Option<String>)
    ensures
        match r {
            Some(p) => file_name(path@) == Some(p@),
            None => file_name(path@) is None,
        },
{
    let s: Vec<char> = to_chars(path);
    assert(s@.take(s@.len() as int) =~= path@);
    let end: usize = tail_trimmed(&s, s.len());
    let ghost t = s@.take(end as int);
    if end == 0 || (end == 1 && s[0] == '/') {
        assert(is_bare(t)) by {
            if end == 1 {
                assert(t =~= seq!['/']);
            }
        }
        return None;
    }
    assert(!is_bare(t)) by {
        if t == seq!['/'] {
            assert(t.len() == 1);
            assert(t[0] == '/');
            assert(t[0] == s@[0]);
        }
    }
    let start: usize = name_index(&s, end);
    let ghost name = t.skip(start as int);
    assert(name =~= s@.subrange(start as int, end as int));
    if end - start == 1 && s[start] == '.' {
        assert(name =~= seq!['.']);
        return None;
    }
    if end - start == 2 && s[start] == '.' && s[start + 1] == '.' {
        assert(name =~= seq!['.', '.']);
        return None;
    }
    assert(name != seq!['.'] && name != seq!['.', '.']) by {
        if name == seq!['.'] {
            assert(name[0] == '.');
        }
        if name == seq!['.', '.'] {
            assert(name[0] == '.' && name[1] == '.');
        }
    }
    Some(from_chars(&s, start, end))
}

/// `path` extended by `other`: an absolute `other` takes its place.
pub fn push_path(path: &str, other: &str) -> (r: String)
    ensures
        r@ == pushed(path@, other@),
{
    let p: Vec<char> = to_chars(path);
    let o: Vec<char> = to_chars(other);
    if o.len() > 0 && o[0] == '/' {
        return other.to_owned();
    }
    let mut r: String = path.to_owned();
    if p.len() > 0 && p[p.len() - 1] != '/' {
        r.push('/');
        assert(path@ + seq!['/'] =~= r@);
    }
    r.append(other);
    r
}

/// The text that names a check on a path.
pub open spec fn acquire_text(what: Seq<char>, path: Seq<char>) -> Seq<char> {
    what + os_quoted(path) + ")"@
}

fn acquire_message(what: &str, path: &str) -> (r: String)
    ensures
        r@ == acquire_text(what@, path@),
{
    let mut r: String = what.to_owned();
    r.append(os_quote(path).as_str());
    r.append(")");
    r
}

/// Checks the existence of a path, given what its canonicalization returned.
/// Adds on better information to errors.
pub fn acquire_path(path: &str, canonical: Result<String, Error>) -> (r: Result<String, Error>)
    ensures
        match canonical {
            Ok(p) => r == Ok::<String, Error>(p),
            Err(e) => r is Err && r->Err_0@ == e@.with(
                KindView::Text(acquire_text("acquire_path(path: "@, path@)),
            ),
        },
{
    match canonical {
        Ok(p) => Ok(p),
        Err(e) => {
            let text: String = acquire_message("acquire_path(path: ", path);
            Err(e.add_err_no_location(ErrorKind::StringError(text)))
        },
    }
}

/// Checks the existence of a file path, given what its canonicalization
/// returned and whether that is a file. Adds on better information to errors.
pub fn acquire_file_path(
    file_path: &str,
    canonical: Result<String, Error>,
    is_file: bool,
) -> (r: Result<String, Error>)
    ensures
        match canonical {
            Ok(p) => if is_file {
                r == Ok::<String, Error>(p)
            } else {
                r is Err && r->Err_0@ == ErrorView::message(
                    acquire_text("acquire_file_path(file_path: "@, file_path@)
                        + " -> is not a file"@,
                )
            },
            Err(e) => r is Err && r->Err_0@ == e@.with(
                KindView::Text(acquire_text("acquire_file_path(file_path: "@, file_path@)),
            ),
        },
{
    match canonical {
        Ok(p) => {
            if is_file {
                Ok(p)
            } else {
                let mut text: String = acquire_message("acquire_file_path(file_path: ", file_path);
                text.append(" -> is not a file");
                Err(Error::from_text(text))
            }
        },
        Err(e) => {
            let text: String = acquire_message("acquire_file_path(file_path: ", file_path);
            Err(e.add_err_no_location(ErrorKind::StringError(text)))
        },
    }
}

/// Checks the existence of a directory path, given what its canonicalization
/// returned and whether that is a directory. Adds on better information to
/// errors.
pub fn acquire_dir_path(
    dir_path: &str,
    canonical: Result<String, Error>,
    is_dir: bool,
) -> (r: Result<String, Error>)
    ensures
        match canonical {
            Ok(p) => if is_dir {
                r == Ok::<String, Error>(p)
            } else {
                r is Err && r->Err_0@ == ErrorView::message(
                    acquire_text("acquire_dir_path(dir_path: "@, dir_path@)
                        + " -> is not a directory"@,
                )
            },
            Err(e) => r is Err && r->Err_0@ == e@.with(
                KindView::Text(acquire_text("acquire_dir_path(dir_path: "@, dir_path@)),
            ),
        },
{
    match canonical {
        Ok(p) => {
            if is_dir {
                Ok(p)
            } else {
                let mut text: String = acquire_message("acquire_dir_path(dir_path: ", dir_path);
                text.append(" -> is not a directory");
                Err(Error::from_text(text))
            }
        },
        Err(e) => {
            let text: String = acquire_message("acquire_dir_path(dir_path: ", dir_path);
            Err(e.add_err_no_location(ErrorKind::StringError(text)))
        },
    }
}

/// A name pushed onto a directory is found again as the last component, and the
/// directory as what is left without it.
pub proof fn pushed_name_is_found(dir: Seq<char>, name: Seq<char>)
    requires
        name.len() > 0,
        forall|i: int| 0 <= i < name.len() ==> #[trigger] name[i] != '/',
        name != seq!['.'],
        name != seq!['.', '.'],
    ensures
        file_name(pushed(dir, name)) == Some(name),
        parent(pushed(dir, name)) == Some(trim_tail(dir)),
{
    let s = pushed(dir, name);
    let cut = s.len() - name.len();
    assert(s.skip(cut) =~= name);
    assert(s.last() == name.last());
    assert(s.last() != '/');
    if s.last() == '.' && s.len() >= 2 && s[s.len() - 2] == '/' {
        if name.len() >= 2 {
            assert(s[s.len() - 2] == name[name.len() - 2]);
        } else {
            assert(name =~= seq!['.']);
        }
    }
    assert(trim_tail(s) == s);
    lemma_name_start(s);
    if cut > 0 {
        assert(s[cut - 1] == '/');
    }
    if name_start(s) > cut {
        assert(s[name_start(s) - 1] == name[name_start(s) - 1 - cut]);
    }
    assert(name_start(s) == cut);
    assert(!is_bare(s));
    if dir.len() > 0 && dir.last() != '/' {
        assert(s.take(cut) =~= dir.push('/'));
        assert(dir.push('/').drop_last() =~= dir);
    } else {
        assert(s.take(cut) =~= dir);
    }
}

/// An absolute path takes the place of what it is pushed onto; any other is put behind it
/// with one separator between them.
pub proof fn pushing_parts_by_one_separator(path: Seq<char>, other: Seq<char>)
    ensures
        other.len() > 0 && other[0] == '/' ==> pushed(path, other) == other,
        !(other.len() > 0 && other[0] == '/') && path.len() > 0 && path.last() != '/' ==> pushed(
            path,
            other,
        ) == path.push('/') + other,
        !(other.len() > 0 && other[0] == '/') && !(path.len() > 0 && path.last() != '/') ==> pushed(
            path,
            other,
        ) == path + other,
{
    assert(path + seq!['/'] + other =~= path.push('/') + other);
}

/// Separators and `.` components at the end of a path change neither its last component
/// nor what is left without it.
pub proof fn tails_of_paths_do_not_count(s: Seq<char>)
    requires
        s.len() > 0,
    ensures
        file_name(s.push('/')) == file_name(s),
        parent(s.push('/')) == parent(s),
        file_name(s.push('/').push('.')) == file_name(s),
        parent(s.push('/').push('.')) == parent(s),
{
    assert(s.push('/').drop_last() =~= s);
    assert(s.push('/').push('.').drop_last() =~= s.push('/'));
    assert(trim_tail(s.push('/')) == trim_tail(s));
    assert(trim_tail(s.push('/').push('.')) == trim_tail(s.push('/')));
}

/// A path that ends in `..` has no name, and neither has the root, the empty path or `.`;
/// the last three have nothing that can be taken off but the `.`.
pub proof fn bare_paths_have_no_name(dir: Seq<char>)
    ensures
        file_name(pushed(dir, seq!['.', '.'])) is None,
        file_name(seq!['/']) is None && parent(seq!['/']) is None,
        file_name(Seq::empty()) is None && parent(Seq::empty()) is None,
        file_name(seq!['.']) is None && parent(seq!['.']) == Some(Seq::<char>::empty()),
{
    let dots = seq!['.', '.'];
    let s = pushed(dir, dots);
    let cut = s.len() - 2;
    assert(s[cut] == '.' && s[cut + 1] == '.');
    assert(trim_tail(s) == s);
    lemma_name_start(s);
    if cut > 0 {
        assert(s[cut - 1] == '/');
    }
    if name_start(s) > cut {
        assert(s[name_start(s) - 1] == '.');
    }
    assert(s.skip(cut) =~= dots);
    let dot = seq!['.'];
    reveal_with_fuel(name_start, 2);
    assert(dot.drop_last() =~= Seq::<char>::empty());
    assert(dot.skip(0) =~= dot);
    assert(dot.take(0) =~= Seq::<char>::empty());
    assert(dot != seq!['/']) by {
        assert(dot[0] != seq!['/'][0]);
    }
}

proof fn lemma_trim_tail_again(s: Seq<char>)
    ensures
        trim_tail(trim_tail(s)) == trim_tail(s),
    decreases s.len(),
{
    if s.len() >= 2 && (s.last() == '/' || (s.last() == '.' && s[s.len() - 2] == '/')) {
        lemma_trim_tail_again(s.drop_last());
    }
}

/// The directory that is left of a path without a name pushed onto it has the name and the
/// parent that the directory had before.
pub proof fn directory_is_left_as_it_was(dir: Seq<char>, name: Seq<char>)
    requires
        name.len() > 0,
        forall|i: int| 0 <= i < name.len() ==> #[trigger] name[i] != '/',
        name != seq!['.'],
        name != seq!['.', '.'],
    ensures
        parent(pushed(dir, name)) is Some,
        file_name(parent(pushed(dir, name))->0) == file_name(dir),
        parent(parent(pushed(dir, name))->0) == parent(dir),
{
    pushed_name_is_found(dir, name);
    lemma_trim_tail_again(dir);
}

/// The error of a check names the check and the path.
pub proof fn checks_are_told_with_their_path(what: Seq<char>, path: Seq<char>)
    ensures
        acquire_text(what, path) == what + os_quoted(path) + ")"@,
{
}

} // verus!
