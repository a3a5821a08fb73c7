//! Tarballs for placing files in a container at definition time.

use vstd::prelude::*;
use vstd::utf8::{decode_utf8, valid_utf8};

use crate::error::{Error, ErrorKind, ErrorView, KindView};
use crate::text::{join, joined, same, texts};

verus! {

/// The bytes that `tar` writes for a file with a path, a mode and contents, or the
/// text that shows why it does not accept the path.
pub uninterp spec fn tar_entry(path: Seq<char>, mode: u32, content: Seq<u8>) -> Result<
    Seq<u8>,
    Seq<char>,
>;

/// The paths of the entries that `tar` finds in an archive, up to the first entry
/// that it cannot read, for which there is the text that shows why.
pub uninterp spec fn tar_paths(archive: Seq<u8>) -> Seq<Result<Seq<u8>, Seq<char>>>;

/// Calls `tar::Builder::append_data` on a new archive, with a GNU header that has
/// the size of the content and the mode, and takes what was written. The contract
/// claims that whether the path is accepted, what is written, and what the `Debug`
/// of a refusal shows depend on the text of the path, the mode and the content
/// alone (where the parts of paths are parted by `/`), and that whole blocks of 512
/// bytes are written, at least one.
#[verifier::external_body]
fn write_entry(path: &str, mode: u32, content: &[u8]) -> (r: Result<Vec<u8>, String>)
    ensures
        match r {
            Ok(v) => {
                &&& tar_entry(path@, mode, content@) == Ok::<Seq<u8>, Seq<char>>(v@)
                &&& v@.len() >= 512
                &&& v@.len() % 512 == 0
            },
            Err(e) => tar_entry(path@, mode, content@) == Err::<Seq<u8>, Seq<char>>(e@),
        },
{
    let mut header = tar::Header::new_gnu();
    header.set_size(content.len() as u64);
    header.set_mode(mode);
    header.set_cksum();
    let mut tar = tar::Builder::new(Vec::new());
    match tar.append_data(&mut header, path, content) {
        Ok(()) => Ok(tar.get_ref().clone()),
        Err(e) => Err(format!("{:?}", e)),
    }
}

/// What a finished tarball holds: what was written, and two blocks of zeros.
pub open spec fn finished(written: Seq<u8>) -> Seq<u8> {
    written + Seq::new(1024, |i: int| 0u8)
}

/// Calls `tar::Builder::into_inner` on an archive that has the bytes written so
/// far. The contract claims that it adds two blocks of zeros, 1024 bytes, and
/// that it succeeds, because writing to a `Vec` does.
#[verifier::external_body]
fn finish_archive(written: Vec<u8>) -> (r: Result<Vec<u8>, String>)
    ensures
        r is Ok,
        r->Ok_0@ == finished(written@),
{
    tar::Builder::new(written).into_inner().map_err(|e| format!("{:?}", e))
}

/// The bytes of each path, or the text of each failure.
pub open spec fn path_views(v: Seq<Result<Vec<u8>, String>>) -> Seq<Result<Seq<u8>, Seq<char>>> {
    Seq::new(
        v.len(),
        |i: int|
            match v[i] {
                Ok(path) => Ok::<Seq<u8>, Seq<char>>(path@),
                Err(e) => Err::<Seq<u8>, Seq<char>>(e@),
            },
    )
}

/// The block at `k` has the form of the header of a sparse file (the type is `S`)
/// whose description goes on behind it.
pub open spec fn is_extended_sparse(b: Seq<u8>, k: int) -> bool {
    &&& 0 <= k
    &&& k % 512 == 0
    &&& k + 512 <= b.len()
    &&& b[k + 156] == 83
    &&& b[k + 482] == 1
}

/// The header at `k` declares a size of at least 2^63 as a binary number.
pub open spec fn declares_huge_size(b: Seq<u8>, k: int) -> bool {
    b[k + 124] >= 128 && b[k + 128] >= 128
}

/// The byte is a decimal digit or a plus sign.
pub open spec fn in_number(c: u8) -> bool {
    c == 43 || 48 <= c <= 57
}

/// At `i` stands a record `size=` with a number that is long enough to be at least
/// 2^63.
pub open spec fn is_long_size_record(b: Seq<u8>, i: int) -> bool {
    &&& 0 <= i
    &&& i + 24 <= b.len()
    &&& b[i] == 115
    &&& b[i + 1] == 105
    &&& b[i + 2] == 122
    &&& b[i + 3] == 101
    &&& b[i + 4] == 61
    &&& forall|j: int| i + 5 <= j < i + 24 ==> in_number(#[trigger] b[j])
}

/// Somewhere stands a record of a size that may be at least 2^63.
pub open spec fn has_long_size_record(b: Seq<u8>) -> bool {
    exists|i: int| #[trigger] is_long_size_record(b, i)
}

/// The archive may declare more bytes for an extended sparse file than positions
/// can be counted.
pub open spec fn declares_too_much(b: Seq<u8>) -> bool {
    exists|k: int| #[trigger]
        is_extended_sparse(b, k) && (declares_huge_size(b, k) || has_long_size_record(b))
}

/// Whether at `i` stands a record `size=` with a long number
fn long_size_record_at(b: &[u8], i: usize) -> (r: bool)
    requires
        i <= b@.len(),
    ensures
        r == is_long_size_record(b@, i as int),
{
    let n: usize = b.len();
    if n - i < 24 {
        return false;
    }
    if b[i] != 115 || b[i + 1] != 105 || b[i + 2] != 122 || b[i + 3] != 101 || b[i + 4] != 61 {
        return false;
    }
    let mut j: usize = 5;
    while j < 24
        invariant
            5 <= j <= 24,
            n == b@.len(),
            i + 24 <= n,
            forall|k: int| i + 5 <= k < i + j ==> in_number(#[trigger] b@[k]),
        decreases 24 - j,
    {
        let c: u8 = b[i + j];
        if c != 43 && !(48 <= c && c <= 57) {
            assert(!in_number(b@[i + j]));
            return false;
        }
        j = j + 1;
    }
    true
}

/// Whether somewhere stands a record of a size that may be at least 2^63
fn find_long_size_record(b: &[u8]) -> (r: bool)
    ensures
        r == has_long_size_record(b@),
{
    let mut i: usize = 0;
    while i < b.len()
        invariant
            i <= b@.len(),
            forall|k: int| 0 <= k < i ==> !(#[trigger] is_long_size_record(b@, k)),
        decreases b@.len() - i,
    {
        if long_size_record_at(b, i) {
            return true;
        }
        i = i + 1;
    }
    false
}

/// Whether the archive may declare more bytes for an extended sparse file than
/// positions can be counted
fn finds_too_much(b: &[u8]) -> (r: bool)
    ensures
        r == declares_too_much(b@),
{
    let long_record: bool = find_long_size_record(b);
    let mut k: usize = 0;
    while b.len() - k >= 512
        invariant
            k <= b@.len(),
            k % 512 == 0,
            long_record == has_long_size_record(b@),
            forall|i: int|
                i < k && #[trigger] is_extended_sparse(b@, i) ==> !(declares_huge_size(b@, i)
                    || has_long_size_record(b@)),
        decreases b@.len() - k,
    {
        if b[k + 156] == 83 && b[k + 482] == 1 {
            assert(is_extended_sparse(b@, k as int));
            if long_record || (b[k + 124] >= 128 && b[k + 128] >= 128) {
                return true;
            }
        }
        k = k + 512;
    }
    false
}

/// Walks the entries of a `tar::Archive` and takes the `path_bytes` of each. The
/// contract claims that the paths, which entry cannot be read, and what the `Debug`
/// of that failure shows depend on the bytes of the archive alone. Archives that
/// declare too much for an extended sparse file are left out: `tar` would add
/// beyond the range of its positions.
#[verifier::external_body]
fn read_paths(archive: &[u8]) -> (r: Vec<Result<Vec<u8>, String>>)
    requires
        !declares_too_much(archive@),
    ensures
        path_views(r@) == tar_paths(archive@),
{
    let mut tar = tar::Archive::new(archive);
    match tar.entries() {
        Ok(entries) => entries
            .map(|entry| match entry {
                Ok(x) => Ok(x.path_bytes().into_owned()),
                Err(e) => Err(format!("{:?}", e)),
            })
            .collect(),
        Err(e) => vec![Err(format!("{:?}", e))],
    }
}

/// A tarball for directly placing files in a container at definition time
pub struct Tarball {
    /// The bytes that were written so far
    pub written: Vec<u8>,
    /// The paths that are known, each once, in the order in which they came
    pub paths: Vec<String>,
}

/// A tarball that the images of containers are built from.
pub type SuperTarballWrapper = Tarball;

/// The paths, each once, in the order in which they come first.
pub open spec fn distinct(paths: Seq<Seq<char>>) -> Seq<Seq<char>>
    decreases paths.len(),
{
    if paths.len() == 0 {
        Seq::empty()
    } else {
        with_path(distinct(paths.drop_last()), paths.last())
    }
}

/// The paths with one more, unless it is among them.
pub open spec fn with_path(paths: Seq<Seq<char>>, path: Seq<char>) -> Seq<Seq<char>> {
    if paths.contains(path) {
        paths
    } else {
        paths.push(path)
    }
}

/// The texts of the paths of an archive.
pub open spec fn path_texts(paths: Seq<Result<Seq<u8>, Seq<char>>>) -> Seq<Seq<char>> {
    Seq::new(paths.len(), |i: int| decode_utf8(paths[i]->Ok_0))
}

/// The error of the first path of an archive that could not be read or is no text,
/// if there is one.
pub open spec fn path_fault(paths: Seq<Result<Seq<u8>, Seq<char>>>) -> Option<ErrorView>
    decreases paths.len(),
{
    if paths.len() == 0 {
        None
    } else {
        match paths[0] {
            Err(m) => Some(ErrorView::of(KindView::StdIo(m))),
            Ok(path) => if valid_utf8(path) {
                path_fault(paths.skip(1))
            } else {
                Some(ErrorView::of(KindView::Str("failed to convert os_str to str"@)))
            },
        }
    }
}

/// The error of reading the paths of a tarball, if there is one.
pub open spec fn tarball_fault(tarball: Seq<u8>) -> Option<ErrorView> {
    if declares_too_much(tarball) {
        Some(
            ErrorView::of(
                KindView::Str("the tarball declares too many bytes for a sparse file"@),
            ),
        )
    } else {
        path_fault(tar_paths(tarball))
    }
}

fn has_path(paths: &Vec<String>, path: &str) -> (r: bool)
    ensures
        r == texts(paths@).contains(path@),
{
    let ghost all = texts(paths@);
    let mut i: usize = 0;
    while i < paths.len()
        invariant
            i <= paths@.len(),
            all == texts(paths@),
            forall|k: int| 0 <= k < i ==> #[trigger] all[k] != path@,
        decreases paths@.len() - i,
    {
        assert(all[i as int] == paths@[i as int]@);
        if same(paths[i].as_str(), path) {
            return true;
        }
        i = i + 1;
    }
    false
}

fn add_path(paths: &mut Vec<String>, path: &str)
    ensures
        texts(final(paths)@) == with_path(texts(old(paths)@), path@),
{
    if !has_path(paths, path) {
        paths.push(path.to_owned());
        assert(texts(paths@) =~= texts(old(paths)@).push(path@));
    }
}

impl Default for Tarball {
    /// An empty tarball
    fn default() -> (r: Self)
        ensures
            r.written@.len() == 0,
            r.paths@.len() == 0,
    {
        Tarball { written: Vec::new(), paths: Vec::new() }
    }
}

/// The paths of an archive as texts, each once, `paths` being what reading each of
/// them gave
pub fn paths_as_texts(paths: Vec<Result<Vec<u8>, String>>) -> (r: Result<Vec<String>, Error>)
    ensures
        match path_fault(path_views(paths@)) {
            Some(e) => r is Err && r->Err_0@ == e,
            None => r is Ok && texts(r->Ok_0@) == distinct(path_texts(path_views(paths@))),
        },
{
    let mut rest: Vec<Result<Vec<u8>, String>> = paths;
    let ghost views = path_views(paths@);
    let ghost all = path_texts(views);
    let ghost mut i: int = 0;
    let mut r: Vec<String> = Vec::new();
    assert(texts(r@) =~= distinct(all.take(0)));
    assert(rest@ =~= paths@.skip(0));
    assert(views.skip(0) =~= views);
    while rest.len() > 0
        invariant
            0 <= i <= paths@.len(),
            views == path_views(paths@),
            all == path_texts(views),
            rest@ == paths@.skip(i),
            path_fault(views) == path_fault(views.skip(i)),
            texts(r@) == distinct(all.take(i)),
        decreases rest@.len(),
    {
        let next: Result<Vec<u8>, String> = rest.remove(0);
        proof {
            assert(next == paths@[i]);
            assert(rest@ =~= paths@.skip(i + 1));
            assert(views.skip(i)[0] == views[i]);
            assert(views.skip(i).skip(1) =~= views.skip(i + 1));
        }
        match next {
            Err(e) => {
                return Err(Error::from_kind_locationless(ErrorKind::StdIoError(e)));
            },
            Ok(path) => match std::str::from_utf8(path.as_slice()) {
                Ok(s) => {
                    add_path(&mut r, s);
                    proof {
                        assert(all.take(i + 1).drop_last() =~= all.take(i));
                        assert(all.take(i + 1).last() == s@);
                    }
                },
                Err(_) => {
                    return Err(
                        Error::from_kind_locationless(
                            ErrorKind::StrError("failed to convert os_str to str"),
                        ),
                    );
                },
            },
        }
        proof {
            i = i + 1;
        }
    }
    assert(all.take(i) =~= all);
    Ok(r)
}

impl Tarball {
    /// Uses the bytes of an existing tarball, also parsing and checking that the
    /// paths are valid UTF-8. A tarball that may declare too many bytes for a
    /// sparse file is refused.
    pub fn new(tarball: Vec<u8>) -> (r: Result<Self, Error>)
        ensures
            match tarball_fault(tarball@) {
                Some(e) => r is Err && r->Err_0@ == e,
                None => {
                    &&& r is Ok
                    &&& r->Ok_0.written == tarball
                    &&& texts(r->Ok_0.paths@) == distinct(path_texts(tar_paths(tarball@)))
                },
            },
    {
        if finds_too_much(tarball.as_slice()) {
            return Err(
                Error::from_kind_locationless(
                    ErrorKind::StrError("the tarball declares too many bytes for a sparse file"),
                ),
            );
        }
        match paths_as_texts(read_paths(tarball.as_slice())) {
            Err(e) => Err(e),
            Ok(paths) => Ok(Tarball { written: tarball, paths }),
        }
    }

    /// Append a file that will go to the given `path`, with `mode` and the bytes
    /// of the `content` of the file
    pub fn append_file_bytes(&mut self, path: &str, mode: u32, content: &[u8]) -> (r: Result<
        (),
        Error,
    >)
        ensures
            match tar_entry(path@, mode, content@) {
                Ok(entry) => {
                    &&& r is Ok
                    &&& *final(self) == (Tarball { written: final(self).written, ..*old(self) })
                    &&& final(self).written@ == old(self).written@ + entry
                    &&& entry.len() >= 512
                    &&& entry.len() % 512 == 0
                },
                Err(m) => {
                    &&& *final(self) == *old(self)
                    &&& r is Err
                    &&& r->Err_0@ == ErrorView::of(KindView::StdIo(m))
                },
            },
    {
        match write_entry(path, mode, content) {
            Ok(entry) => {
                let mut entry: Vec<u8> = entry;
                self.written.append(&mut entry);
                Ok(())
            },
            Err(e) => Err(Error::from_kind_locationless(ErrorKind::StdIoError(e))),
        }
    }

    /// Append a file that was read together with its metadata, `entry` being what
    /// writing it at the path gave
    pub fn append_file(&mut self, path: &str, entry: Result<Vec<u8>, Error>) -> (r: Result<(), Error>)
        ensures
            texts(final(self).paths@) == with_path(texts(old(self).paths@), path@),
            match entry {
                Ok(entry) => r is Ok && final(self).written@ == old(self).written@ + entry@,
                Err(e) => {
                    &&& final(self).written == old(self).written
                    &&& r is Err
                    &&& r->Err_0@ == e@.with(KindView::Str("Tarball::append_file"@))
                },
            },
    {
        add_path(&mut self.paths, path);
        match entry {
            Ok(entry) => {
                let mut entry: Vec<u8> = entry;
                self.written.append(&mut entry);
                Ok(())
            },
            Err(e) => Err(e.add_err_no_location(ErrorKind::StrError("Tarball::append_file"))),
        }
    }

    /// Get the bytes of a tarball
    pub fn into_tarball(self) -> (r: Result<Vec<u8>, Error>)
        ensures
            r is Ok,
            r->Ok_0@ == finished(self.written@),
    {
        match finish_archive(self.written) {
            Ok(v) => Ok(v),
            Err(e) => Err(Error::from_kind_locationless(ErrorKind::StdIoError(e))),
        }
    }

    /// What `Debug` shows of the tarball: the paths, not the bytes
    pub fn debug_text(&self) -> (r: String)
        ensures
            r@ == "Tarball { "@ + joined(texts(self.paths@), "\n"@) + " }"@,
    {
        let mut r: String = "Tarball { ".to_owned();
        r.append(join(&self.paths, "\n").as_str());
        r.append(" }");
        r
    }
}

/// What has been written to a tarball is never changed by what is appended, and
/// stands at its start when the tarball is finished.
pub proof fn written_bytes_are_kept(before: Seq<u8>, entry: Seq<u8>)
    ensures
        (before + entry).take(before.len() as int) == before,
        finished(before + entry).take(before.len() as int) == before,
        finished(before + entry).subrange(before.len() as int, (before + entry).len() as int)
            == entry,
{
    assert((before + entry).take(before.len() as int) =~= before);
    assert(finished(before + entry).take(before.len() as int) =~= before);
    assert(finished(before + entry).subrange(before.len() as int, (before + entry).len() as int)
        =~= entry);
}

/// A tarball that is made of whole blocks stays so, and is so when it is finished.
pub proof fn tarballs_are_made_of_blocks(before: Seq<u8>, entry: Seq<u8>)
    requires
        before.len() % 512 == 0,
        entry.len() % 512 == 0,
    ensures
        (before + entry).len() % 512 == 0,
        finished(before + entry).len() % 512 == 0,
{
}

/// No path is listed twice.
pub proof fn paths_are_distinct(paths: Seq<Seq<char>>, path: Seq<char>)
    ensures
        distinct(paths).no_duplicates(),
        distinct(paths).contains(path) <==> paths.contains(path),
    decreases paths.len(),
{
    if paths.len() > 0 {
        let before = distinct(paths.drop_last());
        paths_are_distinct(paths.drop_last(), path);
        paths_are_distinct(paths.drop_last(), paths.last());
        if paths.contains(path) {
            let i = paths.index_of(path);
            if i < paths.len() - 1 {
                assert(paths.drop_last()[i] == path);
                let k = before.index_of(path);
                assert(distinct(paths)[k] == path);
            } else if !before.contains(path) {
                assert(distinct(paths)[before.len() as int] == path);
            }
        }
        if distinct(paths).contains(path) {
            let k = distinct(paths).index_of(path);
            if k < before.len() {
                assert(before[k] == path);
                let i = paths.drop_last().index_of(path);
                assert(paths[i] == path);
            } else {
                assert(paths[paths.len() - 1] == path);
            }
        }
    }
}

/// The paths of an archive can be had exactly if each of them could be read and is text.
pub proof fn readable_paths_are_texts(paths: Seq<Result<Seq<u8>, Seq<char>>>)
    ensures
        path_fault(paths) is None <==> forall|i: int|
            0 <= i < paths.len() ==> (#[trigger] paths[i]) is Ok && valid_utf8(paths[i]->Ok_0),
    decreases paths.len(),
{
    if paths.len() > 0 {
        let rest = paths.skip(1);
        readable_paths_are_texts(rest);
        if path_fault(paths) is None {
            assert forall|i: int| 0 <= i < paths.len() implies (#[trigger] paths[i]) is Ok
                && valid_utf8(paths[i]->Ok_0) by {
                if i > 0 {
                    assert(rest[i - 1] == paths[i]);
                }
            }
        }
        if forall|i: int|
            0 <= i < paths.len() ==> (#[trigger] paths[i]) is Ok && valid_utf8(paths[i]->Ok_0) {
            assert(paths[0] is Ok && valid_utf8(paths[0]->Ok_0));
            assert forall|i: int| 0 <= i < rest.len() implies (#[trigger] rest[i]) is Ok
                && valid_utf8(rest[i]->Ok_0) by {
                assert(rest[i] == paths[i + 1]);
            }
        }
    }
}

/// A path comes behind those that are listed, unless it is among them.
pub proof fn new_paths_are_listed_last(paths: Seq<Seq<char>>, path: Seq<char>)
    ensures
        with_path(paths, path).contains(path),
        with_path(paths, path).take(paths.len() as int) == paths,
        with_path(paths, path).len() == if paths.contains(path) {
            paths.len()
        } else {
            paths.len() + 1
        },
{
    let now = with_path(paths, path);
    assert(now.take(paths.len() as int) =~= paths);
    if !paths.contains(path) {
        assert(now[paths.len() as int] == path);
    }
}

/// An archive is refused for a block that has the form of the header of an extended
/// sparse file and declares a size of at least 2^63, or stands beside a record of a long
/// size, and for nothing else.
pub proof fn huge_sparse_files_are_refused(b: Seq<u8>, k: int, i: int)
    ensures
        is_extended_sparse(b, k) <==> 0 <= k && k % 512 == 0 && k + 512 <= b.len() && b[k + 156]
            == 83 && b[k + 482] == 1,
        declares_huge_size(b, k) <==> b[k + 124] >= 128 && b[k + 128] >= 128,
        is_long_size_record(b, i) <==> {
            &&& 0 <= i && i + 24 <= b.len()
            &&& b.subrange(i, i + 5) == seq![115u8, 105u8, 122u8, 101u8, 61u8]
            &&& forall|j: int| i + 5 <= j < i + 24 ==> 48 <= #[trigger] b[j] <= 57 || b[j] == 43
        },
        is_extended_sparse(b, k) && (declares_huge_size(b, k) || is_long_size_record(b, i))
            ==> declares_too_much(b),
        declares_too_much(b) ==> exists|h: int| #[trigger]
            is_extended_sparse(b, h) && (declares_huge_size(b, h) || exists|j: int| #[trigger]
                is_long_size_record(b, j)),
{
    if 0 <= i && i + 24 <= b.len() {
        let t = b.subrange(i, i + 5);
        let name = seq![115u8, 105u8, 122u8, 101u8, 61u8];
        assert(t[0] == b[i] && t[1] == b[i + 1] && t[2] == b[i + 2] && t[3] == b[i + 3] && t[4]
            == b[i + 4]);
        if is_long_size_record(b, i) {
            assert(t =~= name);
            assert forall|j: int| i + 5 <= j < i + 24 implies 48 <= #[trigger] b[j] <= 57 || b[j]
                == 43 by {
                assert(in_number(b[j]));
            }
        } else if t == name && forall|j: int|
            i + 5 <= j < i + 24 ==> 48 <= #[trigger] b[j] <= 57 || b[j] == 43 {
            assert(b[i] == name[0] && b[i + 1] == name[1] && b[i + 2] == name[2] && b[i + 3]
                == name[3] && b[i + 4] == name[4]);
            assert(is_long_size_record(b, i));
        }
    }
}

} // verus!
