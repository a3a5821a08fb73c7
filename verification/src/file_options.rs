//! How files are opened, with a lot of opinionated defaults.

use vstd::prelude::*;

use crate::error::{Error, ErrorKind, ErrorView, KindView};
use crate::paths::{file_name, last_name, parent, parent_path, push_path, pushed};
use crate::text::{os_quote, os_quoted};

verus! {

#[derive(Clone, Copy, PartialEq, Eq, Structural, Debug)]
pub struct WriteOptions {
    // creates file if nonexistent
    pub create: bool,
    // truncation by default, append otherwise
    pub append: bool,
}

#[derive(Clone, Copy, PartialEq, Eq, Structural, Debug)]
pub enum ReadOrWrite {
    Read,
    Write(WriteOptions),
}

impl ReadOrWrite {
    /// Options for writing
    pub fn write(create: bool, append: bool) -> (r: Self)
        ensures
            r == ReadOrWrite::Write((WriteOptions { create, append })),
    {
        ReadOrWrite::Write(WriteOptions { create, append })
    }
}

/// A file path with what is to be done to the file.
pub struct FileOptions {
    pub path: String,
    pub options: ReadOrWrite,
}

/// The flags with which a file is opened.
#[derive(Clone, Copy, PartialEq, Eq, Structural, Debug)]
pub struct OpenFlags {
    pub read: bool,
    pub write: bool,
    pub create: bool,
    pub truncate: bool,
    pub append: bool,
}

/// The functions that acquire a file and read or write the whole of it.
#[derive(Clone, Copy, PartialEq, Eq, Structural, Debug)]
pub enum Shorthand {
    ReadToString,
    Read2ToString,
    WriteStr,
    Write2Str,
}

/// What is left to do to acquire a path.
pub enum Preacquired {
    /// The path, no file needs to exist
    Done(String),
    /// The path, the file needs to exist
    CheckFile(String),
}

/// The text that `{:?}` gives for a `bool`.
pub open spec fn bool_text(b: bool) -> Seq<char> {
    if b {
        "true"@
    } else {
        "false"@
    }
}

/// The text that `{:?}` gives for a `bool`.
pub fn show_bool(b: bool) -> (r: &'static str)
    ensures
        r@ == bool_text(b),
{
    if b {
        "true"
    } else {
        "false"
    }
}

/// What `Debug` shows of file options.
pub open spec fn options_debug(path: Seq<char>, options: ReadOrWrite) -> Seq<char> {
    "FileOptions { path: "@ + os_quoted(path) + ", options: "@ + (match options {
        ReadOrWrite::Read => "Read"@,
        ReadOrWrite::Write(w) => "Write(WriteOptions { create: "@ + bool_text(w.create)
            + ", append: "@ + bool_text(w.append) + " })"@,
    }) + " }"@
}

impl Clone for FileOptions {
    fn clone(&self) -> (r: Self)
        ensures
            r == *self,
    {
        FileOptions { path: self.path.clone(), options: self.options }
    }
}

impl FileOptions {
    /// The file is created if it does not exist.
    pub open spec fn creates(self) -> bool {
        self.options matches ReadOrWrite::Write(w) && w.create
    }

    /// The file is created if it does not exist, and written anew.
    pub open spec fn overwrites(self) -> bool {
        self.options == ReadOrWrite::Write((WriteOptions { create: true, append: false }))
    }

    pub fn new(file_path: &str, options: ReadOrWrite) -> (r: Self)
        ensures
            r.path@ == file_path@,
            r.options == options,
    {
        FileOptions { path: file_path.to_owned(), options }
    }

    pub fn read(file_path: &str) -> (r: Self)
        ensures
            r.path@ == file_path@,
            r.options == ReadOrWrite::Read,
    {
        FileOptions { path: file_path.to_owned(), options: ReadOrWrite::Read }
    }

    pub fn read2(directory: &str, file_name: &str) -> (r: Self)
        ensures
            r.path@ == pushed(directory@, file_name@),
            r.options == ReadOrWrite::Read,
    {
        FileOptions { path: push_path(directory, file_name), options: ReadOrWrite::Read }
    }

    /// Sets `create` to true and `append` to false by default
    pub fn write(file_path: &str) -> (r: Self)
        ensures
            r.path@ == file_path@,
            r.overwrites(),
            r.options == ReadOrWrite::Write((WriteOptions { create: true, append: false })),
    {
        FileOptions {
            path: file_path.to_owned(),
            options: ReadOrWrite::Write(WriteOptions { create: true, append: false }),
        }
    }

    /// Sets `create` to true and `append` to false by default
    pub fn write2(directory: &str, file_name: &str) -> (r: Self)
        ensures
            r.path@ == pushed(directory@, file_name@),
            r.overwrites(),
            r.options == ReadOrWrite::Write((WriteOptions { create: true, append: false })),
    {
        FileOptions {
            path: push_path(directory, file_name),
            options: ReadOrWrite::Write(WriteOptions { create: true, append: false }),
        }
    }

    /// What `Debug` shows of the options.
    pub fn debug_text(&self) -> (r: String)
        ensures
            r@ == options_debug(self.path@, self.options),
    {
        let mut r: String = "FileOptions { path: ".to_owned();
        r.append(os_quote(self.path.as_str()).as_str());
        r.append(", options: ");
        let mut o: String = String::new();
        match self.options {
            ReadOrWrite::Read => {
                o.append("Read");
                assert(o@ =~= "Read"@);
            },
            ReadOrWrite::Write(w) => {
                o.append("Write(WriteOptions { create: ");
                o.append(show_bool(w.create));
                o.append(", append: ");
                o.append(show_bool(w.append));
                o.append(" })");
                assert(o@ =~= "Write(WriteOptions { create: "@ + bool_text(w.create)
                    + ", append: "@ + bool_text(w.append) + " })"@);
            },
        }
        r.append(o.as_str());
        r.append(" }");
        r
    }

    /// Sets whether the file is created, an error if the options are readonly
    pub fn create(self, create: bool) -> (r: Result<Self, Error>)
        ensures
            match self.options {
                ReadOrWrite::Write(w) => r == Ok::<FileOptions, Error>(
                    (FileOptions {
                        path: self.path,
                        options: ReadOrWrite::Write((WriteOptions { create, append: w.append })),
                    }),
                ),
                ReadOrWrite::Read => r is Err && r->Err_0@ == ErrorView::message(
                    options_debug(self.path@, self.options)
                        + ".create() -> options are readonly"@,
                ),
            },
    {
        match self.options {
            ReadOrWrite::Write(w) => Ok(
                FileOptions {
                    path: self.path,
                    options: ReadOrWrite::Write(WriteOptions { create, append: w.append }),
                },
            ),
            ReadOrWrite::Read => {
                let mut text: String = self.debug_text();
                text.append(".create() -> options are readonly");
                Err(Error::from_text(text))
            },
        }
    }

    /// Sets whether the file is appended to, an error if the options are
    /// readonly
    pub fn append(self, append: bool) -> (r: Result<Self, Error>)
        ensures
            match self.options {
                ReadOrWrite::Write(w) => r == Ok::<FileOptions, Error>(
                    (FileOptions {
                        path: self.path,
                        options: ReadOrWrite::Write((WriteOptions { create: w.create, append })),
                    }),
                ),
                ReadOrWrite::Read => r is Err && r->Err_0@ == ErrorView::message(
                    options_debug(self.path@, self.options)
                        + ".append() -> options are readonly"@,
                ),
            },
    {
        match self.options {
            ReadOrWrite::Write(w) => Ok(
                FileOptions {
                    path: self.path,
                    options: ReadOrWrite::Write(WriteOptions { create: w.create, append }),
                },
            ),
            ReadOrWrite::Read => {
                let mut text: String = self.debug_text();
                text.append(".append() -> options are readonly");
                Err(Error::from_text(text))
            },
        }
    }

    /// The directory whose existence is to be checked before the file is
    /// acquired
    pub fn preacquire_dir(&self) -> (r: Result<String, Error>)
        ensures
            match parent(self.path@) {
                Some(dir) => r is Ok && r->Ok_0@ == dir,
                None => r is Err && r->Err_0@ == ErrorView::message(
                    "FileOptions::preacquire() -> empty path"@,
                ),
            },
    {
        match parent_path(self.path.as_str()) {
            Some(dir) => Ok(dir),
            None => Err(
                Error::from_text("FileOptions::preacquire() -> empty path".to_owned()),
            ),
        }
    }

    /// The error of the options for which no combined path can be had, given what
    /// acquiring the directory returned.
    pub open spec fn combining_fault(self, dir: Result<String, Error>) -> Option<ErrorView> {
        match dir {
            Err(e) => Some(
                e@.with(
                    KindView::Text(
                        options_debug(self.path@, self.options)
                            + ".preacquire() could not acquire directory"@,
                    ),
                ),
            ),
            Ok(_) => if file_name(self.path@) is None {
                Some(
                    ErrorView::message(
                        options_debug(self.path@, self.options)
                            + ".precheck() could not acquire file name, was only a directory input?"@,
                    ),
                )
            } else {
                None
            },
        }
    }

    /// The combined path of the acquired directory and the file name, which is
    /// opened. The file needs to exist unless it is to be created.
    pub fn combined_path(&self, dir: Result<String, Error>) -> (r: Result<Preacquired, Error>)
        ensures
            match self.combining_fault(dir) {
                Some(e) => r is Err && r->Err_0@ == e,
                None => {
                    let path = pushed(dir->Ok_0@, file_name(self.path@)->0);
                    if self.creates() {
                        r matches Ok(Preacquired::Done(p)) && p@ == path
                    } else {
                        r matches Ok(Preacquired::CheckFile(p)) && p@ == path
                    }
                },
            },
    {
        match dir {
            Err(e) => {
                let mut text: String = self.debug_text();
                text.append(".preacquire() could not acquire directory");
                Err(e.add_err_no_location(ErrorKind::StringError(text)))
            },
            Ok(dir) => {
                // we do this always for normalization purposes
                match last_name(self.path.as_str()) {
                    None => {
                        let mut text: String = self.debug_text();
                        text.append(
                            ".precheck() could not acquire file name, was only a directory input?",
                        );
                        Err(Error::from_text(text))
                    },
                    Some(name) => {
                        let path: String = push_path(dir.as_str(), name.as_str());
                        if let ReadOrWrite::Write(w) = self.options {
                            if w.create {
                                return Ok(Preacquired::Done(path));
                            }
                        }
                        Ok(Preacquired::CheckFile(path))
                    },
                }
            },
        }
    }

    /// Checks only for existence of the directory and of the file, given what
    /// acquiring the directory returned. A file that is to be created need not
    /// exist, and the directory is returned then. Otherwise the combined path is,
    /// after [FileOptions::preacquire_file].
    pub fn preacquire(&self, dir: Result<String, Error>) -> (r: Result<Preacquired, Error>)
        ensures
            match self.combining_fault(dir) {
                Some(e) => r is Err && r->Err_0@ == e,
                None => if self.creates() {
                    r matches Ok(Preacquired::Done(p)) && p@ == dir->Ok_0@
                } else {
                    r matches Ok(Preacquired::CheckFile(p)) && p@ == pushed(
                        dir->Ok_0@,
                        file_name(self.path@)->0,
                    )
                },
            },
    {
        match dir {
            Err(e) => self.combined_path(Err(e)),
            Ok(dir) => match self.combined_path(Ok(dir.clone())) {
                Ok(Preacquired::Done(_)) => Ok(Preacquired::Done(dir)),
                other => other,
            },
        }
    }

    /// The path of the existing file, given what acquiring it returned
    pub fn preacquire_file(&self, file: Result<String, Error>) -> (r: Result<String, Error>)
        ensures
            match file {
                Ok(p) => r == Ok::<String, Error>(p),
                Err(e) => r is Err && r->Err_0@ == e@.with(
                    KindView::Text(
                        options_debug(self.path@, self.options)
                            + ".precheck() could not acquire path to combined directory and file name"@,
                    ),
                ),
            },
    {
        match file {
            Ok(p) => Ok(p),
            Err(e) => {
                let mut text: String = self.debug_text();
                text.append(
                    ".precheck() could not acquire path to combined directory and file name",
                );
                Err(e.add_err_no_location(ErrorKind::StringError(text)))
            },
        }
    }

    /// The flags with which the acquired path is opened
    pub fn open_flags(&self) -> (r: OpenFlags)
        ensures
            r == match self.options {
                ReadOrWrite::Read => (OpenFlags {
                    read: true,
                    write: false,
                    create: false,
                    truncate: false,
                    append: false,
                }),
                ReadOrWrite::Write(w) => (OpenFlags {
                    read: false,
                    write: true,
                    create: w.create,
                    truncate: !w.append,
                    append: w.append,
                }),
            },
    {
        match self.options {
            ReadOrWrite::Read => OpenFlags {
                read: true,
                write: false,
                create: false,
                truncate: false,
                append: false,
            },
            ReadOrWrite::Write(w) => OpenFlags {
                read: false,
                write: true,
                create: w.create,
                truncate: !w.append,
                append: w.append,
            },
        }
    }

    /// Adds what was being done to an error of acquiring the path
    pub fn acquire_error(e: Error) -> (r: Error)
        ensures
            r@ == e@.with(KindView::Str("FileOptions::acquire_file()"@)),
    {
        e.add_err_no_location(ErrorKind::StrError("FileOptions::acquire_file()"))
    }

    /// Adds what was being done to an error of acquiring the file for a
    /// shorthand function
    pub fn shorthand_error(shorthand: Shorthand, e: Error) -> (r: Error)
        ensures
            r@ == e@.with(
                KindView::Str(
                    match shorthand {
                        Shorthand::ReadToString => "FileOptions::read_to_string"@,
                        Shorthand::Read2ToString => "read2_to_string"@,
                        Shorthand::WriteStr => "FileOptions::write_str"@,
                        Shorthand::Write2Str => "write_str"@,
                    },
                ),
            ),
    {
        e.add_err_no_location(
            ErrorKind::StrError(
                match shorthand {
                    Shorthand::ReadToString => "FileOptions::read_to_string",
                    Shorthand::Read2ToString => "read2_to_string",
                    Shorthand::WriteStr => "FileOptions::write_str",
                    Shorthand::Write2Str => "write_str",
                },
            ),
        )
    }

    /// Adds what was being done to an error of opening the acquired path
    pub fn open_error(&self, e: Error) -> (r: Error)
        ensures
            r@ == e@.with(
                KindView::Text(
                    options_debug(self.path@, self.options) + ".acquire_file()"@,
                ),
            ),
    {
        let mut text: String = self.debug_text();
        text.append(".acquire_file()");
        e.add_err_no_location(ErrorKind::StringError(text))
    }

    /// Adds what was being done to an error of [FileOptions::copy]
    fn copy_error(src: &str, dst: &str, when: &str, e: Error) -> (r: Error)
        ensures
            r@ == e@.with(KindView::Text(copy_text(src@, dst@, when@))),
    {
        let mut text: String = "copy(src_file_path: ".to_owned();
        text.append(os_quote(src).as_str());
        text.append(", dst_file_path: ");
        text.append(os_quote(dst).as_str());
        text.append(") when ");
        text.append(when);
        e.add_err_no_location(ErrorKind::StringError(text))
    }

    /// Copies bytes from the source to destination, given what opening the
    /// source, opening the destination and copying returned. The source is
    /// opened for reading and the destination for writing, created if needed.
    pub fn copy(
        src_file_path: &str,
        dst_file_path: &str,
        source: Result<(), Error>,
        destination: Result<(), Error>,
        copied: Result<(), Error>,
    ) -> (r: Result<(), Error>)
        ensures
            match (source, destination, copied) {
                (Err(e), _, _) => r is Err && r->Err_0@ == e@.with(
                    KindView::Text(
                        copy_text(src_file_path@, dst_file_path@, "opening source"@),
                    ),
                ),
                (Ok(_), Err(e), _) => r is Err && r->Err_0@ == e@.with(
                    KindView::Text(
                        copy_text(src_file_path@, dst_file_path@, "opening destination"@),
                    ),
                ),
                (Ok(_), Ok(_), Err(e)) => r is Err && r->Err_0@ == e@.with(
                    KindView::Text(copy_text(src_file_path@, dst_file_path@, "copying"@)),
                ),
                (Ok(_), Ok(_), Ok(_)) => r is Ok,
            },
    {
        match source {
            Err(e) => Err(
                FileOptions::copy_error(src_file_path, dst_file_path, "opening source", e),
            ),
            Ok(_) => match destination {
                Err(e) => Err(
                    FileOptions::copy_error(
                        src_file_path,
                        dst_file_path,
                        "opening destination",
                        e,
                    ),
                ),
                Ok(_) => match copied {
                    Err(e) => Err(
                        FileOptions::copy_error(src_file_path, dst_file_path, "copying", e),
                    ),
                    Ok(_) => Ok(()),
                },
            },
        }
    }
}

/// The text that names a step of copying a file.
pub open spec fn copy_text(src: Seq<char>, dst: Seq<char>, when: Seq<char>) -> Seq<char> {
    "copy(src_file_path: "@ + os_quoted(src) + ", dst_file_path: "@ + os_quoted(dst)
        + ") when "@ + when
}

/// A file that is written anew is created if needed and not appended to; the combined path
/// can be had exactly if the directory could be acquired and the path has a file name.
pub proof fn file_options_mean_this(f: FileOptions, dir: Result<String, Error>)
    ensures
        f.overwrites() <==> {
            &&& f.options matches ReadOrWrite::Write(w)
            &&& w.create
            &&& !w.append
        },
        f.creates() <==> (f.options matches ReadOrWrite::Write(w) && w.create),
        f.combining_fault(dir) is None <==> dir is Ok && file_name(f.path@) is Some,
        bool_text(true) == "true"@ && bool_text(false) == "false"@,
{
}

/// What is shown of file options has the path and how the file is opened.
pub proof fn options_are_shown_with_their_path(
    path: Seq<char>,
    w: WriteOptions,
    src: Seq<char>,
    dst: Seq<char>,
    when: Seq<char>,
)
    ensures
        options_debug(path, ReadOrWrite::Read) == "FileOptions { path: "@ + os_quoted(path)
            + ", options: "@ + "Read"@ + " }"@,
        options_debug(path, ReadOrWrite::Write(w)) == "FileOptions { path: "@ + os_quoted(path)
            + ", options: "@ + ("Write(WriteOptions { create: "@ + (if w.create {
            "true"@
        } else {
            "false"@
        }) + ", append: "@ + (if w.append {
            "true"@
        } else {
            "false"@
        }) + " })"@) + " }"@,
        copy_text(src, dst, when) == "copy(src_file_path: "@ + os_quoted(src)
            + ", dst_file_path: "@ + os_quoted(dst) + ") when "@ + when,
{
}

/// The error of a path that cannot be combined has the options, and says whether the
/// directory or the file name is at fault.
pub proof fn combining_faults_are_told(f: FileOptions, dir: Result<String, Error>)
    ensures
        dir matches Err(e) ==> (f.combining_fault(dir) matches Some(fault) && fault.kinds
            == e@.kinds.push(
            KindView::Text(
                options_debug(f.path@, f.options) + ".preacquire() could not acquire directory"@,
            ),
        )),
        dir is Ok && file_name(f.path@) is None ==> (f.combining_fault(dir) matches Some(fault)
            && fault.kinds == seq![
            KindView::Text(
                options_debug(f.path@, f.options)
                    + ".precheck() could not acquire file name, was only a directory input?"@,
            ),
        ]),
{
}

} // verus!
