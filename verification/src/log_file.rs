//! Log files of commands.

use vstd::prelude::*;

use crate::error::{Error, ErrorKind, KindView};
use crate::file_options::{bool_text, show_bool, OpenFlags};
use crate::paths::{push_path, pushed};
use crate::text::{debug_quote, debug_quoted};

verus! {

pub struct LogFileOptions {
    /// Directory where the log file will reside
    pub directory: String,
    /// File name
    pub file_name: String,
    /// Whether to create the file if needed or expect a preexisting one
    pub create: bool,
    /// Whether to overwrite the file contents. Has the effect of
    /// `OpenOptions::new().truncate(self.overwrite)`
    pub overwrite: bool,
}

impl LogFileOptions {
    /// What `Debug` shows of the options.
    pub open spec fn debug(self) -> Seq<char> {
        "LogFileOptions { directory: "@ + debug_quoted(self.directory@) + ", file_name: "@
            + debug_quoted(self.file_name@) + ", create: "@ + bool_text(self.create)
            + ", overwrite: "@ + bool_text(self.overwrite) + " }"@
    }

    pub fn new(directory: &str, file_name: &str, create: bool, overwrite: bool) -> (r: Self)
        ensures
            r.directory@ == directory@,
            r.file_name@ == file_name@,
            r.create == create,
            r.overwrite == overwrite,
    {
        LogFileOptions {
            directory: directory.to_owned(),
            file_name: file_name.to_owned(),
            create,
            overwrite,
        }
    }

    /// The path of the log file and the flags to open it with, given what
    /// acquiring the directory returned.
    pub fn acquire_file(&self, dir_path: Result<String, Error>) -> (r: Result<
        (String, OpenFlags),
        Error,
    >)
        ensures
            match dir_path {
                Err(e) => r is Err && r->Err_0@ == e@.with(
                    KindView::Text(self.debug() + ".acquire_file()"@),
                ),
                Ok(dir) => {
                    &&& r is Ok
                    &&& r->Ok_0.0@ == pushed(dir@, self.file_name@)
                    &&& r->Ok_0.1 == (OpenFlags {
                        read: false,
                        write: true,
                        create: self.create,
                        truncate: self.overwrite,
                        append: !self.overwrite,
                    })
                },
            },
    {
        match dir_path {
            Err(e) => Err(self.open_error(e)),
            Ok(dir) => Ok(
                (
                    push_path(dir.as_str(), self.file_name.as_str()),
                    OpenFlags {
                        read: false,
                        write: true,
                        create: self.create,
                        truncate: self.overwrite,
                        append: !self.overwrite,
                    },
                ),
            ),
        }
    }

    /// Adds what was being done to an error of opening the log file
    pub fn open_error(&self, e: Error) -> (r: Error)
        ensures
            r@ == e@.with(KindView::Text(self.debug() + ".acquire_file()"@)),
    {
        let mut text: String = "LogFileOptions { directory: ".to_owned();
        text.append(debug_quote(self.directory.as_str()).as_str());
        text.append(", file_name: ");
        text.append(debug_quote(self.file_name.as_str()).as_str());
        text.append(", create: ");
        text.append(show_bool(self.create));
        text.append(", overwrite: ");
        text.append(show_bool(self.overwrite));
        text.append(" }");
        text.append(".acquire_file()");
        e.add_err_no_location(ErrorKind::StringError(text))
    }
}

/// What is shown of the options of a log file has all of them.
pub proof fn log_file_options_are_shown(f: LogFileOptions)
    ensures
        f.debug() == "LogFileOptions { directory: "@ + debug_quoted(f.directory@)
            + ", file_name: "@ + debug_quoted(f.file_name@) + ", create: "@ + (if f.create {
            "true"@
        } else {
            "false"@
        }) + ", overwrite: "@ + (if f.overwrite {
            "true"@
        } else {
            "false"@
        }) + " }"@,
{
}

} // verus!
