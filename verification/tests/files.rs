use std::path::Path;

use super_orchestrator::error::{Error, ErrorKind};
use super_orchestrator::file_options::{
    FileOptions, OpenFlags, Preacquired, ReadOrWrite, Shorthand, WriteOptions,
};
use super_orchestrator::log_file::LogFileOptions;
use super_orchestrator::misc::{remove_files_in_dir, removal_dir_error};
use super_orchestrator::paths::{
    acquire_dir_path, acquire_file_path, acquire_path, last_name, parent_path, push_path,
};

fn texts(e: &Error) -> Vec<String> {
    e.error_stack
        .iter()
        .map(|kind| match kind {
            ErrorKind::StrError(s) => s.to_string(),
            ErrorKind::StringError(s) => s.clone(),
            ErrorKind::BoxedError(s) => format!("BoxedError({s})"),
            _ => panic!("another kind"),
        })
        .collect()
}

fn not_found() -> Error {
    Error::from_kind_locationless(ErrorKind::BoxedError("Os { code: 2 }".to_owned()))
}

#[test]
fn paths_are_parted_like_std_does() {
    let paths = [
        "", "/", ".", "..", "a", "a/", "a/.", "a/..", "./a", "/a", "/a/", "/a/b", "a/b.c", "a//b",
        "//", "//a", "a/./b", "a/b/.", "./", "/.", "/..", "../a", "a/b//", "a b/c d",
    ];
    for path in paths {
        let p = Path::new(path);
        let parent = parent_path(path);
        assert_eq!(parent.as_deref().map(Path::new), p.parent(), "parent of {path:?}");
        let name = p.file_name().map(|s| s.to_str().unwrap().to_owned());
        assert_eq!(last_name(path), name, "name of {path:?}");
        for other in ["x", "/x", "", "x/y", "./x"] {
            let mut expected = p.to_owned();
            expected.push(other);
            assert_eq!(push_path(path, other), expected.to_str().unwrap());
        }
    }
}

#[test]
fn a_pushed_name_is_found_again() {
    assert_eq!(last_name(&push_path("/var/log", "a.log")), Some("a.log".to_owned()));
    assert_eq!(parent_path(&push_path("/var/log", "a.log")), Some("/var/log".to_owned()));
}

#[test]
fn acquired_paths_are_canonical() {
    let canonical = "/home/x/super_orchestrator/examples/paths.rs".to_owned();
    assert_eq!(
        acquire_path("./examples/../examples/paths.rs", Ok(canonical.clone())).ok(),
        Some(canonical.clone())
    );
    assert_eq!(
        acquire_file_path("./examples/paths.rs", Ok(canonical.clone()), true).ok(),
        Some(canonical.clone())
    );
    assert_eq!(
        acquire_dir_path("./examples", Ok("/home/x/examples".to_owned()), true).ok(),
        Some("/home/x/examples".to_owned())
    );
}

#[test]
fn paths_that_are_not_there_are_errors() {
    let e = acquire_path("./examples/nonexistent.rs", Err(not_found())).err().unwrap();
    assert_eq!(
        texts(&e),
        vec!["BoxedError(Os { code: 2 })", "acquire_path(path: \"./examples/nonexistent.rs\")"]
    );
    let e = acquire_dir_path("./nonexistent", Err(not_found()), false).err().unwrap();
    assert_eq!(
        texts(&e),
        vec!["BoxedError(Os { code: 2 })", "acquire_dir_path(dir_path: \"./nonexistent\")"]
    );
    let e = acquire_file_path("./nonexistent", Err(not_found()), false).err().unwrap();
    assert_eq!(
        texts(&e),
        vec!["BoxedError(Os { code: 2 })", "acquire_file_path(file_path: \"./nonexistent\")"]
    );
}

#[test]
fn files_and_directories_are_told_apart() {
    let e = acquire_dir_path("./examples/paths.rs", Ok("/x".to_owned()), false).err().unwrap();
    assert_eq!(
        texts(&e),
        vec!["acquire_dir_path(dir_path: \"./examples/paths.rs\") -> is not a directory"]
    );
    let e = acquire_file_path("./examples", Ok("/x".to_owned()), false).err().unwrap();
    assert_eq!(
        texts(&e),
        vec!["acquire_file_path(file_path: \"./examples\") -> is not a file"]
    );
}

#[test]
fn writing_to_a_missing_directory_is_a_structured_error() {
    let options = FileOptions::write("./nonexistent/example.log");
    let dir = options.preacquire_dir().ok().unwrap();
    assert_eq!(dir, "./nonexistent");
    let dir = acquire_dir_path(&dir, Err(not_found()), false);
    let e = options.preacquire(dir).err().unwrap();
    let e = FileOptions::shorthand_error(Shorthand::WriteStr, FileOptions::acquire_error(e));
    let mut shown = texts(&e);
    shown.reverse();
    assert_eq!(
        shown,
        vec![
            "FileOptions::write_str",
            "FileOptions::acquire_file()",
            "FileOptions { path: \"./nonexistent/example.log\", options: Write(WriteOptions { \
             create: true, append: false }) }.preacquire() could not acquire directory",
            "acquire_dir_path(dir_path: \"./nonexistent\")",
            "BoxedError(Os { code: 2 })",
        ]
    );
}

#[test]
fn reading_a_missing_file_is_a_structured_error() {
    let options = FileOptions::read("./logs/nonexistent.log");
    let path = match options.preacquire(Ok("/home/x/logs".to_owned())).ok().unwrap() {
        Preacquired::CheckFile(path) => path,
        Preacquired::Done(_) => unreachable!(),
    };
    assert_eq!(path, "/home/x/logs/nonexistent.log");
    let file = acquire_file_path(&path, Err(not_found()), false);
    let e = options.preacquire_file(file).err().unwrap();
    let e = FileOptions::shorthand_error(Shorthand::ReadToString, FileOptions::acquire_error(e));
    let mut shown = texts(&e);
    shown.reverse();
    assert_eq!(
        shown[..3],
        [
            "FileOptions::read_to_string",
            "FileOptions::acquire_file()",
            "FileOptions { path: \"./logs/nonexistent.log\", options: Read }.precheck() could not \
             acquire path to combined directory and file name",
        ]
    );
    assert!(shown[3].starts_with("acquire_file_path(file_path:"));
}

#[test]
fn a_file_that_is_created_need_not_exist() {
    let options = FileOptions::write2("logs", "a.log");
    assert_eq!(options.path, "logs/a.log");
    match options.preacquire(Ok("/x/logs".to_owned())).ok().unwrap() {
        Preacquired::Done(path) => assert_eq!(path, "/x/logs"),
        Preacquired::CheckFile(_) => unreachable!(),
    }
    match options.combined_path(Ok("/x/logs".to_owned())).ok().unwrap() {
        Preacquired::Done(path) => assert_eq!(path, "/x/logs/a.log"),
        Preacquired::CheckFile(_) => unreachable!(),
    }
    let options = options.create(false).ok().unwrap();
    assert!(matches!(
        options.preacquire(Ok("/x/logs".to_owned())),
        Ok(Preacquired::CheckFile(_))
    ));
}

#[test]
fn paths_without_a_file_are_refused() {
    let e = FileOptions::read("").preacquire_dir().err().unwrap();
    assert_eq!(texts(&e), vec!["FileOptions::preacquire() -> empty path"]);
    let options = FileOptions::read("logs/..");
    assert_eq!(options.preacquire_dir().ok(), Some("logs".to_owned()));
    let e = options.preacquire(Ok("/x/logs".to_owned())).err().unwrap();
    assert_eq!(
        texts(&e),
        vec![
            "FileOptions { path: \"logs/..\", options: Read }.precheck() could not acquire file \
             name, was only a directory input?"
        ]
    );
}

#[test]
fn flags_follow_the_options() {
    let write = WriteOptions { create: true, append: false };
    assert_eq!(FileOptions::write("a").options, ReadOrWrite::Write(write));
    assert_eq!(FileOptions::read2("a", "b").options, ReadOrWrite::Read);
    let flags = |read, write, create, truncate, append| OpenFlags {
        read,
        write,
        create,
        truncate,
        append,
    };
    assert_eq!(FileOptions::read("a").open_flags(), flags(true, false, false, false, false));
    assert_eq!(FileOptions::write("a").open_flags(), flags(false, true, true, true, false));
    let options = FileOptions::new("./logs/example.log", ReadOrWrite::write(false, true));
    assert_eq!(options.open_flags(), flags(false, true, false, false, true));
    let options = FileOptions::write("a").append(true).ok().unwrap();
    assert_eq!(options.open_flags(), flags(false, true, true, false, true));
}

#[test]
fn readonly_options_cannot_be_set() {
    let e = FileOptions::read("a").create(true).err().unwrap();
    assert_eq!(
        texts(&e),
        vec!["FileOptions { path: \"a\", options: Read }.create() -> options are readonly"]
    );
    let e = FileOptions::read("a").append(true).err().unwrap();
    assert_eq!(
        texts(&e),
        vec!["FileOptions { path: \"a\", options: Read }.append() -> options are readonly"]
    );
    let e = FileOptions::read("a").open_error(not_found());
    assert_eq!(texts(&e)[1], "FileOptions { path: \"a\", options: Read }.acquire_file()");
}

#[test]
fn copying_names_the_step_that_failed() {
    let head = "copy(src_file_path: \"a\", dst_file_path: \"b\") when ";
    let e = FileOptions::copy("a", "b", Err(not_found()), Ok(()), Ok(())).err().unwrap();
    assert_eq!(texts(&e)[1], format!("{head}opening source"));
    let e = FileOptions::copy("a", "b", Ok(()), Err(not_found()), Ok(())).err().unwrap();
    assert_eq!(texts(&e)[1], format!("{head}opening destination"));
    let e = FileOptions::copy("a", "b", Ok(()), Ok(()), Err(not_found())).err().unwrap();
    assert_eq!(texts(&e)[1], format!("{head}copying"));
    assert!(FileOptions::copy("a", "b", Ok(()), Ok(()), Ok(())).is_ok());
}

#[test]
fn log_files_are_opened_for_writing() {
    let log = LogFileOptions::new("./logs", "a.log", true, false);
    let (path, flags) = log.acquire_file(Ok("/x/logs".to_owned())).ok().unwrap();
    assert_eq!(path, "/x/logs/a.log");
    assert!(flags.write && flags.create && flags.append && !flags.truncate && !flags.read);
    let e = log.acquire_file(Err(not_found())).err().unwrap();
    assert_eq!(
        texts(&e)[1],
        "LogFileOptions { directory: \"./logs\", file_name: \"a.log\", create: true, overwrite: \
         false }.acquire_file()"
    );
}

fn endings(v: &[&str]) -> Vec<String> {
    v.iter().map(|s| s.to_string()).collect()
}

#[test]
fn only_whole_endings_are_removed() {
    let removal = remove_files_in_dir("./logs", &endings(&["binary", ".log"])).ok().unwrap();
    for name in ["binary", "ex.log", "ex.tar.log"] {
        assert!(removal.matches(name), "{name}");
    }
    for name in ["a_binary", "binary.txt", "exlog", "ex.log.bak", ".logs", "log", ".log"] {
        assert!(!removal.matches(name), "{name}");
    }
    let removal = remove_files_in_dir("./logs", &endings(&["x.log", ".tar.gz"])).ok().unwrap();
    assert!(removal.matches("x.log") && !removal.matches("y.log"));
    assert!(!removal.matches("a.gz"));
}

#[test]
fn unguarded_endings_are_refused() {
    for bad in ["a/b", "a\\b", "./log", "a/", "a\\", "/", ".gz/", "a//", "a/.", "/a"] {
        let e = remove_files_in_dir("./logs", &endings(&["a", bad])).err().unwrap();
        assert!(texts(&e)[0].ends_with("element 1 has more than one component"), "{bad}");
    }
    let e = remove_files_in_dir("./logs", &endings(&["a", ""])).err().unwrap();
    assert!(texts(&e)[0].ends_with("element 1 is empty"));
    let e = remove_files_in_dir("./logs", &endings(&["."])).err().unwrap();
    assert!(texts(&e)[0].ends_with("element 0 has no component"));
    let e = removal_dir_error("./logs", &endings(&["a"]), not_found());
    assert_eq!(e.error_stack.len(), 2);
}

fn removed(ends_with: &[&str], names: &[&'static str]) -> Vec<&'static str> {
    let removal = remove_files_in_dir("./logs", &endings(ends_with)).ok().unwrap();
    names.iter().copied().filter(|name| removal.matches(name)).collect()
}

#[test]
fn removals_match_names_and_extensions() {
    let files = ["binary", "ex0.log", "ex1.log", "ex2.tar.gz", "tar.gz"];
    assert!(removed(&["r.gz", ".r.gz"], &files).is_empty());
    assert_eq!(removed(&["binary", ".log"], &files), ["binary", "ex0.log", "ex1.log"]);
    assert_eq!(removed(&[".gz"], &files), ["ex2.tar.gz", "tar.gz"]);
    let files = ["ex2.tar.gz", "ex3.tar.gz.other", "tar.gz"];
    assert_eq!(removed(&["tar.gz"], &files), ["tar.gz"]);
    assert_eq!(removed(&[".tar.gz"], &files), ["ex2.tar.gz"]);
    assert_eq!(removed(&[".gz", ".other"], &files), files);
}

#[test]
fn paths_are_shown_as_std_shows_them() {
    let path = "it's \"a\"\n";
    let shown = format!("{:?}", std::path::Path::new(path));
    let e = acquire_path(path, Err(not_found())).err().unwrap();
    assert_eq!(texts(&e)[1], format!("acquire_path(path: {shown})"));
    assert_eq!(
        FileOptions::read(path).debug_text(),
        format!("FileOptions {{ path: {shown}, options: Read }}")
    );
}
