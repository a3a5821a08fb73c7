use super_orchestrator::error::{Error, ErrorKind, Location, MapAddError};

fn place(line: u32) -> Location {
    Location { file: "src/lib.rs".to_owned(), line, col: 9 }
}

#[test]
fn newest_entries_are_shown_first() {
    let e = Error::from_kind(ErrorKind::StrError("inner"), place(1))
        .add_err(ErrorKind::StringError("outer".to_owned()), place(2));
    assert_eq!(
        e.debug_text(),
        "Error { location_stack: [\n\
         Location { file: \"src/lib.rs\", line: 2, col: 9 },\n\
         Location { file: \"src/lib.rs\", line: 1, col: 9 },\n\
         ], error_stack: [\n\
         outer ->\n\
         inner\n\
         ] }"
    );
}

#[test]
fn each_kind_is_shown_by_its_name() {
    let mut e = Error::from_kind_locationless(ErrorKind::UnitError);
    let kinds = vec![
        ErrorKind::TimeoutError,
        ErrorKind::ProbablyNotRootCauseError,
        ErrorKind::BoxedError("a".to_owned()),
        ErrorKind::TryFromIntError("b".to_owned()),
        ErrorKind::StdIoError("c".to_owned()),
        ErrorKind::FromUtf8Error("d".to_owned()),
        ErrorKind::FromUtf16Error("e".to_owned()),
        ErrorKind::ParseIntError("f".to_owned()),
        ErrorKind::ParseFloatError("g".to_owned()),
        ErrorKind::TokioJoinError("h".to_owned()),
        ErrorKind::RonError("i".to_owned()),
        ErrorKind::SerdeJsonError("j".to_owned()),
        ErrorKind::CtrlcError("k".to_owned()),
    ];
    for kind in kinds {
        e = e.add_err_no_location(kind);
    }
    assert_eq!(
        e.debug_text(),
        "Error { location_stack: [\n], error_stack: [\n\
         CtrlcError(k),\nSerdeJsonError(j),\nRonError(i),\nTokioJoinError(h),\n\
         ParseFloatError(g),\nParseIntError(f),\nFromUtf16Error(e),\nFromUtf8Error(d),\n\
         StdIoError(c),\nTryFromIntError(b),\nBoxedError(a),\n\
         ProbablyNotRootCauseError,\nTimeoutError,\n] }"
    );
}

#[test]
fn a_location_is_quoted_when_it_is_shown() {
    let l = Location { file: "a\"b\n".to_owned(), line: 10, col: 0 };
    let e = Error::from_kind_locationless(ErrorKind::UnitError).add_location(l);
    assert_eq!(
        e.debug_text(),
        "Error { location_stack: [\n\
         Location { file: \"a\\\"b\\n\", line: 10, col: 0 },\n\
         ], error_stack: [\n] }"
    );
}

#[test]
fn a_timeout_is_found_anywhere_in_the_stack() {
    let e = Error::timeout(place(3));
    assert!(e.is_timeout());
    assert_eq!(e.location_stack.len(), 1);
    let e = e
        .add_err_no_location(ErrorKind::StrError("while waiting"))
        .add_location(place(4));
    assert!(e.is_timeout());
    assert!(!e.is_probably_not_root_cause());
    let other = Error::from_text("other".to_owned());
    assert!(!other.is_timeout());
    let e = other.chain_errors(e);
    assert!(e.is_timeout());
    assert_eq!(e.error_stack.len(), 3);
    assert_eq!(e.location_stack.len(), 2);
}

#[test]
fn no_timeout_is_made_up() {
    let e = Error::boxed("Os { code: 2 }".to_owned(), place(5))
        .add_err(ErrorKind::ProbablyNotRootCauseError, place(6));
    assert!(!e.is_timeout());
    assert!(e.is_probably_not_root_cause());
}

#[test]
fn map_add_err_keeps_what_is_fine() {
    let ok: Result<u8, Error> = Ok(7);
    assert!(matches!(ok.map_add_err(|| ErrorKind::UnitError, place(1)), Ok(7)));
    assert!(matches!(Some(8u8).map_add_err(|| ErrorKind::UnitError, place(1)), Ok(8)));
    let ok: Result<u8, ErrorKind> = Ok(9);
    assert!(matches!(ok.map_add_err(|| ErrorKind::UnitError, place(1)), Ok(9)));
}

#[test]
fn map_add_err_stacks_kinds_and_locations() {
    let err: Result<u8, Error> = Err(Error::from_text("first".to_owned()));
    let e = err.map_add_err(|| ErrorKind::StrError("second"), place(1)).err().unwrap();
    assert_eq!((e.error_stack.len(), e.location_stack.len()), (2, 1));

    let none: Option<u8> = None;
    let e = none.map_add_err(|| ErrorKind::StrError("none"), place(1)).err().unwrap();
    assert_eq!((e.error_stack.len(), e.location_stack.len()), (1, 1));

    let err: Result<u8, ErrorKind> = Err(ErrorKind::TimeoutError);
    let e = err.map_add_err(|| ErrorKind::StrError("late"), place(1)).err().unwrap();
    assert!(e.is_timeout());
    assert_eq!((e.error_stack.len(), e.location_stack.len()), (2, 1));

    let e = Error::timeout(place(1))
        .map_add_err(|| ErrorKind::UnitError, place(2))
        .err()
        .unwrap();
    assert_eq!((e.error_stack.len(), e.location_stack.len()), (2, 2));

    let e = ErrorKind::TimeoutError
        .map_add_err(|| ErrorKind::UnitError, place(2))
        .err()
        .unwrap();
    assert!(e.is_timeout());
    assert_eq!((e.error_stack.len(), e.location_stack.len()), (2, 2));
}

#[test]
fn kinds_are_made_from_texts() {
    assert!(matches!(ErrorKind::from(()), ErrorKind::UnitError));
    assert!(matches!(ErrorKind::from("s"), ErrorKind::StrError("s")));
    match ErrorKind::from("t".to_owned()) {
        ErrorKind::StringError(s) => assert_eq!(s, "t"),
        _ => unreachable!(),
    }
}
