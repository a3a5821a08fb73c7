//! Errors as stacks: what went wrong, innermost first, and the places the error
//! passed through.

use vstd::prelude::*;

use crate::text::{debug_quote, debug_quoted, decimal, to_decimal};

verus! {

/// A place in a source file.
pub struct Location {
    pub file: String,
    pub line: u32,
    pub col: u32,
}

/// The value of a [Location].
#[verifier::ext_equal]
pub struct LocationView {
    pub file: Seq<char>,
    pub line: u32,
    pub col: u32,
}

impl View for Location {
    type V = LocationView;

    open spec fn view(&self) -> LocationView {
        LocationView { file: self.file@, line: self.line, col: self.col }
    }
}

impl Clone for Location {
    fn clone(&self) -> (r: Self)
        ensures
            r == *self,
    {
        Location { file: self.file.clone(), line: self.line, col: self.col }
    }
}

/// One entry of an error stack. Errors of other libraries are held by the text
/// that their `Debug` gives.
///
/// The intention with `TimeoutError` is that if it is in the error stack, a
/// timeout occurred. The intention with `ProbablyNotRootCauseError` is that
/// another error is to be looked for.
pub enum ErrorKind {
    UnitError,
    TimeoutError,
    ProbablyNotRootCauseError,
    StrError(&'static str),
    StringError(String),
    BoxedError(String),
    TryFromIntError(String),
    StdIoError(String),
    FromUtf8Error(String),
    FromUtf16Error(String),
    ParseIntError(String),
    ParseFloatError(String),
    TokioJoinError(String),
    RonError(String),
    SerdeJsonError(String),
    CtrlcError(String),
}

/// The value of an [ErrorKind].
#[verifier::ext_equal]
pub enum KindView {
    Unit,
    Timeout,
    ProbablyNotRootCause,
    Str(Seq<char>),
    Text(Seq<char>),
    Boxed(Seq<char>),
    TryFromInt(Seq<char>),
    StdIo(Seq<char>),
    FromUtf8(Seq<char>),
    FromUtf16(Seq<char>),
    ParseInt(Seq<char>),
    ParseFloat(Seq<char>),
    TokioJoin(Seq<char>),
    Ron(Seq<char>),
    SerdeJson(Seq<char>),
    Ctrlc(Seq<char>),
}

impl View for ErrorKind {
    type V = KindView;

    open spec fn view(&self) -> KindView {
        match self {
            ErrorKind::UnitError => KindView::Unit,
            ErrorKind::TimeoutError => KindView::Timeout,
            ErrorKind::ProbablyNotRootCauseError => KindView::ProbablyNotRootCause,
            ErrorKind::StrError(s) => KindView::Str(s@),
            ErrorKind::StringError(s) => KindView::Text(s@),
            ErrorKind::BoxedError(s) => KindView::Boxed(s@),
            ErrorKind::TryFromIntError(s) => KindView::TryFromInt(s@),
            ErrorKind::StdIoError(s) => KindView::StdIo(s@),
            ErrorKind::FromUtf8Error(s) => KindView::FromUtf8(s@),
            ErrorKind::FromUtf16Error(s) => KindView::FromUtf16(s@),
            ErrorKind::ParseIntError(s) => KindView::ParseInt(s@),
            ErrorKind::ParseFloatError(s) => KindView::ParseFloat(s@),
            ErrorKind::TokioJoinError(s) => KindView::TokioJoin(s@),
            ErrorKind::RonError(s) => KindView::Ron(s@),
            ErrorKind::SerdeJsonError(s) => KindView::SerdeJson(s@),
            ErrorKind::CtrlcError(s) => KindView::Ctrlc(s@),
        }
    }
}

impl From<()> for ErrorKind {
    fn from(_e: ()) -> (r: Self) {
        ErrorKind::UnitError
    }
}

impl vstd::std_specs::convert::FromSpecImpl<()> for ErrorKind {
    open spec fn obeys_from_spec() -> bool {
        true
    }

    open spec fn from_spec(_e: ()) -> Self {
        ErrorKind::UnitError
    }
}

impl From<&'static str> for ErrorKind {
    fn from(e: &'static str) -> (r: Self) {
        ErrorKind::StrError(e)
    }
}

impl vstd::std_specs::convert::FromSpecImpl<&'static str> for ErrorKind {
    open spec fn obeys_from_spec() -> bool {
        true
    }

    open spec fn from_spec(e: &'static str) -> Self {
        ErrorKind::StrError(e)
    }
}

impl From<String> for ErrorKind {
    fn from(e: String) -> (r: Self) {
        ErrorKind::StringError(e)
    }
}

impl vstd::std_specs::convert::FromSpecImpl<String> for ErrorKind {
    open spec fn obeys_from_spec() -> bool {
        true
    }

    open spec fn from_spec(e: String) -> Self {
        ErrorKind::StringError(e)
    }
}

/// An error with an internal stack for the different kinds of errors and a
/// stack for locations, the first entries being the oldest.
pub struct Error {
    pub error_stack: Vec<ErrorKind>,
    pub location_stack: Vec<Location>,
}

/// The value of an [Error].
#[verifier::ext_equal]
pub struct ErrorView {
    pub kinds: Seq<KindView>,
    pub locations: Seq<LocationView>,
}

impl View for Error {
    type V = ErrorView;

    open spec fn view(&self) -> ErrorView {
        ErrorView {
            kinds: Seq::new(self.error_stack@.len(), |i: int| self.error_stack@[i]@),
            locations: Seq::new(self.location_stack@.len(), |i: int| self.location_stack@[i]@),
        }
    }
}

impl ErrorView {
    /// The error that holds the one kind, with no location.
    pub open spec fn of(kind: KindView) -> ErrorView {
        ErrorView { kinds: seq![kind], locations: Seq::empty() }
    }

    /// The error that holds the one text, with no location.
    pub open spec fn message(text: Seq<char>) -> ErrorView {
        ErrorView::of(KindView::Text(text))
    }

    /// The error with one more kind on its stack.
    pub open spec fn with(self, kind: KindView) -> ErrorView {
        ErrorView { kinds: self.kinds.push(kind), locations: self.locations }
    }

    /// The error with one more location on its stack.
    pub open spec fn at(self, l: LocationView) -> ErrorView {
        ErrorView { kinds: self.kinds, locations: self.locations.push(l) }
    }

    /// The error followed by the entries of another one.
    pub open spec fn chained(self, other: ErrorView) -> ErrorView {
        ErrorView {
            kinds: self.kinds + other.kinds,
            locations: self.locations + other.locations,
        }
    }

    /// A timeout is in the stack.
    pub open spec fn timed_out(self) -> bool {
        self.kinds.contains(KindView::Timeout)
    }

    /// A hint that another error is the cause is in the stack.
    pub open spec fn not_root_cause(self) -> bool {
        self.kinds.contains(KindView::ProbablyNotRootCause)
    }

    /// What `Debug` shows of the error: the newest entries come first.
    pub open spec fn debug(self) -> Seq<char> {
        "Error { location_stack: [\n"@ + locations_debug(self.locations)
            + "], error_stack: [\n"@ + kinds_debug(self.kinds) + "] }"@
    }
}

/// What `Debug` shows of a location.
pub open spec fn location_debug(l: LocationView) -> Seq<char> {
    "Location { file: "@ + debug_quoted(l.file) + ", line: "@ + decimal(l.line as nat) + ", col: "@
        + decimal(l.col as nat) + " }"@
}

/// One line for each location, from the last to the first.
pub open spec fn locations_debug(s: Seq<LocationView>) -> Seq<char>
    decreases s.len(),
{
    if s.len() == 0 {
        Seq::empty()
    } else {
        location_debug(s.last()) + ",\n"@ + locations_debug(s.drop_last())
    }
}

/// A variant's name and its text in parentheses.
pub open spec fn variant_debug(name: Seq<char>, text: Seq<char>) -> Seq<char> {
    name + "("@ + text + "),\n"@
}

/// What is shown of the kind at index `i` of the stack: nothing for a unit
/// entry, the bare text for a text, which leads on to what caused it.
pub open spec fn kind_debug(k: KindView, i: int) -> Seq<char> {
    match k {
        KindView::Unit => Seq::empty(),
        KindView::Timeout => "TimeoutError,\n"@,
        KindView::ProbablyNotRootCause => "ProbablyNotRootCauseError,\n"@,
        KindView::Str(s) => s + if i == 0 {
            "\n"@
        } else {
            " ->\n"@
        },
        KindView::Text(s) => s + if i == 0 {
            "\n"@
        } else {
            " ->\n"@
        },
        KindView::Boxed(s) => variant_debug("BoxedError"@, s),
        KindView::TryFromInt(s) => variant_debug("TryFromIntError"@, s),
        KindView::StdIo(s) => variant_debug("StdIoError"@, s),
        KindView::FromUtf8(s) => variant_debug("FromUtf8Error"@, s),
        KindView::FromUtf16(s) => variant_debug("FromUtf16Error"@, s),
        KindView::ParseInt(s) => variant_debug("ParseIntError"@, s),
        KindView::ParseFloat(s) => variant_debug("ParseFloatError"@, s),
        KindView::TokioJoin(s) => variant_debug("TokioJoinError"@, s),
        KindView::Ron(s) => variant_debug("RonError"@, s),
        KindView::SerdeJson(s) => variant_debug("SerdeJsonError"@, s),
        KindView::Ctrlc(s) => variant_debug("CtrlcError"@, s),
    }
}

/// The kinds from the last to the first.
pub open spec fn kinds_debug(s: Seq<KindView>) -> Seq<char>
    decreases s.len(),
{
    if s.len() == 0 {
        Seq::empty()
    } else {
        kind_debug(s.last(), s.len() - 1) + kinds_debug(s.drop_last())
    }
}

fn variant_text(name: &str, text: &str) -> (r: String)
    ensures
        r@ == variant_debug(name@, text@),
{
    let mut r: String = name.to_owned();
    r.append("(");
    r.append(text);
    r.append("),\n");
    r
}

fn stacked_text(text: &str, i: usize) -> (r: String)
    ensures
        r@ == text@ + if i == 0 {
            "\n"@
        } else {
            " ->\n"@
        },
{
    let mut r: String = text.to_owned();
    if i == 0 {
        r.append("\n");
    } else {
        r.append(" ->\n");
    }
    r
}

impl Location {
    fn debug_text(&self) -> (r: String)
        ensures
            r@ == location_debug(self@),
    {
        let mut r: String = "Location { file: ".to_owned();
        r.append(debug_quote(self.file.as_str()).as_str());
        r.append(", line: ");
        r.append(to_decimal(self.line as u64).as_str());
        r.append(", col: ");
        r.append(to_decimal(self.col as u64).as_str());
        r.append(" }");
        r
    }
}

impl ErrorKind {
    fn debug_text(&self, i: usize) -> (r: String)
        ensures
            r@ == kind_debug(self@, i as int),
    {
        match self {
            ErrorKind::UnitError => String::new(),
            ErrorKind::TimeoutError => "TimeoutError,\n".to_owned(),
            ErrorKind::ProbablyNotRootCauseError => "ProbablyNotRootCauseError,\n".to_owned(),
            ErrorKind::StrError(s) => stacked_text(s, i),
            ErrorKind::StringError(s) => stacked_text(s.as_str(), i),
            ErrorKind::BoxedError(s) => variant_text("BoxedError", s.as_str()),
            ErrorKind::TryFromIntError(s) => variant_text("TryFromIntError", s.as_str()),
            ErrorKind::StdIoError(s) => variant_text("StdIoError", s.as_str()),
            ErrorKind::FromUtf8Error(s) => variant_text("FromUtf8Error", s.as_str()),
            ErrorKind::FromUtf16Error(s) => variant_text("FromUtf16Error", s.as_str()),
            ErrorKind::ParseIntError(s) => variant_text("ParseIntError", s.as_str()),
            ErrorKind::ParseFloatError(s) => variant_text("ParseFloatError", s.as_str()),
            ErrorKind::TokioJoinError(s) => variant_text("TokioJoinError", s.as_str()),
            ErrorKind::RonError(s) => variant_text("RonError", s.as_str()),
            ErrorKind::SerdeJsonError(s) => variant_text("SerdeJsonError", s.as_str()),
            ErrorKind::CtrlcError(s) => variant_text("CtrlcError", s.as_str()),
        }
    }
}

impl Error {
    /// An error of one kind, raised at `l`.
    pub fn from_kind(kind: ErrorKind, l: Location) -> (r: Self)
        ensures
            r@ == ErrorView::of(kind@).at(l@),
    {
        let mut r: Error = Error::from_kind_locationless(kind);
        r.location_stack.push(l);
        assert(r@ =~= ErrorView::of(kind@).at(l@));
        r
    }

    /// An error of one kind, with no location.
    pub fn from_kind_locationless(kind: ErrorKind) -> (r: Self)
        ensures
            r@ == ErrorView::of(kind@),
    {
        let mut error_stack: Vec<ErrorKind> = Vec::new();
        error_stack.push(kind);
        let r = Error { error_stack, location_stack: Vec::new() };
        assert(r@ =~= ErrorView::of(kind@));
        r
    }

    /// An error that says `text`, with no location.
    pub fn from_text(text: String) -> (r: Self)
        ensures
            r@ == ErrorView::message(text@),
    {
        Error::from_kind_locationless(ErrorKind::StringError(text))
    }

    /// Returns a base timeout error
    pub fn timeout(l: Location) -> (r: Self)
        ensures
            r@ == ErrorView::of(KindView::Timeout).at(l@),
    {
        Error::from_kind(ErrorKind::TimeoutError, l)
    }

    /// Can hold any error, by the text that its `Debug` gives
    pub fn boxed(e: String, l: Location) -> (r: Self)
        ensures
            r@ == ErrorView::of(KindView::Boxed(e@)).at(l@),
    {
        Error::from_kind(ErrorKind::BoxedError(e), l)
    }

    /// The same as [Error::add_err] but without pushing location to stack
    pub fn add_err_no_location(self, kind: ErrorKind) -> (r: Self)
        ensures
            r@ == self@.with(kind@),
    {
        let mut r: Error = self;
        r.error_stack.push(kind);
        assert(r@ =~= self@.with(kind@));
        r
    }

    /// Pushes `kind` and `l` to the stacks
    pub fn add_err(self, kind: ErrorKind, l: Location) -> (r: Self)
        ensures
            r@ == self@.with(kind@).at(l@),
    {
        self.add_err_no_location(kind).add_location(l)
    }

    /// Only adds a location to the stack
    pub fn add_location(self, l: Location) -> (r: Self)
        ensures
            r@ == self@.at(l@),
    {
        let mut r: Error = self;
        r.location_stack.push(l);
        assert(r@ =~= self@.at(l@));
        r
    }

    /// Moves the stacks of `other` onto `self`
    pub fn chain_errors(self, other: Error) -> (r: Self)
        ensures
            r@ == self@.chained(other@),
    {
        let mut r: Error = self;
        let mut o: Error = other;
        r.error_stack.append(&mut o.error_stack);
        r.location_stack.append(&mut o.location_stack);
        assert(r@ =~= self@.chained(other@));
        r
    }

    /// Returns if a `TimeoutError` is in the error stack
    pub fn is_timeout(&self) -> (r: bool)
        ensures
            r == self@.timed_out(),
            r <==> exists|i: int|
                0 <= i < self.error_stack@.len() && (#[trigger] self.error_stack@[i])
                    is TimeoutError,
    {
        let mut i: usize = 0;
        while i < self.error_stack.len()
            invariant
                i <= self.error_stack@.len(),
                forall|k: int| 0 <= k < i ==> #[trigger] self@.kinds[k] != KindView::Timeout,
                forall|k: int| 0 <= k < i ==> !((#[trigger] self.error_stack@[k]) is TimeoutError),
            decreases self.error_stack@.len() - i,
        {
            if let ErrorKind::TimeoutError = &self.error_stack[i] {
                assert(self@.kinds[i as int] == KindView::Timeout);
                return true;
            }
            i = i + 1;
        }
        false
    }

    /// Returns if a `ProbablyNotRootCauseError` is in the error stack
    pub fn is_probably_not_root_cause(&self) -> (r: bool)
        ensures
            r == self@.not_root_cause(),
            r <==> exists|i: int|
                0 <= i < self.error_stack@.len() && (#[trigger] self.error_stack@[i])
                    is ProbablyNotRootCauseError,
    {
        let mut i: usize = 0;
        while i < self.error_stack.len()
            invariant
                i <= self.error_stack@.len(),
                forall|k: int|
                    0 <= k < i ==> #[trigger] self@.kinds[k] != KindView::ProbablyNotRootCause,
                forall|k: int|
                    0 <= k < i ==> !((#[trigger] self.error_stack@[k])
                        is ProbablyNotRootCauseError),
            decreases self.error_stack@.len() - i,
        {
            if let ErrorKind::ProbablyNotRootCauseError = &self.error_stack[i] {
                assert(self@.kinds[i as int] == KindView::ProbablyNotRootCause);
                return true;
            }
            i = i + 1;
        }
        false
    }

    /// What `Debug` shows of the error, in reverse order of a typical stack, so
    /// that the more specific errors are found at the end.
    pub fn debug_text(&self) -> (r: String)
        ensures
            r@ == self@.debug(),
    {
        let mut r: String = "Error { location_stack: [\n".to_owned();
        let ghost head = r@;
        let mut i: usize = self.location_stack.len();
        assert(self@.locations.take(i as int) =~= self@.locations);
        while i > 0
            invariant
                i <= self.location_stack@.len(),
                head + locations_debug(self@.locations) == r@ + locations_debug(
                    self@.locations.take(i as int),
                ),
            decreases i,
        {
            let ghost before = r@;
            let t: String = self.location_stack[i - 1].debug_text();
            r.append(t.as_str());
            r.append(",\n");
            proof {
                let s = self@.locations.take(i as int);
                assert(s.drop_last() =~= self@.locations.take(i - 1));
                assert(before + locations_debug(s) =~= r@ + locations_debug(s.drop_last()));
            }
            i = i - 1;
        }
        assert(r@ =~= head + locations_debug(self@.locations));
        r.append("], error_stack: [\n");
        let ghost head = r@;
        let mut i: usize = self.error_stack.len();
        assert(self@.kinds.take(i as int) =~= self@.kinds);
        while i > 0
            invariant
                i <= self.error_stack@.len(),
                head + kinds_debug(self@.kinds) == r@ + kinds_debug(self@.kinds.take(i as int)),
            decreases i,
        {
            let ghost before = r@;
            let t: String = self.error_stack[i - 1].debug_text(i - 1);
            r.append(t.as_str());
            proof {
                let s = self@.kinds.take(i as int);
                assert(s.drop_last() =~= self@.kinds.take(i - 1));
                assert(before + kinds_debug(s) =~= r@ + kinds_debug(s.drop_last()));
            }
            i = i - 1;
        }
        assert(r@ =~= head + kinds_debug(self@.kinds));
        r.append("] }");
        r
    }
}

/// The intention of this trait is to convert `Option<T>`s, `Result<T, Error>`s,
/// and `Result<T, ErrorKind>`s into `Result<T, Error>`s with the error having an
/// `ErrorKind` and a location pushed onto its stacks. You can also call
/// `map_add_err` on plain `Error`s and `ErrorKind`s to get a
/// `Result<(), Error>`.
pub trait MapAddError: Sized {
    type Output;

    fn map_add_err<F: FnOnce() -> ErrorKind>(self, f: F, l: Location) -> (r: Self::Output)
        requires
            f.requires(()),
    ;
}

impl<T> MapAddError for core::result::Result<T, Error> {
    type Output = core::result::Result<T, Error>;

    fn map_add_err<F: FnOnce() -> ErrorKind>(self, f: F, l: Location) -> (r: Self::Output)
        ensures
            match self {
                Ok(o) => r == Ok::<T, Error>(o),
                Err(e) => r is Err && exists|kind: ErrorKind| #[trigger]
                    f.ensures((), kind) && r->Err_0@ == e@.with(kind@).at(l@),
            },
    {
        match self {
            Ok(o) => Ok(o),
            Err(e) => {
                let kind = f();
                Err(e.add_err(kind, l))
            },
        }
    }
}

impl<T> MapAddError for Option<T> {
    type Output = core::result::Result<T, Error>;

    fn map_add_err<F: FnOnce() -> ErrorKind>(self, f: F, l: Location) -> (r: Self::Output)
        ensures
            match self {
                Some(o) => r == Ok::<T, Error>(o),
                None => r is Err && exists|kind: ErrorKind| #[trigger]
                    f.ensures((), kind) && r->Err_0@ == ErrorView::of(kind@).at(l@),
            },
    {
        match self {
            Some(o) => Ok(o),
            None => {
                let kind = f();
                Err(Error::from_kind(kind, l))
            },
        }
    }
}

impl<T> MapAddError for core::result::Result<T, ErrorKind> {
    type Output = core::result::Result<T, Error>;

    /// Transforms `Result<T, ErrorKind>` into `Result<T, Error>` while adding
    /// location information and a second kind of error.
    fn map_add_err<F: FnOnce() -> ErrorKind>(self, f: F, l: Location) -> (r: Self::Output)
        ensures
            match self {
                Ok(o) => r == Ok::<T, Error>(o),
                Err(first) => r is Err && exists|kind: ErrorKind| #[trigger]
                    f.ensures((), kind) && r->Err_0@ == ErrorView::of(first@).at(l@).with(kind@),
            },
    {
        match self {
            Ok(o) => Ok(o),
            Err(first) => {
                let kind = f();
                Err(Error::from_kind(first, l).add_err_no_location(kind))
            },
        }
    }
}

impl MapAddError for Error {
    type Output = core::result::Result<(), Error>;

    fn map_add_err<F: FnOnce() -> ErrorKind>(self, f: F, l: Location) -> (r: Self::Output)
        ensures
            r is Err && exists|kind: ErrorKind| #[trigger]
                f.ensures((), kind) && r->Err_0@ == self@.with(kind@).at(l@),
    {
        let kind = f();
        Err(self.add_err(kind, l))
    }
}

impl MapAddError for ErrorKind {
    type Output = core::result::Result<(), Error>;

    fn map_add_err<F: FnOnce() -> ErrorKind>(self, f: F, l: Location) -> (r: Self::Output)
        ensures
            r is Err && exists|kind: ErrorKind| #[trigger]
                f.ensures((), kind) && r->Err_0@ == ErrorView::of(self@).at(l@).with(kind@).at(l@),
    {
        let kind = f();
        Err(Error::from_kind(self, l.clone()).add_err(kind, l))
    }
}

/// A timeout stays visible whatever is stacked on the error: neither a further
/// kind, nor a location, nor another error's stack hides it.
pub proof fn timeout_is_kept(e: ErrorView, kind: KindView, l: LocationView, other: ErrorView)
    requires
        e.timed_out(),
    ensures
        e.with(kind).timed_out(),
        e.at(l).timed_out(),
        e.chained(other).timed_out(),
        other.chained(e).timed_out(),
{
    let i = choose|i: int| 0 <= i < e.kinds.len() && e.kinds[i] == KindView::Timeout;
    assert(e.with(kind).kinds[i] == KindView::Timeout);
    assert(e.chained(other).kinds[i] == KindView::Timeout);
    assert(other.chained(e).kinds[other.kinds.len() + i] == KindView::Timeout);
}

/// An error is a timeout only if a timeout was put on its stack: adding another
/// kind or a location makes none.
pub proof fn timeout_is_not_made(e: ErrorView, kind: KindView, l: LocationView)
    requires
        !e.timed_out(),
        kind != KindView::Timeout,
    ensures
        !e.with(kind).timed_out(),
        !e.at(l).timed_out(),
        !ErrorView::of(kind).timed_out(),
{
}

/// What stacking does: the oldest entries come first, a kind is put on the stack of
/// kinds only and a location on that of the locations only, and an error chained to
/// another comes behind it.
pub proof fn stacks_grow_at_their_ends(
    e: ErrorView,
    kind: KindView,
    text: Seq<char>,
    l: LocationView,
    other: ErrorView,
)
    ensures
        ErrorView::of(kind).kinds == seq![kind] && ErrorView::of(kind).locations.len() == 0,
        ErrorView::message(text).kinds == seq![KindView::Text(text)],
        ErrorView::message(text).locations.len() == 0,
        e.with(kind).kinds.drop_last() == e.kinds && e.with(kind).kinds.last() == kind,
        e.with(kind).kinds.len() == e.kinds.len() + 1 && e.with(kind).locations == e.locations,
        e.at(l).locations.drop_last() == e.locations && e.at(l).locations.last() == l,
        e.at(l).locations.len() == e.locations.len() + 1 && e.at(l).kinds == e.kinds,
        e.chained(other).kinds == e.kinds + other.kinds,
        e.chained(other).locations == e.locations + other.locations,
{
    assert(e.with(kind).kinds.drop_last() =~= e.kinds);
    assert(e.at(l).locations.drop_last() =~= e.locations);
}

/// An error counts as a timeout exactly if one of its kinds is a timeout, and hints at
/// another cause exactly if one of its kinds is that hint.
pub proof fn kinds_decide_what_an_error_is(e: ErrorView)
    ensures
        e.timed_out() <==> exists|i: int|
            0 <= i < e.kinds.len() && #[trigger] e.kinds[i] == KindView::Timeout,
        e.not_root_cause() <==> exists|i: int|
            0 <= i < e.kinds.len() && #[trigger] e.kinds[i] == KindView::ProbablyNotRootCause,
{
}

/// What `Debug` shows has the newest location and the newest kind first; a text leads on
/// to the older kinds below it by an arrow, and only the oldest has none.
pub proof fn newest_entries_are_shown_first(
    kinds: Seq<KindView>,
    kind: KindView,
    locations: Seq<LocationView>,
    l: LocationView,
    text: Seq<char>,
)
    ensures
        kinds_debug(kinds.push(kind)) == kind_debug(kind, kinds.len() as int) + kinds_debug(kinds),
        locations_debug(locations.push(l)) == location_debug(l) + ",\n"@ + locations_debug(
            locations,
        ),
        kind_debug(KindView::Text(text), kinds.len() as int) == text + if kinds.len() == 0 {
            "\n"@
        } else {
            " ->\n"@
        },
        kind_debug(KindView::Str(text), kinds.len() as int) == kind_debug(
            KindView::Text(text),
            kinds.len() as int,
        ),
        kind_debug(KindView::Unit, kinds.len() as int).len() == 0,
        kind_debug(KindView::Timeout, kinds.len() as int) == "TimeoutError,\n"@,
        kind_debug(KindView::ProbablyNotRootCause, kinds.len() as int)
            == "ProbablyNotRootCauseError,\n"@,
        kind_debug(KindView::Boxed(text), kinds.len() as int) == "BoxedError"@ + "("@ + text
            + "),\n"@,
        kind_debug(KindView::StdIo(text), kinds.len() as int) == "StdIoError"@ + "("@ + text
            + "),\n"@,
        kind_debug(KindView::SerdeJson(text), kinds.len() as int) == "SerdeJsonError"@ + "("@ + text
            + "),\n"@,
        (ErrorView { kinds, locations }).debug() == "Error { location_stack: [\n"@
            + locations_debug(locations) + "], error_stack: [\n"@ + kinds_debug(kinds) + "] }"@,
{
    assert(kinds.push(kind).drop_last() =~= kinds);
    assert(locations.push(l).drop_last() =~= locations);
}

} // verus!
