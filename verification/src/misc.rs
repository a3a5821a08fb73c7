//! Guarded file removal, retrying, type hashes and terminal colors.

use vstd::prelude::*;
use vstd::utf8::encode_utf8;

use crate::duration::{duration_debug, Duration};
use crate::error::{Error, ErrorKind, ErrorView, KindView};
use crate::text::{
    debug_list, debug_texts, decimal, from_chars, os_quote, os_quoted, same, texts, to_chars,
    to_decimal,
};

verus! {

/// The characters that part the components of a path, on any platform.
pub open spec fn is_separator(c: char) -> bool {
    c == '/' || c == '\\'
}

/// A path of more than one component has a separator.
pub open spec fn has_separator(s: Seq<char>) -> bool {
    exists|i: int| 0 <= i < s.len() && is_separator(#[trigger] s[i])
}

/// Whether the text has a separator
fn holds_separator(s: &str) -> (r: bool)
    ensures
        r == has_separator(s@),
{
    let chars: Vec<char> = to_chars(s);
    let mut i: usize = 0;
    while i < chars.len()
        invariant
            i <= chars@.len(),
            chars@ == s@,
            forall|k: int| 0 <= k < i ==> !is_separator(#[trigger] s@[k]),
        decreases chars@.len() - i,
    {
        if chars[i] == '/' || chars[i] == '\\' {
            assert(is_separator(s@[i as int]));
            return true;
        }
        i = i + 1;
    }
    false
}

/// What is wrong with an element of a list of endings.
pub enum EndingFault {
    Empty,
    NoComponent,
    ManyComponents,
}

/// An element that begins with a `.` stands for extensions.
pub open spec fn stands_for_extension(s: Seq<char>) -> bool {
    s.len() > 0 && s[0] == '.'
}

/// The element without the `.` that marks an extension.
pub open spec fn ending_of(s: Seq<char>) -> Seq<char> {
    if stands_for_extension(s) {
        s.skip(1)
    } else {
        s
    }
}

/// What is wrong with the element, if anything.
pub open spec fn ending_fault(s: Seq<char>) -> Option<EndingFault> {
    if s.len() == 0 {
        Some(EndingFault::Empty)
    } else if ending_of(s).len() == 0 {
        Some(EndingFault::NoComponent)
    } else if has_separator(ending_of(s)) {
        Some(EndingFault::ManyComponents)
    } else {
        None
    }
}

/// The file names that the elements stand for.
pub open spec fn ending_names(elements: Seq<Seq<char>>) -> Seq<Seq<char>>
    decreases elements.len(),
{
    if elements.len() == 0 {
        Seq::empty()
    } else {
        let before = ending_names(elements.drop_last());
        if stands_for_extension(elements.last()) {
            before
        } else {
            before.push(ending_of(elements.last()))
        }
    }
}

/// The extensions that the elements stand for.
pub open spec fn ending_extensions(elements: Seq<Seq<char>>) -> Seq<Seq<char>>
    decreases elements.len(),
{
    if elements.len() == 0 {
        Seq::empty()
    } else {
        let before = ending_extensions(elements.drop_last());
        if stands_for_extension(elements.last()) {
            before.push(ending_of(elements.last()))
        } else {
            before
        }
    }
}

/// The text of an error in the arguments of a removal.
pub open spec fn removal_text(dir: Seq<char>, elements: Seq<Seq<char>>) -> Seq<char> {
    "remove_files_in_dir(dir: "@ + os_quoted(dir) + ", ends_with: "@ + debug_list(elements)
        + ")"@
}

/// The text for the faulty element at index `i`.
pub open spec fn fault_text(
    dir: Seq<char>,
    elements: Seq<Seq<char>>,
    i: nat,
    fault: EndingFault,
) -> Seq<char> {
    removal_text(dir, elements) + " -> `ends_with` element "@ + decimal(i) + (match fault {
        EndingFault::Empty => " is empty"@,
        EndingFault::NoComponent => " has no component"@,
        EndingFault::ManyComponents => " has more than one component"@,
    })
}

fn removal_message(dir: &str, ends_with: &Vec<String>) -> (r: String)
    ensures
        r@ == removal_text(dir@, texts(ends_with@)),
{
    let mut r: String = "remove_files_in_dir(dir: ".to_owned();
    r.append(os_quote(dir).as_str());
    r.append(", ends_with: ");
    r.append(debug_texts(ends_with).as_str());
    r.append(")");
    r
}

fn fault_error(dir: &str, ends_with: &Vec<String>, i: usize, fault: EndingFault) -> (r: Error)
    ensures
        r@ == ErrorView::message(fault_text(dir@, texts(ends_with@), i as nat, fault)),
{
    let mut text: String = removal_message(dir, ends_with);
    text.append(" -> `ends_with` element ");
    text.append(to_decimal(i as u64).as_str());
    match fault {
        EndingFault::Empty => text.append(" is empty"),
        EndingFault::NoComponent => text.append(" has no component"),
        EndingFault::ManyComponents => text.append(" has more than one component"),
    }
    Error::from_text(text)
}

/// A `.` at index `d` of a file name begins an extension, which may hold further
/// ones. Names of dots alone, and the dot of a hidden file, have none.
pub open spec fn begins_extension(name: Seq<char>, d: int) -> bool {
    &&& 1 <= d < name.len()
    &&& name[d] == '.'
    &&& !(d == 1 && name.len() == 2 && name[0] == '.')
    &&& !(d == 1 && name.len() > 2 && name[0] == '.' && name[2] == '.')
}

/// The files to be removed from a directory.
pub struct Removal {
    pub file_names: Vec<String>,
    pub extensions: Vec<String>,
}

impl Removal {
    /// The file of that name is to be removed: it is named, or some stretch of
    /// whole extensions at its end is.
    pub open spec fn covers(self, name: Seq<char>) -> bool {
        ||| texts(self.file_names@).contains(name)
        ||| exists|d: int| #[trigger]
            begins_extension(name, d) && texts(self.extensions@).contains(name.skip(d + 1))
    }

    /// Whether the file of that name is to be removed.
    pub fn matches(&self, file_name: &str) -> (r: bool)
        ensures
            r == self.covers(file_name@),
    {
        if contains_text(&self.file_names, file_name) {
            return true;
        }
        let name: Vec<char> = to_chars(file_name);
        let mut d: usize = 1;
        while d < name.len()
            invariant
                1 <= d,
                name@ == file_name@,
                forall|k: int|
                    k < d && #[trigger] begins_extension(file_name@, k) ==> !texts(
                        self.extensions@,
                    ).contains(file_name@.skip(k + 1)),
            decreases name@.len() - d,
        {
            let two_dots: bool = d == 1 && name.len() == 2 && name[0] == '.';
            let three_dots: bool = d == 1 && name.len() > 2 && name[0] == '.' && name[2] == '.';
            if name[d] == '.' && !two_dots && !three_dots {
                let suffix: String = from_chars(&name, d + 1, name.len());
                assert(suffix@ =~= file_name@.skip(d + 1));
                assert(begins_extension(file_name@, d as int));
                if contains_text(&self.extensions, suffix.as_str()) {
                    return true;
                }
            }
            d = d + 1;
        }
        false
    }
}

fn contains_text(list: &Vec<String>, s: &str) -> (r: bool)
    ensures
        r == texts(list@).contains(s@),
{
    let mut i: usize = 0;
    while i < list.len()
        invariant
            i <= list@.len(),
            forall|k: int| 0 <= k < i ==> #[trigger] texts(list@)[k] != s@,
        decreases list@.len() - i,
    {
        if same(list[i].as_str(), s) {
            assert(texts(list@)[i as int] == s@);
            return true;
        }
        i = i + 1;
    }
    false
}

/// Reads the endings of a guarded kind of removal that only removes all files in
/// a directory that match an element of `ends_with`. If the element starts with
/// ".", extensions are matched against, otherwise whole file names are matched
/// against. Only whole extension components are matched against.
///
/// Gives an error if an element is empty, or does not have exactly one component
/// (any '/' or '\\' is refused).
pub fn remove_files_in_dir(dir: &str, ends_with: &Vec<String>) -> (r: Result<Removal, Error>)
    ensures
        match r {
            Ok(removal) => {
                &&& forall|i: int|
                    0 <= i < ends_with@.len() ==> ending_fault(#[trigger] ends_with@[i]@) is None
                &&& texts(removal.file_names@) == ending_names(texts(ends_with@))
                &&& texts(removal.extensions@) == ending_extensions(texts(ends_with@))
            },
            Err(e) => exists|i: int|
                {
                    &&& 0 <= i < ends_with@.len()
                    &&& ending_fault(#[trigger] ends_with@[i]@) matches Some(fault)
                    &&& forall|k: int| 0 <= k < i ==> ending_fault(#[trigger] ends_with@[k]@) is None
                    &&& e@ == ErrorView::message(
                        fault_text(dir@, texts(ends_with@), i as nat, fault),
                    )
                },
        },
{
    let ghost all = texts(ends_with@);
    let mut file_names: Vec<String> = Vec::new();
    let mut extensions: Vec<String> = Vec::new();
    let mut i: usize = 0;
    assert(all.take(0) =~= Seq::empty());
    assert(texts(file_names@) =~= Seq::empty());
    assert(texts(extensions@) =~= Seq::empty());
    while i < ends_with.len()
        invariant
            i <= ends_with@.len(),
            all == texts(ends_with@),
            forall|k: int| 0 <= k < i ==> ending_fault(#[trigger] ends_with@[k]@) is None,
            texts(file_names@) == ending_names(all.take(i as int)),
            texts(extensions@) == ending_extensions(all.take(i as int)),
        decreases ends_with@.len() - i,
    {
        let s: Vec<char> = to_chars(ends_with[i].as_str());
        let ghost element = ends_with@[i as int]@;
        assert(all.take(i + 1).drop_last() =~= all.take(i as int));
        assert(all.take(i + 1).last() == element);
        if s.len() == 0 {
            assert(ending_fault(element) == Some(EndingFault::Empty));
            return Err(fault_error(dir, ends_with, i, EndingFault::Empty));
        }
        let is_extension: bool = s[0] == '.';
        let start: usize = if is_extension {
            1
        } else {
            0
        };
        let rest: String = from_chars(&s, start, s.len());
        assert(rest@ =~= ending_of(element));
        if start == s.len() {
            assert(ending_fault(element) == Some(EndingFault::NoComponent));
            return Err(fault_error(dir, ends_with, i, EndingFault::NoComponent));
        }
        if holds_separator(rest.as_str()) {
            assert(ending_fault(element) == Some(EndingFault::ManyComponents));
            return Err(fault_error(dir, ends_with, i, EndingFault::ManyComponents));
        }
        if is_extension {
            let ghost before = extensions@;
            extensions.push(rest);
            assert(texts(extensions@) =~= texts(before).push(rest@));
        } else {
            let ghost before = file_names@;
            file_names.push(rest);
            assert(texts(file_names@) =~= texts(before).push(rest@));
        }
        i = i + 1;
    }
    assert(all.take(i as int) =~= all);
    Ok(Removal { file_names, extensions })
}

/// Adds what was being done to an error of acquiring the directory
pub fn removal_dir_error(dir: &str, ends_with: &Vec<String>, e: Error) -> (r: Error)
    ensures
        r@ == e@.with(KindView::Text(removal_text(dir@, texts(ends_with@)))),
{
    let text: String = removal_message(dir, ends_with);
    e.add_err_no_location(ErrorKind::StringError(text))
}

/// A removal takes no file beyond what its elements say: a removed file bears
/// the name of an element, or ends with a `.` and an extension of an element.
pub proof fn removal_takes_whole_endings(removal: Removal, name: Seq<char>)
    requires
        removal.covers(name),
    ensures
        texts(removal.file_names@).contains(name) || exists|i: int, base: Seq<char>|
            0 <= i < removal.extensions@.len() && base.len() > 0 && name == #[trigger] (base
                + seq!['.'] + removal.extensions@[i]@),
{
    if !texts(removal.file_names@).contains(name) {
        let d = choose|d: int| #[trigger]
            begins_extension(name, d) && texts(removal.extensions@).contains(name.skip(d + 1));
        let all = texts(removal.extensions@);
        let i = choose|i: int| 0 <= i < all.len() && all[i] == name.skip(d + 1);
        assert(removal.extensions@[i]@ == name.skip(d + 1));
        assert(name =~= name.take(d) + seq!['.'] + removal.extensions@[i]@);
    }
}

/// What is to be done after an attempt.
pub enum Retry<T> {
    /// Nothing more, this is the result
    Done(Result<T, Error>),
    /// Another attempt after the delay
    Wait,
}

/// The text of a given up series of attempts.
pub open spec fn retry_text(num_retries: u64, delay: Duration) -> Seq<char> {
    "wait_for_ok(num_retries: "@ + decimal(num_retries as nat) + ", delay: "@ + duration_debug(
        delay.secs,
        delay.nanos,
    ) + ") timeout, last error stack was"@
}

/// Decides after an attempt of a series, of which `left` may still fail: an `Ok`
/// is returned, a failure is retried until `num_retries` is reached in which
/// case a timeout error is returned.
pub fn wait_for_ok<T>(
    num_retries: u64,
    delay: Duration,
    left: &mut u64,
    attempt: Result<T, Error>,
) -> (r: Retry<T>)
    requires
        delay.wf(),
    ensures
        match attempt {
            Ok(o) => r == Retry::Done(Ok::<T, Error>(o)) && *final(left) == *old(left),
            Err(e) => if *old(left) == 0 {
                &&& *final(left) == 0
                &&& r matches Retry::Done(Err(f)) && f@ == e@.with(KindView::Timeout).with(
                    KindView::Text(retry_text(num_retries, delay)),
                )
            } else {
                r is Wait && *final(left) == *old(left) - 1
            },
        },
{
    match attempt {
        Ok(o) => Retry::Done(Ok(o)),
        Err(e) => {
            // the check comes after the attempt, so that 0 retries can still pass
            if *left == 0 {
                let mut text: String = "wait_for_ok(num_retries: ".to_owned();
                text.append(to_decimal(num_retries).as_str());
                text.append(", delay: ");
                text.append(delay.debug_text().as_str());
                text.append(") timeout, last error stack was");
                Retry::Done(
                    Err(
                        e.add_err_no_location(ErrorKind::TimeoutError).add_err_no_location(
                            ErrorKind::StringError(text),
                        ),
                    ),
                )
            } else {
                *left = *left - 1;
                Retry::Wait
            }
        },
    }
}

/// How a series of attempts ends, given which of them succeed: with success,
/// with a timeout, or not yet.
pub open spec fn retry_outcome(attempts: Seq<bool>, left: nat) -> Option<bool>
    decreases attempts.len(),
{
    if attempts.len() == 0 {
        None
    } else if attempts[0] {
        Some(true)
    } else if left == 0 {
        Some(false)
    } else {
        retry_outcome(attempts.skip(1), (left - 1) as nat)
    }
}

/// With `n` retries, success is returned if and only if one of the first `n + 1`
/// attempts succeeds, and a timeout only after that many failures: no retries
/// still mean one attempt.
pub proof fn retries_are_counted(attempts: Seq<bool>, n: nat)
    ensures
        retry_outcome(attempts, n) == Some(true) <==> exists|k: int|
            0 <= k <= n && k < attempts.len() && #[trigger] attempts[k],
        retry_outcome(attempts, n) == Some(false) <==> attempts.len() > n && forall|k: int|
            0 <= k <= n ==> !#[trigger] attempts[k],
    decreases attempts.len(),
{
    if attempts.len() > 0 && !attempts[0] && n > 0 {
        let rest = attempts.skip(1);
        retries_are_counted(rest, (n - 1) as nat);
        assert(forall|k: int| 0 <= k < rest.len() ==> rest[k] == attempts[k + 1]);
        if retry_outcome(attempts, n) == Some(true) {
            let k = choose|k: int| 0 <= k <= n - 1 && k < rest.len() && #[trigger] rest[k];
            assert(attempts[k + 1]);
        }
        if exists|k: int| 0 <= k <= n && k < attempts.len() && #[trigger] attempts[k] {
            let k = choose|k: int| 0 <= k <= n && k < attempts.len() && #[trigger] attempts[k];
            assert(rest[k - 1]);
        }
        if retry_outcome(attempts, n) == Some(false) {
            assert forall|k: int| 0 <= k <= n implies !#[trigger] attempts[k] by {
                if k > 0 {
                    assert(!rest[k - 1]);
                }
            }
        }
        if attempts.len() > n && forall|k: int| 0 <= k <= n ==> !#[trigger] attempts[k] {
            assert forall|k: int| 0 <= k <= n - 1 implies !#[trigger] rest[k] by {
                assert(!attempts[k + 1]);
            }
        }
    }
}

/// The SHA3-256 digest of a byte string.
pub uninterp spec fn sha3_256_digest(bytes: Seq<u8>) -> Seq<u8>;

/// Calls `sha3::Sha3_256::digest`. The contract claims that the 32 bytes depend
/// on the hashed bytes alone.
#[verifier::external_body]
fn sha3_256(bytes: &[u8]) -> (r: [u8; 32])
    ensures
        r@ == sha3_256_digest(bytes@),
{
    <sha3::Sha3_256 as sha3::Digest>::digest(bytes).into()
}

/// The hash of the type of that name.
pub open spec fn name_hash(name: Seq<char>) -> Seq<u8> {
    sha3_256_digest(encode_utf8(name)).take(16)
}

/// Takes the hash of the name of a type and returns it: the first half of its
/// SHA3-256 digest. Has the potential to change between compiler versions where
/// the name has.
pub fn type_hash(name: &str) -> (r: [u8; 16])
    ensures
        r@ == name_hash(name@),
        forall|k: int| 0 <= k < 16 ==> #[trigger] r@[k] == sha3_256_digest(encode_utf8(name@))[k],
{
    let tmp: [u8; 32] = sha3_256(name.as_bytes());
    let mut res: [u8; 16] = [0u8; 16];
    let mut i: usize = 0;
    while i < 16
        invariant
            i <= 16,
            forall|k: int| 0 <= k < i ==> res@[k] == tmp@[k],
        decreases 16 - i,
    {
        res[i] = tmp[i];
        i = i + 1;
    }
    assert(res@ =~= tmp@.take(16));
    res
}

/// A color of a terminal.
#[derive(Clone, Copy, PartialEq, Eq, Structural, Debug)]
pub enum TerminalColor {
    White,
    Yellow,
    Green,
    Cyan,
    BrightBlack,
    Blue,
    BrightCyan,
    BrightGreen,
    Default,
}

/// The colors that are given out in turn.
pub open spec fn color_cycle() -> Seq<TerminalColor> {
    seq![
        TerminalColor::White,
        TerminalColor::Yellow,
        TerminalColor::Green,
        TerminalColor::Cyan,
        TerminalColor::BrightBlack,
        TerminalColor::Blue,
        TerminalColor::BrightCyan,
        TerminalColor::BrightGreen,
    ]
}

/// The color for the request with that number, the requests being counted from 0
pub fn next_terminal_color(inx: usize) -> (r: TerminalColor)
    ensures
        r == color_cycle()[inx as int % 8],
{
    let i: usize = inx % 8;
    if i == 0 {
        TerminalColor::White
    } else if i == 1 {
        TerminalColor::Yellow
    } else if i == 2 {
        TerminalColor::Green
    } else if i == 3 {
        TerminalColor::Cyan
    } else if i == 4 {
        TerminalColor::BrightBlack
    } else if i == 5 {
        TerminalColor::Blue
    } else if i == 6 {
        TerminalColor::BrightCyan
    } else {
        TerminalColor::BrightGreen
    }
}

/// Requests that follow each other within one turn of the cycle get different
/// colors, and the colors repeat from turn to turn.
pub proof fn colors_take_turns(i: nat, j: nat)
    ensures
        i < j < i + 8 ==> color_cycle()[(i % 8) as int] != color_cycle()[(j % 8) as int],
        color_cycle()[(i % 8) as int] == color_cycle()[((i + 8) % 8) as int],
{
    let a = (i % 8) as int;
    let b = (j % 8) as int;
    if i < j < i + 8 {
        assert(a != b);
    }
    assert((i + 8) % 8 == i % 8);
}

/// The number that stands for the color in the escape sequence that sets it.
pub open spec fn color_code(c: TerminalColor) -> nat {
    match c {
        TerminalColor::White => 37,
        TerminalColor::Yellow => 33,
        TerminalColor::Green => 32,
        TerminalColor::Cyan => 36,
        TerminalColor::BrightBlack => 90,
        TerminalColor::Blue => 34,
        TerminalColor::BrightCyan => 96,
        TerminalColor::BrightGreen => 92,
        TerminalColor::Default => 39,
    }
}

/// The text in the color: between the escape sequences that set the color and
/// that set it back.
pub open spec fn colored(s: Seq<char>, c: TerminalColor) -> Seq<char> {
    "\u{1b}["@ + decimal(color_code(c)) + "m"@ + s + "\u{1b}[39m"@
}

/// Calls `owo_colors::OwoColorize::color` and formats the outcome by its
/// `Display`: the escape sequence of the color, the text, and the escape
/// sequence of the default color.
#[verifier::external_body]
pub(crate) fn color_text(s: &str, c: TerminalColor) -> (r: String)
    ensures
        r@ == colored(s@, c),
{
    let color = match c {
        TerminalColor::White => owo_colors::AnsiColors::White,
        TerminalColor::Yellow => owo_colors::AnsiColors::Yellow,
        TerminalColor::Green => owo_colors::AnsiColors::Green,
        TerminalColor::Cyan => owo_colors::AnsiColors::Cyan,
        TerminalColor::BrightBlack => owo_colors::AnsiColors::BrightBlack,
        TerminalColor::Blue => owo_colors::AnsiColors::Blue,
        TerminalColor::BrightCyan => owo_colors::AnsiColors::BrightCyan,
        TerminalColor::BrightGreen => owo_colors::AnsiColors::BrightGreen,
        TerminalColor::Default => owo_colors::AnsiColors::Default,
    };
    owo_colors::OwoColorize::color(&s, color).to_string()
}

/// An element is in order exactly if there is more to it than the dot of an extension
/// and no character of it parts components.
pub proof fn endings_in_order_are_single_components(s: Seq<char>)
    ensures
        ending_fault(s) is None <==> {
            &&& s.len() > 0
            &&& s != seq!['.']
            &&& !s.contains('/')
            &&& !s.contains('\\')
        },
{
    let e = ending_of(s);
    if s.len() == 1 && s[0] == '.' {
        assert(s =~= seq!['.']);
    }
    if has_separator(e) {
        let k = choose|k: int| 0 <= k < e.len() && is_separator(#[trigger] e[k]);
        let c = e[k];
        if stands_for_extension(s) {
            assert(s[k + 1] == c);
        }
        assert(s.contains(c));
    }
    if s.contains('/') {
        let k = choose|k: int| 0 <= k < s.len() && s[k] == '/';
        if stands_for_extension(s) {
            assert(is_separator(e[k - 1]));
        } else {
            assert(is_separator(e[k]));
        }
    }
    if s.contains('\\') {
        let k = choose|k: int| 0 <= k < s.len() && s[k] == '\\';
        if stands_for_extension(s) {
            assert(is_separator(e[k - 1]));
        } else {
            assert(is_separator(e[k]));
        }
    }
}

proof fn lemma_endings(elements: Seq<Seq<char>>, s: Seq<char>)
    ensures
        ending_names(elements).contains(s) <==> exists|i: int|
            0 <= i < elements.len() && #[trigger] elements[i] == s && !(s.len() > 0 && s[0] == '.'),
        ending_extensions(elements).contains(s) <==> exists|i: int|
            0 <= i < elements.len() && #[trigger] elements[i] == seq!['.'] + s,
    decreases elements.len(),
{
    if elements.len() > 0 {
        let front = elements.drop_last();
        let last = elements.last();
        lemma_endings(front, s);
        assert(forall|i: int| 0 <= i < front.len() ==> front[i] == #[trigger] elements[i]);
        assert(forall|i: int| 0 <= i < front.len() ==> #[trigger] front[i] == elements[i]);
        assert(elements[elements.len() - 1] == last);
        let dotted = seq!['.'] + s;
        assert(dotted.skip(1) =~= s);
        if stands_for_extension(last) {
            assert(last =~= seq!['.'] + last.skip(1));
        }
        let a = ending_names(front);
        let b = ending_names(elements);
        if a.contains(s) {
            let k = choose|k: int| 0 <= k < a.len() && a[k] == s;
            assert(b[k] == s);
        }
        if b.contains(s) && !a.contains(s) {
            let k = choose|k: int| 0 <= k < b.len() && b[k] == s;
            if k < a.len() {
                assert(a[k] == s);
            }
        }
        if last == s && !(s.len() > 0 && s[0] == '.') {
            assert(b[a.len() as int] == s);
        }
        let a = ending_extensions(front);
        let b = ending_extensions(elements);
        if a.contains(s) {
            let k = choose|k: int| 0 <= k < a.len() && a[k] == s;
            assert(b[k] == s);
        }
        if b.contains(s) && !a.contains(s) {
            let k = choose|k: int| 0 <= k < b.len() && b[k] == s;
            if k < a.len() {
                assert(a[k] == s);
            }
        }
        if last == dotted {
            assert(dotted[0] == '.');
            assert(b[a.len() as int] == s);
        }
    }
}

/// What a removal takes: the files that bear the name of an element without a leading
/// dot, and those that end in an element with one, behind a name that is more than a
/// dot.
pub proof fn removal_takes_what_elements_say(
    removal: Removal,
    elements: Seq<Seq<char>>,
    i: int,
    base: Seq<char>,
)
    requires
        texts(removal.file_names@) == ending_names(elements),
        texts(removal.extensions@) == ending_extensions(elements),
        0 <= i < elements.len(),
        elements[i].len() > 0,
    ensures
        elements[i][0] != '.' ==> removal.covers(elements[i]),
        elements[i][0] == '.' && base.len() > 0 && base != seq!['.'] ==> removal.covers(
            base + elements[i],
        ),
{
    let e = elements[i];
    if e[0] != '.' {
        lemma_endings(elements, e);
    } else if base.len() > 0 && base != seq!['.'] {
        let ext = e.skip(1);
        let d = base.len() as int;
        assert(e =~= seq!['.'] + ext);
        lemma_endings(elements, ext);
        let name = base + e;
        assert(name[d] == '.');
        if d == 1 && name[0] == '.' {
            assert(base =~= seq!['.']);
        }
        assert(begins_extension(name, d));
        assert(name.skip(d + 1) =~= ext);
    }
}

/// A removal takes nothing that no element says: a file that it takes bears the name of
/// an element, or ends in an element with a leading dot, with something before it.
pub proof fn removal_takes_nothing_else(
    removal: Removal,
    elements: Seq<Seq<char>>,
    name: Seq<char>,
)
    requires
        texts(removal.file_names@) == ending_names(elements),
        texts(removal.extensions@) == ending_extensions(elements),
        removal.covers(name),
    ensures
        exists|i: int|
            0 <= i < elements.len() && (name == #[trigger] elements[i] || (elements[i].len() > 0
                && elements[i][0] == '.' && name.len() > elements[i].len() && name.skip(
                name.len() - elements[i].len(),
            ) == elements[i])),
{
    if texts(removal.file_names@).contains(name) {
        lemma_endings(elements, name);
    } else {
        let d = choose|d: int| #[trigger]
            begins_extension(name, d) && texts(removal.extensions@).contains(name.skip(d + 1));
        let ext = name.skip(d + 1);
        lemma_endings(elements, ext);
        let i = choose|i: int|
            0 <= i < elements.len() && #[trigger] elements[i] == seq!['.'] + ext;
        assert(name.skip(name.len() - elements[i].len()) =~= elements[i]);
    }
}

/// The colors that are given out, from the first request on.
pub proof fn colors_come_in_this_order(turn: nat)
    ensures
        color_cycle().len() == 8,
        color_cycle()[(8 * turn) as int % 8] == TerminalColor::White,
        color_cycle()[(8 * turn + 1) as int % 8] == TerminalColor::Yellow,
        color_cycle()[(8 * turn + 2) as int % 8] == TerminalColor::Green,
        color_cycle()[(8 * turn + 3) as int % 8] == TerminalColor::Cyan,
        color_cycle()[(8 * turn + 4) as int % 8] == TerminalColor::BrightBlack,
        color_cycle()[(8 * turn + 5) as int % 8] == TerminalColor::Blue,
        color_cycle()[(8 * turn + 6) as int % 8] == TerminalColor::BrightCyan,
        color_cycle()[(8 * turn + 7) as int % 8] == TerminalColor::BrightGreen,
{
}

/// The errors of a removal and of retrying say what was asked for, and where it is at
/// fault.
pub proof fn faults_are_told_with_their_arguments(
    dir: Seq<char>,
    elements: Seq<Seq<char>>,
    i: nat,
    num_retries: u64,
    delay: Duration,
)
    ensures
        ({
            let call = "remove_files_in_dir(dir: "@ + os_quoted(dir) + ", ends_with: "@
                + debug_list(elements) + ")"@;
            let at = call + " -> `ends_with` element "@ + decimal(i);
            &&& removal_text(dir, elements) == call
            &&& fault_text(dir, elements, i, EndingFault::Empty) == at + " is empty"@
            &&& fault_text(dir, elements, i, EndingFault::NoComponent) == at
                + " has no component"@
            &&& fault_text(dir, elements, i, EndingFault::ManyComponents) == at
                + " has more than one component"@
        }),
        retry_text(num_retries, delay) == "wait_for_ok(num_retries: "@ + decimal(
            num_retries as nat,
        ) + ", delay: "@ + duration_debug(delay.secs, delay.nanos)
            + ") timeout, last error stack was"@,
{
}

/// The names and extensions of a removal keep the order of its elements.
pub proof fn endings_keep_their_order(elements: Seq<Seq<char>>, element: Seq<char>)
    requires
        element.len() > 0,
    ensures
        element[0] == '.' ==> ending_extensions(elements.push(element)) == ending_extensions(
            elements,
        ).push(element.skip(1)) && ending_names(elements.push(element)) == ending_names(elements),
        element[0] != '.' ==> ending_names(elements.push(element)) == ending_names(elements).push(
            element,
        ) && ending_extensions(elements.push(element)) == ending_extensions(elements),
{
    assert(elements.push(element).drop_last() =~= elements);
}

/// A dot begins an extension unless it is the first character of the name; behind a first
/// character that is itself a dot it does only if another character than a dot follows.
pub proof fn dots_begin_extensions(name: Seq<char>, d: int)
    ensures
        d <= 0 || d >= name.len() ==> !begins_extension(name, d),
        2 <= d < name.len() ==> (begins_extension(name, d) <==> name[d] == '.'),
        1 == d < name.len() && name[0] != '.' ==> (begins_extension(name, d) <==> name[d] == '.'),
        1 == d < name.len() && name[0] == '.' ==> (begins_extension(name, d) <==> name[1] == '.'
            && name.len() > 2 && name[2] != '.'),
{
}

} // verus!
