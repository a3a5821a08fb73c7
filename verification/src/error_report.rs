//! The parts of the output of failed containers that tell what went wrong.

use vstd::prelude::*;

use crate::command::{status_successful, CommandResult};
use crate::error::{Error, ErrorKind, ErrorView, KindView};
use crate::text::{lemma_contains_find, lemma_find_from, lemma_rfind_from, occurs_at};
use crate::text::{
    contains, find, from_chars, has_text, index_of, last_index_of, rfind, to_chars,
};
use crate::utf8::utf8_lossy;

verus! {

/// The part of the output from the last error stack on, unless that stack says
/// that another container is the cause.
pub open spec fn stack_part(s: Seq<char>) -> Option<Seq<char>> {
    match rfind(s, "Error { stack: ["@) {
        Some(i) => if contains(s.skip(i), "ProbablyNotRootCauseError"@) {
            None
        } else {
            Some(s.skip(i))
        },
        None => None,
    }
}

/// The part of the output from the thread of the last panic on.
pub open spec fn panic_part(s: Seq<char>) -> Option<Seq<char>> {
    match rfind(s, " panicked at "@) {
        Some(i) => match rfind(s.take(i), "thread"@) {
            Some(k) => Some(s.skip(k)),
            None => None,
        },
        None => None,
    }
}

/// The part of the output from the last error stack on
pub fn find_stack_part(s: &str) -> (r: Option<String>)
    ensures
        match r {
            Some(t) => stack_part(s@) == Some(t@),
            None => stack_part(s@) is None,
        },
{
    let chars: Vec<char> = to_chars(s);
    let marker: Vec<char> = to_chars("Error { stack: [");
    match last_index_of(&chars, &marker) {
        Some(i) => {
            proof {
                crate::text::lemma_rfind_from(s@, marker@, s@.len() - marker@.len());
                assert(s@.skip(i as int) =~= s@.subrange(i as int, s@.len() as int));
            }
            let stack: String = from_chars(&chars, i, chars.len());
            if has_text(stack.as_str(), "ProbablyNotRootCauseError") {
                None
            } else {
                Some(stack)
            }
        },
        None => None,
    }
}

/// The part of the output from the thread of the last panic on
pub fn find_panic_part(s: &str) -> (r: Option<String>)
    ensures
        match r {
            Some(t) => panic_part(s@) == Some(t@),
            None => panic_part(s@) is None,
        },
{
    let chars: Vec<char> = to_chars(s);
    let marker: Vec<char> = to_chars(" panicked at ");
    match last_index_of(&chars, &marker) {
        Some(i) => {
            proof {
                crate::text::lemma_rfind_from(s@, marker@, s@.len() - marker@.len());
            }
            let head: String = from_chars(&chars, 0, i);
            assert(head@ =~= s@.take(i as int));
            let head: Vec<char> = to_chars(head.as_str());
            let thread: Vec<char> = to_chars("thread");
            match last_index_of(&head, &thread) {
                Some(k) => {
                    proof {
                        crate::text::lemma_rfind_from(
                            head@,
                            thread@,
                            head@.len() - thread@.len(),
                        );
                        assert(s@.skip(k as int) =~= s@.subrange(k as int, s@.len() as int));
                    }
                    Some(from_chars(&chars, k, chars.len()))
                },
                None => None,
            }
        },
        None => None,
    }
}

/// The kind with the text, if there is one.
pub open spec fn kinds_of(s: Option<Seq<char>>) -> Seq<KindView> {
    match s {
        Some(s) => seq![KindView::Text(s)],
        None => Seq::empty(),
    }
}

/// A text about the container `name` with a part of its output.
pub open spec fn report_text(
    head: Seq<char>,
    name: Seq<char>,
    mid: Seq<char>,
    part: Option<Seq<char>>,
) -> Option<Seq<char>> {
    match part {
        Some(p) => Some(head + name + mid + p + "\n"@),
        None => None,
    }
}

/// What is reported of the result of a container: nothing if it was successful,
/// else its last error stack and its last panic, or that neither was found if it
/// was not terminated from outside.
pub open spec fn result_report(name: Seq<char>, comres: CommandResult) -> Seq<KindView> {
    let s = utf8_lossy(comres.stdout@);
    if status_successful(comres.status) {
        Seq::empty()
    } else {
        kinds_of(
            report_text("Error stack from container \""@, name, "\":\n"@, stack_part(s)),
        ) + kinds_of(
            report_text("Panic message from container \""@, name, "\":\n"@, panic_part(s)),
        ) + kinds_of(
            if stack_part(s) is None && panic_part(s) is None && comres.status is Some {
                Some(
                    "Error: Container \""@ + name
                        + "\" was unsuccessful but does not seem to have an error stack or panic message\n"@,
                )
            } else {
                None
            },
        )
    }
}

/// Adds a text about a container with a part of its output, if there is one
fn push_report(e: Error, head: &str, name: &str, mid: &str, part: &Option<String>) -> (r: Error)
    ensures
        r@.locations == e@.locations,
        r@.kinds == e@.kinds + kinds_of(
            report_text(
                head@,
                name@,
                mid@,
                match *part {
                    Some(p) => Some(p@),
                    None => None,
                },
            ),
        ),
{
    match part {
        Some(p) => {
            let mut text: String = head.to_owned();
            text.append(name);
            text.append(mid);
            text.append(p.as_str());
            text.append("\n");
            let ghost t = text@;
            let r: Error = e.add_err_no_location(ErrorKind::StringError(text));
            assert(r@.kinds =~= e@.kinds + seq![KindView::Text(t)]);
            r
        },
        None => {
            assert(e@.kinds =~= e@.kinds + Seq::<KindView>::empty());
            e
        },
    }
}

/// Adds what is reported of the result of a container
pub fn add_result_report(e: Error, name: &str, comres: &CommandResult) -> (r: Error)
    ensures
        r@.locations == e@.locations,
        r@.kinds == e@.kinds + result_report(name@, *comres),
{
    if comres.successful() {
        assert(e@.kinds =~= e@.kinds + Seq::<KindView>::empty());
        return e;
    }
    let stdout: String = comres.stdout_as_utf8_lossy();
    let stack: Option<String> = find_stack_part(stdout.as_str());
    let panic: Option<String> = find_panic_part(stdout.as_str());
    let r: Error = push_report(e, "Error stack from container \"", name, "\":\n", &stack);
    let r: Error = push_report(r, "Panic message from container \"", name, "\":\n", &panic);
    let ghost before = r@.kinds;
    if stack.is_none() && panic.is_none() && !comres.successful_or_terminated() {
        let mut text: String = "Error: Container \"".to_owned();
        text.append(name);
        text.append(
            "\" was unsuccessful but does not seem to have an error stack or panic message\n",
        );
        let ghost t = text@;
        let r: Error = r.add_err_no_location(ErrorKind::StringError(text));
        assert(r@.kinds =~= before + seq![KindView::Text(t)]);
        assert(r@.kinds =~= e@.kinds + result_report(name@, *comres));
        r
    } else {
        assert(before =~= before + Seq::<KindView>::empty());
        assert(r@.kinds =~= e@.kinds + result_report(name@, *comres));
        r
    }
}

/// The error with nothing in it.
pub open spec fn empty_error() -> ErrorView {
    ErrorView { kinds: Seq::empty(), locations: Seq::empty() }
}

/// The error with nothing in it
pub fn new_report() -> (r: Error)
    ensures
        r@ == empty_error(),
{
    let r = Error { error_stack: Vec::new(), location_stack: Vec::new() };
    assert(r@ =~= empty_error());
    r
}

/// The longest part that is kept of a record.
pub open spec fn max_part() -> nat {
    10000
}

/// The end of `s`, up to the longest part that is kept.
pub open spec fn kept_end(s: Seq<char>) -> Seq<char> {
    if s.len() > max_part() {
        s.skip(s.len() - max_part())
    } else {
        s
    }
}

/// The part of a record from the first marker on, or from the last "thread"
/// before it if `find_thread` is set, cut to its end, unless what is kept contains
/// the text `ignore`.
pub open spec fn record_part(
    s: Seq<char>,
    marker: Seq<char>,
    ignore: Seq<char>,
    find_thread: bool,
) -> Option<Seq<char>> {
    let start = match find(s, marker) {
        Some(i) => if find_thread {
            rfind(s.take(i), "thread"@)
        } else {
            Some(i)
        },
        None => None,
    };
    match start {
        Some(i) => if contains(kept_end(s.skip(i)), ignore) {
            None
        } else {
            Some(kept_end(s.skip(i)))
        },
        None => None,
    }
}

/// The part of a record from the first marker on
pub fn find_record_part(s: &str, marker: &str, ignore: &str, find_thread: bool) -> (r: Option<
    String,
>)
    ensures
        match r {
            Some(t) => record_part(s@, marker@, ignore@, find_thread) == Some(t@),
            None => record_part(s@, marker@, ignore@, find_thread) is None,
        },
{
    let chars: Vec<char> = to_chars(s);
    let mark: Vec<char> = to_chars(marker);
    proof {
        crate::text::lemma_find_from(s@, marker@, 0);
    }
    let first: usize = match index_of(&chars, &mark, 0) {
        Some(i) => i,
        None => {
            return None;
        },
    };
    let start: usize = if find_thread {
        // find the "thread" before the "panicked at "
        let head: String = from_chars(&chars, 0, first);
        assert(head@ =~= s@.take(first as int));
        let head: Vec<char> = to_chars(head.as_str());
        let thread: Vec<char> = to_chars("thread");
        proof {
            crate::text::lemma_rfind_from(head@, thread@, head@.len() - thread@.len());
        }
        match last_index_of(&head, &thread) {
            Some(k) => k,
            None => {
                return None;
            },
        }
    } else {
        first
    };
    // some library error types that stand in the middle of an error stack have the
    // marker, so only the end of what goes over 10000 characters is kept
    let from: usize = if chars.len() - start > 10000 {
        chars.len() - 10000
    } else {
        start
    };
    let part: String = from_chars(&chars, from, chars.len());
    assert(part@ =~= kept_end(s@.skip(start as int)));
    if has_text(part.as_str(), ignore) {
        None
    } else {
        Some(part)
    }
}

/// What is reported of the record of a failed container: the first error and the
/// first panic in it, or that neither was found.
pub open spec fn record_report(name: Seq<char>, record: Seq<char>) -> Seq<KindView> {
    let ignore = "ProbablyNotRootCauseError"@;
    let error = record_part(record, "Error:"@, ignore, false);
    let panic = record_part(record, " panicked at "@, ignore, true);
    kinds_of(report_text("Error from container \""@, name, "\" std_record:\n"@, error)) + kinds_of(
        report_text("Panic message from container \""@, name, "\" std_record:\n"@, panic),
    ) + kinds_of(
        if error is None && panic is None {
            Some(
                "Error: Container \""@ + name
                    + "\" was unsuccessful but does not seem to have an error or panic message\n"@,
            )
        } else {
            None
        },
    )
}

/// Adds what is reported of the record of a failed container
pub fn add_record_report(e: Error, name: &str, record: &str) -> (r: Error)
    ensures
        r@.locations == e@.locations,
        r@.kinds == e@.kinds + record_report(name@, record@),
{
    let error: Option<String> = find_record_part(
        record,
        "Error:",
        "ProbablyNotRootCauseError",
        false,
    );
    let panic: Option<String> = find_record_part(
        record,
        " panicked at ",
        "ProbablyNotRootCauseError",
        true,
    );
    let r: Error = push_report(e, "Error from container \"", name, "\" std_record:\n", &error);
    let r: Error = push_report(
        r,
        "Panic message from container \"",
        name,
        "\" std_record:\n",
        &panic,
    );
    let ghost before = r@.kinds;
    if error.is_none() && panic.is_none() {
        let mut text: String = "Error: Container \"".to_owned();
        text.append(name);
        text.append(
            "\" was unsuccessful but does not seem to have an error or panic message\n",
        );
        let ghost t = text@;
        let r: Error = r.add_err_no_location(ErrorKind::StringError(text));
        assert(r@.kinds =~= before + seq![KindView::Text(t)]);
        assert(r@.kinds =~= e@.kinds + record_report(name@, record@));
        r
    } else {
        assert(before =~= before + Seq::<KindView>::empty());
        assert(r@.kinds =~= e@.kinds + record_report(name@, record@));
        r
    }
}

/// A failed container is never passed over: something is reported of its record,
/// and of its result unless it was terminated from outside.
pub proof fn failures_are_reported(name: Seq<char>, record: Seq<char>, comres: CommandResult)
    ensures
        record_report(name, record).len() > 0,
        comres.status is Some && !status_successful(comres.status) ==> result_report(
            name,
            comres,
        ).len() > 0,
        status_successful(comres.status) ==> result_report(name, comres).len() == 0,
{
}

/// A part of a record that is reported has at most 10000 characters, and never
/// hints that another container is the cause.
pub proof fn reported_parts_are_short(
    s: Seq<char>,
    marker: Seq<char>,
    ignore: Seq<char>,
    find_thread: bool,
)
    ensures
        record_part(s, marker, ignore, find_thread) matches Some(p) ==> p.len() <= 10000
            && !contains(p, ignore),
{
    crate::text::lemma_find_from(s, marker, 0);
    if let Some(i) = find(s, marker) {
        crate::text::lemma_rfind_from(s.take(i), "thread"@, i - "thread"@.len());
    }
}

proof fn lemma_last_at(s: Seq<char>, p: Seq<char>, i: int)
    requires
        occurs_at(s, p, i),
        forall|j: int| i < j ==> !#[trigger] occurs_at(s, p, j),
    ensures
        rfind(s, p) == Some(i),
{
    lemma_rfind_from(s, p, s.len() - p.len());
}

proof fn lemma_first_at(s: Seq<char>, p: Seq<char>, i: int)
    requires
        occurs_at(s, p, i),
        forall|j: int| 0 <= j < i ==> !#[trigger] occurs_at(s, p, j),
    ensures
        find(s, p) == Some(i),
{
    lemma_find_from(s, p, 0);
}

/// Of an output the last error stack is taken, up to the end of the output; if that
/// says that it is probably not the root cause, nothing is, and nothing is taken of
/// an output without a stack.
pub proof fn last_error_stack_is_taken(before: Seq<char>, stack: Seq<char>)
    ensures
        ({
            let s = before + "Error { stack: ["@ + stack;
            let taken = "Error { stack: ["@ + stack;
            (forall|j: int| before.len() < j ==> !#[trigger] occurs_at(s, "Error { stack: ["@, j))
                ==> stack_part(s) == if contains(taken, "ProbablyNotRootCauseError"@) {
                None
            } else {
                Some(taken)
            }
        }),
        !contains(before, "Error { stack: ["@) ==> stack_part(before) is None,
{
    let m = "Error { stack: ["@;
    let s = before + m + stack;
    assert(s.subrange(before.len() as int, (before.len() + m.len()) as int) =~= m);
    assert(s.skip(before.len() as int) =~= m + stack);
    if forall|j: int| before.len() < j ==> !#[trigger] occurs_at(s, m, j) {
        lemma_last_at(s, m, before.len() as int);
    }
    lemma_contains_find(before, m);
}

/// Of an output the last panic is taken, from the nearest word `thread` before it up
/// to the end of the output.
pub proof fn last_panic_is_taken(before: Seq<char>, between: Seq<char>, panic: Seq<char>)
    ensures
        ({
            let head = before + "thread"@ + between;
            let s = head + " panicked at "@ + panic;
            (forall|j: int| head.len() < j ==> !#[trigger] occurs_at(s, " panicked at "@, j)) && (
            forall|j: int| before.len() < j ==> !#[trigger] occurs_at(head, "thread"@, j))
                ==> panic_part(s) == Some("thread"@ + between + " panicked at "@ + panic)
        }),
        !contains(before, " panicked at "@) ==> panic_part(before) is None,
{
    let m = " panicked at "@;
    let t = "thread"@;
    let head = before + t + between;
    let s = head + m + panic;
    assert(s.subrange(head.len() as int, (head.len() + m.len()) as int) =~= m);
    assert(head.subrange(before.len() as int, (before.len() + t.len()) as int) =~= t);
    assert(s.take(head.len() as int) =~= head);
    assert(s.skip(before.len() as int) =~= t + between + m + panic);
    if (forall|j: int| head.len() < j ==> !#[trigger] occurs_at(s, m, j)) && (forall|j: int|
        before.len() < j ==> !#[trigger] occurs_at(head, t, j)) {
        lemma_last_at(s, m, head.len() as int);
        lemma_last_at(head, t, before.len() as int);
    }
    lemma_contains_find(before, m);
}

/// What is kept of a text is its end, all of it if it has at most 10000 characters and
/// 10000 of them if it has more.
pub proof fn kept_is_the_end(s: Seq<char>)
    ensures
        s.len() <= 10000 ==> kept_end(s) == s,
        s.len() > 10000 ==> kept_end(s).len() == 10000 && s.take(s.len() - 10000) + kept_end(s) == s,
{
    if s.len() > 10000 {
        assert(s.take(s.len() - 10000) + kept_end(s) =~= s);
    }
}

/// Of a record the first error is taken, from its marker on; a panic is taken from the
/// nearest word `thread` before its marker on.
pub proof fn first_marked_part_is_taken(
    before: Seq<char>,
    between: Seq<char>,
    marker: Seq<char>,
    rest: Seq<char>,
    ignore: Seq<char>,
)
    ensures
        ({
            let s = before + marker + rest;
            let taken = kept_end(marker + rest);
            (forall|j: int| 0 <= j < before.len() ==> !#[trigger] occurs_at(s, marker, j))
                ==> record_part(s, marker, ignore, false) == if contains(taken, ignore) {
                None
            } else {
                Some(taken)
            }
        }),
        ({
            let head = before + "thread"@ + between;
            let s = head + marker + rest;
            let taken = kept_end("thread"@ + between + marker + rest);
            (forall|j: int| 0 <= j < head.len() ==> !#[trigger] occurs_at(s, marker, j)) && (
            forall|j: int| before.len() < j ==> !#[trigger] occurs_at(head, "thread"@, j))
                ==> record_part(s, marker, ignore, true) == if contains(taken, ignore) {
                None
            } else {
                Some(taken)
            }
        }),
        !contains(before, marker) ==> record_part(before, marker, ignore, false) is None
            && record_part(before, marker, ignore, true) is None,
{
    let t = "thread"@;
    let s = before + marker + rest;
    assert(s.subrange(before.len() as int, (before.len() + marker.len()) as int) =~= marker);
    assert(s.skip(before.len() as int) =~= marker + rest);
    if forall|j: int| 0 <= j < before.len() ==> !#[trigger] occurs_at(s, marker, j) {
        lemma_first_at(s, marker, before.len() as int);
    }
    let head = before + t + between;
    let s = head + marker + rest;
    assert(s.subrange(head.len() as int, (head.len() + marker.len()) as int) =~= marker);
    assert(head.subrange(before.len() as int, (before.len() + t.len()) as int) =~= t);
    assert(s.take(head.len() as int) =~= head);
    assert(s.skip(before.len() as int) =~= t + between + marker + rest);
    if (forall|j: int| 0 <= j < head.len() ==> !#[trigger] occurs_at(s, marker, j)) && (forall|
        j: int,
    | before.len() < j ==> !#[trigger] occurs_at(head, t, j)) {
        lemma_first_at(s, marker, head.len() as int);
        lemma_last_at(head, t, before.len() as int);
    }
    lemma_contains_find(before, marker);
}

/// The report of an unsuccessful result has the error stack under the name of the
/// container, then the panic, each if there is one; with neither it says so.
pub proof fn result_report_has_what_was_found(name: Seq<char>, comres: CommandResult)
    requires
        !(comres.status matches Some(status) && status.success),
    ensures
        ({
            let s = utf8_lossy(comres.stdout@);
            let stack = |p: Seq<char>|
                KindView::Text(
                    "Error stack from container \""@ + name + "\":\n"@ + p + "\n"@,
                );
            let panic = |p: Seq<char>|
                KindView::Text(
                    "Panic message from container \""@ + name + "\":\n"@ + p + "\n"@,
                );
            result_report(name, comres) == match (stack_part(s), panic_part(s)) {
                (Some(e), Some(p)) => seq![stack(e), panic(p)],
                (Some(e), None) => seq![stack(e)],
                (None, Some(p)) => seq![panic(p)],
                (None, None) => if comres.status is Some {
                    seq![
                        KindView::Text(
                            "Error: Container \""@ + name
                                + "\" was unsuccessful but does not seem to have an error stack or panic message\n"@,
                        ),
                    ]
                } else {
                    Seq::empty()
                },
            }
        }),
{
    let s = utf8_lossy(comres.stdout@);
    let stack = |p: Seq<char>|
        KindView::Text("Error stack from container \""@ + name + "\":\n"@ + p + "\n"@);
    let panic = |p: Seq<char>|
        KindView::Text("Panic message from container \""@ + name + "\":\n"@ + p + "\n"@);
    let r = result_report(name, comres);
    match (stack_part(s), panic_part(s)) {
        (Some(e), Some(p)) => {
            assert(r =~= seq![stack(e), panic(p)]);
        },
        (Some(e), None) => {
            assert(r =~= seq![stack(e)]);
        },
        (None, Some(p)) => {
            assert(r =~= seq![panic(p)]);
        },
        (None, None) => {
            if comres.status is None {
                assert(r =~= Seq::<KindView>::empty());
            } else {
                assert(r =~= seq![
                    KindView::Text(
                        "Error: Container \""@ + name
                            + "\" was unsuccessful but does not seem to have an error stack or panic message\n"@,
                    ),
                ]);
            }
        },
    }
}

/// The report of a record has the first error under the name of the container, then
/// the first panic, each if there is one; with neither it says so.
pub proof fn record_report_has_what_was_found(name: Seq<char>, record: Seq<char>)
    ensures
        ({
            let ignore = "ProbablyNotRootCauseError"@;
            let error = |p: Seq<char>|
                KindView::Text(
                    "Error from container \""@ + name + "\" std_record:\n"@ + p + "\n"@,
                );
            let panic = |p: Seq<char>|
                KindView::Text(
                    "Panic message from container \""@ + name + "\" std_record:\n"@ + p + "\n"@,
                );
            record_report(name, record) == match (
                record_part(record, "Error:"@, ignore, false),
                record_part(record, " panicked at "@, ignore, true),
            ) {
                (Some(e), Some(p)) => seq![error(e), panic(p)],
                (Some(e), None) => seq![error(e)],
                (None, Some(p)) => seq![panic(p)],
                (None, None) => seq![
                    KindView::Text(
                        "Error: Container \""@ + name
                            + "\" was unsuccessful but does not seem to have an error or panic message\n"@,
                    ),
                ],
            }
        }),
{
    let ignore = "ProbablyNotRootCauseError"@;
    let error = |p: Seq<char>|
        KindView::Text("Error from container \""@ + name + "\" std_record:\n"@ + p + "\n"@);
    let panic = |p: Seq<char>|
        KindView::Text("Panic message from container \""@ + name + "\" std_record:\n"@ + p + "\n"@);
    let r = record_report(name, record);
    match (
        record_part(record, "Error:"@, ignore, false),
        record_part(record, " panicked at "@, ignore, true),
    ) {
        (Some(e), Some(p)) => {
            assert(r =~= seq![error(e), panic(p)]);
        },
        (Some(e), None) => {
            assert(r =~= seq![error(e)]);
        },
        (None, Some(p)) => {
            assert(r =~= seq![panic(p)]);
        },
        (None, None) => {
            assert(r =~= seq![
                KindView::Text(
                    "Error: Container \""@ + name
                        + "\" was unsuccessful but does not seem to have an error or panic message\n"@,
                ),
            ]);
        },
    }
}

} // verus!
