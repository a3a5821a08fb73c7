//! Finding containers and their addresses in what docker prints.

use vstd::prelude::*;
use vstd::utf8::{decode_utf8, valid_utf8};

use crate::command::{status_successful, Command, CommandResult};
use crate::dockerfile::{docker, is_docker, push_arg, push_args};
use crate::error::{Error, ErrorKind, ErrorView, KindView};
use crate::json::{indexing_failed, json_parsed, parse_json, Json, JsonView};
use crate::text::{
    is_word, lemma_find_from, lemma_words_parted, occurs_at, prefix_and_rest_are_the_text,
    trimming_keeps_the_words, trimming_leaves_what_is_between, white_space, word_is_its_only_word,
};
use crate::text::{
    debug_quoted, find, from_chars, has_prefix, index_of, lines, split_lines, split_words,
    starts_with, texts, to_chars, trim, trimmed, words,
};
use crate::utf8::{utf8_error_text, utf8_fault};

verus! {

/// The command that shows what docker knows of a container
pub fn inspect_command(container_id: &str) -> (r: Command)
    ensures
        r.is_plain(),
        r.program@ == "docker"@,
        texts(r.args@) == seq!["inspect"@, container_id@],
        is_docker(r, seq!["inspect"@, container_id@]),
{
    let mut args: Vec<String> = Vec::new();
    push_arg(&mut args, "inspect");
    push_arg(&mut args, container_id);
    assert(texts(args@) =~= seq!["inspect"@, container_id@]);
    docker(args)
}

/// The address of the first network in what `docker inspect` shows, or what went
/// wrong on the way to it.
pub open spec fn inspected_address(v: JsonView) -> Result<Seq<char>, ErrorView> {
    match v.element(0) {
        None => Err(ErrorView::message(indexing_failed("v"@, crate::text::decimal(0)))),
        Some(container) => match container.member("NetworkSettings"@) {
            None => Err(ErrorView::message(indexing_failed("v"@, debug_quoted("NetworkSettings"@)))),
            Some(settings) => match settings.member("Networks"@) {
                None => Err(ErrorView::message(indexing_failed("v"@, debug_quoted("Networks"@)))),
                Some(JsonView::Object(networks)) => if networks.len() == 0 {
                    Err(ErrorView::of(KindView::Unit))
                } else {
                    match networks[0].value.member("IPAddress"@) {
                        None => Err(
                            ErrorView::message(indexing_failed("network"@, debug_quoted("IPAddress"@))),
                        ),
                        Some(JsonView::Text(s)) => if s.len() == 0 {
                            Err(
                                ErrorView::of(
                                    KindView::Str("IP address has not been assigned yet"@),
                                ),
                            )
                        } else {
                            Ok(s)
                        },
                        Some(_) => Err(ErrorView::of(KindView::Unit)),
                    }
                },
                Some(_) => Err(ErrorView::of(KindView::Unit)),
            },
        },
    }
}

/// An address is given exactly if it is the text at `IPAddress` of the first of the
/// `Networks` in the `NetworkSettings` of the first container, and is not empty.
pub proof fn address_is_that_of_the_first_network(v: JsonView, address: Seq<char>)
    ensures
        inspected_address(v) == Ok::<Seq<char>, ErrorView>(address) <==> {
            &&& address.len() > 0
            &&& v.element(0) matches Some(container)
            &&& container.member("NetworkSettings"@) matches Some(settings)
            &&& settings.member("Networks"@) matches Some(JsonView::Object(networks))
            &&& networks.len() > 0
            &&& networks[0].value.member("IPAddress"@) == Some(JsonView::Text(address))
        },
{
}

/// The address of the first network in what `docker inspect` shows
pub fn address_in(v: &Json) -> (r: Result<String, Error>)
    ensures
        match inspected_address(v@) {
            Ok(s) => r is Ok && r->Ok_0@ == s,
            Err(e) => r is Err && r->Err_0@ == e,
        },
{
    let container: &Json = match v.get_element("v", 0) {
        Ok(x) => x,
        Err(e) => {
            return Err(e);
        },
    };
    let settings: &Json = match container.get_member("v", "NetworkSettings") {
        Ok(x) => x,
        Err(e) => {
            return Err(e);
        },
    };
    let networks: &Json = match settings.get_member("v", "Networks") {
        Ok(x) => x,
        Err(e) => {
            return Err(e);
        },
    };
    match networks {
        Json::Object(members) => {
            proof {
                crate::json::lemma_object_view(*networks, *members);
            }
            if members.len() == 0 {
                return Err(Error::from_kind_locationless(ErrorKind::UnitError));
            }
            assert(networks@->Object_0[0].value == members@[0].value@);
            let addr: &Json = match members[0].value.get_member("network", "IPAddress") {
                Ok(x) => x,
                Err(e) => {
                    return Err(e);
                },
            };
            match addr {
                Json::Text(s) => {
                    let chars: Vec<char> = to_chars(s.as_str());
                    if chars.len() == 0 {
                        Err(
                            Error::from_kind_locationless(
                                ErrorKind::StrError("IP address has not been assigned yet"),
                            ),
                        )
                    } else {
                        Ok(s.clone())
                    }
                },
                _ => Err(Error::from_kind_locationless(ErrorKind::UnitError)),
            }
        },
        _ => Err(Error::from_kind_locationless(ErrorKind::UnitError)),
    }
}

/// The address of a container, given what running [inspect_command] returned.
/// There is a delay between a container starting and an IP address being
/// assigned, so this is to be retried.
pub fn get_ip_addr(inspected: Result<CommandResult, Error>) -> (r: Result<String, Error>)
    ensures
        match inspected {
            Err(e) => r is Err && r->Err_0@ == e@.with(
                KindView::Str("could not run `docker inspect`"@),
            ),
            Ok(comres) => if !status_successful(comres.status) {
                r is Err && r->Err_0@ == ErrorView::message(
                    comres.debug_view() + if comres.status is Some {
                        ".assert_success() -> unsuccessful"@
                    } else {
                        ".assert_success() -> termination was called before completion"@
                    },
                ).with(
                    KindView::Str("get_ip_addr -> `docker inspect` was not successful"@),
                )
            } else if !valid_utf8(comres.stdout@) {
                r is Err && r->Err_0@ == ErrorView::of(KindView::Boxed(utf8_fault(comres.stdout@)))
            } else {
                match json_parsed(decode_utf8(comres.stdout@)) {
                    Err(m) => r is Err && r->Err_0@ == ErrorView::of(KindView::SerdeJson(m)),
                    Ok(v) => match inspected_address(v) {
                        Ok(s) => r is Ok && r->Ok_0@ == s,
                        Err(e) => r is Err && r->Err_0@ == e,
                    },
                }
            },
        },
{
    match inspected {
        Err(e) => Err(
            e.add_err_no_location(ErrorKind::StrError("could not run `docker inspect`")),
        ),
        Ok(comres) => {
            if let Err(e) = comres.assert_success() {
                return Err(
                    e.add_err_no_location(
                        ErrorKind::StrError("get_ip_addr -> `docker inspect` was not successful"),
                    ),
                );
            }
            match comres.stdout_as_utf8() {
                Err(_) => {
                    let text: String = utf8_error_text(comres.stdout.as_slice());
                    Err(Error::from_kind_locationless(ErrorKind::BoxedError(text)))
                },
                Ok(s) => match parse_json(s) {
                    Err(e) => Err(e),
                    Ok(v) => address_in(&v),
                },
            }
        },
    }
}

/// Adds what was being done to the error of [get_ip_addr] when no retry is left
pub fn wait_get_ip_addr_error(container_id: &str, e: Error) -> (r: Error)
    ensures
        r@ == e@.with(
            KindView::Text("wait_get_ip_addr(container_id: "@ + container_id@ + ")"@),
        ),
{
    let mut text: String = "wait_get_ip_addr(container_id: ".to_owned();
    text.append(container_id);
    text.append(")");
    e.add_err_no_location(ErrorKind::StringError(text))
}

/// The name and the ID that a line of `docker ps` has.
#[verifier::ext_equal]
pub struct NameIdView {
    pub name: Seq<char>,
    pub id: Seq<char>,
}

/// The name and the ID of a running container.
pub struct NameId {
    pub name: String,
    pub id: String,
}

impl View for NameId {
    type V = NameIdView;

    open spec fn view(&self) -> NameIdView {
        NameIdView { name: self.name@, id: self.id@ }
    }
}

/// The name in a line of `docker ps`, which is its last field, if it has the
/// prefix.
pub open spec fn line_name(line: Seq<char>, prefix: Seq<char>) -> Option<Seq<char>> {
    let fields = words(trimmed(line));
    if fields.len() > 0 && has_prefix(fields.last(), prefix) {
        Some(fields.last())
    } else {
        None
    }
}

/// The ID in a line of `docker ps`: what comes before the first space.
pub open spec fn line_id(line: Seq<char>) -> Option<Seq<char>> {
    match find(trimmed(line), " "@) {
        Some(i) => Some(trimmed(line).take(i)),
        None => None,
    }
}

/// The one container in the lines whose name has the prefix, `found` being one of
/// an earlier line: none if there are several. A line with such a name and no ID
/// is an error.
pub open spec fn scan_lines(
    rest: Seq<Seq<char>>,
    prefix: Seq<char>,
    found: Option<NameIdView>,
) -> Result<Option<NameIdView>, ErrorView>
    decreases rest.len(),
{
    if rest.len() == 0 {
        Ok(found)
    } else {
        match line_name(rest[0], prefix) {
            None => scan_lines(rest.skip(1), prefix, found),
            Some(name) => match line_id(rest[0]) {
                None => Err(ErrorView::of(KindView::Unit)),
                Some(id) => if found is Some {
                    Ok(None)
                } else {
                    scan_lines(rest.skip(1), prefix, Some(NameIdView { name, id }))
                },
            },
        }
    }
}

/// The lines behind the first.
pub open spec fn lines_below(s: Seq<char>) -> Seq<Seq<char>> {
    if lines(s).len() == 0 {
        Seq::empty()
    } else {
        lines(s).skip(1)
    }
}

/// The running container whose name has the prefix, if there is exactly one.
/// `printed` is what `docker ps` printed, with a line of headings first.
pub fn find_container(printed: &str, prefix: &str) -> (r: Result<Option<NameId>, Error>)
    ensures
        match scan_lines(lines_below(printed@), prefix@, None) {
            Ok(None) => r matches Ok(None),
            Ok(Some(x)) => r matches Ok(Some(y)) && y@ == x,
            Err(e) => r is Err && r->Err_0@ == e,
        },
{
    let all: Vec<String> = split_lines(printed);
    let ghost rest = lines_below(printed@);
    let mut found: Option<NameId> = None;
    let mut i: usize = 1;
    if all.len() == 0 {
        assert(texts(all@).len() == 0);
        return Ok(None);
    }
    while i < all.len()
        invariant
            1 <= i <= all@.len(),
            rest == lines_below(printed@),
            scan_lines(rest, prefix@, None) == scan_lines(
                texts(all@).skip(i as int),
                prefix@,
                match found {
                    Some(x) => Some(x@),
                    None => None,
                },
            ),
        decreases all@.len() - i,
    {
        let ghost here = texts(all@).skip(i as int);
        proof {
            assert(here[0] == all@[i as int]@);
            assert(here.skip(1) =~= texts(all@).skip(i + 1));
        }
        let line: String = trim(all[i].as_str());
        let fields: Vec<String> = split_words(line.as_str());
        let n: usize = fields.len();
        assert(texts(fields@).len() == n);
        if n > 0 {
            assert(texts(fields@).last() == fields@[n - 1]@);
            if starts_with(fields[n - 1].as_str(), prefix) {
                let chars: Vec<char> = to_chars(line.as_str());
                let space: Vec<char> = to_chars(" ");
                proof {
                    crate::text::lemma_find_from(line@, " "@, 0);
                }
                match index_of(&chars, &space, 0) {
                    None => {
                        return Err(Error::from_kind_locationless(ErrorKind::UnitError));
                    },
                    Some(k) => {
                        if found.is_some() {
                            return Ok(None);
                        }
                        let id: String = from_chars(&chars, 0, k);
                        assert(id@ =~= line@.take(k as int));
                        found = Some(NameId { name: fields[n - 1].clone(), id });
                    },
                }
            }
        }
        i = i + 1;
    }
    proof {
        assert(texts(all@).skip(i as int) =~= Seq::<Seq<char>>::empty());
    }
    Ok(found)
}

/// A container is only found if it is the only one: if two lines have names with
/// the prefix and IDs, the outcome is never a container.
pub proof fn several_containers_are_not_found(
    rest: Seq<Seq<char>>,
    prefix: Seq<char>,
    found: Option<NameIdView>,
    i: int,
)
    requires
        0 <= i < rest.len(),
        line_name(rest[i], prefix) is Some,
        found is Some || exists|k: int|
            0 <= k < i && (#[trigger] line_name(rest[k], prefix)) is Some,
    ensures
        scan_lines(rest, prefix, found) is Err || scan_lines(rest, prefix, found) == Ok::<
            Option<NameIdView>,
            ErrorView,
        >(None),
    decreases rest.len(),
{
    let tail = rest.skip(1);
    if i > 0 {
        assert(tail[i - 1] == rest[i]);
        match line_name(rest[0], prefix) {
            None => {
                if found is None {
                    let k = choose|k: int|
                        0 <= k < i && (#[trigger] line_name(rest[k], prefix)) is Some;
                    assert(k > 0);
                    assert(tail[k - 1] == rest[k]);
                    assert(line_name(tail[k - 1], prefix) is Some);
                }
                several_containers_are_not_found(tail, prefix, found, i - 1);
            },
            Some(name) => {
                if line_id(rest[0]) is Some && found is None {
                    several_containers_are_not_found(
                        tail,
                        prefix,
                        Some(NameIdView { name, id: line_id(rest[0])->0 }),
                        i - 1,
                    );
                }
            },
        }
    }
}

/// The line ends in a word that begins with the prefix.
pub open spec fn ends_in_prefixed_word(line: Seq<char>, prefix: Seq<char>) -> bool {
    &&& words(line).len() > 0
    &&& words(line).last().len() >= prefix.len()
    &&& words(line).last().take(prefix.len() as int) == prefix
}

/// A line has a name exactly if it ends in a word that begins with the prefix, and the
/// name is that word.
pub proof fn name_is_the_last_word(line: Seq<char>, prefix: Seq<char>)
    ensures
        line_name(line, prefix) == if ends_in_prefixed_word(line, prefix) {
            Some(words(line).last())
        } else {
            None
        },
{
    trimming_keeps_the_words(line);
    if words(line).len() > 0 {
        prefix_and_rest_are_the_text(words(line).last(), prefix);
    }
}

/// A line that has an ID, a name behind it and anything between them ends in the name,
/// and its ID is what comes before the first space.
pub proof fn line_gives_name_and_id(
    id: Seq<char>,
    between: Seq<char>,
    name: Seq<char>,
    prefix: Seq<char>,
)
    requires
        is_word(id),
        is_word(name),
    ensures
        ({
            let line = id + " "@ + between + " "@ + name;
            &&& words(line).len() > 1
            &&& words(line).last() == name
            &&& line_name(line, prefix) == if name.len() >= prefix.len() && name.take(
                prefix.len() as int,
            ) == prefix {
                Some(name)
            } else {
                None
            }
            &&& line_id(line) == Some(id)
        }),
{
    reveal_strlit(" ");
    assert(" "@ =~= seq![' ']);
    let line = id + " "@ + between + " "@ + name;
    let front = id + " "@ + between;
    lemma_words_parted(id, ' ', between);
    lemma_words_parted(front, ' ', name);
    word_is_its_only_word(id);
    word_is_its_only_word(name);
    assert(front == id + seq![' '] + between);
    assert(line == front + seq![' '] + name);
    assert(words(line) == words(front) + seq![name]);
    name_is_the_last_word(line, prefix);
    let none = Seq::<char>::empty();
    assert(line[0] == id[0]);
    assert(line.last() == name[name.len() - 1]);
    trimming_leaves_what_is_between(none, line, none);
    assert(none + line + none =~= line);
    lemma_find_from(line, " "@, 0);
    assert(line.subrange(id.len() as int, id.len() + 1int) =~= " "@);
    assert(occurs_at(line, " "@, id.len() as int));
    assert forall|j: int| 0 <= j < id.len() implies !#[trigger] occurs_at(line, " "@, j) by {
        assert(line.subrange(j, j + 1)[0] == id[j]);
        assert(!white_space(id[j]));
    }
    assert(line.take(id.len() as int) =~= id);
}

proof fn lemma_scan_unnamed(rest: Seq<Seq<char>>, prefix: Seq<char>, found: Option<NameIdView>)
    requires
        forall|j: int|
            0 <= j < rest.len() ==> !ends_in_prefixed_word(#[trigger] rest[j], prefix),
    ensures
        scan_lines(rest, prefix, found) == Ok::<Option<NameIdView>, ErrorView>(found),
    decreases rest.len(),
{
    if rest.len() > 0 {
        let tail = rest.skip(1);
        assert(!ends_in_prefixed_word(rest[0], prefix));
        name_is_the_last_word(rest[0], prefix);
        assert forall|j: int| 0 <= j < tail.len() implies !ends_in_prefixed_word(
            #[trigger] tail[j],
            prefix,
        ) by {
            assert(tail[j] == rest[j + 1]);
        }
        lemma_scan_unnamed(tail, prefix, found);
    }
}

proof fn lemma_scan_one(rest: Seq<Seq<char>>, prefix: Seq<char>, k: int, x: NameIdView)
    requires
        0 <= k < rest.len(),
        line_name(rest[k], prefix) == Some(x.name),
        line_id(rest[k]) == Some(x.id),
        forall|j: int|
            0 <= j < rest.len() && j != k ==> !ends_in_prefixed_word(#[trigger] rest[j], prefix),
    ensures
        scan_lines(rest, prefix, None) == Ok::<Option<NameIdView>, ErrorView>(Some(x)),
    decreases rest.len(),
{
    let tail = rest.skip(1);
    if k == 0 {
        assert forall|j: int| 0 <= j < tail.len() implies !ends_in_prefixed_word(
            #[trigger] tail[j],
            prefix,
        ) by {
            assert(tail[j] == rest[j + 1]);
        }
        lemma_scan_unnamed(tail, prefix, Some(x));
    } else {
        assert(!ends_in_prefixed_word(rest[0], prefix));
        name_is_the_last_word(rest[0], prefix);
        assert(tail[k - 1] == rest[k]);
        assert forall|j: int| 0 <= j < tail.len() && j != k - 1 implies !ends_in_prefixed_word(
            #[trigger] tail[j],
            prefix,
        ) by {
            assert(tail[j] == rest[j + 1]);
        }
        lemma_scan_one(tail, prefix, k - 1, x);
    }
}

/// If below the headings just one line ends in a word with the prefix, and it is an ID,
/// anything, and that word, then the container found has the word as its name and that
/// ID, however many fields come between.
pub proof fn only_container_with_the_prefix_is_found(
    printed: Seq<char>,
    prefix: Seq<char>,
    k: int,
    id: Seq<char>,
    between: Seq<char>,
    name: Seq<char>,
)
    requires
        1 <= k < lines(printed).len(),
        lines(printed)[k] == id + " "@ + between + " "@ + name,
        is_word(id),
        is_word(name),
        name.len() >= prefix.len() && name.take(prefix.len() as int) == prefix,
        forall|j: int|
            1 <= j < lines(printed).len() && j != k ==> !ends_in_prefixed_word(
                #[trigger] lines(printed)[j],
                prefix,
            ),
    ensures
        scan_lines(lines_below(printed), prefix, None) == Ok::<Option<NameIdView>, ErrorView>(
            Some(NameIdView { name, id }),
        ),
{
    let rest = lines_below(printed);
    line_gives_name_and_id(id, between, name, prefix);
    assert(rest[k - 1] == lines(printed)[k]);
    assert forall|j: int| 0 <= j < rest.len() && j != k - 1 implies !ends_in_prefixed_word(
        #[trigger] rest[j],
        prefix,
    ) by {
        assert(rest[j] == lines(printed)[j + 1]);
    }
    lemma_scan_one(rest, prefix, k - 1, NameIdView { name, id });
}

/// If below the headings no line ends in a word with the prefix, no container is found,
/// whatever the headings are.
pub proof fn no_container_with_the_prefix_is_found(printed: Seq<char>, prefix: Seq<char>)
    requires
        forall|j: int|
            1 <= j < lines(printed).len() ==> !ends_in_prefixed_word(
                #[trigger] lines(printed)[j],
                prefix,
            ),
    ensures
        scan_lines(lines_below(printed), prefix, None) == Ok::<Option<NameIdView>, ErrorView>(None),
{
    let rest = lines_below(printed);
    assert forall|j: int| 0 <= j < rest.len() implies !ends_in_prefixed_word(
        #[trigger] rest[j],
        prefix,
    ) by {
        assert(rest[j] == lines(printed)[j + 1]);
    }
    lemma_scan_unnamed(rest, prefix, None);
}

/// If below the headings two lines end in words with the prefix, no container is found.
pub proof fn container_is_found_only_alone(printed: Seq<char>, prefix: Seq<char>, i: int, k: int)
    requires
        1 <= i < k < lines(printed).len(),
        ends_in_prefixed_word(lines(printed)[i], prefix),
        ends_in_prefixed_word(lines(printed)[k], prefix),
    ensures
        scan_lines(lines_below(printed), prefix, None) matches Ok(x) ==> x is None,
{
    let rest = lines_below(printed);
    assert(rest[i - 1] == lines(printed)[i]);
    assert(rest[k - 1] == lines(printed)[k]);
    name_is_the_last_word(rest[i - 1], prefix);
    name_is_the_last_word(rest[k - 1], prefix);
    several_containers_are_not_found(rest, prefix, None, k - 1);
}

/// The arguments of `docker exec` for a container: the arguments of `docker exec`
/// itself, the ID, then what is run in the container
pub fn auto_exec_args(exec_args: &Vec<String>, id: &str, container_args: &Vec<String>) -> (r: Vec<
    String,
>)
    ensures
        texts(r@) == texts(exec_args@) + seq![id@] + texts(container_args@),
{
    let mut r: Vec<String> = Vec::new();
    push_args(&mut r, exec_args);
    push_arg(&mut r, id);
    assert(texts(r@) =~= texts(exec_args@) + seq![id@]);
    push_args(&mut r, container_args);
    r
}

/// The `docker exec` command with the arguments, which forwards its streams
pub fn docker_exec(args: &Vec<String>) -> (r: Command)
    ensures
        r.program@ == "docker"@,
        texts(r.args@) == seq!["exec"@] + texts(args@),
        is_docker(r, seq!["exec"@] + texts(args@)),
        r.stdout_debug,
        r.stderr_debug,
        (Command { stdout_debug: false, stderr_debug: false, ..r }).is_plain(),
{
    let mut all: Vec<String> = Vec::new();
    push_arg(&mut all, "exec");
    assert(texts(all@) =~= seq!["exec"@]);
    push_args(&mut all, args);
    docker(all).debug(true)
}

/// The `docker exec` command that opens an interactive shell in a container
pub fn docker_exec_i(container_id: &str) -> (r: Command)
    ensures
        r.program@ == "docker"@,
        texts(r.args@) == seq!["exec"@, "-i"@, container_id@, "bash"@],
        is_docker(r, seq!["exec"@, "-i"@, container_id@, "bash"@]),
        r.stdout_debug,
        r.stderr_debug,
        (Command { stdout_debug: false, stderr_debug: false, ..r }).is_plain(),
{
    let mut args: Vec<String> = Vec::new();
    push_arg(&mut args, "-i");
    push_arg(&mut args, container_id);
    push_arg(&mut args, "bash");
    let r: Command = docker_exec(&args);
    assert(texts(r.args@) =~= seq!["exec"@, "-i"@, container_id@, "bash"@]);
    r
}

/// What follows while an executed command is waited for.
pub enum ExecStep {
    /// The command is over
    Finished,
    /// The command is terminated, then all is well
    Terminate,
    /// The command is terminated, then the error is returned
    TerminateWith(Error),
    /// It is looked at again after a delay
    Sleep,
}

/// Decides what follows. `waited` is what waiting for the command with no time
/// returned, which is not asked if Ctrl-C was issued.
pub fn docker_exec_step(ctrlc_issued: bool, waited: Result<(), Error>) -> (r: ExecStep)
    ensures
        if ctrlc_issued {
            r is Terminate
        } else {
            match waited {
                Ok(_) => r is Finished,
                Err(e) => if e@.timed_out() {
                    r is Sleep
                } else {
                    r == ExecStep::TerminateWith(e)
                },
            }
        },
{
    if ctrlc_issued {
        return ExecStep::Terminate;
    }
    match waited {
        Ok(_) => ExecStep::Finished,
        Err(e) => {
            if e.is_timeout() {
                ExecStep::Sleep
            } else {
                ExecStep::TerminateWith(e)
            }
        },
    }
}

/// A line that ends in a word with the prefix and has no space in it has no ID: that is an
/// error, if no line before it has such a word.
pub proof fn container_without_id_is_an_error(printed: Seq<char>, prefix: Seq<char>, k: int)
    requires
        1 <= k < lines(printed).len(),
        is_word(lines(printed)[k]),
        lines(printed)[k].len() >= prefix.len(),
        lines(printed)[k].take(prefix.len() as int) == prefix,
        forall|j: int|
            1 <= j < k ==> !ends_in_prefixed_word(#[trigger] lines(printed)[j], prefix),
    ensures
        scan_lines(lines_below(printed), prefix, None) matches Err(e) && e.kinds == seq![
            KindView::Unit,
        ],
{
    let rest = lines_below(printed);
    let line = lines(printed)[k];
    assert(rest[k - 1] == line);
    word_is_its_only_word(line);
    name_is_the_last_word(line, prefix);
    let none = Seq::<char>::empty();
    assert(!white_space(line[0]) && !white_space(line[line.len() - 1]));
    trimming_leaves_what_is_between(none, line, none);
    assert(none + line + none =~= line);
    reveal_strlit(" ");
    lemma_find_from(line, " "@, 0);
    assert forall|j: int| 0 <= j implies !#[trigger] occurs_at(line, " "@, j) by {
        if j + 1 <= line.len() {
            assert(line.subrange(j, j + 1)[0] == line[j]);
            assert(!white_space(line[j]));
            assert(" "@[0] == ' ');
        }
    }
    assert forall|j: int| 0 <= j < k - 1 implies !ends_in_prefixed_word(
        #[trigger] rest[j],
        prefix,
    ) by {
        assert(rest[j] == lines(printed)[j + 1]);
    }
    lemma_scan_error(rest, prefix, k - 1);
}

proof fn lemma_scan_error(rest: Seq<Seq<char>>, prefix: Seq<char>, k: int)
    requires
        0 <= k < rest.len(),
        line_name(rest[k], prefix) is Some,
        line_id(rest[k]) is None,
        forall|j: int| 0 <= j < k ==> !ends_in_prefixed_word(#[trigger] rest[j], prefix),
    ensures
        scan_lines(rest, prefix, None) == Err::<Option<NameIdView>, ErrorView>(
            ErrorView::of(KindView::Unit),
        ),
    decreases rest.len(),
{
    if k > 0 {
        let tail = rest.skip(1);
        assert(!ends_in_prefixed_word(rest[0], prefix));
        name_is_the_last_word(rest[0], prefix);
        assert(tail[k - 1] == rest[k]);
        assert forall|j: int| 0 <= j < k - 1 implies !ends_in_prefixed_word(
            #[trigger] tail[j],
            prefix,
        ) by {
            assert(tail[j] == rest[j + 1]);
        }
        lemma_scan_error(tail, prefix, k - 1);
    }
}

} // verus!
