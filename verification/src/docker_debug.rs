//! What `Debug` shows of a network of containers whose names get a UUID.

use vstd::prelude::*;

use crate::command::{optional, text_pairs, CommandResult};
use crate::docker::{Container, ContainerNetwork};
use crate::dockerfile::{Dockerfile, DockerfileView};
use crate::error::{Error, ErrorKind, KindView};
use crate::file_options::{bool_text, show_bool};
use crate::name_map::NameMap;
use crate::text::joining_parts_neighbours;
use crate::text::{debug_list, debug_quote, debug_quoted, debug_texts, join, joined, texts};
use crate::uuid::hyphenated;

verus! {

/// What `Debug` shows of a map, given what it shows of the values.
pub open spec fn map_debug(names: Seq<Seq<char>>, shown: Seq<Seq<char>>) -> Seq<char> {
    "{"@ + joined(
        Seq::new(names.len(), |i: int| debug_quoted(names[i]) + ": "@ + shown[i]),
        ", "@,
    ) + "}"@
}

fn map_text(names: &Vec<String>, shown: &Vec<String>) -> (r: String)
    requires
        names@.len() == shown@.len(),
    ensures
        r@ == map_debug(texts(names@), texts(shown@)),
{
    let mut parts: Vec<String> = Vec::new();
    let mut i: usize = 0;
    while i < names.len()
        invariant
            i <= names@.len(),
            names@.len() == shown@.len(),
            parts@.len() == i,
            forall|k: int|
                0 <= k < i ==> (#[trigger] parts@[k])@ == debug_quoted(names@[k]@) + ": "@
                    + shown@[k]@,
        decreases names@.len() - i,
    {
        let mut t: String = debug_quote(names[i].as_str());
        t.append(": ");
        t.append(shown[i].as_str());
        parts.push(t);
        i = i + 1;
    }
    proof {
        let n = texts(names@);
        let v = texts(shown@);
        assert(texts(parts@) =~= Seq::new(
            n.len(),
            |i: int| debug_quoted(n[i]) + ": "@ + v[i],
        ));
    }
    let mut r: String = "{".to_owned();
    r.append(join(&parts, ", ").as_str());
    r.append("}");
    r
}

/// What `Debug` shows of a list of pairs of strings.
pub open spec fn string_pairs_debug(v: Seq<(Seq<char>, Seq<char>)>) -> Seq<char> {
    "["@ + joined(
        Seq::new(
            v.len(),
            |i: int| "("@ + debug_quoted(v[i].0) + ", "@ + debug_quoted(v[i].1) + ")"@,
        ),
        ", "@,
    ) + "]"@
}

fn string_pairs_text(v: &Vec<(String, String)>) -> (r: String)
    ensures
        r@ == string_pairs_debug(text_pairs(v@)),
{
    let mut parts: Vec<String> = Vec::new();
    let mut i: usize = 0;
    while i < v.len()
        invariant
            i <= v@.len(),
            parts@.len() == i,
            forall|k: int|
                0 <= k < i ==> (#[trigger] parts@[k])@ == "("@ + debug_quoted(v@[k].0@) + ", "@
                    + debug_quoted(v@[k].1@) + ")"@,
        decreases v@.len() - i,
    {
        let mut t: String = "(".to_owned();
        t.append(debug_quote(v[i].0.as_str()).as_str());
        t.append(", ");
        t.append(debug_quote(v[i].1.as_str()).as_str());
        t.append(")");
        parts.push(t);
        i = i + 1;
    }
    proof {
        let p = text_pairs(v@);
        assert(texts(parts@) =~= Seq::new(
            p.len(),
            |i: int| "("@ + debug_quoted(p[i].0) + ", "@ + debug_quoted(p[i].1) + ")"@,
        ));
    }
    let mut r: String = "[".to_owned();
    r.append(join(&parts, ", ").as_str());
    r.append("]");
    r
}

/// What `Debug` shows of an optional string.
pub open spec fn option_debug(s: Option<Seq<char>>) -> Seq<char> {
    match s {
        Some(s) => "Some("@ + debug_quoted(s) + ")"@,
        None => "None"@,
    }
}

fn option_text(s: &Option<String>) -> (r: String)
    ensures
        r@ == option_debug(optional(*s)),
{
    match s {
        Some(s) => {
            let mut r: String = "Some(".to_owned();
            r.append(debug_quote(s.as_str()).as_str());
            r.append(")");
            r
        },
        None => "None".to_owned(),
    }
}

/// What `Debug` shows of a dockerfile.
pub open spec fn dockerfile_debug(d: DockerfileView) -> Seq<char> {
    match d {
        DockerfileView::NameTag(s) => "NameTag("@ + debug_quoted(s) + ")"@,
        DockerfileView::Path(s) => "Path("@ + debug_quoted(s) + ")"@,
        DockerfileView::Contents(s) => "Contents("@ + debug_quoted(s) + ")"@,
    }
}

fn dockerfile_text(d: &Dockerfile) -> (r: String)
    ensures
        r@ == dockerfile_debug(d@),
{
    let (head, s): (&str, &String) = match d {
        Dockerfile::NameTag(s) => ("NameTag(", s),
        Dockerfile::Path(s) => ("Path(", s),
        Dockerfile::Contents(s) => ("Contents(", s),
    };
    let mut r: String = head.to_owned();
    r.append(debug_quote(s.as_str()).as_str());
    r.append(")");
    r
}

/// What `Debug` shows of a container.
pub open spec fn container_debug(c: Container) -> Seq<char> {
    "Container { name: "@ + debug_quoted(c.name@) + ", host_name: "@ + debug_quoted(c.host_name@)
        + ", no_uuid_for_host_name: "@ + bool_text(c.no_uuid_for_host_name) + ", dockerfile: "@
        + dockerfile_debug(c.dockerfile@) + ", build_args: "@ + debug_list(texts(c.build_args@))
        + ", create_args: "@ + debug_list(texts(c.create_args@)) + ", volumes: "@
        + string_pairs_debug(text_pairs(c.volumes@)) + ", environment_vars: "@
        + string_pairs_debug(text_pairs(c.environment_vars@)) + ", entrypoint_file: "@
        + option_debug(optional(c.entrypoint_file)) + ", entrypoint_args: "@ + debug_list(
        texts(c.entrypoint_args@),
    ) + " }"@
}

fn container_text(c: &Container) -> (r: String)
    ensures
        r@ == container_debug(*c),
{
    let mut r: String = "Container { name: ".to_owned();
    r.append(debug_quote(c.name.as_str()).as_str());
    r.append(", host_name: ");
    r.append(debug_quote(c.host_name.as_str()).as_str());
    r.append(", no_uuid_for_host_name: ");
    r.append(show_bool(c.no_uuid_for_host_name));
    r.append(", dockerfile: ");
    r.append(dockerfile_text(&c.dockerfile).as_str());
    r.append(", build_args: ");
    r.append(debug_texts(&c.build_args).as_str());
    r.append(", create_args: ");
    r.append(debug_texts(&c.create_args).as_str());
    r.append(", volumes: ");
    r.append(string_pairs_text(&c.volumes).as_str());
    r.append(", environment_vars: ");
    r.append(string_pairs_text(&c.environment_vars).as_str());
    r.append(", entrypoint_file: ");
    r.append(option_text(&c.entrypoint_file).as_str());
    r.append(", entrypoint_args: ");
    r.append(debug_texts(&c.entrypoint_args).as_str());
    r.append(" }");
    r
}

/// What `Debug` shows of the result of a container.
pub open spec fn result_debug(result: Result<CommandResult, Error>) -> Seq<char> {
    match result {
        Ok(comres) => "Ok("@ + comres.debug_view() + ")"@,
        Err(e) => "Err("@ + e@.debug() + ")"@,
    }
}

fn result_text(result: &Result<CommandResult, Error>) -> (r: String)
    ensures
        r@ == result_debug(*result),
{
    match result {
        Ok(comres) => {
            let mut r: String = "Ok(".to_owned();
            r.append(comres.debug_text().as_str());
            r.append(")");
            r
        },
        Err(e) => {
            let mut r: String = "Err(".to_owned();
            r.append(e.debug_text().as_str());
            r.append(")");
            r
        },
    }
}

fn containers_text(containers: &NameMap<Container>) -> (r: String)
    requires
        containers.wf(),
    ensures
        r@ == map_debug(
            containers.keys(),
            containers.values@.map_values(|c: Container| container_debug(c)),
        ),
{
    let mut shown: Vec<String> = Vec::new();
    let mut i: usize = 0;
    while i < containers.values.len()
        invariant
            i <= containers.values@.len(),
            shown@.len() == i,
            forall|k: int|
                0 <= k < i ==> (#[trigger] shown@[k])@ == container_debug(containers.values@[k]),
        decreases containers.values@.len() - i,
    {
        shown.push(container_text(&containers.values[i]));
        i = i + 1;
    }
    assert(texts(shown@) =~= containers.values@.map_values(|c: Container| container_debug(c)));
    map_text(&containers.names, &shown)
}

fn results_text(results: &NameMap<Result<CommandResult, Error>>) -> (r: String)
    requires
        results.wf(),
    ensures
        r@ == map_debug(
            results.keys(),
            results.values@.map_values(|x: Result<CommandResult, Error>| result_debug(x)),
        ),
{
    let mut shown: Vec<String> = Vec::new();
    let mut i: usize = 0;
    while i < results.values.len()
        invariant
            i <= results.values@.len(),
            shown@.len() == i,
            forall|k: int|
                0 <= k < i ==> (#[trigger] shown@[k])@ == result_debug(results.values@[k]),
        decreases results.values@.len() - i,
    {
        shown.push(result_text(&results.values[i]));
        i = i + 1;
    }
    assert(texts(shown@) =~= results.values@.map_values(
        |x: Result<CommandResult, Error>| result_debug(x),
    ));
    map_text(&results.names, &shown)
}

fn ids_text(ids: &NameMap<String>) -> (r: String)
    requires
        ids.wf(),
    ensures
        r@ == map_debug(ids.keys(), ids.values@.map_values(|id: String| debug_quoted(id@))),
{
    let mut shown: Vec<String> = Vec::new();
    let mut i: usize = 0;
    while i < ids.values.len()
        invariant
            i <= ids.values@.len(),
            shown@.len() == i,
            forall|k: int| 0 <= k < i ==> (#[trigger] shown@[k])@ == debug_quoted(ids.values@[k]@),
        decreases ids.values@.len() - i,
    {
        shown.push(debug_quote(ids.values[i].as_str()));
        i = i + 1;
    }
    assert(texts(shown@) =~= ids.values@.map_values(|id: String| debug_quoted(id@)));
    map_text(&ids.names, &shown)
}

impl ContainerNetwork {
    /// What `Debug` shows of a network that has no runners.
    pub open spec fn debug_view(self) -> Seq<char> {
        "ContainerNetwork { uuid: "@ + hyphenated(self.uuid.bits) + ", network_name: "@
            + debug_quoted(self.network_name@) + ", containers: "@ + map_debug(
            self.containers.keys(),
            self.containers.values@.map_values(|c: Container| container_debug(c)),
        ) + ", dockerfile_write_dir: "@ + option_debug(optional(self.dockerfile_write_dir))
            + ", is_not_internal: "@ + bool_text(self.is_not_internal) + ", log_dir: "@
            + debug_quoted(self.log_dir@) + ", active_container_ids: "@ + map_debug(
            self.active_container_ids.keys(),
            self.active_container_ids.values@.map_values(|id: String| debug_quoted(id@)),
        ) + ", container_runners: {}, container_results: "@ + map_debug(
            self.container_results.keys(),
            self.container_results.values@.map_values(
                |x: Result<CommandResult, Error>| result_debug(x),
            ),
        ) + ", network_active: "@ + bool_text(self.network_active) + " }"@
    }

    /// What `Debug` shows of a network that has no runners
    pub fn debug_text(&self) -> (r: String)
        requires
            self.wf(),
            self.container_runners@ == Map::<Seq<char>, ()>::empty(),
        ensures
            r@ == self.debug_view(),
    {
        let mut r: String = "ContainerNetwork { uuid: ".to_owned();
        r.append(self.uuid.to_text().as_str());
        r.append(", network_name: ");
        r.append(debug_quote(self.network_name.as_str()).as_str());
        r.append(", containers: ");
        r.append(containers_text(&self.containers).as_str());
        r.append(", dockerfile_write_dir: ");
        r.append(option_text(&self.dockerfile_write_dir).as_str());
        r.append(", is_not_internal: ");
        r.append(show_bool(self.is_not_internal));
        r.append(", log_dir: ");
        r.append(debug_quote(self.log_dir.as_str()).as_str());
        r.append(", active_container_ids: ");
        r.append(ids_text(&self.active_container_ids).as_str());
        r.append(", container_runners: {}, container_results: ");
        r.append(results_text(&self.container_results).as_str());
        r.append(", network_active: ");
        r.append(show_bool(self.network_active));
        r.append(" }");
        r
    }

    /// Adds what was being done to an error of running the create command, after
    /// everything was terminated
    pub fn create_error(&self, e: Error) -> (r: Error)
        requires
            self.wf(),
            self.container_runners@ == Map::<Seq<char>, ()>::empty(),
        ensures
            r@ == e@.with(KindView::Text(self.debug_view() + ".run()"@)),
    {
        let mut text: String = self.debug_text();
        text.append(".run()");
        e.add_err_no_location(ErrorKind::StringError(text))
    }
}

/// The entries of a map are shown in their order, each with its name in quotes.
pub proof fn maps_are_shown_entry_by_entry(
    names: Seq<Seq<char>>,
    shown: Seq<Seq<char>>,
    name: Seq<char>,
    value: Seq<char>,
)
    requires
        names.len() == shown.len(),
    ensures
        map_debug(Seq::empty(), Seq::empty()) == "{"@ + "}"@,
        map_debug(seq![name], seq![value]) == "{"@ + (debug_quoted(name) + ": "@ + value) + "}"@,
        names.len() > 0 ==> {
            let all = map_debug(names, shown);
            map_debug(names.push(name), shown.push(value)) == all.take(all.len() - "}"@.len())
                + ", "@ + (debug_quoted(name) + ": "@ + value) + "}"@
        },
{
    let entries = |n: Seq<Seq<char>>, v: Seq<Seq<char>>|
        Seq::new(n.len(), |i: int| debug_quoted(n[i]) + ": "@ + v[i]);
    let entry = debug_quoted(name) + ": "@ + value;
    let none = Seq::<Seq<char>>::empty();
    assert(entries(none, none) =~= none);
    assert(map_debug(none, none) =~= "{"@ + "}"@);
    assert(entries(seq![name], seq![value]) =~= seq![entry]);
    assert(joined(seq![entry], ", "@) == entry);
    if names.len() > 0 {
        let a = entries(names, shown);
        assert(entries(names.push(name), shown.push(value)) =~= a + seq![entry]);
        joining_parts_neighbours(a, seq![entry], ", "@);
        let all = map_debug(names, shown);
        assert(all.take(all.len() - "}"@.len()) =~= "{"@ + joined(a, ", "@));
        assert(map_debug(names.push(name), shown.push(value)) =~= "{"@ + joined(a, ", "@) + ", "@
            + entry + "}"@);
    }
}

/// What is shown of options, dockerfiles and results tells which variant they are.
pub proof fn variants_are_shown_by_their_names(
    s: Seq<char>,
    result: Result<CommandResult, Error>,
)
    ensures
        option_debug(Some(s)) == "Some("@ + debug_quoted(s) + ")"@,
        option_debug(None) == "None"@,
        dockerfile_debug(DockerfileView::NameTag(s)) == "NameTag("@ + debug_quoted(s) + ")"@,
        dockerfile_debug(DockerfileView::Path(s)) == "Path("@ + debug_quoted(s) + ")"@,
        dockerfile_debug(DockerfileView::Contents(s)) == "Contents("@ + debug_quoted(s) + ")"@,
        result matches Ok(c) ==> result_debug(result) == "Ok("@ + c.debug_view() + ")"@,
        result matches Err(e) ==> result_debug(result) == "Err("@ + e@.debug() + ")"@,
{
}

/// A container is shown by its name first, and a network by its UUID.
pub proof fn names_are_shown_first(c: Container, n: ContainerNetwork)
    ensures
        ({
            let head = "Container { name: "@ + debug_quoted(c.name@) + ", host_name: "@
                + debug_quoted(c.host_name@) + ", no_uuid_for_host_name: "@ + bool_text(
                c.no_uuid_for_host_name,
            ) + ", dockerfile: "@ + dockerfile_debug(c.dockerfile@);
            head.len() <= container_debug(c).len() && container_debug(c).take(head.len() as int)
                == head
        }),
        ({
            let head = "ContainerNetwork { uuid: "@ + hyphenated(n.uuid.bits) + ", network_name: "@
                + debug_quoted(n.network_name@) + ", containers: "@;
            head.len() <= n.debug_view().len() && n.debug_view().take(head.len() as int) == head
        }),
{
    let head = "Container { name: "@ + debug_quoted(c.name@) + ", host_name: "@ + debug_quoted(
        c.host_name@,
    ) + ", no_uuid_for_host_name: "@ + bool_text(c.no_uuid_for_host_name) + ", dockerfile: "@
        + dockerfile_debug(c.dockerfile@);
    assert(container_debug(c).take(head.len() as int) =~= head);
    let head = "ContainerNetwork { uuid: "@ + hyphenated(n.uuid.bits) + ", network_name: "@
        + debug_quoted(n.network_name@) + ", containers: "@;
    assert(n.debug_view().take(head.len() as int) =~= head);
}

/// A pair is shown with both parts in quotes, and the fields of a container in their order.
pub proof fn containers_are_shown_field_by_field(c: Container, pair: (Seq<char>, Seq<char>))
    ensures
        string_pairs_debug(seq![pair]) == "["@ + ("("@ + debug_quoted(pair.0) + ", "@
            + debug_quoted(pair.1) + ")"@) + "]"@,
        container_debug(c) == "Container { name: "@ + debug_quoted(c.name@) + ", host_name: "@
            + debug_quoted(c.host_name@) + ", no_uuid_for_host_name: "@ + bool_text(
            c.no_uuid_for_host_name,
        ) + ", dockerfile: "@ + dockerfile_debug(c.dockerfile@) + ", build_args: "@ + debug_list(
            texts(c.build_args@),
        ) + ", create_args: "@ + debug_list(texts(c.create_args@)) + ", volumes: "@
            + string_pairs_debug(text_pairs(c.volumes@)) + ", environment_vars: "@
            + string_pairs_debug(text_pairs(c.environment_vars@)) + ", entrypoint_file: "@ + (
        match c.entrypoint_file {
            Some(f) => "Some("@ + debug_quoted(f@) + ")"@,
            None => "None"@,
        }) + ", entrypoint_args: "@ + debug_list(texts(c.entrypoint_args@)) + " }"@,
{
    let shown = Seq::new(
        1,
        |i: int| "("@ + debug_quoted(seq![pair][i].0) + ", "@ + debug_quoted(seq![pair][i].1) + ")"@,
    );
    assert(shown =~= seq!["("@ + debug_quoted(pair.0) + ", "@ + debug_quoted(pair.1) + ")"@]);
    assert(joined(shown, ", "@) == "("@ + debug_quoted(pair.0) + ", "@ + debug_quoted(pair.1)
        + ")"@);
}

} // verus!
