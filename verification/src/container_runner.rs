//! Containers that are created, started and stopped through the docker API.

use vstd::prelude::*;

use crate::command::{optional, text_pairs};
use crate::dockerfile::{push_arg, push_args};
use crate::error::{Error, ErrorView, KindView};
use crate::misc::{color_cycle, color_text, colored, next_terminal_color};
use crate::misc_structs::{
    binding_views, bindings_of, port_bindings_to_bollard_args, HostBinding, PortBind, SuperImage,
};
use crate::name_map::NameMap;
use crate::text::joining_parts_neighbours;
use crate::text::{join, joined, lines, split_lines, texts};
use crate::utf8::{from_utf8_lossy, utf8_lossy};

verus! {

/// A device of the host that a container can use.
pub struct DeviceMapping {
    pub path_on_host: Option<String>,
    pub path_in_container: Option<String>,
    pub cgroup_permissions: Option<String>,
}

/// The arguments to the API's equivalent of `docker create`.
pub struct ContainerCreateOptions {
    pub name: String,
    pub user: Option<String>,
    pub cmd: Vec<String>,
    pub env_vars: Vec<String>,
    pub volumes: Vec<(String, String)>,
    pub cap_adds: Vec<String>,
    pub sysctls: NameMap<String>,
    pub priviledged: bool,
    pub port_bindings: Vec<PortBind>,
    pub devices: Vec<DeviceMapping>,
    /// Wether the network should wait for the container to shutdown when it
    /// waits for the important ones
    pub important: bool,
    /// Set to `Some`, this overwrites the default set in the network. When
    /// enabled, the stdout and stderr of the container is logged to stderr.
    pub log_outs: Option<bool>,
}

/// The options of a container of a [crate::super_network::SuperNetwork].
pub type SuperContainerOptions = ContainerCreateOptions;

impl Default for ContainerCreateOptions {
    fn default() -> (r: Self)
        ensures
            r.name@.len() == 0,
            r.user is None,
            r.cmd@.len() == 0,
            r.env_vars@.len() == 0,
            r.volumes@.len() == 0,
            r.cap_adds@.len() == 0,
            r.sysctls@ == Map::<Seq<char>, String>::empty(),
            !r.priviledged,
            r.port_bindings@.len() == 0,
            r.devices@.len() == 0,
            !r.important,
            r.log_outs is None,
    {
        ContainerCreateOptions {
            name: String::new(),
            user: None,
            cmd: Vec::new(),
            env_vars: Vec::new(),
            volumes: Vec::new(),
            cap_adds: Vec::new(),
            sysctls: NameMap::new(),
            priviledged: false,
            port_bindings: Vec::new(),
            devices: Vec::new(),
            important: false,
            log_outs: None,
        }
    }
}

/// Extra options related to `docker create`
pub struct ExtraAddContainerOptions {
    /// If not set, will use the container's name.
    pub hostname: Option<String>,
    pub mac_address: Option<String>,
    /// The text of an address. Caution, when setting ip addr manually, make sure
    /// your gateway can't assign other containers to the same address.
    pub ipv4_addr: Option<String>,
    /// The text of an address. Caution, when setting ip addr manually, make sure
    /// your gateway can't assign other containers to the same address.
    pub ipv6_addr: Option<String>,
}

impl Default for ExtraAddContainerOptions {
    fn default() -> (r: Self)
        ensures
            r == (ExtraAddContainerOptions {
                hostname: None,
                mac_address: None,
                ipv4_addr: None,
                ipv6_addr: None,
            }),
    {
        ExtraAddContainerOptions {
            hostname: None,
            mac_address: None,
            ipv4_addr: None,
            ipv6_addr: None,
        }
    }
}

/// What the docker API is told when a container is created.
pub struct CreateConfig<'a> {
    pub hostname: Option<&'a String>,
    pub mac_address: Option<&'a String>,
    pub ipv4_addr: Option<&'a String>,
    pub ipv6_addr: Option<&'a String>,
    pub image: &'a SuperImage,
    /// The name, the user, the command, the environment, the capabilities, the
    /// sysctls, the devices and the privilege of the container
    pub options: &'a ContainerCreateOptions,
    /// The exposed ports with their bindings
    pub ports: NameMap<Vec<HostBinding>>,
    /// The paths in the container that volumes are mounted to
    pub volumes: Vec<String>,
    /// The volumes as "host:container"
    pub binds: Vec<String>,
    /// The container is removed when it exits, so that it does not flood the
    /// user's containers
    pub auto_remove: bool,
    /// The streams are attached, a terminal is allocated and stdin is open, which
    /// allows testing features
    pub interactive: bool,
    pub network_name: &'a str,
}

/// The parts of volumes that are in the container.
pub open spec fn container_parts(v: Seq<(Seq<char>, Seq<char>)>) -> Seq<Seq<char>> {
    Seq::new(v.len(), |i: int| v[i].1)
}

/// The volumes as texts.
pub open spec fn bind_texts(v: Seq<(Seq<char>, Seq<char>)>) -> Seq<Seq<char>> {
    Seq::new(v.len(), |i: int| v[i].0 + ":"@ + v[i].1)
}

/// The configuration is that of a container with the options.
pub open spec fn is_config(
    config: CreateConfig,
    image: SuperImage,
    options: ContainerCreateOptions,
    network_name: Seq<char>,
) -> bool {
    &&& *config.image == image
    &&& *config.options == options
    &&& config.network_name@ == network_name
    &&& config.ports.wf()
    &&& forall|port: Seq<char>|
        config.ports@.dom().contains(port) <==> #[trigger] bindings_of(
            options.port_bindings@,
            port,
        ).len() > 0
    &&& forall|port: Seq<char>|
        config.ports@.dom().contains(port) ==> binding_views((#[trigger] config.ports@[port])@)
            == bindings_of(options.port_bindings@, port)
    &&& texts(config.volumes@) == container_parts(text_pairs(options.volumes@))
    &&& texts(config.binds@) == bind_texts(text_pairs(options.volumes@))
    &&& config.auto_remove
    &&& config.interactive
}

/// The configuration of a container
pub fn make_config<'a>(
    hostname: Option<&'a String>,
    mac_address: Option<&'a String>,
    ipv4_addr: Option<&'a String>,
    ipv6_addr: Option<&'a String>,
    image: &'a SuperImage,
    options: &'a ContainerCreateOptions,
    network_name: &'a str,
) -> (r: CreateConfig<'a>)
    ensures
        is_config(r, *image, *options, network_name@),
        r.hostname == hostname,
        r.mac_address == mac_address,
        r.ipv4_addr == ipv4_addr,
        r.ipv6_addr == ipv6_addr,
{
    let ports: NameMap<Vec<HostBinding>> = port_bindings_to_bollard_args(&options.port_bindings);
    let ghost pairs = text_pairs(options.volumes@);
    let mut volumes: Vec<String> = Vec::new();
    let mut binds: Vec<String> = Vec::new();
    let mut i: usize = 0;
    while i < options.volumes.len()
        invariant
            i <= options.volumes@.len(),
            pairs == text_pairs(options.volumes@),
            volumes@.len() == i,
            binds@.len() == i,
            forall|k: int| 0 <= k < i ==> #[trigger] volumes@[k]@ == pairs[k].1,
            forall|k: int| 0 <= k < i ==> #[trigger] binds@[k]@ == pairs[k].0 + ":"@ + pairs[k].1,
        decreases options.volumes@.len() - i,
    {
        let mut bind: String = options.volumes[i].0.clone();
        bind.append(":");
        bind.append(options.volumes[i].1.as_str());
        volumes.push(options.volumes[i].1.clone());
        binds.push(bind);
        i = i + 1;
    }
    proof {
        assert(texts(volumes@) =~= container_parts(pairs));
        assert(texts(binds@) =~= bind_texts(pairs));
    }
    CreateConfig {
        hostname,
        mac_address,
        ipv4_addr,
        ipv6_addr,
        image,
        options,
        ports,
        volumes,
        binds,
        auto_remove: true,
        interactive: true,
        network_name,
    }
}

/// A struct for the metadata regarding a running container
pub struct ContainerRunner {
    pub image: SuperImage,
    pub container_opts: ContainerCreateOptions,
    pub network_opts: ExtraAddContainerOptions,
    pub should_be_started: bool,
    /// The container was found to have failed
    pub had_error: bool,
    pub std_log: Option<String>,
    pub debug: bool,
}

impl ContainerRunner {
    /// Marks the container as started. Returns if it has to be created and
    /// started now, which is not so if this was called before.
    pub fn start_container(&mut self) -> (r: bool)
        ensures
            r == !old(self).should_be_started,
            *final(self) == (ContainerRunner { should_be_started: true, ..*old(self) }),
    {
        if self.should_be_started {
            return false;
        }
        self.should_be_started = true;
        true
    }

    /// What the docker API is told to create the container. The host name is the
    /// name of the container unless another is set.
    pub fn create_config<'a>(&'a self, network_name: &'a str) -> (r: CreateConfig<'a>)
        ensures
            is_config(r, self.image, self.container_opts, network_name@),
            r.hostname == Some(
                match &self.network_opts.hostname {
                    Some(h) => h,
                    None => &self.container_opts.name,
                },
            ),
            r.mac_address == as_ref_of(&self.network_opts.mac_address),
            r.ipv4_addr == as_ref_of(&self.network_opts.ipv4_addr),
            r.ipv6_addr == as_ref_of(&self.network_opts.ipv6_addr),
    {
        let hostname: &String = match &self.network_opts.hostname {
            Some(h) => h,
            None => &self.container_opts.name,
        };
        make_config(
            Some(hostname),
            self.network_opts.mac_address.as_ref(),
            self.network_opts.ipv4_addr.as_ref(),
            self.network_opts.ipv6_addr.as_ref(),
            &self.image,
            &self.container_opts,
            network_name,
        )
    }

    /// Whether the output of the container is shown
    pub fn log_output(&self, log_by_default: bool) -> (r: bool)
        ensures
            r == match self.container_opts.log_outs {
                Some(b) => b,
                None => log_by_default,
            },
    {
        match self.container_opts.log_outs {
            Some(b) => b,
            None => log_by_default,
        }
    }

    /// The file that the output of the container is written to
    pub fn log_file(&self, write_logs: bool) -> (r: Option<&String>)
        ensures
            r == if write_logs {
                as_ref_of(&self.std_log)
            } else {
                None
            },
    {
        if write_logs {
            self.std_log.as_ref()
        } else {
            None
        }
    }

    /// Whether stopping the container is asked of docker
    pub fn needs_stop(&self) -> (r: bool)
        ensures
            r == self.should_be_started,
    {
        self.should_be_started
    }

    /// The container was confirmed to have stopped
    pub fn stopped(&mut self)
        ensures
            *final(self) == (ContainerRunner { should_be_started: false, ..*old(self) }),
    {
        self.should_be_started = false;
    }
}

/// A reference to what an option holds.
pub open spec fn as_ref_of(s: &Option<String>) -> Option<&String> {
    match s {
        Some(x) => Some(x),
        None => None,
    }
}

/// The prefixes are the colored name and marks if the output goes to a terminal, and
/// empty otherwise.
pub open spec fn are_log_prefixes(
    prefixes: (Seq<char>, Seq<char>),
    name: Seq<char>,
    out_mark: Seq<char>,
    err_mark: Seq<char>,
    is_terminal: bool,
    color_num: usize,
) -> bool {
    prefixes == if is_terminal {
        let color = color_cycle()[color_num as int % 8];
        (colored(name + out_mark, color), colored(name + err_mark, color))
    } else {
        (Seq::empty(), Seq::empty())
    }
}

pub(crate) fn make_log_prefixes(
    name: &str,
    out_mark: &str,
    err_mark: &str,
    is_terminal: bool,
    color_num: usize,
) -> (r: (String, String))
    ensures
        are_log_prefixes((r.0@, r.1@), name@, out_mark@, err_mark@, is_terminal, color_num),
{
    if is_terminal {
        let color = next_terminal_color(color_num);
        let mut out: String = name.to_owned();
        out.append(out_mark);
        let mut err: String = name.to_owned();
        err.append(err_mark);
        (color_text(out.as_str(), color), color_text(err.as_str(), color))
    } else {
        let r: (String, String) = (String::new(), String::new());
        assert(r.0@ =~= Seq::empty());
        assert(r.1@ =~= Seq::empty());
        r
    }
}

/// The prefixes of the lines of a container's stdout and stderr
pub fn log_prefixes(name: &str, is_terminal: bool, color_num: usize) -> (r: (String, String))
    ensures
        are_log_prefixes((r.0@, r.1@), name@, "  | "@, " E| "@, is_terminal, color_num),
{
    make_log_prefixes(name, "  | ", " E| ", is_terminal, color_num)
}

/// What is shown of a message: its lines, each after the prefix.
pub open spec fn shown_message(message: Seq<u8>, prefix: Seq<char>) -> Seq<char> {
    prefix + joined(lines(utf8_lossy(message)), "\n"@ + prefix)
}

/// Where a message of a container comes from.
#[derive(Clone, Copy, PartialEq, Eq, Structural, Debug)]
pub enum LogSource {
    StdErr,
    StdOut,
    Console,
    StdIn,
}

/// What becomes of a message.
pub struct LogStep {
    /// What is shown of it
    pub shown: Option<String>,
    /// It is written to the log file and recorded
    pub kept: bool,
}

/// Decides what becomes of a message of a container
pub fn log_step(
    source: LogSource,
    message: &[u8],
    log_output: bool,
    prefix_out: &str,
    prefix_err: &str,
) -> (r: LogStep)
    ensures
        r.kept == !(source is StdIn),
        optional(r.shown) == if source is StdIn || !log_output {
            None
        } else if source is StdErr {
            Some(shown_message(message@, prefix_err@))
        } else {
            Some(shown_message(message@, prefix_out@))
        },
{
    let prefix: &str = match source {
        LogSource::StdIn => {
            return LogStep { shown: None, kept: false };
        },
        LogSource::StdErr => prefix_err,
        _ => prefix_out,
    };
    if !log_output {
        return LogStep { shown: None, kept: true };
    }
    let text: String = from_utf8_lossy(message);
    let parts: Vec<String> = split_lines(text.as_str());
    let mut sep: String = "\n".to_owned();
    sep.append(prefix);
    let mut shown: String = prefix.to_owned();
    shown.append(join(&parts, sep.as_str()).as_str());
    LogStep { shown: Some(shown), kept: true }
}

/// Whether a container is stopped when its network is torn down, `inspected`
/// being what inspecting it told, and of that whether it is running
pub fn should_stop(inspected: &Result<Option<Option<bool>>, Error>) -> (r: bool)
    ensures
        r == (*inspected matches Ok(Some(Some(b))) && b),
{
    match inspected {
        Ok(Some(Some(b))) => *b,
        _ => false,
    }
}

/// The containers that are asked for their state when a network is torn down:
/// those that are attached to it, then those that are known to belong to it
pub fn teardown_names(live: &Vec<String>, known: &Vec<String>) -> (r: Vec<String>)
    ensures
        texts(r@) == texts(live@) + texts(known@),
{
    let mut r: Vec<String> = Vec::new();
    push_args(&mut r, live);
    assert(texts(r@) =~= texts(live@));
    push_args(&mut r, known);
    r
}

/// Those of the first `n` names whose containers are running, as inspecting them
/// told.
pub open spec fn running_among(
    names: Seq<Seq<char>>,
    inspected: Seq<Result<Option<Option<bool>>, Error>>,
    n: int,
) -> Seq<Seq<char>>
    decreases n,
{
    if n <= 0 {
        Seq::empty()
    } else {
        let before = running_among(names, inspected, n - 1);
        if inspected[n - 1] matches Ok(Some(Some(b))) && b {
            before.push(names[n - 1])
        } else {
            before
        }
    }
}

/// The containers that are stopped when a network is torn down, `names` being
/// those of [teardown_names] and `inspected` what inspecting them told
pub fn names_to_stop(
    names: &Vec<String>,
    inspected: &Vec<Result<Option<Option<bool>>, Error>>,
) -> (r: Vec<String>)
    requires
        inspected@.len() == names@.len(),
    ensures
        texts(r@) == running_among(texts(names@), inspected@, names@.len() as int),
{
    let ghost all = texts(names@);
    let mut r: Vec<String> = Vec::new();
    let mut i: usize = 0;
    assert(texts(r@) =~= running_among(all, inspected@, 0));
    while i < names.len()
        invariant
            i <= names@.len(),
            inspected@.len() == names@.len(),
            all == texts(names@),
            texts(r@) == running_among(all, inspected@, i as int),
        decreases names@.len() - i,
    {
        if should_stop(&inspected[i]) {
            push_arg(&mut r, names[i].as_str());
        }
        i = i + 1;
    }
    r
}

/// The errors among the first `n` results.
pub open spec fn errors_among(results: Seq<Result<(), Error>>, n: int) -> Seq<Error>
    decreases n,
{
    if n <= 0 {
        Seq::empty()
    } else {
        match results[n - 1] {
            Ok(_) => errors_among(results, n - 1),
            Err(e) => errors_among(results, n - 1).push(e),
        }
    }
}

/// The errors of tearing down a network.
pub open spec fn teardown_errors(
    stopped: Seq<Result<(), Error>>,
    removed: Result<(), Error>,
) -> Seq<Error> {
    errors_among(stopped.push(removed), stopped.len() as int + 1)
}

/// The result of tearing down a network, given what stopping each of the
/// containers of [names_to_stop] and removing the network, which comes last
/// whatever failed before, returned.
pub fn total_teardown(stopped: Vec<Result<(), Error>>, removed: Result<(), Error>) -> (r: Result<
    (),
    Error,
>)
    ensures
        ({
            let errs = teardown_errors(stopped@, removed);
            &&& r is Ok <==> errs.len() == 0
            &&& r matches Err(e) ==> e@ == chained_all(errs.last()@, errs.drop_last())
        }),
        r is Ok <==> removed is Ok && forall|i: int|
            0 <= i < stopped@.len() ==> (#[trigger] stopped@[i]) is Ok,
{
    let ghost before = stopped@;
    let mut rest: Vec<Result<(), Error>> = stopped;
    rest.push(removed);
    let ghost all = rest@;
    let mut errs: Vec<Error> = Vec::new();
    let ghost mut i: int = 0;
    assert(rest@ =~= all.skip(0));
    while rest.len() > 0
        invariant
            0 <= i <= all.len(),
            rest@ == all.skip(i),
            errs@ == errors_among(all, i),
            errs@.len() == 0 <==> forall|k: int| 0 <= k < i ==> (#[trigger] all[k]) is Ok,
        decreases rest@.len(),
    {
        let next: Result<(), Error> = rest.remove(0);
        proof {
            assert(next == all[i]);
            assert(rest@ =~= all.skip(i + 1));
            i = i + 1;
        }
        if let Err(e) = next {
            errs.push(e);
        }
    }
    proof {
        assert(i == all.len());
        assert(all == before.push(removed));
        assert(all.last() == removed);
        assert forall|k: int| 0 <= k < before.len() implies #[trigger] before[k] == all[k] by {}
    }
    teardown_result(errs)
}

/// An error followed by others.
pub open spec fn chained_all(first: ErrorView, others: Seq<Error>) -> ErrorView
    decreases others.len(),
{
    if others.len() == 0 {
        first
    } else {
        chained_all(first, others.drop_last()).chained(others.last()@)
    }
}

/// The result of tearing down a network: all the errors that there were, the last
/// one first
pub fn teardown_result(errs: Vec<Error>) -> (r: Result<(), Error>)
    ensures
        r is Ok <==> errs@.len() == 0,
        r matches Err(e) ==> e@ == chained_all(errs@.last()@, errs@.drop_last()),
{
    let mut rest: Vec<Error> = errs;
    match rest.pop() {
        None => Ok(()),
        Some(last) => {
            let ghost others = rest@;
            let ghost first = last@;
            assert(others =~= errs@.drop_last());
            let mut e: Error = last;
            let ghost mut i: int = 0;
            assert(others.take(0) =~= Seq::empty());
            assert(rest@ =~= others.skip(0));
            while rest.len() > 0
                invariant
                    0 <= i <= others.len(),
                    rest@ == others.skip(i),
                    e@ == chained_all(first, others.take(i)),
                decreases rest@.len(),
            {
                let next: Error = rest.remove(0);
                proof {
                    assert(next == others[i]);
                    assert(rest@ =~= others.skip(i + 1));
                    assert(others.take(i + 1).drop_last() =~= others.take(i));
                    assert(others.take(i + 1).last() == next);
                    i = i + 1;
                }
                e = e.chain_errors(next);
            }
            assert(others.take(i) =~= others);
            Err(e)
        },
    }
}

/// Tearing down a network loses no error: whatever an error had on its stack is in
/// the result.
pub proof fn teardown_errors_are_kept(errs: Seq<Error>, i: int, kind: KindView)
    requires
        0 <= i < errs.len(),
        errs[i]@.kinds.contains(kind),
    ensures
        chained_all(errs.last()@, errs.drop_last()).kinds.contains(kind),
{
    lemma_chained_all(errs.last()@, errs.drop_last(), kind);
    if i < errs.len() - 1 {
        assert(errs.drop_last()[i] == errs[i]);
        assert(exists|k: int|
            0 <= k < errs.drop_last().len() && (#[trigger] errs.drop_last()[k])@.kinds.contains(
                kind,
            ));
    }
}

proof fn lemma_chained_all(first: ErrorView, others: Seq<Error>, kind: KindView)
    requires
        first.kinds.contains(kind) || exists|k: int|
            0 <= k < others.len() && (#[trigger] others[k])@.kinds.contains(kind),
    ensures
        chained_all(first, others).kinds.contains(kind),
    decreases others.len(),
{
    if others.len() > 0 {
        let before = chained_all(first, others.drop_last()).kinds;
        let last = others.last()@.kinds;
        let all = chained_all(first, others).kinds;
        assert(all == before + last);
        if last.contains(kind) {
            let j = last.index_of(kind);
            assert(all[before.len() + j] == kind);
        } else {
            if !first.kinds.contains(kind) {
                let k = choose|k: int|
                    0 <= k < others.len() && (#[trigger] others[k])@.kinds.contains(kind);
                assert(others.drop_last()[k] == others[k]);
            }
            lemma_chained_all(first, others.drop_last(), kind);
            let j = before.index_of(kind);
            assert(all[j] == kind);
        }
    }
}

/// A container is created from its image with its options, in the network, with each of
/// its volumes as a text and their parts in the container; it is removed when it ends,
/// and can be talked to.
pub proof fn config_is_complete(
    config: CreateConfig,
    image: SuperImage,
    options: ContainerCreateOptions,
    network_name: Seq<char>,
    i: int,
)
    requires
        is_config(config, image, options, network_name),
    ensures
        *config.image == image && *config.options == options,
        config.network_name@ == network_name,
        config.auto_remove && config.interactive,
        config.binds@.len() == options.volumes@.len(),
        config.volumes@.len() == options.volumes@.len(),
        0 <= i < options.volumes@.len() ==> config.binds@[i]@ == options.volumes@[i].0@ + ":"@
            + options.volumes@[i].1@ && config.volumes@[i]@ == options.volumes@[i].1@,
{
    let pairs = text_pairs(options.volumes@);
    assert(texts(config.binds@).len() == pairs.len());
    assert(texts(config.volumes@).len() == pairs.len());
    if 0 <= i < options.volumes@.len() {
        assert(texts(config.binds@)[i] == pairs[i].0 + ":"@ + pairs[i].1);
        assert(texts(config.volumes@)[i] == pairs[i].1);
    }
}

/// The prefixes have the name and the marks in one color of the cycle on a terminal; no
/// prefix is shown elsewhere.
pub proof fn prefixes_are_for_terminals(
    prefixes: (Seq<char>, Seq<char>),
    name: Seq<char>,
    out_mark: Seq<char>,
    err_mark: Seq<char>,
    is_terminal: bool,
    color_num: usize,
)
    requires
        are_log_prefixes(prefixes, name, out_mark, err_mark, is_terminal, color_num),
    ensures
        is_terminal ==> prefixes.0 == colored(
            name + out_mark,
            color_cycle()[color_num as int % 8],
        ),
        is_terminal ==> prefixes.1 == colored(
            name + err_mark,
            color_cycle()[color_num as int % 8],
        ),
        !is_terminal ==> prefixes.0.len() == 0 && prefixes.1.len() == 0,
{
}

/// A message of one line is shown behind the prefix, and each further line behind a
/// newline and the prefix.
pub proof fn each_line_is_shown_behind_the_prefix(
    message: Seq<u8>,
    prefix: Seq<char>,
    a: Seq<Seq<char>>,
    line: Seq<char>,
)
    ensures
        lines(utf8_lossy(message)) == seq![line] ==> shown_message(message, prefix) == prefix + line,
        a.len() > 0 && lines(utf8_lossy(message)) == a.push(line) ==> shown_message(message, prefix)
            == prefix + joined(a, "\n"@ + prefix) + ("\n"@ + prefix) + line,
{
    if a.len() > 0 && lines(utf8_lossy(message)) == a.push(line) {
        joining_parts_neighbours(a, seq![line], "\n"@ + prefix);
        assert(a + seq![line] =~= a.push(line));
        assert(joined(seq![line], "\n"@ + prefix) == line);
        assert(shown_message(message, prefix) =~= prefix + joined(a, "\n"@ + prefix) + ("\n"@
            + prefix) + line);
    }
}

/// The containers that are stopped are those that were found running, and the errors of a
/// teardown are those of the steps that failed.
pub proof fn running_are_stopped_and_failures_told(
    names: Seq<Seq<char>>,
    inspected: Seq<Result<Option<Option<bool>>, Error>>,
    results: Seq<Result<(), Error>>,
    n: int,
    name: Seq<char>,
    e: Error,
)
    requires
        0 <= n <= names.len(),
        names.len() == inspected.len(),
        names.len() == results.len(),
    ensures
        running_among(names, inspected, n).contains(name) <==> exists|i: int|
            0 <= i < n && #[trigger] names[i] == name && (inspected[i] matches Ok(Some(Some(b)))
                && b),
        errors_among(results, n).contains(e) <==> exists|i: int|
            0 <= i < n && #[trigger] results[i] == Err::<(), Error>(e),
    decreases n,
{
    if n > 0 {
        running_are_stopped_and_failures_told(names, inspected, results, n - 1, name, e);
        let a = running_among(names, inspected, n - 1);
        let b = running_among(names, inspected, n);
        if a.contains(name) {
            let k = choose|k: int| 0 <= k < a.len() && a[k] == name;
            assert(b[k] == name);
        }
        if b.contains(name) && !a.contains(name) {
            let k = choose|k: int| 0 <= k < b.len() && b[k] == name;
            if k < a.len() {
                assert(a[k] == name);
            }
            assert(names[n - 1] == name);
        }
        if names[n - 1] == name && (inspected[n - 1] matches Ok(Some(Some(b))) && b) {
            assert(b[a.len() as int] == name);
        }
        let a = errors_among(results, n - 1);
        let b = errors_among(results, n);
        if a.contains(e) {
            let k = choose|k: int| 0 <= k < a.len() && a[k] == e;
            assert(b[k] == e);
        }
        if b.contains(e) && !a.contains(e) {
            let k = choose|k: int| 0 <= k < b.len() && b[k] == e;
            if k < a.len() {
                assert(a[k] == e);
            }
            assert(results[n - 1] == Err::<(), Error>(e));
        }
        if results[n - 1] == Err::<(), Error>(e) {
            assert(b[a.len() as int] == e);
        }
    }
}

/// The last error of a teardown comes first, the others behind it in their order.
pub proof fn last_teardown_error_comes_first(first: ErrorView, others: Seq<Error>, e: Error)
    ensures
        chained_all(first, Seq::empty()) == first,
        chained_all(first, others.push(e)).kinds == chained_all(first, others).kinds + e@.kinds,
        chained_all(first, others.push(e)).locations == chained_all(first, others).locations
            + e@.locations,
{
    assert(others.push(e).drop_last() =~= others);
}

/// The errors of a teardown are those of stopping the containers, and behind them that of
/// removing the network.
pub proof fn removal_error_comes_last(stopped: Seq<Result<(), Error>>, removed: Result<(), Error>)
    ensures
        removed matches Err(e) ==> teardown_errors(stopped, removed) == errors_among(
            stopped,
            stopped.len() as int,
        ).push(e),
        removed is Ok ==> teardown_errors(stopped, removed) == errors_among(
            stopped,
            stopped.len() as int,
        ),
{
    lemma_errors_front(stopped, removed, stopped.len() as int);
}

proof fn lemma_errors_front(results: Seq<Result<(), Error>>, last: Result<(), Error>, n: int)
    requires
        0 <= n <= results.len(),
    ensures
        errors_among(results.push(last), n) == errors_among(results, n),
    decreases n,
{
    if n > 0 {
        lemma_errors_front(results, last, n - 1);
    }
}

/// Containers are stopped, and errors told, in the order of the containers.
pub proof fn teardown_goes_in_order(
    names: Seq<Seq<char>>,
    inspected: Seq<Result<Option<Option<bool>>, Error>>,
    results: Seq<Result<(), Error>>,
    n: int,
)
    requires
        0 <= n < names.len(),
        names.len() == inspected.len(),
        names.len() == results.len(),
    ensures
        running_among(names, inspected, n + 1) == if inspected[n] matches Ok(Some(Some(b))) && b {
            running_among(names, inspected, n).push(names[n])
        } else {
            running_among(names, inspected, n)
        },
        results[n] matches Err(e) ==> errors_among(results, n + 1) == errors_among(results, n).push(
            e,
        ),
        results[n] is Ok ==> errors_among(results, n + 1) == errors_among(results, n),
        running_among(names, inspected, 0).len() == 0 && errors_among(results, 0).len() == 0,
{
}

} // verus!
