//! A set of containers that is managed through the docker API.

use vstd::prelude::*;

use crate::command::optional;
use crate::container_runner::{
    as_ref_of, is_config, ContainerCreateOptions, ContainerRunner, CreateConfig,
    ExtraAddContainerOptions,
};
use crate::docker_network::Verdict;
use crate::error::{Error, ErrorKind, ErrorView, KindView};
use crate::error_report::{add_record_report, new_report, record_report};
use crate::misc_structs::SuperImage;
use crate::name_map::NameMap;
use crate::paths::{push_path, pushed};
use crate::super_docker_file::{BuildImageArgs, SuperDockerFile};
use crate::text::{has_text, same, texts, to_chars};

verus! {

/// Options for adding a container
pub enum AddContainerOptions {
    /// Use an already specified image to create the container
    Container(SuperImage),
    /// Use our [SuperDockerFile] construct
    DockerFile(SuperDockerFile),
    /// Use build arguments with a tarball
    BollardArgs { image_options: BuildImageArgs, tarball: Vec<u8> },
}

/// How the image of a container comes about.
pub enum ImageStep {
    /// The image is there
    Use(SuperImage),
    /// The image is built from the docker file
    BuildFile(SuperDockerFile),
    /// The image is built from the arguments
    BuildArgs { image_options: BuildImageArgs, tarball: Vec<u8> },
}

/// Configuration for things like the logging directory
///
/// Set the value as a temporary directory or an gitignored directory in a
/// repository. This will not mount the output directory, it will create other
/// directories and mount them.
pub struct OutputDirConfig {
    /// Directory for dealing with outputs.
    pub output_dir: String,
    /// Write all captured output to a log file
    pub save_logs: bool,
}

/// Options for the API equivalent of `docker network create`
pub struct NetworkCreateOptions {
    pub name: String,
    pub driver: Option<String>,
    pub enable_ipv6: bool,
    pub options: NameMap<String>,
    pub labels: NameMap<String>,
    /// If set the network will shutdown and start a new network if there is a
    /// name collision.
    pub overwrite_existing: bool,
    /// Configure an output directory for logging.
    pub output_dir_config: Option<OutputDirConfig>,
    /// If true, [ContainerCreateOptions] with `log_outs: None` will use this
    /// value as default
    pub log_by_default: bool,
    /// Turns on debug tracing
    pub debug: bool,
}

impl Default for NetworkCreateOptions {
    fn default() -> (r: Self)
        ensures
            r.name@.len() == 0,
            r.driver is None,
            !r.enable_ipv6,
            r.options.wf(),
            r.options@ == Map::<Seq<char>, String>::empty(),
            r.labels.wf(),
            r.labels@ == Map::<Seq<char>, String>::empty(),
            !r.overwrite_existing,
            r.output_dir_config is None,
            !r.log_by_default,
            !r.debug,
    {
        NetworkCreateOptions {
            name: String::new(),
            driver: None,
            enable_ipv6: false,
            options: NameMap::new(),
            labels: NameMap::new(),
            overwrite_existing: false,
            output_dir_config: None,
            log_by_default: false,
            debug: false,
        }
    }
}

/// A network with the name is among the existing ones.
pub open spec fn name_exists(existing: Seq<Option<String>>, name: Seq<char>) -> bool {
    exists|i: int|
        0 <= i < existing.len() && optional(#[trigger] existing[i]) == Some(name)
}

/// Whether an existing network has to be torn down before one with the name is
/// created, `existing` being the names of the networks that there are
pub fn check_name(name: &str, overwrite_existing: bool, existing: &Vec<Option<String>>) -> (r:
    Result<bool, Error>)
    ensures
        (r matches Ok(torn_down) && !torn_down) <==> forall|i: int|
            0 <= i < existing@.len() ==> optional(#[trigger] existing@[i]) != Some(name@),
        if !name_exists(existing@, name@) {
            r == Ok::<bool, Error>(false)
        } else if overwrite_existing {
            r == Ok::<bool, Error>(true)
        } else {
            r is Err && r->Err_0@ == ErrorView::message(
                "network "@ + name@ + " already exists"@,
            )
        },
{
    let mut i: usize = 0;
    while i < existing.len()
        invariant
            i <= existing@.len(),
            forall|k: int| 0 <= k < i ==> optional(#[trigger] existing@[k]) != Some(name@),
        decreases existing@.len() - i,
    {
        if let Some(other) = &existing[i] {
            if same(other.as_str(), name) {
                assert(optional(existing@[i as int]) == Some(name@));
                if overwrite_existing {
                    return Ok(true);
                }
                let mut text: String = "network ".to_owned();
                text.append(name);
                text.append(" already exists");
                return Err(Error::from_text(text));
            }
        }
        i = i + 1;
    }
    Ok(false)
}

impl NetworkCreateOptions {
    /// The driver of the network
    pub fn driver_name(&self) -> (r: String)
        ensures
            r@ == match self.driver {
                Some(d) => d@,
                None => "bridge"@,
            },
    {
        match &self.driver {
            Some(d) => d.clone(),
            None => "bridge".to_owned(),
        }
    }

    /// Whether the output of containers is written to log files
    pub fn write_logs(&self) -> (r: bool)
        ensures
            r == (self.output_dir_config is Some && self.output_dir_config->0.save_logs),
    {
        match &self.output_dir_config {
            Some(config) => config.save_logs,
            None => false,
        }
    }
}

/// The state that docker reports of a container.
#[derive(Clone, Copy, PartialEq, Eq, Structural, Debug)]
pub enum ContainerStatus {
    Empty,
    Created,
    Running,
    Paused,
    Restarting,
    Removing,
    Exited,
    Dead,
}

/// The health that docker reports of a container.
#[derive(Clone, Copy, PartialEq, Eq, Structural, Debug)]
pub enum HealthStatus {
    Empty,
    NoCheck,
    Starting,
    Healthy,
    Unhealthy,
}

/// Whether a container has completed, `inspected` being what docker tells of it, if
/// it knows it, and of that the status
pub fn is_complete(inspected: Option<Option<ContainerStatus>>) -> (r: bool)
    ensures
        r == match inspected {
            Some(Some(status)) => !(status is Created || status is Running || status is Paused
                || status is Restarting),
            _ => true,
        },
{
    match inspected {
        Some(Some(status)) => match status {
            ContainerStatus::Created => false,
            ContainerStatus::Running => false,
            ContainerStatus::Paused => false,
            ContainerStatus::Restarting => false,
            _ => true,
        },
        _ => true,
    }
}

/// Whether a container is healthy, `inspected` being what docker tells of it, if
/// it knows it, of that the health, if it has a healthcheck, and of that the
/// status. If a container does not have a healthcheck, it is automatically
/// considered healthy.
pub fn is_healthy(inspected: Option<Option<Option<HealthStatus>>>) -> (r: bool)
    ensures
        r == match inspected {
            None => false,
            Some(None) => true,
            Some(Some(None)) => false,
            Some(Some(Some(status))) => status is Healthy || status is Empty || status is NoCheck,
        },
{
    match inspected {
        None => false,
        Some(None) => true,
        Some(Some(None)) => false,
        Some(Some(Some(status))) => match status {
            HealthStatus::Starting => false,
            HealthStatus::Unhealthy => false,
            _ => true,
        },
    }
}

/// Whether all of a round are done: only then the waiting ends
pub fn all_done(round: &Vec<bool>) -> (r: bool)
    ensures
        r <==> forall|i: int| 0 <= i < round@.len() ==> #[trigger] round@[i],
{
    let mut i: usize = 0;
    while i < round.len()
        invariant
            i <= round@.len(),
            forall|k: int| 0 <= k < i ==> #[trigger] round@[k],
        decreases round@.len() - i,
    {
        if !round[i] {
            return false;
        }
        i = i + 1;
    }
    true
}

/// What was found when the end of a container was looked at.
pub enum WaitEvent {
    /// The container has exited
    Exited { status_code: i64 },
    /// The API returned an error, by the text that its `Debug` gives
    Failed(String),
    /// The end was looked at before
    Ended,
    /// The container is still running
    Running,
    /// The container was never started
    Inactive,
}

/// The API only ever seems to return an error, regardless of whether the container
/// exited normally or with an error; it is assumed that if it contains "No such
/// container: " then it exited normally.
pub open spec fn is_failure(event: WaitEvent) -> bool {
    match event {
        WaitEvent::Exited { status_code } => status_code != 0,
        WaitEvent::Failed(text) => !crate::text::contains(text@, "No such container: "@),
        _ => false,
    }
}

/// Manages a set of containers in a controlled environment. Useful for creating
/// integration tests and examples.
///
/// This module uses [SuperDockerFile]s to create containers for testing and adds a
/// simple way to declare docker networks, manage conatainers in the networks and
/// can compile the outputs for effective testing.
pub struct ContainerNetwork {
    pub network_id: String,
    pub opts: NetworkCreateOptions,
    pub containers: NameMap<ContainerRunner>,
}

/// The names of the important containers among the first `n`.
pub open spec fn important_among(containers: NameMap<ContainerRunner>, n: int) -> Seq<Seq<char>>
    decreases n,
{
    if n <= 0 {
        Seq::empty()
    } else {
        let before = important_among(containers, n - 1);
        if containers.values@[n - 1].container_opts.important {
            before.push(containers.names@[n - 1]@)
        } else {
            before
        }
    }
}

/// What is reported of the first `n` containers: of those that failed and have a
/// record.
pub open spec fn reported(
    names: Seq<Seq<char>>,
    records: Seq<Option<String>>,
    n: int,
) -> Seq<KindView>
    decreases n,
{
    if n <= 0 {
        Seq::empty()
    } else {
        reported(names, records, n - 1) + match records[n - 1] {
            Some(record) => record_report(names[n - 1], record@),
            None => Seq::empty(),
        }
    }
}

/// The failure of a container is noticed: an error of the API counts as one exactly if
/// it does not say that there is no such container, an exit if its code is not zero.
/// With `terminate_on_failure` the waiting ends unsuccessfully just then, and nothing
/// but the mark of an error changes, which is never taken back.
pub proof fn failed_containers_are_noticed(
    was: ContainerRunner,
    now: ContainerRunner,
    terminate_on_failure: bool,
    event: WaitEvent,
    verdict: Verdict,
)
    requires
        ContainerNetwork::is_polled(was, now, terminate_on_failure, event, verdict),
    ensures
        event matches WaitEvent::Failed(text) ==> {
            let gone = crate::text::contains(text@, "No such container: "@);
            &&& terminate_on_failure ==> (verdict is Complete <==> gone)
            &&& terminate_on_failure ==> (verdict is Unsuccessful <==> !gone)
            &&& !terminate_on_failure ==> verdict is Complete
            &&& !gone ==> now.had_error
            &&& gone ==> now.had_error == was.had_error
        },
        event matches WaitEvent::Exited { status_code } ==> {
            &&& terminate_on_failure ==> (verdict is Complete <==> status_code == 0)
            &&& terminate_on_failure ==> (verdict is Unsuccessful <==> status_code != 0)
            &&& !terminate_on_failure ==> verdict is Complete
            &&& terminate_on_failure && status_code != 0 ==> now.had_error
            &&& status_code == 0 || !terminate_on_failure ==> now.had_error == was.had_error
        },
        event is Running ==> verdict is Pass && now == was,
        event is Ended || event is Inactive ==> verdict is Complete && now == was,
        was.had_error ==> now.had_error,
        now == (ContainerRunner { had_error: now.had_error, ..was }),
{
}

/// The containers waited for are those marked as important, and no others.
pub proof fn exactly_the_important_are_waited_for(
    containers: NameMap<ContainerRunner>,
    n: int,
    name: Seq<char>,
)
    requires
        n <= containers.names@.len(),
        containers.names@.len() == containers.values@.len(),
    ensures
        important_among(containers, n).contains(name) <==> exists|i: int|
            0 <= i < n && (#[trigger] containers.names@[i])@ == name
                && containers.values@[i].container_opts.important,
    decreases n,
{
    if n > 0 {
        let before = important_among(containers, n - 1);
        let all = important_among(containers, n);
        exactly_the_important_are_waited_for(containers, n - 1, name);
        if all.contains(name) {
            let k = choose|k: int| 0 <= k < all.len() && all[k] == name;
            if k < before.len() {
                assert(before[k] == name);
                assert(before.contains(name));
            } else {
                assert(containers.names@[n - 1]@ == name);
            }
        }
        if exists|i: int|
            0 <= i < n && (#[trigger] containers.names@[i])@ == name
                && containers.values@[i].container_opts.important {
            let i = choose|i: int|
                0 <= i < n && (#[trigger] containers.names@[i])@ == name
                    && containers.values@[i].container_opts.important;
            if i == n - 1 {
                assert(all[before.len() as int] == name);
            } else {
                assert(before.contains(name));
                let k = choose|k: int| 0 <= k < before.len() && before[k] == name;
                assert(all[k] == name);
            }
        }
    }
}

/// What is reported are the reports of the records, and nothing of a container
/// without one.
pub proof fn records_are_reported(
    names: Seq<Seq<char>>,
    records: Seq<Option<String>>,
    n: int,
    kind: KindView,
)
    requires
        0 <= n <= records.len(),
        names.len() == records.len(),
    ensures
        reported(names, records, n).contains(kind) <==> exists|i: int|
            0 <= i < n && (#[trigger] records[i]) is Some && record_report(
                names[i],
                records[i]->0@,
            ).contains(kind),
    decreases n,
{
    if n > 0 {
        let before = reported(names, records, n - 1);
        let new = match records[n - 1] {
            Some(record) => record_report(names[n - 1], record@),
            None => Seq::empty(),
        };
        let all = reported(names, records, n);
        records_are_reported(names, records, n - 1, kind);
        assert(all == before + new);
        if all.contains(kind) {
            let k = choose|k: int| 0 <= k < all.len() && all[k] == kind;
            if k < before.len() {
                assert(before[k] == kind);
                assert(before.contains(kind));
            } else {
                assert(new[k - before.len()] == kind);
                assert(new.contains(kind));
                assert(records[n - 1] is Some);
            }
        }
        if exists|i: int|
            0 <= i < n && (#[trigger] records[i]) is Some && record_report(
                names[i],
                records[i]->0@,
            ).contains(kind) {
            let i = choose|i: int|
                0 <= i < n && (#[trigger] records[i]) is Some && record_report(
                    names[i],
                    records[i]->0@,
                ).contains(kind);
            if i == n - 1 {
                let k = choose|k: int| 0 <= k < new.len() && new[k] == kind;
                assert(all[before.len() + k] == kind);
            } else {
                assert(before.contains(kind));
                let k = choose|k: int| 0 <= k < before.len() && before[k] == kind;
                assert(all[k] == kind);
            }
        }
    }
}

fn not_found(name: &str) -> (r: Error)
    ensures
        r@ == ErrorView::message("Container with name "@ + name@ + " not found"@),
{
    let mut text: String = "Container with name ".to_owned();
    text.append(name);
    text.append(" not found");
    Error::from_text(text)
}

impl ContainerNetwork {
    /// The containers are kept under their names.
    pub open spec fn wf(self) -> bool {
        &&& self.containers.wf()
        &&& forall|name: Seq<char>| #[trigger]
            self.containers@.dom().contains(name) ==> self.containers@[name].container_opts.name@
                == name
    }

    /// The network has a container with that name.
    pub open spec fn has(self, name: Seq<char>) -> bool {
        self.containers@.dom().contains(name)
    }

    /// The network that was created under the ID
    pub fn create(network_id: String, opts: NetworkCreateOptions) -> (r: Self)
        ensures
            r.wf(),
            r.network_id == network_id,
            r.opts == opts,
            r.containers@ == Map::<Seq<char>, ContainerRunner>::empty(),
    {
        ContainerNetwork { network_id, opts, containers: NameMap::new() }
    }

    /// The error of adding a container under a name, if there is one.
    pub open spec fn add_fault(self, name: Seq<char>) -> Option<ErrorView> {
        if self.has(name) {
            Some(ErrorView::of(KindView::Str("Name is already registered"@)))
        } else if name.len() == 0 {
            Some(ErrorView::of(KindView::Str("Name for container can't be empty"@)))
        } else {
            None
        }
    }

    /// A container can be added if it is not already registered in the network
    pub fn check_add(&self, name: &str) -> (r: Result<(), Error>)
        requires
            self.wf(),
        ensures
            match r {
                Ok(_) => self.add_fault(name@) is None,
                Err(e) => self.add_fault(name@) == Some(e@),
            },
            r is Ok <==> name@.len() > 0 && !self.containers@.dom().contains(name@),
    {
        if self.containers.find(name).is_some() {
            return Err(
                Error::from_kind_locationless(ErrorKind::StrError("Name is already registered")),
            );
        }
        if to_chars(name).len() == 0 {
            return Err(
                Error::from_kind_locationless(
                    ErrorKind::StrError("Name for container can't be empty"),
                ),
            );
        }
        Ok(())
    }

    /// A container can be replaced if it is registered in the network
    pub fn check_replace(&self, name: &str) -> (r: Result<(), Error>)
        requires
            self.wf(),
        ensures
            r is Ok <==> self.has(name@),
            r is Err ==> r->Err_0@ == ErrorView::message(name@ + " isn't an existing container"@),
    {
        if self.containers.find(name).is_some() {
            Ok(())
        } else {
            let mut text: String = name.to_owned();
            text.append(" isn't an existing container");
            Err(Error::from_text(text))
        }
    }

    /// How the image of a container comes about. With an output directory, an
    /// image that is there is the base of a docker file; so is one that is built
    /// from arguments, for which this is called again.
    pub fn image_step(&self, add_opts: AddContainerOptions) -> (r: ImageStep)
        ensures
            match add_opts {
                AddContainerOptions::Container(image) => if self.opts.output_dir_config is Some {
                    &&& r matches ImageStep::BuildFile(f)
                    &&& f.base@ == crate::dockerfile::DockerfileView::NameTag(image.0@)
                    &&& f.image_name is None
                    &&& f.content_extend@.len() == 0
                    &&& f.tarball.written@.len() == 0
                    &&& f.tarball.paths@.len() == 0
                    &&& f.build_path is None
                    &&& f.build_opts.is_default()
                    &&& f.wf()
                } else {
                    r == ImageStep::Use(image)
                },
                AddContainerOptions::DockerFile(f) => r == ImageStep::BuildFile(f),
                AddContainerOptions::BollardArgs { image_options, tarball } => r
                    == (ImageStep::BuildArgs { image_options, tarball }),
            },
    {
        match add_opts {
            AddContainerOptions::Container(image) => {
                if self.opts.output_dir_config.is_some() {
                    ImageStep::BuildFile(image.to_docker_file())
                } else {
                    ImageStep::Use(image)
                }
            },
            AddContainerOptions::DockerFile(f) => ImageStep::BuildFile(f),
            AddContainerOptions::BollardArgs { image_options, tarball } => ImageStep::BuildArgs {
                image_options,
                tarball,
            },
        }
    }

    /// Adds what was being done to an error of building the image that a
    /// container is created from. The image that is built `from_args` is not yet
    /// that one if there is an output directory.
    pub fn build_error(&self, from_args: bool, e: Error) -> (r: Error)
        ensures
            r@ == if from_args && self.opts.output_dir_config is Some {
                e@
            } else {
                e@.with(KindView::Str("ContainerNetwork::add_container"@))
            },
    {
        if from_args && self.opts.output_dir_config.is_some() {
            e
        } else {
            e.add_err_no_location(ErrorKind::StrError("ContainerNetwork::add_container"))
        }
    }

    /// Registers a container with its image, in place of one of the same name
    pub fn register(
        &mut self,
        image: SuperImage,
        network_opts: ExtraAddContainerOptions,
        container: ContainerCreateOptions,
    )
        requires
            old(self).wf(),
        ensures
            final(self).wf(),
            *final(self) == (ContainerNetwork { containers: final(self).containers, ..*old(self) }),
            final(self).has(container.name@),
            ({
                let now = final(self).containers@[container.name@];
                &&& final(self).containers@ == old(self).containers@.insert(container.name@, now)
                &&& now == (ContainerRunner {
                    image,
                    container_opts: container,
                    network_opts,
                    should_be_started: false,
                    had_error: false,
                    std_log: now.std_log,
                    debug: old(self).opts.debug,
                })
                &&& optional(now.std_log) == match old(self).opts.output_dir_config {
                    Some(config) => Some(
                        pushed(config.output_dir@, container.name@ + ".log"@),
                    ),
                    None => None,
                }
            }),
    {
        let std_log: Option<String> = match &self.opts.output_dir_config {
            Some(config) => {
                let mut file: String = container.name.clone();
                file.append(".log");
                Some(push_path(config.output_dir.as_str(), file.as_str()))
            },
            None => None,
        };
        let name: String = container.name.clone();
        self.containers.put(
            name,
            ContainerRunner {
                image,
                container_opts: container,
                network_opts,
                should_be_started: false,
                had_error: false,
                std_log,
                debug: self.opts.debug,
            },
        );
    }

    /// Marks the container as started. Returns what the docker API is told to
    /// create it, unless this was called before.
    pub fn start_container(&mut self, container_name: &str) -> (r: Result<
        Option<CreateConfig<'_>>,
        Error,
    >)
        requires
            old(self).wf(),
        ensures
            if old(self).has(container_name@) {
                let was = old(self).containers@[container_name@];
                &&& final(self).wf()
                &&& *final(self) == (ContainerNetwork {
                    containers: final(self).containers,
                    ..*old(self)
                })
                &&& final(self).containers@ == old(self).containers@.insert(
                    container_name@,
                    (ContainerRunner { should_be_started: true, ..was }),
                )
                &&& if was.should_be_started {
                    r matches Ok(None)
                } else {
                    &&& r matches Ok(Some(config))
                    &&& is_config(config, was.image, was.container_opts, old(self).opts.name@)
                    &&& config.hostname == Some(
                        match &was.network_opts.hostname {
                            Some(h) => h,
                            None => &was.container_opts.name,
                        },
                    )
                    &&& config.mac_address == as_ref_of(&was.network_opts.mac_address)
                    &&& config.ipv4_addr == as_ref_of(&was.network_opts.ipv4_addr)
                    &&& config.ipv6_addr == as_ref_of(&was.network_opts.ipv6_addr)
                }
            } else {
                &&& *final(self) == *old(self)
                &&& r is Err
                &&& r->Err_0@ == ErrorView::message(
                    "Container with name "@ + container_name@ + " not found"@,
                )
            },
    {
        match self.containers.find(container_name) {
            None => Err(not_found(container_name)),
            Some(i) => {
                let start: bool = self.containers.values[i].start_container();
                proof {
                    let now = self.containers.values@[i as int];
                    assert(self.containers.values@ =~= old(self).containers.values@.update(
                        i as int,
                        now,
                    ));
                    NameMap::updated(old(self).containers, self.containers, i as int, now);
                }
                if start {
                    Ok(
                        Some(self.containers.values[i].create_config(self.opts.name.as_str())),
                    )
                } else {
                    Ok(None)
                }
            },
        }
    }

    /// Whether stopping the container is asked of docker
    pub fn stop_container(&self, container_name: &str) -> (r: Result<bool, Error>)
        requires
            self.wf(),
        ensures
            if self.has(container_name@) {
                r == Ok::<bool, Error>(self.containers@[container_name@].should_be_started)
            } else {
                r is Err && r->Err_0@ == ErrorView::message(
                    "Container with name "@ + container_name@ + " not found"@,
                )
            },
    {
        match self.containers.find(container_name) {
            None => Err(not_found(container_name)),
            Some(i) => Ok(self.containers.values[i].needs_stop()),
        }
    }

    /// The container was confirmed to have stopped
    pub fn container_stopped(&mut self, container_name: &str)
        requires
            old(self).wf(),
        ensures
            final(self).wf(),
            *final(self) == (ContainerNetwork { containers: final(self).containers, ..*old(self) }),
            final(self).containers@ == if old(self).has(container_name@) {
                old(self).containers@.insert(
                    container_name@,
                    (ContainerRunner {
                        should_be_started: false,
                        ..old(self).containers@[container_name@]
                    }),
                )
            } else {
                old(self).containers@
            },
    {
        if let Some(i) = self.containers.find(container_name) {
            self.containers.values[i].stopped();
            proof {
                let now = self.containers.values@[i as int];
                assert(self.containers.values@ =~= old(self).containers.values@.update(
                    i as int,
                    now,
                ));
                NameMap::updated(old(self).containers, self.containers, i as int, now);
            }
        }
    }

    /// The names of the containers marked as "important", which are waited for
    pub fn wait_important(&self) -> (r: Vec<String>)
        requires
            self.wf(),
        ensures
            texts(r@) == important_among(self.containers, self.containers.names@.len() as int),
    {
        let mut r: Vec<String> = Vec::new();
        let mut i: usize = 0;
        assert(texts(r@) =~= important_among(self.containers, 0));
        while i < self.containers.names.len()
            invariant
                self.wf(),
                i <= self.containers.names@.len(),
                texts(r@) == important_among(self.containers, i as int),
            decreases self.containers.names@.len() - i,
        {
            if self.containers.values[i].container_opts.important {
                crate::dockerfile::push_arg(&mut r, self.containers.names[i].as_str());
            }
            i = i + 1;
        }
        r
    }

    /// What becomes of a container and of the waiting when the end of the
    /// container was looked at.
    pub open spec fn is_polled(
        was: ContainerRunner,
        now: ContainerRunner,
        terminate_on_failure: bool,
        event: WaitEvent,
        verdict: Verdict,
    ) -> bool {
        &&& now == (ContainerRunner {
            had_error: was.had_error || (is_failure(event) && (terminate_on_failure
                || event is Failed)),
            ..was
        })
        &&& verdict == if event is Running {
            Verdict::Pass
        } else if is_failure(event) && terminate_on_failure {
            Verdict::Unsuccessful
        } else {
            Verdict::Complete
        }
    }

    /// The end of the container with the name was looked at
    pub fn polled(&mut self, name: &str, terminate_on_failure: bool, event: &WaitEvent) -> (r:
        Verdict)
        requires
            old(self).wf(),
            old(self).has(name@),
        ensures
            final(self).wf(),
            *final(self) == (ContainerNetwork { containers: final(self).containers, ..*old(self) }),
            final(self).containers@ == old(self).containers@.insert(
                name@,
                final(self).containers@[name@],
            ),
            *event matches WaitEvent::Failed(text) ==> {
                let gone = crate::text::contains(text@, "No such container: "@);
                let had_error = old(self).containers@[name@].had_error;
                &&& r == if terminate_on_failure && !gone {
                    Verdict::Unsuccessful
                } else {
                    Verdict::Complete
                }
                &&& final(self).containers@[name@].had_error == (had_error || !gone)
            },
            *event matches WaitEvent::Exited { status_code } ==> {
                let had_error = old(self).containers@[name@].had_error;
                &&& r == if terminate_on_failure && status_code != 0 {
                    Verdict::Unsuccessful
                } else {
                    Verdict::Complete
                }
                &&& final(self).containers@[name@].had_error == (had_error || (
                terminate_on_failure && status_code != 0))
            },
            r is Pass <==> *event is Running,
            ContainerNetwork::is_polled(
                old(self).containers@[name@],
                final(self).containers@[name@],
                terminate_on_failure,
                *event,
                r,
            ),
    {
        let failed: bool = match event {
            WaitEvent::Exited { status_code } => *status_code != 0,
            WaitEvent::Failed(text) => !has_text(text.as_str(), "No such container: "),
            _ => false,
        };
        let by_api: bool = match event {
            WaitEvent::Failed(_) => true,
            _ => false,
        };
        if let Some(i) = self.containers.find(name) {
            if failed && (terminate_on_failure || by_api) {
                self.containers.values[i].had_error = true;
            }
            proof {
                let now = self.containers.values@[i as int];
                assert(self.containers.values@ =~= old(self).containers.values@.update(
                    i as int,
                    now,
                ));
                NameMap::updated(old(self).containers, self.containers, i as int, now);
            }
        }
        match event {
            WaitEvent::Running => Verdict::Pass,
            _ => if failed && terminate_on_failure {
                Verdict::Unsuccessful
            } else {
                Verdict::Complete
            },
        }
    }

    /// Looks through the records of the containers that failed and includes the
    /// "Error:" or " panicked at " parts. Omits stacks that have
    /// "ProbablyNotRootCauseError". `records` has for each container, in the order
    /// of the names, its record if it failed and has one.
    pub fn error_compilation(&self, records: &Vec<Option<String>>) -> (r: Error)
        requires
            self.wf(),
            records@.len() == self.containers.names@.len(),
        ensures
            r@ == (ErrorView {
                kinds: reported(self.containers.keys(), records@, records@.len() as int).push(
                    KindView::Str(
                        "ContainerNetwork::wait_with_timeout error compilation (check logs for more):\n"@,
                    ),
                ),
                locations: Seq::empty(),
            }),
    {
        let ghost names = self.containers.keys();
        let mut r: Error = new_report();
        let mut i: usize = 0;
        assert(r@ =~= (ErrorView { kinds: reported(names, records@, 0), locations: Seq::empty() }));
        while i < records.len()
            invariant
                self.wf(),
                names == self.containers.keys(),
                records@.len() == self.containers.names@.len(),
                i <= records@.len(),
                r@ == (ErrorView {
                    kinds: reported(names, records@, i as int),
                    locations: Seq::empty(),
                }),
            decreases records@.len() - i,
        {
            let ghost before = r@.kinds;
            match &records[i] {
                Some(record) => {
                    r = add_record_report(r, self.containers.names[i].as_str(), record.as_str());
                },
                None => {
                    assert(r@.kinds =~= before + Seq::<KindView>::empty());
                },
            }
            i = i + 1;
        }
        r.add_err_no_location(
            ErrorKind::StrError(
                "ContainerNetwork::wait_with_timeout error compilation (check logs for more):\n",
            ),
        )
    }

    /// Forgets all the containers and returns their names, to stop them
    pub fn teardown(&mut self) -> (r: Vec<String>)
        ensures
            texts(r@) == old(self).containers.keys(),
            final(self).wf(),
            *final(self) == (ContainerNetwork { containers: final(self).containers, ..*old(self) }),
            final(self).containers@ == Map::<Seq<char>, ContainerRunner>::empty(),
    {
        let mut r: Vec<String> = Vec::new();
        crate::dockerfile::push_args(&mut r, &self.containers.names);
        assert(texts(r@) =~= self.containers.keys());
        self.containers = NameMap::new();
        r
    }
}

/// Whether a container counts as failed when errors are compiled: it was found to
/// have failed before, or its end shows it now
pub fn has_failed(had_error: bool, event: &WaitEvent) -> (r: bool)
    ensures
        r == (had_error || (match *event {
            WaitEvent::Exited { status_code } => status_code != 0,
            WaitEvent::Failed(_) => true,
            _ => false,
        })),
{
    had_error || match event {
        WaitEvent::Exited { status_code } => *status_code != 0,
        WaitEvent::Failed(_) => true,
        _ => false,
    }
}

/// A container is refused for its name: one that is there already, or an empty one.
pub proof fn names_are_refused_for_these_reasons(network: ContainerNetwork, name: Seq<char>)
    ensures
        network.add_fault(name) is None <==> name.len() > 0 && !network.containers@.dom().contains(
            name,
        ),
        network.has(name) ==> (network.add_fault(name) matches Some(e) && e.kinds == seq![
            KindView::Str("Name is already registered"@),
        ]),
        !network.has(name) && name.len() == 0 ==> (network.add_fault(name) matches Some(e)
            && e.kinds == seq![KindView::Str("Name for container can't be empty"@)]),
{
}

/// Containers are waited for and reported in the order of their names.
pub proof fn lists_go_by_the_order_of_names(
    containers: NameMap<ContainerRunner>,
    names: Seq<Seq<char>>,
    records: Seq<Option<String>>,
    n: int,
)
    requires
        0 <= n,
    ensures
        n < containers.names@.len() ==> important_among(containers, n + 1)
            == if containers.values@[n].container_opts.important {
            important_among(containers, n).push(containers.names@[n]@)
        } else {
            important_among(containers, n)
        },
        n < records.len() && records[n] is Some ==> reported(names, records, n + 1) == reported(
            names,
            records,
            n,
        ) + record_report(names[n], records[n]->0@),
        n < records.len() && records[n] is None ==> reported(names, records, n + 1) == reported(
            names,
            records,
            n,
        ),
        important_among(containers, 0).len() == 0 && reported(names, records, 0).len() == 0,
{
    assert(reported(names, records, n) + Seq::<KindView>::empty() =~= reported(names, records, n));
}

} // verus!
