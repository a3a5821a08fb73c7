//! A controlled network of containers.

use vstd::prelude::*;

use crate::build_plan::{plan_builds, BuildPlan};
use crate::cli_docker::{Build, Container};
use crate::command::{optional, text_pairs, Command, CommandResult};
use crate::dockerfile::{
    is_docker, push_arg, push_args, push_pairs, Dockerfile,
};
use crate::duration::{duration_debug, Duration};
use crate::error::{Error, ErrorKind, ErrorView, KindView, Location};
use crate::error_report::{add_result_report, new_report, result_report};
use crate::file_options::FileOptions;
use crate::name_map::NameMap;
use crate::paths::pushed;
use crate::text::{debug_list, debug_texts, decimal, same, texts, to_decimal};
use crate::uuid::{hyphenated, with_uuid, Uuid};

verus! {

/// How far a container has come.
pub enum RunState {
    /// It has not been run
    PreActive,
    /// It is running
    Active,
    /// It has ended, with the result or an error of its runner
    PostActive(Result<CommandResult, Error>),
}

/// A container and how far it has come.
pub struct ContainerState {
    pub container: Container,
    pub run_state: RunState,
    /// The ID under which docker knows the container. Logically, only the
    /// `Active` state should have actual containers that should be removed, but
    /// all the containers are created before any is started. If an error occurs
    /// in between, the created containers with associated IDs need to be removed.
    pub active_container_id: Option<String>,
}

/// The run state after a termination, `outcome` being what terminating the runner
/// and taking its result gave.
pub open spec fn is_terminated_state(
    before: RunState,
    after: RunState,
    outcome: Result<Option<CommandResult>, Error>,
) -> bool {
    match before {
        RunState::Active => match outcome {
            Ok(Some(comres)) => after == RunState::PostActive(Ok(comres)),
            Ok(None) => {
                &&& after matches RunState::PostActive(Err(e))
                &&& e@ == ErrorView::of(
                    KindView::Str(
                        "ContainerNetwork -> when terminating a `CommandRunner` attached to a container, did not find a command result for some reason"@,
                    ),
                )
            },
            Err(o) => {
                &&& after matches RunState::PostActive(Err(e))
                &&& e@ == o@.with(
                    KindView::Str(
                        "ContainerNetwork -> when terminating a `CommandRunner` attached to a container, encountered an unexpected error"@,
                    ),
                )
            },
        },
        _ => after == before,
    }
}

impl ContainerState {
    /// An active container is known to docker.
    pub open spec fn wf(self) -> bool {
        self.run_state is Active ==> self.active_container_id is Some
    }

    /// A container that has not been run
    pub fn new(container: Container) -> (r: Self)
        ensures
            r == (ContainerState {
                container,
                run_state: RunState::PreActive,
                active_container_id: None,
            }),
            r.wf(),
    {
        ContainerState { container, run_state: RunState::PreActive, active_container_id: None }
    }

    pub fn container(&self) -> (r: &Container)
        ensures
            *r == self.container,
    {
        &self.container
    }

    pub fn container_mut(&mut self) -> (r: &mut Container)
        ensures
            *r == old(self).container,
            *final(self) == (ContainerState { container: *final(r), ..*old(self) }),
    {
        &mut self.container
    }

    pub fn is_active(&self) -> (r: bool)
        ensures
            r == (self.run_state is Active),
    {
        match &self.run_state {
            RunState::Active => true,
            _ => false,
        }
    }

    /// The command that force removes the container from docker, if docker knows
    /// it
    pub fn removal(&self) -> (r: Option<Command>)
        ensures
            match (r, self.active_container_id) {
                (Some(c), Some(id)) => c.is_plain() && is_docker(c, seq!["rm"@, "-f"@, id@]),
                (None, None) => true,
                _ => false,
            },
    {
        match &self.active_container_id {
            Some(id) => {
                let mut args: Vec<String> = Vec::new();
                push_arg(&mut args, "rm");
                push_arg(&mut args, "-f");
                push_arg(&mut args, id.as_str());
                assert(texts(args@) =~= seq!["rm"@, "-f"@, id@]);
                Some(crate::dockerfile::docker(args))
            },
            None => None,
        }
    }

    /// The container was force removed, and `outcome` is what terminating its
    /// runner and taking the result gave, which only plays a role if the
    /// container was active. Returns if there was an error from the runner.
    pub fn terminate(&mut self, outcome: Result<Option<CommandResult>, Error>) -> (r: bool)
        ensures
            *final(self) == (ContainerState {
                run_state: final(self).run_state,
                active_container_id: None,
                ..*old(self)
            }),
            is_terminated_state(old(self).run_state, final(self).run_state, outcome),
            r == (old(self).run_state is Active && match outcome {
                Ok(Some(comres)) => !crate::command::status_successful(comres.status),
                _ => true,
            }),
            final(self).wf(),
            !(final(self).run_state is Active),
    {
        self.active_container_id = None;
        if !self.is_active() {
            return false;
        }
        match outcome {
            Ok(Some(comres)) => {
                let err: bool = !comres.successful();
                self.run_state = RunState::PostActive(Ok(comres));
                err
            },
            Ok(None) => {
                self.run_state =
                RunState::PostActive(
                    Err(
                        Error::from_kind_locationless(
                            ErrorKind::StrError(
                                "ContainerNetwork -> when terminating a `CommandRunner` attached to a container, did not find a command result for some reason",
                            ),
                        ),
                    ),
                );
                true
            },
            Err(e) => {
                self.run_state =
                RunState::PostActive(
                    Err(
                        e.add_err_no_location(
                            ErrorKind::StrError(
                                "ContainerNetwork -> when terminating a `CommandRunner` attached to a container, encountered an unexpected error",
                            ),
                        ),
                    ),
                );
                true
            },
        }
    }
}

/// A controlled network of containers.
///
/// This allows for much more control than docker-compose does. Every
/// `ContainerNetwork` generates a new UUID for enabling multiple
/// `ContainerNetworks` from the same base to run concurrently. By default these
/// are not applied, but it is recommended to enable them if possible (which may
/// require passing around the UUID parameter for hostnames).
pub struct ContainerNetwork {
    pub uuid: Uuid,
    pub network_name: String,
    /// Arguments passed to `docker network create` when any container is first
    /// run
    pub network_args: Vec<String>,
    pub set: NameMap<ContainerState>,
    pub dockerfile_write_dir: Option<String>,
    pub log_dir: String,
    pub network_active: bool,
    /// If build commands should be `debug`
    pub debug_build: bool,
    /// If create commands should be `debug`
    pub debug_create: bool,
    /// If extra debug output should be enabled
    pub debug_extra: bool,
}

/// The names of the containers among the first `n` that are active, or of those
/// that are not.
pub open spec fn names_by_activity(
    set: NameMap<ContainerState>,
    active: bool,
    n: int,
) -> Seq<Seq<char>>
    decreases n,
{
    if n <= 0 {
        Seq::empty()
    } else {
        let before = names_by_activity(set, active, n - 1);
        if (set.values@[n - 1].run_state is Active) == active {
            before.push(set.names@[n - 1]@)
        } else {
            before
        }
    }
}

/// The names and IDs of the containers among the first `n` that are active.
pub open spec fn active_ids(set: NameMap<ContainerState>, n: int) -> Seq<(Seq<char>, Seq<char>)>
    decreases n,
{
    if n <= 0 {
        Seq::empty()
    } else {
        let before = active_ids(set, n - 1);
        if set.values@[n - 1].run_state is Active {
            before.push((set.names@[n - 1]@, set.values@[n - 1].active_container_id->0@))
        } else {
            before
        }
    }
}

/// The IDs of the containers among the first `n` that docker knows.
pub open spec fn known_ids(set: NameMap<ContainerState>, n: int) -> Seq<Seq<char>>
    decreases n,
{
    if n <= 0 {
        Seq::empty()
    } else {
        let before = known_ids(set, n - 1);
        match set.values@[n - 1].active_container_id {
            Some(id) => before.push(id@),
            None => before,
        }
    }
}

/// What was being done to run a container by itself.
#[derive(Clone, Copy, PartialEq, Eq, Structural, Debug)]
pub enum SinglePhase {
    Create,
    Run,
    Wait,
}

/// A text with the name of a container in quotes in it.
pub open spec fn named(head: Seq<char>, name: Seq<char>, tail: Seq<char>) -> Seq<char> {
    head + "\""@ + name + "\""@ + tail
}

/// A text with the name of a container in quotes in it
pub fn name_text(head: &str, name: &str, tail: &str) -> (r: String)
    ensures
        r@ == named(head@, name@, tail@),
        r@ == head@ + "\""@ + name@ + "\""@ + tail@,
{
    let mut r: String = head.to_owned();
    r.append("\"");
    r.append(name);
    r.append("\"");
    r.append(tail);
    r
}

impl ContainerNetwork {
    /// The names are those of the containers, and active containers are known to
    /// docker.
    pub open spec fn wf(self) -> bool {
        &&& self.set.wf()
        &&& forall|i: int|
            0 <= i < self.set.names@.len() ==> {
                &&& (#[trigger] self.set.values@[i]).wf()
                &&& self.set.values@[i].container.name@ == self.set.names@[i]@
            }
    }

    /// The network has a container with that name.
    pub open spec fn has(self, name: Seq<char>) -> bool {
        self.set@.dom().contains(name)
    }

    /// The network has a container with that name, and it is active.
    pub open spec fn has_active(self, name: Seq<char>) -> bool {
        self.has(name) && self.set@[name].run_state is Active
    }

    /// The container with that name was exchanged, and nothing else.
    pub open spec fn is_updated(self, after: Self, name: Seq<char>, state: ContainerState) -> bool {
        &&& after == (ContainerNetwork { set: after.set, ..self })
        &&& after.set.names@ == self.set.names@
        &&& after.set@ == self.set@.insert(name, state)
    }

    /// The network with nothing in it under a UUID
    pub fn with_uuid(
        uuid: Uuid,
        network_name: &str,
        dockerfile_write_dir: Option<&str>,
        log_dir: &str,
    ) -> (r: Self)
        ensures
            r.wf(),
            r.is_new(uuid, network_name@, dockerfile_write_dir, log_dir@),
            r.uuid == uuid && r.network_name@ == network_name@ && r.log_dir@ == log_dir@,
            r.network_args@.len() == 0 && r.set.names@.len() == 0 && !r.network_active,
            !r.debug_build && !r.debug_create && !r.debug_extra,
            r.dockerfile_write_dir is Some <==> dockerfile_write_dir is Some,
            dockerfile_write_dir matches Some(dir) ==> r.dockerfile_write_dir->0@ == dir@,
    {
        ContainerNetwork {
            uuid,
            network_name: network_name.to_owned(),
            network_args: Vec::new(),
            set: NameMap::new(),
            dockerfile_write_dir: match dockerfile_write_dir {
                Some(dir) => Some(dir.to_owned()),
                None => None,
            },
            log_dir: log_dir.to_owned(),
            network_active: false,
            debug_build: false,
            debug_create: false,
            debug_extra: false,
        }
    }

    /// A network with no container in it.
    pub open spec fn is_new(
        self,
        uuid: Uuid,
        network_name: Seq<char>,
        dockerfile_write_dir: Option<&str>,
        log_dir: Seq<char>,
    ) -> bool {
        &&& self.uuid == uuid
        &&& self.network_name@ == network_name
        &&& self.network_args@.len() == 0
        &&& self.set@ == Map::<Seq<char>, ContainerState>::empty()
        &&& self.set.names@.len() == 0
        &&& optional(self.dockerfile_write_dir) == match dockerfile_write_dir {
            Some(dir) => Some(dir@),
            None => None,
        }
        &&& self.log_dir@ == log_dir
        &&& !self.network_active
        &&& !self.debug_build
        &&& !self.debug_create
        &&& !self.debug_extra
    }

    /// Creates a new `ContainerNetwork`.
    ///
    /// `network_name` sets the name of the docker network that containers will
    /// be attached to, `dockerfile_write_dir` is the directory in which
    /// ".tmp.dockerfile" files can be written if `Dockerfile::Contents` is used
    /// (unless the `dockerfile_write_file`s are explicitly set), and `log_dir` is
    /// where ".log" log files will be written.
    ///
    /// The docker network is only actually created the first time a container is
    /// run.
    ///
    /// Note: if `Dockerfile::Contents` is used, and if it uses resources like
    /// `COPY --from [resource]`, then the resource needs to be in
    /// `dockerfile_write_dir` because of restrictions that Docker makes.
    ///
    /// The standard layout is to have a "./logs" directory for the log files,
    /// "./dockerfiles" for the write directory, and
    /// "./dockerfiles/dockerfile_resources" for resources used by the
    /// dockerfiles.
    pub fn new(network_name: &str, dockerfile_write_dir: Option<&str>, log_dir: &str) -> (r: Self)
        ensures
            r.wf(),
            r.uuid.is_v4(),
            r.is_new(r.uuid, network_name@, dockerfile_write_dir, log_dir@),
            r.network_name@ == network_name@ && r.log_dir@ == log_dir@ && !r.network_active,
    {
        ContainerNetwork::with_uuid(Uuid::new_v4(), network_name, dockerfile_write_dir, log_dir)
    }

    /// Same as [ContainerNetwork::new], but it adds a UUID suffix to the
    /// `network_name`
    pub fn new_with_uuid(
        network_name: &str,
        dockerfile_write_dir: Option<&str>,
        log_dir: &str,
    ) -> (r: Self)
        ensures
            r.wf(),
            r.uuid.is_v4(),
            r.is_new(r.uuid, with_uuid(network_name@, r.uuid), dockerfile_write_dir, log_dir@),
            r.network_name@ == network_name@ + "_"@ + hyphenated(r.uuid.bits),
            r.log_dir@ == log_dir@ && !r.network_active,
    {
        let uuid: Uuid = Uuid::new_v4();
        let name: String = crate::uuid::name_with_uuid(network_name, &uuid);
        ContainerNetwork::with_uuid(uuid, name.as_str(), dockerfile_write_dir, log_dir)
    }

    /// The network in which a container is run by itself, with
    /// "super_orchestrator_{uuid}" as the network name. `debug` is for the build and
    /// create commands. Unconditionally sets `allow_unsuccessful`, so the
    /// `CommandResult` has to be checked if there was an unsuccessful error return
    /// status from within the container itself.
    pub fn for_single(
        container: Container,
        dockerfile_write_dir: Option<&str>,
        log_dir: &str,
        debug: bool,
    ) -> (r: Result<Self, Error>)
        ensures
            if container.dockerfile@ is Contents && dockerfile_write_dir is None {
                r is Err && r->Err_0@ == ErrorView::of(
                    KindView::Str(
                        "ContainerNetwork::add_container -> a container is built with `Dockerfile::Contents`, but `dockerfile_write_dir` is unset"@,
                    ),
                ).with(
                    KindView::Str(
                        "Container::run when trying to create a `ContainerNetwork`"@,
                    ),
                )
            } else {
                &&& r matches Ok(n)
                &&& n.wf()
                &&& n.uuid.is_v4()
                &&& n.network_name@ == with_uuid("super_orchestrator"@, n.uuid)
                &&& n.network_args@.len() == 0
                &&& n.set@ == Map::<Seq<char>, ContainerState>::empty().insert(
                    container.name@,
                    (ContainerState {
                        container: (Container { allow_unsuccessful: true, ..container }),
                        run_state: RunState::PreActive,
                        active_container_id: None,
                    }),
                )
                &&& optional(n.dockerfile_write_dir) == match dockerfile_write_dir {
                    Some(dir) => Some(dir@),
                    None => None,
                }
                &&& n.log_dir@ == log_dir@
                &&& !n.network_active
                &&& n.debug_build == debug
                &&& n.debug_create == debug
                &&& !n.debug_extra
            },
    {
        let mut r: ContainerNetwork = ContainerNetwork::new_with_uuid(
            "super_orchestrator",
            dockerfile_write_dir,
            log_dir,
        );
        r.debug_build = debug;
        r.debug_create = debug;
        let added: Option<Error> = match r.add_container(container.allow_unsuccessful(true)) {
            Ok(_) => None,
            Err(e) => Some(e),
        };
        match added {
            Some(e) => Err(ContainerNetwork::single_error(SinglePhase::Create, e)),
            None => Ok(r),
        }
    }

    /// Adds what was being done to an error of running a container by itself
    pub fn single_error(phase: SinglePhase, e: Error) -> (r: Error)
        ensures
            r@ == e@.with(
                KindView::Str(
                    match phase {
                        SinglePhase::Create => "Container::run when trying to create a `ContainerNetwork`"@,
                        SinglePhase::Run => "Container::run when trying to run a `ContainerNetwork`"@,
                        SinglePhase::Wait => "Container::run when waiting on its `ContainerNetwork`"@,
                    },
                ),
            ),
    {
        e.add_err_no_location(
            ErrorKind::StrError(
                match phase {
                    SinglePhase::Create => "Container::run when trying to create a `ContainerNetwork`",
                    SinglePhase::Run => "Container::run when trying to run a `ContainerNetwork`",
                    SinglePhase::Wait => "Container::run when waiting on its `ContainerNetwork`",
                },
            ),
        )
    }

    /// Adds arguments to be passed to `docker network create` (which will be run
    /// once any container is started)
    pub fn add_network_args(&mut self, network_args: Vec<String>) -> (r: &mut Self)
        ensures
            *r == (ContainerNetwork { network_args: r.network_args, ..*old(self) }),
            r.network_args@ == old(self).network_args@ + network_args@,
            *final(self) == *final(r),
    {
        let mut args: Vec<String> = network_args;
        self.network_args.append(&mut args);
        self
    }

    /// Returns the common UUID
    pub fn uuid(&self) -> (r: Uuid)
        ensures
            r == self.uuid,
    {
        self.uuid
    }

    /// Returns the common UUID as a string
    pub fn uuid_as_string(&self) -> (r: String)
        ensures
            r@ == hyphenated(self.uuid.bits),
    {
        self.uuid.to_text()
    }

    /// Returns the network name
    pub fn network_name(&self) -> (r: &str)
        ensures
            r@ == self.network_name@,
    {
        self.network_name.as_str()
    }

    /// The error of adding the container, if there is one.
    pub open spec fn add_fault(self, container: Container) -> Option<ErrorView> {
        if self.dockerfile_write_dir is None && container.dockerfile@ is Contents {
            Some(
                ErrorView::of(
                    KindView::Str(
                        "ContainerNetwork::add_container -> a container is built with `Dockerfile::Contents`, but `dockerfile_write_dir` is unset"@,
                    ),
                ),
            )
        } else if self.has(container.name@) {
            Some(
                ErrorView::message(
                    named(
                        "ContainerNetwork::add_container -> two containers were supplied with the same name "@,
                        container.name@,
                        ""@,
                    ),
                ),
            )
        } else {
            None
        }
    }

    /// Adds the container to the inactive set
    ///
    /// # Errors
    ///
    /// Can return an error if there are containers with duplicate names, or a
    /// container is built with `Dockerfile::Content` but no
    /// `dockerfile_write_dir` is specified.
    pub fn add_container(&mut self, container: Container) -> (r: Result<&mut Self, Error>)
        requires
            old(self).wf(),
        ensures
            match r {
                Ok(n) => {
                    &&& old(self).add_fault(container) is None
                    &&& n.wf()
                    &&& *n == (ContainerNetwork { set: n.set, ..*old(self) })
                    &&& n.set@ == old(self).set@.insert(
                        container.name@,
                        (ContainerState {
                            container,
                            run_state: RunState::PreActive,
                            active_container_id: None,
                        }),
                    )
                    &&& *final(self) == *final(n)
                },
                Err(e) => {
                    &&& old(self).add_fault(container) == Some(e@)
                    &&& *final(self) == *old(self)
                },
            },
    {
        if self.dockerfile_write_dir.is_none() {
            if let Dockerfile::Contents(_) = &container.dockerfile {
                return Err(
                    Error::from_kind_locationless(
                        ErrorKind::StrError(
                            "ContainerNetwork::add_container -> a container is built with `Dockerfile::Contents`, but `dockerfile_write_dir` is unset",
                        ),
                    ),
                );
            }
        }
        if self.set.find(container.name.as_str()).is_some() {
            return Err(
                Error::from_text(
                    name_text(
                        "ContainerNetwork::add_container -> two containers were supplied with the same name ",
                        container.name.as_str(),
                        "",
                    ),
                ),
            );
        }
        let name: String = container.name.clone();
        let at: usize = self.set.insert_new(name, ContainerState::new(container));
        proof {
            assert forall|i: int| 0 <= i < self.set.names@.len() implies {
                &&& (#[trigger] self.set.values@[i]).wf()
                &&& self.set.values@[i].container.name@ == self.set.names@[i]@
            } by {
                if i < at {
                    assert(old(self).set.values@[i].wf());
                } else if i > at {
                    assert(old(self).set.values@[i - 1].wf());
                }
            }
        }
        Ok(self)
    }

    /// How the container with the name is force removed, if the network has it
    pub fn removal(&self, name: &str) -> (r: Option<Command>)
        requires
            self.wf(),
        ensures
            match r {
                Some(c) => {
                    &&& self.has(name@)
                    &&& self.set@[name@].active_container_id is Some
                    &&& c.is_plain()
                    &&& is_docker(
                        c,
                        seq!["rm"@, "-f"@, self.set@[name@].active_container_id->0@],
                    )
                },
                None => self.has(name@) ==> self.set@[name@].active_container_id is None,
            },
    {
        match self.set.find(name) {
            Some(i) => self.set.values[i].removal(),
            None => None,
        }
    }

    /// Whether the network has the container and it is active
    pub fn is_active(&self, name: &str) -> (r: bool)
        requires
            self.wf(),
        ensures
            r == self.has_active(name@),
    {
        match self.set.find(name) {
            Some(i) => self.set.values[i].is_active(),
            None => false,
        }
    }

    /// The container with the name, if the network has it, was force removed, and
    /// `outcome` is what terminating its runner and taking the result gave, which
    /// only plays a role if the container was active.
    pub fn terminate(&mut self, name: &str, outcome: Result<Option<CommandResult>, Error>)
        requires
            old(self).wf(),
        ensures
            final(self).wf(),
            !final(self).has_active(name@),
            if old(self).has(name@) {
                let was = old(self).set@[name@];
                let now = final(self).set@[name@];
                &&& old(self).is_updated(*final(self), name@, now)
                &&& now == (ContainerState {
                    run_state: now.run_state,
                    active_container_id: None,
                    ..was
                })
                &&& is_terminated_state(was.run_state, now.run_state, outcome)
            } else {
                *final(self) == *old(self)
            },
    {
        if let Some(i) = self.set.find(name) {
            let _ = self.set.values[i].terminate(outcome);
            proof {
                let now = self.set.values@[i as int];
                assert(self.set.values@ =~= old(self).set.values@.update(i as int, now));
                NameMap::updated(old(self).set, self.set, i as int, now);
                self.lemma_wf_after_update(*old(self), i as int);
            }
        }
    }

    /// All containers were force removed, `outcomes` being for each of them, in
    /// the order of the names, as with [ContainerNetwork::terminate]. No container
    /// is active or known to docker any more.
    pub fn terminate_containers(
        &mut self,
        outcomes: Vec<Result<Option<CommandResult>, Error>>,
    )
        requires
            old(self).wf(),
            outcomes@.len() == old(self).set.names@.len(),
        ensures
            final(self).wf(),
            *final(self) == (ContainerNetwork { set: final(self).set, ..*old(self) }),
            final(self).set.names@ == old(self).set.names@,
            forall|i: int|
                0 <= i < old(self).set.names@.len() ==> {
                    let was = old(self).set.values@[i];
                    let now = #[trigger] final(self).set.values@[i];
                    &&& now == (ContainerState {
                        run_state: now.run_state,
                        active_container_id: None,
                        ..was
                    })
                    &&& is_terminated_state(was.run_state, now.run_state, outcomes@[i])
                },
            forall|name: Seq<char>| !(#[trigger] final(self).has_active(name)),
    {
        let mut outcomes: Vec<Result<Option<CommandResult>, Error>> = outcomes;
        let ghost all = outcomes@;
        let n: usize = self.set.values.len();
        let mut i: usize = n;
        assert(all.take(n as int) =~= all);
        while i > 0
            invariant
                i <= n,
                n == self.set.values@.len(),
                old(self).wf(),
                n == old(self).set.values@.len(),
                all.len() == n,
                outcomes@ == all.take(i as int),
                *self == (ContainerNetwork { set: self.set, ..*old(self) }),
                self.set.names@ == old(self).set.names@,
                forall|k: int|
                    0 <= k < i ==> #[trigger] self.set.values@[k] == old(self).set.values@[k],
                forall|k: int|
                    i <= k < n ==> {
                        let was = old(self).set.values@[k];
                        let now = #[trigger] self.set.values@[k];
                        &&& now == (ContainerState {
                            run_state: now.run_state,
                            active_container_id: None,
                            ..was
                        })
                        &&& is_terminated_state(was.run_state, now.run_state, all[k])
                        &&& !(now.run_state is Active)
                    },
            decreases i,
        {
            i = i - 1;
            assert(all.take(i + 1).drop_last() =~= all.take(i as int));
            if let Some(outcome) = outcomes.pop() {
                let _ = self.set.values[i].terminate(outcome);
            }
        }
        proof {
            assert(self.set.keys() == old(self).set.keys());
            assert forall|k: int| 0 <= k < self.set.names@.len() implies {
                &&& (#[trigger] self.set.values@[k]).wf()
                &&& self.set.values@[k].container.name@ == self.set.names@[k]@
            } by {
                assert(old(self).set.values@[k].wf());
            }
            assert forall|name: Seq<char>| !(#[trigger] self.has_active(name)) by {
                if self.has(name) {
                    let k = self.set.keys().index_of(name);
                    assert(self.set.keys()[k] == name);
                    self.set.at(k);
                }
            }
        }
    }

    proof fn lemma_wf_after_update(self, before: Self, i: int)
        requires
            before.wf(),
            0 <= i < before.set.names@.len(),
            self.set.wf(),
            self.set.names@ == before.set.names@,
            self.set.values@ == before.set.values@.update(i, self.set.values@[i]),
            self.set.values@[i].wf(),
            self.set.values@[i].container.name@ == before.set.names@[i]@,
        ensures
            self.wf(),
    {
        assert forall|k: int| 0 <= k < self.set.names@.len() implies {
            &&& (#[trigger] self.set.values@[k]).wf()
            &&& self.set.values@[k].container.name@ == self.set.names@[k]@
        } by {
            assert(before.set.values@[k].wf());
        }
    }

    /// Removes the container with `name` from the network once it was force
    /// terminated, `outcome` being as with [ContainerNetwork::terminate]. Returns
    /// `Ok(None)` if the container was never activated. Should return a
    /// `CommandResult` if the container was normally terminated. Returns an error
    /// if `name` could not be found.
    pub fn remove_container(
        &mut self,
        name: &str,
        outcome: Result<Option<CommandResult>, Error>,
    ) -> (r: Result<Option<CommandResult>, Error>)
        requires
            old(self).wf(),
        ensures
            final(self).wf(),
            *final(self) == (ContainerNetwork { set: final(self).set, ..*old(self) }),
            final(self).set@ == old(self).set@.remove(name@),
            if old(self).has(name@) {
                r is Ok && r->Ok_0 == match old(self).set@[name@].run_state {
                    RunState::PreActive => None,
                    RunState::Active => match outcome {
                        Ok(c) => c,
                        Err(_) => None,
                    },
                    RunState::PostActive(Ok(c)) => Some(c),
                    RunState::PostActive(Err(_)) => None,
                }
            } else {
                r is Err && r->Err_0@ == ErrorView::message(
                    named(
                        "ContainerNetwork::remove_name -> could not find name "@,
                        name@,
                        " in the network"@,
                    ),
                )
            },
    {
        self.terminate(name, outcome);
        let ghost mid = *self;
        match self.set.find(name) {
            Some(i) => {
                let state: ContainerState = self.set.remove_at(i);
                proof {
                    assert forall|k: int| 0 <= k < self.set.names@.len() implies {
                        &&& (#[trigger] self.set.values@[k]).wf()
                        &&& self.set.values@[k].container.name@ == self.set.names@[k]@
                    } by {
                        let o = if k < i {
                            k
                        } else {
                            k + 1
                        };
                        assert(mid.set.values@[o].wf());
                    }
                    assert(self.set@ =~= old(self).set@.remove(name@));
                }
                match state.run_state {
                    RunState::PostActive(Ok(comres)) => Ok(Some(comres)),
                    _ => Ok(None),
                }
            },
            None => {
                assert(self.set@ =~= old(self).set@.remove(name@));
                Err(
                    Error::from_text(
                        name_text(
                            "ContainerNetwork::remove_name -> could not find name ",
                            name,
                            " in the network",
                        ),
                    ),
                )
            },
        }
    }

    /// Adds the volumes to every container currently in the network
    pub fn add_common_volumes(&mut self, volumes: &Vec<(String, String)>) -> (r: &mut Self)
        requires
            old(self).wf(),
        ensures
            r.wf(),
            *r == (ContainerNetwork { set: r.set, ..*old(self) }),
            r.set.names@ == old(self).set.names@,
            forall|i: int|
                0 <= i < old(self).set.names@.len() ==> {
                    let was = old(self).set.values@[i];
                    let now = #[trigger] r.set.values@[i];
                    &&& now == (ContainerState {
                        container: (Container {
                            volumes: now.container.volumes,
                            ..was.container
                        }),
                        ..was
                    })
                    &&& text_pairs(now.container.volumes@) == text_pairs(was.container.volumes@)
                        + text_pairs(volumes@)
                },
            *final(self) == *final(r),
    {
        let n: usize = self.set.values.len();
        let mut i: usize = 0;
        while i < n
            invariant
                i <= n,
                n == self.set.values@.len(),
                old(self).wf(),
                n == old(self).set.values@.len(),
                *self == (ContainerNetwork { set: self.set, ..*old(self) }),
                self.set.names@ == old(self).set.names@,
                forall|k: int|
                    i <= k < n ==> #[trigger] self.set.values@[k] == old(self).set.values@[k],
                forall|k: int|
                    0 <= k < i ==> {
                        let was = old(self).set.values@[k];
                        let now = #[trigger] self.set.values@[k];
                        &&& now == (ContainerState {
                            container: (Container {
                                volumes: now.container.volumes,
                                ..was.container
                            }),
                            ..was
                        })
                        &&& text_pairs(now.container.volumes@) == text_pairs(
                            was.container.volumes@,
                        ) + text_pairs(volumes@)
                    },
            decreases n - i,
        {
            let ghost before = *self;
            push_pairs(&mut self.set.values[i].container.volumes, volumes);
            assert(self.set.values@[i as int] == (ContainerState {
                container: (Container {
                    volumes: self.set.values@[i as int].container.volumes,
                    ..before.set.values@[i as int].container
                }),
                ..before.set.values@[i as int]
            }));
            i = i + 1;
        }
        proof {
            assert(self.set.keys() == old(self).set.keys());
            assert forall|k: int| 0 <= k < self.set.names@.len() implies {
                &&& (#[trigger] self.set.values@[k]).wf()
                &&& self.set.values@[k].container.name@ == self.set.names@[k]@
            } by {
                assert(old(self).set.values@[k].wf());
            }
        }
        self
    }

    /// Adds the arguments to every container currently in the network
    pub fn add_common_entrypoint_args(&mut self, args: &Vec<String>) -> (r: &mut Self)
        requires
            old(self).wf(),
        ensures
            r.wf(),
            *r == (ContainerNetwork { set: r.set, ..*old(self) }),
            r.set.names@ == old(self).set.names@,
            forall|i: int|
                0 <= i < old(self).set.names@.len() ==> {
                    let was = old(self).set.values@[i];
                    let now = #[trigger] r.set.values@[i];
                    &&& now == (ContainerState {
                        container: (Container {
                            entrypoint_args: now.container.entrypoint_args,
                            ..was.container
                        }),
                        ..was
                    })
                    &&& texts(now.container.entrypoint_args@) == texts(
                        was.container.entrypoint_args@,
                    ) + texts(args@)
                },
            *final(self) == *final(r),
    {
        let n: usize = self.set.values.len();
        let mut i: usize = 0;
        while i < n
            invariant
                i <= n,
                n == self.set.values@.len(),
                old(self).wf(),
                n == old(self).set.values@.len(),
                *self == (ContainerNetwork { set: self.set, ..*old(self) }),
                self.set.names@ == old(self).set.names@,
                forall|k: int|
                    i <= k < n ==> #[trigger] self.set.values@[k] == old(self).set.values@[k],
                forall|k: int|
                    0 <= k < i ==> {
                        let was = old(self).set.values@[k];
                        let now = #[trigger] self.set.values@[k];
                        &&& now == (ContainerState {
                            container: (Container {
                                entrypoint_args: now.container.entrypoint_args,
                                ..was.container
                            }),
                            ..was
                        })
                        &&& texts(now.container.entrypoint_args@) == texts(
                            was.container.entrypoint_args@,
                        ) + texts(args@)
                    },
            decreases n - i,
        {
            let ghost before = *self;
            push_args(&mut self.set.values[i].container.entrypoint_args, args);
            assert(self.set.values@[i as int] == (ContainerState {
                container: (Container {
                    entrypoint_args: self.set.values@[i as int].container.entrypoint_args,
                    ..before.set.values@[i as int].container
                }),
                ..before.set.values@[i as int]
            }));
            i = i + 1;
        }
        proof {
            assert(self.set.keys() == old(self).set.keys());
            assert forall|k: int| 0 <= k < self.set.names@.len() implies {
                &&& (#[trigger] self.set.values@[k]).wf()
                &&& self.set.values@[k].container.name@ == self.set.names@[k]@
            } by {
                assert(old(self).set.values@[k].wf());
            }
        }
        self
    }

    /// Get the active container names with their ids, in the order of the names
    pub fn get_active_container_ids(&self) -> (r: Vec<(String, String)>)
        requires
            self.wf(),
        ensures
            text_pairs(r@) == active_ids(self.set, self.set.names@.len() as int),
    {
        let mut r: Vec<(String, String)> = Vec::new();
        let mut i: usize = 0;
        assert(text_pairs(r@) =~= active_ids(self.set, 0));
        while i < self.set.names.len()
            invariant
                self.wf(),
                i <= self.set.names@.len(),
                text_pairs(r@) == active_ids(self.set, i as int),
            decreases self.set.names@.len() - i,
        {
            let ghost before = text_pairs(r@);
            assert(self.set.values@[i as int].wf());
            if self.set.values[i].is_active() {
                if let Some(id) = &self.set.values[i].active_container_id {
                    r.push((self.set.names[i].clone(), id.clone()));
                    assert(text_pairs(r@) =~= before.push((self.set.names@[i as int]@, id@)));
                }
            }
            i = i + 1;
        }
        r
    }

    fn names_with_activity(&self, active: bool) -> (r: Vec<String>)
        requires
            self.wf(),
        ensures
            texts(r@) == names_by_activity(self.set, active, self.set.names@.len() as int),
    {
        let mut r: Vec<String> = Vec::new();
        let mut i: usize = 0;
        assert(texts(r@) =~= names_by_activity(self.set, active, 0));
        while i < self.set.names.len()
            invariant
                self.wf(),
                i <= self.set.names@.len(),
                texts(r@) == names_by_activity(self.set, active, i as int),
            decreases self.set.names@.len() - i,
        {
            if self.set.values[i].is_active() == active {
                push_arg(&mut r, self.set.names[i].as_str());
            }
            i = i + 1;
        }
        r
    }

    /// Get the names of all active containers
    pub fn active_names(&self) -> (r: Vec<String>)
        requires
            self.wf(),
        ensures
            texts(r@) == names_by_activity(self.set, true, self.set.names@.len() as int),
    {
        self.names_with_activity(true)
    }

    /// Get the names of all inactive containers (both containers that have not
    /// been run before, and containers that were terminated)
    pub fn inactive_names(&self) -> (r: Vec<String>)
        requires
            self.wf(),
        ensures
            texts(r@) == names_by_activity(self.set, false, self.set.names@.len() as int),
    {
        self.names_with_activity(false)
    }

    /// The names of all containers
    pub fn names(&self) -> (r: Vec<String>)
        ensures
            texts(r@) == self.set.keys(),
    {
        let mut r: Vec<String> = Vec::new();
        push_args(&mut r, &self.set.names);
        assert(texts(r@) =~= self.set.keys());
        r
    }

    /// The IDs of all the containers that docker knows, which are to be removed
    /// when the network is dropped
    pub fn known_container_ids(&self) -> (r: Vec<String>)
        requires
            self.wf(),
        ensures
            texts(r@) == known_ids(self.set, self.set.names@.len() as int),
    {
        let mut r: Vec<String> = Vec::new();
        let mut i: usize = 0;
        assert(texts(r@) =~= known_ids(self.set, 0));
        while i < self.set.names.len()
            invariant
                self.wf(),
                i <= self.set.names@.len(),
                texts(r@) == known_ids(self.set, i as int),
            decreases self.set.names@.len() - i,
        {
            if let Some(id) = &self.set.values[i].active_container_id {
                push_arg(&mut r, id.as_str());
            }
            i = i + 1;
        }
        r
    }

    /// The command that removes the docker network, if the network is active
    pub fn network_removal(&self) -> (r: Option<Command>)
        ensures
            r is Some <==> self.network_active,
            r is Some ==> r->0.is_plain() && is_docker(
                r->0,
                seq!["network"@, "rm"@, self.network_name@],
            ),
    {
        if self.network_active {
            let mut args: Vec<String> = Vec::new();
            push_arg(&mut args, "network");
            push_arg(&mut args, "rm");
            push_arg(&mut args, self.network_name.as_str());
            assert(texts(args@) =~= seq!["network"@, "rm"@, self.network_name@]);
            Some(crate::dockerfile::docker(args))
        } else {
            None
        }
    }

    /// The docker network was removed
    pub fn network_removed(&mut self)
        ensures
            *final(self) == (ContainerNetwork { network_active: false, ..*old(self) }),
    {
        self.network_active = false;
    }

    /// Sets whether the `Container::build` commands should produce debug output
    pub fn debug_build(&mut self, debug_build: bool) -> (r: &mut Self)
        ensures
            *r == (ContainerNetwork { debug_build, ..*old(self) }),
            *final(self) == *final(r),
    {
        self.debug_build = debug_build;
        self
    }

    /// Sets whether the `Container::create` commands should produce debug output
    pub fn debug_create(&mut self, debug_create: bool) -> (r: &mut Self)
        ensures
            *r == (ContainerNetwork { debug_create, ..*old(self) }),
            *final(self) == *final(r),
    {
        self.debug_create = debug_create;
        self
    }

    /// Sets other debug info
    pub fn debug_extra(&mut self, debug_extra: bool) -> (r: &mut Self)
        ensures
            *r == (ContainerNetwork { debug_extra, ..*old(self) }),
            *final(self) == *final(r),
    {
        self.debug_extra = debug_extra;
        self
    }

    /// Sets all debug flags at once
    pub fn debug_all(&mut self, debug_all: bool) -> (r: &mut Self)
        ensures
            *r == (ContainerNetwork {
                debug_build: debug_all,
                debug_create: debug_all,
                debug_extra: debug_all,
                ..*old(self)
            }),
            *final(self) == *final(r),
    {
        self.debug_build = debug_all;
        self.debug_create = debug_all;
        self.debug_extra = debug_all;
        self
    }

    /// The error of the name at `i` among the names to run, if there is one.
    pub open spec fn run_fault(self, names: Seq<Seq<char>>, i: int) -> Option<ErrorView> {
        let name = names[i];
        if names.take(i).contains(name) {
            Some(
                ErrorView::message(
                    named(
                        "ContainerNetwork::run -> two containers were supplied with the same name "@,
                        name,
                        ""@,
                    ),
                ),
            )
        } else if self.has_active(name) {
            Some(
                ErrorView::message(
                    named(
                        "ContainerNetwork::run -> name "@,
                        name,
                        " is already an active container"@,
                    ),
                ),
            )
        } else if !self.has(name) {
            Some(
                ErrorView::message(
                    named(
                        "ContainerNetwork::run -> argument name "@,
                        name,
                        " is not contained in the network"@,
                    ),
                ),
            )
        } else {
            None
        }
    }

    /// The names can be run: they are different, and each is that of an inactive
    /// container of the network.
    pub open spec fn can_run(self, names: Seq<Seq<char>>) -> bool {
        &&& names.no_duplicates()
        &&& forall|i: int|
            0 <= i < names.len() ==> self.has(#[trigger] names[i]) && !self.has_active(names[i])
    }

    /// Checks the names before a run. Returns the error of the first name that
    /// has one.
    pub fn check_run(&self, names: &Vec<String>) -> (r: Result<(), Error>)
        requires
            self.wf(),
        ensures
            match r {
                Ok(_) => self.can_run(texts(names@)),
                Err(e) => exists|i: int|
                    {
                        &&& 0 <= i < names@.len()
                        &&& #[trigger] self.run_fault(texts(names@), i) == Some(e@)
                        &&& forall|k: int|
                            0 <= k < i ==> (#[trigger] self.run_fault(texts(names@), k)) is None
                    },
            },
            r is Ok <==> self.can_run(texts(names@)),
    {
        let ghost all = texts(names@);
        let mut i: usize = 0;
        while i < names.len()
            invariant
                self.wf(),
                all == texts(names@),
                i <= names@.len(),
                forall|k: int| 0 <= k < i ==> (#[trigger] self.run_fault(all, k)) is None,
            decreases names@.len() - i,
        {
            let name: &str = names[i].as_str();
            assert(all[i as int] == name@);
            if contains_before(names, i, name) {
                proof {
                    assert(self.run_fault(all, i as int) is Some);
                    self.lemma_fault(all, i as int);
                }
                return Err(
                    Error::from_text(
                        name_text(
                            "ContainerNetwork::run -> two containers were supplied with the same name ",
                            name,
                            "",
                        ),
                    ),
                );
            }
            match self.set.find(name) {
                Some(k) => {
                    if self.set.values[k].is_active() {
                        proof {
                            assert(self.run_fault(all, i as int) is Some);
                            self.lemma_fault(all, i as int);
                        }
                        return Err(
                            Error::from_text(
                                name_text(
                                    "ContainerNetwork::run -> name ",
                                    name,
                                    " is already an active container",
                                ),
                            ),
                        );
                    }
                },
                None => {
                    proof {
                        assert(self.run_fault(all, i as int) is Some);
                        self.lemma_fault(all, i as int);
                    }
                    return Err(
                        Error::from_text(
                            name_text(
                                "ContainerNetwork::run -> argument name ",
                                name,
                                " is not contained in the network",
                            ),
                        ),
                    );
                },
            }
            i = i + 1;
        }
        proof {
            assert forall|a: int, b: int| 0 <= a < b < all.len() implies all[a] != all[b] by {
                assert(self.run_fault(all, b) is None);
                assert(all.take(b)[a] == all[a]);
            }
            assert forall|k: int| 0 <= k < all.len() implies self.has(#[trigger] all[k])
                && !self.has_active(all[k]) by {
                assert(self.run_fault(all, k) is None);
            }
        }
        Ok(())
    }

    proof fn lemma_fault(self, names: Seq<Seq<char>>, i: int)
        requires
            0 <= i < names.len(),
            self.run_fault(names, i) is Some,
        ensures
            !self.can_run(names),
    {
        if names.take(i).contains(names[i]) {
            let k = names.take(i).index_of(names[i]);
            assert(names.take(i)[k] == names[k]);
        } else {
            assert(!(self.has(names[i]) && !self.has_active(names[i])));
        }
    }

    /// The path of the log file of the network.
    pub open spec fn log_path(self) -> Seq<char> {
        pushed(self.log_dir@, "container_network_"@ + self.network_name@ + ".log"@)
    }

    /// The log file of the network, which is acquired before a run
    pub fn log_file(&self) -> (r: FileOptions)
        ensures
            r.path@ == self.log_path(),
            r.overwrites(),
    {
        let mut name: String = "container_network_".to_owned();
        name.append(self.network_name.as_str());
        name.append(".log");
        FileOptions::write2(self.log_dir.as_str(), name.as_str())
    }

    /// Adds what was being done to an error of acquiring the log file
    pub fn log_error(e: Error) -> (r: Error)
        ensures
            r@ == e@.with(
                KindView::Str("ContainerNetwork::run -> could not acquire logs directory"@),
            ),
    {
        e.add_err_no_location(
            ErrorKind::StrError("ContainerNetwork::run -> could not acquire logs directory"),
        )
    }

    /// The file that has to be acquired for the dockerfile of a container of the
    /// network, if there is one
    pub fn dockerfile_to_acquire(&self, name: &str) -> (r: Result<Option<FileOptions>, Error>)
        requires
            self.wf(),
            self.has(name@),
        ensures
            ({
                let c = self.set@[name@].container;
                if !(c.dockerfile@ is Contents) {
                    r == Ok::<Option<FileOptions>, Error>(None)
                } else {
                    match (c.dockerfile_write_file, self.dockerfile_write_dir) {
                        (Some(file), _) => r matches Ok(Some(f)) && f.path@ == file@
                            && f.overwrites(),
                        (None, Some(dir)) => r matches Ok(Some(f)) && f.path@ == pushed(
                            dir@,
                            name@ + ".tmp.dockerfile"@,
                        ) && f.overwrites(),
                        (None, None) => r is Err && r->Err_0@ == ErrorView::message(
                            named(
                                "ContainerNetwork::run -> the `dockerfile_write_dir` on the `ContainerNetwork` or the `dockerfile_write_file` on container with name "@,
                                name@,
                                " needs to be set"@,
                            ),
                        ),
                    }
                }
            }),
    {
        match self.set.find(name) {
            None => Ok(None),
            Some(i) => {
                let container: &Container = &self.set.values[i].container;
                match &container.dockerfile {
                    Dockerfile::Contents(_) => match &container.dockerfile_write_file {
                        Some(file) => Ok(Some(FileOptions::write(file.as_str()))),
                        None => match &self.dockerfile_write_dir {
                            Some(dir) => {
                                let mut file: String = name.to_owned();
                                file.append(".tmp.dockerfile");
                                Ok(Some(FileOptions::write2(dir.as_str(), file.as_str())))
                            },
                            None => Err(
                                Error::from_text(
                                    name_text(
                                        "ContainerNetwork::run -> the `dockerfile_write_dir` on the `ContainerNetwork` or the `dockerfile_write_file` on container with name ",
                                        name,
                                        " needs to be set",
                                    ),
                                ),
                            ),
                        },
                    },
                    _ => Ok(None),
                }
            },
        }
    }

    /// `acquired` is what acquiring the combined path of the file of
    /// [ContainerNetwork::dockerfile_to_acquire] returned. If the container had no
    /// `dockerfile_write_file` it is set.
    pub fn dockerfile_acquired(&mut self, name: &str, acquired: Result<String, Error>) -> (r: Result<
        (),
        Error,
    >)
        requires
            old(self).wf(),
            old(self).has(name@),
        ensures
            final(self).wf(),
            ({
                let was = old(self).set@[name@];
                match acquired {
                    Err(e) => {
                        &&& *final(self) == *old(self)
                        &&& r is Err
                        &&& r->Err_0@ == e@.with(
                            if was.container.dockerfile_write_file is Some {
                                KindView::Text(
                                    named(
                                        "ContainerNetwork::run -> could not acquire the explicitly set `dockerfile_write_file` on container with name "@,
                                        name@,
                                        ""@,
                                    ),
                                )
                            } else {
                                KindView::Str(
                                    "ContainerNetwork::run -> could not acquire the `dockerfile_write_dir`"@,
                                )
                            },
                        )
                    },
                    Ok(path) => {
                        &&& r is Ok
                        &&& if was.container.dockerfile_write_file is Some {
                            *final(self) == *old(self)
                        } else {
                            old(self).is_updated(
                                *final(self),
                                name@,
                                (ContainerState {
                                    container: (Container {
                                        dockerfile_write_file: Some(path),
                                        ..was.container
                                    }),
                                    ..was
                                }),
                            )
                        }
                    },
                }
            }),
    {
        match self.set.find(name) {
            None => Ok(()),
            Some(i) => {
                let explicit: bool = self.set.values[i].container.dockerfile_write_file.is_some();
                match acquired {
                    Err(e) => {
                        if explicit {
                            Err(
                                e.add_err_no_location(
                                    ErrorKind::StringError(
                                        name_text(
                                            "ContainerNetwork::run -> could not acquire the explicitly set `dockerfile_write_file` on container with name ",
                                            name,
                                            "",
                                        ),
                                    ),
                                ),
                            )
                        } else {
                            Err(
                                e.add_err_no_location(
                                    ErrorKind::StrError(
                                        "ContainerNetwork::run -> could not acquire the `dockerfile_write_dir`",
                                    ),
                                ),
                            )
                        }
                    },
                    Ok(path) => {
                        if !explicit {
                            self.set.values[i].container.dockerfile_write_file = Some(path);
                            proof {
                                let now = self.set.values@[i as int];
                                assert(old(self).set.values@[i as int].wf());
                                assert(self.set.values@ =~= old(self).set.values@.update(
                                    i as int,
                                    now,
                                ));
                                NameMap::updated(old(self).set, self.set, i as int, now);
                                self.lemma_wf_after_update(*old(self), i as int);
                            }
                        }
                        Ok(())
                    },
                }
            },
        }
    }

    /// Prechecks a container of the network, see [Container::precheck] for the
    /// arguments
    pub fn precheck(
        &mut self,
        name: &str,
        dockerfile: Result<(), Error>,
        copied_contents: Vec<Result<String, Error>>,
        volumes: Vec<Result<String, Error>>,
    ) -> (r: Result<(), Error>)
        requires
            old(self).wf(),
            old(self).has(name@),
            copied_contents@.len() == old(self).set@[name@].container.copied_contents@.len(),
            volumes@.len() == old(self).set@[name@].container.volumes@.len(),
        ensures
            final(self).wf(),
            old(self).is_updated(*final(self), name@, final(self).set@[name@]),
            final(self).set@[name@] == (ContainerState {
                container: (Container {
                    copied_contents: final(self).set@[name@].container.copied_contents,
                    volumes: final(self).set@[name@].container.volumes,
                    ..old(self).set@[name@].container
                }),
                ..old(self).set@[name@]
            }),
            old(self).set@[name@].container.is_prechecked(
                final(self).set@[name@].container,
                dockerfile,
                copied_contents@,
                volumes@,
                r,
            ),
    {
        match self.set.find(name) {
            None => Ok(()),
            Some(i) => {
                let r: Result<(), Error> = self.set.values[i].container.precheck(
                    dockerfile,
                    copied_contents,
                    volumes,
                );
                proof {
                    let now = self.set.values@[i as int];
                    assert(old(self).set.values@[i as int].wf());
                    assert(self.set.values@ =~= old(self).set.values@.update(i as int, now));
                    NameMap::updated(old(self).set, self.set, i as int, now);
                    self.lemma_wf_after_update(*old(self), i as int);
                }
                r
            },
        }
    }

    /// Adds what was being done to an error of prechecking a container, `shown`
    /// being what is shown of the container
    pub fn precheck_error(shown: &str, e: Error) -> (r: Error)
        ensures
            r@ == e@.with(
                KindView::Text("ContainerNetwork::run -> when prechecking container "@ + shown@),
            ),
    {
        let mut text: String = "ContainerNetwork::run -> when prechecking container ".to_owned();
        text.append(shown);
        e.add_err_no_location(ErrorKind::StringError(text))
    }

    /// The containers with the names.
    pub open spec fn containers(self, names: Seq<Seq<char>>) -> Seq<Container> {
        Seq::new(names.len(), |i: int| self.set@[names[i]].container)
    }

    /// The tag of the image that is built for a container.
    pub open spec fn image_tag(self, name: Seq<char>) -> Seq<char> {
        "super_orchestrator_"@ + name + "_"@ + hyphenated(self.uuid.bits)
    }

    /// The build tags were set as planned, and nothing else was changed.
    pub open spec fn is_planned(self, after: Self, names: Seq<Seq<char>>, plan: BuildPlan) -> bool {
        &&& after == (ContainerNetwork { set: after.set, ..self })
        &&& after.set.names@ == self.set.names@
        &&& forall|name: Seq<char>|
            self.has(name) && !names.contains(name) ==> #[trigger] after.set@[name]
                == self.set@[name]
        &&& forall|i: int|
            0 <= i < names.len() ==> {
                let was = self.set@[names[i]];
                let now = after.set@[#[trigger] names[i]];
                &&& now == (ContainerState {
                    container: (Container { build_tag: now.container.build_tag, ..was.container }),
                    ..was
                })
                &&& match plan.images@[i] {
                    Some(j) => optional(now.container.build_tag) == Some(
                        self.image_tag(names[j as int]),
                    ),
                    None => now.container.build_tag == was.container.build_tag,
                }
            }
    }

    /// Plans the builds for the names and sets the build tags of their
    /// containers, unless they were explicitly set or set by a previous run.
    /// Returns the indices of the names whose images have to be built, in the
    /// order of the builds.
    pub fn plan_builds(&mut self, names: &Vec<String>) -> (r: Vec<usize>)
        requires
            old(self).wf(),
            old(self).can_run(texts(names@)),
        ensures
            final(self).wf(),
            forall|i: int| 0 <= i < r@.len() ==> #[trigger] r@[i] < names@.len(),
            exists|plan: BuildPlan|
                {
                    &&& #[trigger] plan.is_for(old(self).containers(texts(names@)))
                    &&& r == plan.order
                    &&& old(self).is_planned(*final(self), texts(names@), plan)
                },
    {
        let ghost all = texts(names@);
        let plan: BuildPlan = self.plan(names);
        let ghost containers = self.containers(all);
        let uuid: String = self.uuid.to_text();
        let mut i: usize = 0;
        while i < names.len()
            invariant
                i <= names@.len(),
                all == texts(names@),
                self.wf(),
                old(self).wf(),
                old(self).can_run(all),
                uuid@ == hyphenated(old(self).uuid.bits),
                containers == old(self).containers(all),
                plan.is_for(containers),
                *self == (ContainerNetwork { set: self.set, ..*old(self) }),
                self.set.names@ == old(self).set.names@,
                self.set@.dom() == old(self).set@.dom(),
                forall|name: Seq<char>|
                    old(self).has(name) && !all.take(i as int).contains(name)
                        ==> #[trigger] self.set@[name] == old(self).set@[name],
                forall|k: int|
                    0 <= k < i ==> {
                        let was = old(self).set@[all[k]];
                        let now = self.set@[#[trigger] all[k]];
                        &&& now == (ContainerState {
                            container: (Container {
                                build_tag: now.container.build_tag,
                                ..was.container
                            }),
                            ..was
                        })
                        &&& match plan.images@[k] {
                            Some(j) => optional(now.container.build_tag) == Some(
                                old(self).image_tag(all[j as int]),
                            ),
                            None => now.container.build_tag == was.container.build_tag,
                        }
                    },
            decreases names@.len() - i,
        {
            let ghost before = *self;
            proof {
                assert(all[i as int] == names@[i as int]@);
                assert(old(self).has(all[i as int]));
                assert(!all.take(i as int).contains(all[i as int])) by {
                    if all.take(i as int).contains(all[i as int]) {
                        let k = all.take(i as int).index_of(all[i as int]);
                        assert(all.take(i as int)[k] == all[k]);
                    }
                }
                assert(before.set@[all[i as int]] == old(self).set@[all[i as int]]);
            }
            if let Some(j) = plan.images[i] {
                if let Some(k) = self.set.find(names[i].as_str()) {
                    proof {
                        assert(plan.images@[i as int] == Some(j));
                        assert(j < names@.len());
                    }
                    let mut tag: String = "super_orchestrator_".to_owned();
                    tag.append(names[j].as_str());
                    tag.append("_");
                    tag.append(uuid.as_str());
                    self.set.values[k].container.build_tag = Some(tag);
                    proof {
                        let now = self.set.values@[k as int];
                        assert(before.set.values@[k as int].wf());
                        assert(self.set.values@ =~= before.set.values@.update(k as int, now));
                        NameMap::updated(before.set, self.set, k as int, now);
                        self.lemma_wf_after_update(before, k as int);
                        assert(self.set@.dom() =~= old(self).set@.dom());
                        assert(tag@ == old(self).image_tag(all[j as int]));
                    }
                }
            }
            proof {
                assert forall|name: Seq<char>|
                    old(self).has(name) && !all.take(i + 1).contains(
                        name,
                    ) implies #[trigger] self.set@[name] == old(self).set@[name] by {
                    assert(all.take(i + 1)[i as int] == all[i as int]);
                    if all.take(i as int).contains(name) {
                        let k = all.take(i as int).index_of(name);
                        assert(all.take(i + 1)[k] == name);
                    }
                    assert(name != all[i as int]);
                }
                assert forall|k: int| 0 <= k < i implies self.set@[#[trigger] all[k]]
                    == before.set@[all[k]] by {
                    assert(all[k] != all[i as int]);
                }
            }
            i = i + 1;
        }
        proof {
            assert(all.take(i as int) =~= all);
            assert(plan.is_for(old(self).containers(all)));
            assert forall|k: int| 0 <= k < plan.order@.len() implies #[trigger] plan.order@[k]
                < names@.len() by {
                assert(crate::build_plan::builds(
                    crate::build_plan::needed_keys(containers),
                    plan.order@[k] as int,
                ));
            }
        }
        plan.order
    }

    fn plan(&self, names: &Vec<String>) -> (r: BuildPlan)
        requires
            self.wf(),
            self.can_run(texts(names@)),
        ensures
            r.is_for(self.containers(texts(names@))),
    {
        let ghost all = texts(names@);
        let mut containers: Vec<&Container> = Vec::new();
        let mut i: usize = 0;
        while i < names.len()
            invariant
                i <= names@.len(),
                all == texts(names@),
                self.wf(),
                self.can_run(all),
                containers@.len() == i,
                forall|k: int|
                    0 <= k < i ==> *(#[trigger] containers@[k]) == self.set@[all[k]].container,
            decreases names@.len() - i,
        {
            proof {
                assert(all[i as int] == names@[i as int]@);
                assert(self.has(all[i as int]));
            }
            if let Some(k) = self.set.find(names[i].as_str()) {
                containers.push(&self.set.values[k].container);
            }
            i = i + 1;
        }
        assert(Seq::new(containers@.len(), |i: int| *containers@[i]) =~= self.containers(all));
        plan_builds(&containers)
    }

    /// What is to be done to build the image of a container of the network, see
    /// [Container::build] for the arguments
    pub fn build(&self, name: &str, dockerfile: Result<String, Error>, color_num: usize) -> (r: Result<
        Build,
        Error,
    >)
        requires
            self.wf(),
            self.has(name@),
        ensures
            self.set@[name@].container.is_build_result(dockerfile, self.debug_build, color_num, r),
    {
        match self.set.find(name) {
            Some(i) => self.set.values[i].container.build(dockerfile, self.debug_build, color_num),
            None => Ok(Build::Nothing),
        }
    }

    /// Adds what was being done to an error of building an image
    pub fn build_error(name: &str, e: Error) -> (r: Error)
        ensures
            r@ == e@.with(
                KindView::Text(
                    named(
                        "ContainerNetwork::run when building the container for name "@,
                        name@,
                        ""@,
                    ),
                ),
            ),
    {
        e.add_err_no_location(
            ErrorKind::StringError(
                name_text("ContainerNetwork::run when building the container for name ", name, ""),
            ),
        )
    }

    /// The command that creates the docker network, unless the network is active
    pub fn network_creation(&self) -> (r: Option<Command>)
        ensures
            r is Some <==> !self.network_active,
            r is Some ==> r->0.is_plain() && is_docker(
                r->0,
                seq!["network"@, "create"@] + texts(self.network_args@) + seq![self.network_name@],
            ),
    {
        if self.network_active {
            None
        } else {
            let mut args: Vec<String> = Vec::new();
            push_arg(&mut args, "network");
            push_arg(&mut args, "create");
            assert(texts(args@) =~= seq!["network"@, "create"@]);
            push_args(&mut args, &self.network_args);
            let ghost before = texts(args@);
            push_arg(&mut args, self.network_name.as_str());
            assert(texts(args@) =~= before + seq![self.network_name@]);
            Some(crate::dockerfile::docker(args))
        }
    }

    /// `created` is what the network creation command returned
    pub fn network_created(&mut self, created: Result<CommandResult, Error>) -> (r: Result<(), Error>)
        ensures
            match created {
                Err(e) => {
                    &&& *final(self) == *old(self)
                    &&& r is Err
                    &&& r->Err_0@ == e@.with(
                        KindView::Str(
                            "ContainerNetwork::run -> when running network creation command"@,
                        ),
                    )
                },
                Ok(comres) => if crate::command::status_successful(comres.status) {
                    &&& *final(self) == (ContainerNetwork { network_active: true, ..*old(self) })
                    &&& r is Ok
                } else {
                    &&& *final(self) == *old(self)
                    &&& r is Err
                    &&& r->Err_0@ == ErrorView::message(
                        comres.debug_view() + if comres.status is Some {
                            ".assert_success() -> unsuccessful"@
                        } else {
                            ".assert_success() -> termination was called before completion"@
                        },
                    ).with(
                        KindView::Str("ContainerNetwork::run -> failed to create network"@),
                    )
                },
            },
    {
        match created {
            Err(e) => Err(
                e.add_err_no_location(
                    ErrorKind::StrError(
                        "ContainerNetwork::run -> when running network creation command",
                    ),
                ),
            ),
            Ok(comres) => match comres.assert_success() {
                Ok(_) => {
                    self.network_active = true;
                    Ok(())
                },
                Err(e) => Err(
                    e.add_err_no_location(
                        ErrorKind::StrError("ContainerNetwork::run -> failed to create network"),
                    ),
                ),
            },
        }
    }

    /// The command that creates a container of the network, see
    /// [Container::create]
    pub fn create(&self, name: &str, color_num: usize) -> (r: Result<Command, Error>)
        requires
            self.wf(),
            self.has(name@),
        ensures
            self.set@[name@].container.is_create_result(
                self.network_name@,
                None,
                self.debug_create,
                color_num,
                r,
            ),
    {
        match self.set.find(name) {
            Some(i) => self.set.values[i].container.create(
                self.network_name.as_str(),
                None,
                self.debug_create,
                color_num,
            ),
            None => Err(Error::from_text(String::new())),
        }
    }

    /// The container was created under the ID
    pub fn created(&mut self, name: &str, docker_id: String)
        requires
            old(self).wf(),
            old(self).has(name@),
        ensures
            final(self).wf(),
            old(self).is_updated(
                *final(self),
                name@,
                (ContainerState {
                    active_container_id: Some(docker_id),
                    ..old(self).set@[name@]
                }),
            ),
    {
        if let Some(i) = self.set.find(name) {
            self.set.values[i].active_container_id = Some(docker_id);
            proof {
                let now = self.set.values@[i as int];
                assert(old(self).set.values@[i as int].wf());
                assert(self.set.values@ =~= old(self).set.values@.update(i as int, now));
                NameMap::updated(old(self).set, self.set, i as int, now);
                self.lemma_wf_after_update(*old(self), i as int);
            }
        }
    }

    /// Adds what was being done to an error of creating a container, once more
    /// after the created containers were terminated
    pub fn create_error(name: &str, e: Error) -> (r: Error)
        ensures
            ({
                let kind = KindView::Text(
                    named(
                        "ContainerNetwork::run when creating the container for name "@,
                        name@,
                        ""@,
                    ),
                );
                r@ == e@.with(kind).with(kind)
            }),
    {
        e.add_err_no_location(
            ErrorKind::StringError(
                name_text("ContainerNetwork::run when creating the container for name ", name, ""),
            ),
        ).add_err_no_location(
            ErrorKind::StringError(
                name_text("ContainerNetwork::run when creating the container for name ", name, ""),
            ),
        )
    }

    /// The log file of a stream of a container: the file that was set, or one in
    /// the log directory with the name of the container.
    pub open spec fn is_stream_log(
        self,
        name: Seq<char>,
        chosen: Option<FileOptions>,
        suffix: Seq<char>,
        log: FileOptions,
    ) -> bool {
        match chosen {
            Some(f) => log == f,
            None => log.path@ == pushed(self.log_dir@, name + suffix) && log.overwrites(),
        }
    }

    fn stream_log(&self, name: &str, chosen: &Option<FileOptions>, suffix: &str) -> (r: FileOptions)
        ensures
            self.is_stream_log(name@, *chosen, suffix@, r),
    {
        match chosen {
            Some(f) => f.clone(),
            None => {
                let mut file: String = name.to_owned();
                file.append(suffix);
                FileOptions::write2(self.log_dir.as_str(), file.as_str())
            },
        }
    }

    /// The command that starts a created container of the network
    pub fn start(&self, name: &str, color_num: usize) -> (r: Command)
        requires
            self.wf(),
            self.has(name@),
            self.set@[name@].active_container_id is Some,
        ensures
            r.program@ == "docker"@,
            texts(r.args@) == seq![
                "start"@,
                "--attach"@,
                self.set@[name@].active_container_id->0@,
            ],
            r.stdout_debug == self.set@[name@].container.debug,
            r.stderr_debug == self.set@[name@].container.debug,
            r.stdout_log is Some <==> self.set@[name@].container.log,
            r.stderr_log is Some <==> self.set@[name@].container.log,
            ({
                let state = self.set@[name@];
                let c = state.container;
                if c.log {
                    exists|out: FileOptions, err: FileOptions|
                        {
                            &&& #[trigger] self.is_stream_log(
                                name@,
                                c.stdout_log,
                                "_stdout.log"@,
                                out,
                            )
                            &&& #[trigger] self.is_stream_log(
                                name@,
                                c.stderr_log,
                                "_stderr.log"@,
                                err,
                            )
                            &&& c.is_start(
                                r,
                                state.active_container_id->0@,
                                Some(&out),
                                Some(&err),
                                color_num,
                            )
                        }
                } else {
                    c.is_start(r, state.active_container_id->0@, None, None, color_num)
                }
            }),
    {
        match self.set.find(name) {
            None => Command::new_os_str("docker"),
            Some(i) => {
                let container: &Container = &self.set.values[i].container;
                match &self.set.values[i].active_container_id {
                    None => Command::new_os_str("docker"),
                    Some(id) => {
                        if container.log {
                            let out: FileOptions = self.stream_log(
                                name,
                                &container.stdout_log,
                                "_stdout.log",
                            );
                            let err: FileOptions = self.stream_log(
                                name,
                                &container.stderr_log,
                                "_stderr.log",
                            );
                            container.start(id.as_str(), Some(&out), Some(&err), color_num)
                        } else {
                            container.start(id.as_str(), None, None, color_num)
                        }
                    },
                }
            },
        }
    }

    /// The container was started
    pub fn started(&mut self, name: &str)
        requires
            old(self).wf(),
            old(self).has(name@),
            old(self).set@[name@].active_container_id is Some,
        ensures
            final(self).wf(),
            final(self).has_active(name@),
            old(self).is_updated(
                *final(self),
                name@,
                (ContainerState { run_state: RunState::Active, ..old(self).set@[name@] }),
            ),
    {
        if let Some(i) = self.set.find(name) {
            self.set.values[i].run_state = RunState::Active;
            proof {
                let now = self.set.values@[i as int];
                assert(old(self).set.values@[i as int].wf());
                assert(self.set.values@ =~= old(self).set.values@.update(i as int, now));
                NameMap::updated(old(self).set, self.set, i as int, now);
                self.lemma_wf_after_update(*old(self), i as int);
            }
        }
    }

    /// Adds what was being done to an error of starting a container
    pub fn start_error(name: &str, e: Error) -> (r: Error)
        ensures
            r@ == e@.with(
                KindView::Text(
                    named(
                        "ContainerNetwork::run when starting the container for name "@,
                        name@,
                        ""@,
                    ),
                ),
            ),
    {
        e.add_err_no_location(
            ErrorKind::StringError(
                name_text("ContainerNetwork::run when starting the container for name ", name, ""),
            ),
        )
    }

    /// Adds what was being done to an error of running all inactive containers
    pub fn run_all_error(e: Error) -> (r: Error)
        ensures
            r@ == e@.with(KindView::Str("ContainerNetwork::run_all"@)),
    {
        e.add_err_no_location(ErrorKind::StrError("ContainerNetwork::run_all"))
    }

    /// What is reported of the containers among the first `n` that have ended.
    pub open spec fn compiled(self, n: int) -> Seq<KindView>
        decreases n,
    {
        if n <= 0 {
            Seq::empty()
        } else {
            self.compiled(n - 1) + match self.set.values@[n - 1].run_state {
                RunState::PostActive(Ok(comres)) => result_report(
                    self.set.names@[n - 1]@,
                    comres,
                ),
                RunState::PostActive(Err(e)) => seq![
                    KindView::Text(
                        named(
                            "Error: The internal handling of Container "@,
                            self.set.names@[n - 1]@,
                            " produced this error:\n "@,
                        ) + e@.debug(),
                    ),
                ],
                _ => Seq::empty(),
            }
        }
    }

    /// Looks through the results and includes the last "Error: Error { stack: ["
    /// or " panicked at " parts of stdouts. Omits stacks that have
    /// "ProbablyNotRootCauseError".
    pub fn error_compilation(&self) -> (r: Error)
        requires
            self.wf(),
        ensures
            r@ == (ErrorView {
                kinds: self.compiled(self.set.names@.len() as int),
                locations: Seq::empty(),
            }),
    {
        let mut r: Error = new_report();
        let mut i: usize = 0;
        assert(r@ =~= (ErrorView { kinds: self.compiled(0), locations: Seq::empty() }));
        while i < self.set.names.len()
            invariant
                self.wf(),
                i <= self.set.names@.len(),
                r@ == (ErrorView { kinds: self.compiled(i as int), locations: Seq::empty() }),
            decreases self.set.names@.len() - i,
        {
            let ghost before = r@.kinds;
            match &self.set.values[i].run_state {
                RunState::PostActive(Ok(comres)) => {
                    r = add_result_report(r, self.set.names[i].as_str(), comres);
                },
                RunState::PostActive(Err(e)) => {
                    let mut text: String = name_text(
                        "Error: The internal handling of Container ",
                        self.set.names[i].as_str(),
                        " produced this error:\n ",
                    );
                    text.append(e.debug_text().as_str());
                    let ghost t = text@;
                    r = r.add_err_no_location(ErrorKind::StringError(text));
                    assert(r@.kinds =~= before + seq![KindView::Text(t)]);
                },
                _ => {
                    assert(r@.kinds =~= before + Seq::<KindView>::empty());
                },
            }
            i = i + 1;
        }
        r
    }

    /// The error of a name that cannot be waited for, if there is one.
    pub open spec fn wait_fault(self, name: Seq<char>) -> Option<ErrorView> {
        if self.has_active(name) {
            None
        } else {
            Some(
                ErrorView::message(
                    named(
                        "ContainerNetwork::wait_with_timeout -> name "@,
                        name,
                        if self.has(name) {
                            " is already inactive"@
                        } else {
                            " not found in the network"@
                        },
                    ),
                ),
            )
        }
    }

    /// Checks the names before waiting for them. Returns the error of the first
    /// name that has one.
    pub fn check_wait(&self, names: &Vec<String>) -> (r: Result<(), Error>)
        requires
            self.wf(),
        ensures
            match r {
                Ok(_) => forall|i: int|
                    0 <= i < names@.len() ==> self.has_active(#[trigger] names@[i]@),
                Err(e) => exists|i: int|
                    {
                        &&& 0 <= i < names@.len()
                        &&& self.wait_fault((#[trigger] names@[i])@) == Some(e@)
                        &&& forall|k: int|
                            0 <= k < i ==> self.has_active(#[trigger] names@[k]@)
                    },
            },
    {
        let mut i: usize = 0;
        while i < names.len()
            invariant
                self.wf(),
                i <= names@.len(),
                forall|k: int| 0 <= k < i ==> self.has_active(#[trigger] names@[k]@),
            decreases names@.len() - i,
        {
            let name: &str = names[i].as_str();
            match self.set.find(name) {
                Some(k) => {
                    if !self.set.values[k].is_active() {
                        assert(self.wait_fault(names@[i as int]@) is Some);
                        return Err(
                            Error::from_text(
                                name_text(
                                    "ContainerNetwork::wait_with_timeout -> name ",
                                    name,
                                    " is already inactive",
                                ),
                            ),
                        );
                    }
                },
                None => {
                    assert(self.wait_fault(names@[i as int]@) is Some);
                    return Err(
                        Error::from_text(
                            name_text(
                                "ContainerNetwork::wait_with_timeout -> name ",
                                name,
                                " not found in the network",
                            ),
                        ),
                    );
                },
            }
            i = i + 1;
        }
        Ok(())
    }

    /// The active containers among the first `n` that are not among the names.
    pub open spec fn others_among(self, names: Seq<Seq<char>>, n: int) -> Seq<Seq<char>>
        decreases n,
    {
        if n <= 0 {
            Seq::empty()
        } else {
            let before = self.others_among(names, n - 1);
            if self.set.values@[n - 1].run_state is Active && !names.contains(
                self.set.names@[n - 1]@,
            ) {
                before.push(self.set.names@[n - 1]@)
            } else {
                before
            }
        }
    }

    /// The names of the active containers that are not among the names. They are
    /// looked at while waiting for the names if `terminate_on_failure`, because any
    /// container that stops with an unsuccessful return value then ends the
    /// waiting.
    pub fn other_names(&self, names: &Vec<String>, terminate_on_failure: bool) -> (r: Vec<String>)
        requires
            self.wf(),
        ensures
            texts(r@) == if terminate_on_failure {
                self.others_among(texts(names@), self.set.names@.len() as int)
            } else {
                Seq::empty()
            },
    {
        let ghost all = texts(names@);
        let mut r: Vec<String> = Vec::new();
        if !terminate_on_failure {
            assert(texts(r@) =~= Seq::empty());
            return r;
        }
        let mut i: usize = 0;
        assert(texts(r@) =~= self.others_among(all, 0));
        while i < self.set.names.len()
            invariant
                self.wf(),
                all == texts(names@),
                i <= self.set.names@.len(),
                texts(r@) == self.others_among(all, i as int),
            decreases self.set.names@.len() - i,
        {
            let name: &str = self.set.names[i].as_str();
            assert(all.take(names@.len() as int) =~= all);
            if self.set.values[i].is_active() && !contains_before(names, names.len(), name) {
                push_arg(&mut r, name);
            }
            i = i + 1;
        }
        r
    }

    /// What becomes of a container and of the waiting when the container was
    /// looked at. `waited` is whether the container is one that is waited for. A
    /// container that is not stays active when it has completed, so that it can
    /// be waited for later, unless its failure ends the waiting.
    pub open spec fn is_polled(
        was: ContainerState,
        now: ContainerState,
        waited: bool,
        terminate_on_failure: bool,
        event: Polled,
        verdict: Verdict,
    ) -> bool {
        if !(was.run_state is Active) {
            now == was && verdict is Complete
        } else {
            match event {
                Polled::Running => now == was && verdict is Pass,
                Polled::Failed => now == was && verdict == if waited {
                    Verdict::OsError
                } else {
                    Verdict::Pass
                },
                Polled::Done(result) => {
                    let err = match result {
                        Some(comres) => !crate::command::status_successful(comres.status),
                        None => true,
                    };
                    let failed = terminate_on_failure && err && !was.container.allow_unsuccessful;
                    &&& verdict == if failed {
                        Verdict::Unsuccessful
                    } else {
                        Verdict::Complete
                    }
                    &&& if waited || failed {
                        &&& now == (ContainerState { run_state: now.run_state, ..was })
                        &&& match result {
                            Some(comres) => now.run_state == RunState::PostActive(Ok(comres)),
                            None => now.run_state matches RunState::PostActive(Err(e)) && e@
                                == ErrorView::of(
                                KindView::Str(
                                    "ContainerNetwork::wait_with_timeout -> when runner was done, did not find a command result for some reason"@,
                                ),
                            ),
                        }
                    } else {
                        now == was
                    }
                },
            }
        }
    }

    /// The container with the name was looked at
    pub fn polled(
        &mut self,
        name: &str,
        waited: bool,
        terminate_on_failure: bool,
        event: Polled,
    ) -> (r: Verdict)
        requires
            old(self).wf(),
            old(self).has(name@),
        ensures
            final(self).wf(),
            old(self).is_updated(*final(self), name@, final(self).set@[name@]),
            old(self).set@[name@].run_state is Active ==> (r is Pass || r is OsError
                <==> !(event is Done)),
            old(self).set@[name@].run_state is Active && (event matches Polled::Done(Some(c)) && (
            c.status matches Some(s) && s.success)) ==> r is Complete,
            r is Unsuccessful ==> terminate_on_failure && !(final(self).set@[name@].run_state
                is Active),
            r is Complete && waited ==> !(final(self).set@[name@].run_state is Active),
            ContainerNetwork::is_polled(
                old(self).set@[name@],
                final(self).set@[name@],
                waited,
                terminate_on_failure,
                event,
                r,
            ),
    {
        match self.set.find(name) {
            None => Verdict::Complete,
            Some(i) => {
                proof {
                    assert(self.set.values@ =~= self.set.values@.update(
                        i as int,
                        self.set.values@[i as int],
                    ));
                    NameMap::updated(self.set, self.set, i as int, self.set.values@[i as int]);
                }
                if !self.set.values[i].is_active() {
                    return Verdict::Complete;
                }
                match event {
                    Polled::Running => Verdict::Pass,
                    Polled::Failed => if waited {
                        Verdict::OsError
                    } else {
                        Verdict::Pass
                    },
                    Polled::Done(result) => {
                        let err: bool = match &result {
                            Some(comres) => !comres.successful(),
                            None => true,
                        };
                        let failed: bool = terminate_on_failure && err
                            && !self.set.values[i].container.allow_unsuccessful;
                        if waited || failed {
                            self.set.values[i].run_state =
                            match result {
                                Some(comres) => RunState::PostActive(Ok(comres)),
                                None => RunState::PostActive(
                                    Err(
                                        Error::from_kind_locationless(
                                            ErrorKind::StrError(
                                                "ContainerNetwork::wait_with_timeout -> when runner was done, did not find a command result for some reason",
                                            ),
                                        ),
                                    ),
                                ),
                            };
                            proof {
                                let now = self.set.values@[i as int];
                                assert(old(self).set.values@[i as int].wf());
                                assert(self.set.values@ =~= old(self).set.values@.update(
                                    i as int,
                                    now,
                                ));
                                NameMap::updated(old(self).set, self.set, i as int, now);
                                self.lemma_wf_after_update(*old(self), i as int);
                            }
                        }
                        if failed {
                            Verdict::Unsuccessful
                        } else {
                            Verdict::Complete
                        }
                    },
                }
            },
        }
    }

    /// The error of waiting when a container was unsuccessful, after everything
    /// was terminated
    pub fn unsuccessful_error(&self) -> (r: Error)
        requires
            self.wf(),
        ensures
            r@ == (ErrorView {
                kinds: self.compiled(self.set.names@.len() as int).push(
                    KindView::Str(
                        "ContainerNetwork::wait_with_timeout error compilation (check logs for more):\n"@,
                    ),
                ),
                locations: Seq::empty(),
            }),
    {
        self.error_compilation().add_err_no_location(
            ErrorKind::StrError(
                "ContainerNetwork::wait_with_timeout error compilation (check logs for more):\n",
            ),
        )
    }

    /// The error of waiting when a runner had an error of its own
    pub fn os_error(&self) -> (r: Error)
        requires
            self.wf(),
        ensures
            r@ == (ErrorView {
                kinds: self.compiled(self.set.names@.len() as int).push(
                    KindView::Str(
                        "ContainerNetwork::wait_with_timeout encountered OS-level `CommandRunner` error"@,
                    ),
                ).push(
                    KindView::Str(
                        "ContainerNetwork::wait_with_timeout error compilation (check logs for more):\n"@,
                    ),
                ),
                locations: Seq::empty(),
            }),
    {
        self.error_compilation().add_err_no_location(
            ErrorKind::StrError(
                "ContainerNetwork::wait_with_timeout encountered OS-level `CommandRunner` error",
            ),
        ).add_err_no_location(
            ErrorKind::StrError(
                "ContainerNetwork::wait_with_timeout error compilation (check logs for more):\n",
            ),
        )
    }

    /// The error of waiting when the time is over, `names` being those that are
    /// left
    pub fn timeout_error(names: &Vec<String>, l: Location) -> (r: Error)
        ensures
            r@ == ErrorView::of(KindView::Timeout).at(l@).with(
                KindView::Text(
                    "ContainerNetwork::wait_with_timeout timeout waiting for container names "@
                        + debug_list(texts(names@)) + " to complete"@,
                ),
            ),
            r@.timed_out(),
    {
        let mut text: String =
            "ContainerNetwork::wait_with_timeout timeout waiting for container names ".to_owned();
        text.append(debug_texts(names).as_str());
        text.append(" to complete");
        let r: Error = Error::timeout(l).add_err_no_location(ErrorKind::StringError(text));
        assert(r@.kinds[0] == KindView::Timeout);
        r
    }

    /// The error of waiting when CTRL-C was issued
    pub fn ctrlc_error() -> (r: Error)
        ensures
            r@ == ErrorView::of(
                KindView::Str(
                    "ContainerNetwork::wait_with_timeout terminating because of `CTRLC_ISSUED`"@,
                ),
            ),
    {
        Error::from_kind_locationless(
            ErrorKind::StrError(
                "ContainerNetwork::wait_with_timeout terminating because of `CTRLC_ISSUED`",
            ),
        )
    }

    /// The ID of an active container, for which the IP address is asked
    pub fn ip_addr_id(&self, num_retries: u64, delay: Duration, name: &str) -> (r: Result<
        &String,
        Error,
    >)
        requires
            self.wf(),
            delay.wf(),
        ensures
            if !self.has(name@) {
                r is Err && r->Err_0@ == ErrorView::message(
                    ip_addr_text(num_retries, delay, name@)
                        + " -> could not find name in container network"@,
                )
            } else {
                match self.set@[name@].active_container_id {
                    None => r is Err && r->Err_0@ == ErrorView::message(
                        ip_addr_text(num_retries, delay, name@)
                            + " -> found container, but it was not active"@,
                    ),
                    Some(id) => r == Ok::<&String, Error>(&id),
                }
            },
    {
        match self.set.find(name) {
            None => {
                let mut text: String = make_ip_addr_text(num_retries, delay, name);
                text.append(" -> could not find name in container network");
                Err(Error::from_text(text))
            },
            Some(i) => match &self.set.values[i].active_container_id {
                None => {
                    let mut text: String = make_ip_addr_text(num_retries, delay, name);
                    text.append(" -> found container, but it was not active");
                    Err(Error::from_text(text))
                },
                Some(id) => Ok(id),
            },
        }
    }

    /// Adds what was being done to an error of asking for an IP address
    pub fn ip_addr_error(num_retries: u64, delay: Duration, name: &str, e: Error) -> (r: Error)
        requires
            delay.wf(),
        ensures
            r@ == e@.with(KindView::Text(ip_addr_text(num_retries, delay, name@))),
    {
        let text: String = make_ip_addr_text(num_retries, delay, name);
        e.add_err_no_location(ErrorKind::StringError(text))
    }

}

/// Whether the name is among the first `n` of the names
pub fn contains_before(names: &Vec<String>, n: usize, name: &str) -> (r: bool)
    requires
        n <= names@.len(),
    ensures
        r == texts(names@).take(n as int).contains(name@),
{
    let ghost all = texts(names@).take(n as int);
    let mut i: usize = 0;
    while i < n
        invariant
            i <= n <= names@.len(),
            all == texts(names@).take(n as int),
            forall|k: int| 0 <= k < i ==> #[trigger] all[k] != name@,
        decreases n - i,
    {
        assert(all[i as int] == names@[i as int]@);
        if same(names[i].as_str(), name) {
            return true;
        }
        i = i + 1;
    }
    false
}

/// What was found when a container was looked at.
pub enum Polled {
    /// Its runner is done, and has a result or not
    Done(Option<CommandResult>),
    /// It is still running
    Running,
    /// Its runner had an error of its own
    Failed,
}

/// What follows from looking at a container.
#[derive(Clone, Copy, PartialEq, Eq, Structural, Debug)]
pub enum Verdict {
    /// The container has completed
    Complete,
    /// The container is passed over in this round
    Pass,
    /// The container was unsuccessful, everything is terminated
    Unsuccessful,
    /// The runner of the container had an error, and is terminated
    OsError,
}

/// What is said of asking for an IP address.
pub open spec fn ip_addr_text(num_retries: u64, delay: Duration, name: Seq<char>) -> Seq<char> {
    "ContainerNetwork::get_ip_addr(num_retries: "@ + decimal(num_retries as nat) + ", delay: "@
        + duration_debug(delay.secs, delay.nanos) + ", name: "@ + name + ")"@
}

fn make_ip_addr_text(num_retries: u64, delay: Duration, name: &str) -> (r: String)
    requires
        delay.wf(),
    ensures
        r@ == ip_addr_text(num_retries, delay, name@),
{
    let mut r: String = "ContainerNetwork::get_ip_addr(num_retries: ".to_owned();
    r.append(to_decimal(num_retries).as_str());
    r.append(", delay: ");
    r.append(delay.debug_text().as_str());
    r.append(", name: ");
    r.append(name);
    r.append(")");
    r
}

proof fn lemma_names_by_activity(set: NameMap<ContainerState>, active: bool, n: int)
    requires
        set.wf(),
        0 <= n <= set.names@.len(),
    ensures
        crate::name_map::ascending(names_by_activity(set, active, n)),
        forall|k: int|
            0 <= k < names_by_activity(set, active, n).len() ==> exists|i: int|
                0 <= i < n && #[trigger] set.names@[i]@ == #[trigger] names_by_activity(
                    set,
                    active,
                    n,
                )[k],
        forall|i: int|
            0 <= i < n ==> (names_by_activity(set, active, n).contains(
                #[trigger] set.names@[i]@,
            ) <==> (set.values@[i].run_state is Active) == active),
    decreases n,
{
    if n > 0 {
        lemma_names_by_activity(set, active, n - 1);
        let before = names_by_activity(set, active, n - 1);
        let now = names_by_activity(set, active, n);
        let last = set.names@[n - 1]@;
        let keys = set.keys();
        assert forall|i: int| 0 <= i < n - 1 implies crate::name_map::text_before(
            #[trigger] set.names@[i]@,
            last,
        ) && set.names@[i]@ != last by {
            assert(crate::name_map::text_before(keys[i], keys[n - 1]));
            crate::name_map::text_order_is_total(keys[i], keys[n - 1]);
        }
        assert(!before.contains(last)) by {
            if before.contains(last) {
                let k = before.index_of(last);
                let i = choose|i: int| 0 <= i < n - 1 && #[trigger] set.names@[i]@ == before[k];
                assert(set.names@[i]@ == last);
            }
        }
        if (set.values@[n - 1].run_state is Active) == active {
            assert(now == before.push(last));
            assert forall|a: int, b: int| 0 <= a < b < now.len() implies crate::name_map::text_before(
                #[trigger] now[a],
                #[trigger] now[b],
            ) by {
                if b == now.len() - 1 {
                    let i = choose|i: int| 0 <= i < n - 1 && #[trigger] set.names@[i]@ == before[a];
                    assert(crate::name_map::text_before(set.names@[i]@, last));
                } else {
                    assert(crate::name_map::text_before(before[a], before[b]));
                }
            }
            assert forall|k: int| 0 <= k < now.len() implies exists|i: int|
                0 <= i < n && #[trigger] set.names@[i]@ == #[trigger] now[k] by {
                if k == now.len() - 1 {
                    assert(set.names@[n - 1]@ == now[k]);
                } else {
                    let i = choose|i: int| 0 <= i < n - 1 && #[trigger] set.names@[i]@ == before[k];
                    assert(set.names@[i]@ == now[k]);
                }
            }
            assert(now[now.len() - 1] == last);
            assert forall|i: int| 0 <= i < n implies (now.contains(#[trigger] set.names@[i]@) <==> (
            set.values@[i].run_state is Active) == active) by {
                if i < n - 1 {
                    if before.contains(set.names@[i]@) {
                        let k = before.index_of(set.names@[i]@);
                        assert(now[k] == set.names@[i]@);
                    }
                    if now.contains(set.names@[i]@) {
                        let k = now.index_of(set.names@[i]@);
                        assert(now[k] == set.names@[i]@);
                        assert(k < now.len() - 1);
                        assert(before[k] == set.names@[i]@);
                    }
                }
            }
        } else {
            assert(now == before);
        }
    }
}

/// Every container of a network is either among the active or among the inactive
/// ones, never in both, and both lists are in the order of the names.
pub proof fn active_and_inactive_names_are_all(network: ContainerNetwork, name: Seq<char>)
    requires
        network.wf(),
    ensures
        ({
            let n = network.set.names@.len() as int;
            let active = names_by_activity(network.set, true, n);
            let inactive = names_by_activity(network.set, false, n);
            &&& crate::name_map::ascending(active)
            &&& crate::name_map::ascending(inactive)
            &&& active.contains(name) <==> network.has_active(name)
            &&& inactive.contains(name) <==> network.has(name) && !network.has_active(name)
        }),
{
    let set = network.set;
    let n = set.names@.len() as int;
    lemma_names_by_activity(set, true, n);
    lemma_names_by_activity(set, false, n);
    let active = names_by_activity(set, true, n);
    let inactive = names_by_activity(set, false, n);
    if network.has(name) {
        let i = set.keys().index_of(name);
        assert(set.keys()[i] == name);
        assert(set.names@[i]@ == name);
        set.at(i);
    }
    if active.contains(name) {
        let k = active.index_of(name);
        let i = choose|i: int| 0 <= i < n && #[trigger] set.names@[i]@ == active[k];
        set.at(i);
    }
    if inactive.contains(name) {
        let k = inactive.index_of(name);
        let i = choose|i: int| 0 <= i < n && #[trigger] set.names@[i]@ == inactive[k];
        set.at(i);
    }
}

/// A network in which everything was terminated has no active names: all its names
/// are inactive, and can be run again.
pub proof fn terminated_names_are_inactive(network: ContainerNetwork)
    requires
        network.wf(),
        forall|name: Seq<char>| !(#[trigger] network.has_active(name)),
    ensures
        ({
            let n = network.set.names@.len() as int;
            &&& names_by_activity(network.set, true, n).len() == 0
            &&& names_by_activity(network.set, false, n) == network.set.keys()
        }),
{
    let n = network.set.names@.len() as int;
    assert forall|k: int| 0 <= k < n implies !(#[trigger] network.set.values@[k].run_state is Active) by {
        network.set.at(k);
        assert(!network.has_active(network.set.names@[k]@));
    }
    lemma_all_inactive(network.set, n);
    assert(network.set.keys().take(n) =~= network.set.keys());
}

proof fn lemma_all_inactive(set: NameMap<ContainerState>, n: int)
    requires
        set.wf(),
        0 <= n <= set.names@.len(),
        forall|k: int| 0 <= k < n ==> !(#[trigger] set.values@[k].run_state is Active),
    ensures
        names_by_activity(set, true, n).len() == 0,
        names_by_activity(set, false, n) == set.keys().take(n),
    decreases n,
{
    if n > 0 {
        lemma_all_inactive(set, n - 1);
        assert(set.keys().take(n) =~= set.keys().take(n - 1).push(set.names@[n - 1]@));
    } else {
        assert(set.keys().take(0) =~= Seq::empty());
    }
}

/// A container that is not waited for can still be waited for after it was looked
/// at, whatever was found, unless its failure ended the waiting. Waiting for it
/// then succeeds if it was successful.
pub proof fn unwaited_containers_can_be_waited_for(
    before: ContainerNetwork,
    after: ContainerNetwork,
    name: Seq<char>,
    terminate_on_failure: bool,
    event: Polled,
    verdict: Verdict,
)
    requires
        before.wf(),
        before.has_active(name),
        before.is_updated(after, name, after.set@[name]),
        ContainerNetwork::is_polled(
            before.set@[name],
            after.set@[name],
            false,
            terminate_on_failure,
            event,
            verdict,
        ),
    ensures
        verdict !is Unsuccessful ==> after.wait_fault(name) is None && after.has_active(name),
        verdict is Unsuccessful ==> terminate_on_failure,
        forall|again: ContainerState, stop: bool, comres: CommandResult, second: Verdict|
            #[trigger] ContainerNetwork::is_polled(
                after.set@[name],
                again,
                true,
                stop,
                Polled::Done(Some(comres)),
                second,
            ) && crate::command::status_successful(comres.status) ==> second is Complete,
{
}

/// The inactive names can always be run: what [ContainerNetwork::run_all_error]
/// speaks of never comes from the names.
pub proof fn inactive_names_can_be_run(network: ContainerNetwork)
    requires
        network.wf(),
    ensures
        network.can_run(
            names_by_activity(network.set, false, network.set.names@.len() as int),
        ),
{
    let names = names_by_activity(network.set, false, network.set.names@.len() as int);
    active_and_inactive_names_are_all(network, names[0]);
    assert forall|a: int, b: int| 0 <= a < b < names.len() implies names[a] != names[b] by {
        crate::name_map::text_order_is_total(names[a], names[b]);
        assert(crate::name_map::text_before(names[a], names[b]));
    }
    assert forall|i: int| 0 <= i < names.len() implies network.has(#[trigger] names[i])
        && !network.has_active(names[i]) by {
        assert(names.contains(names[i]));
        active_and_inactive_names_are_all(network, names[i]);
    }
}

/// Containers of one run share an image exactly if they are built from the same
/// dockerfile with the same arguments: their build tags are equal then, and differ
/// otherwise.
pub proof fn same_builds_have_same_tags(
    before: ContainerNetwork,
    after: ContainerNetwork,
    names: Seq<Seq<char>>,
    plan: BuildPlan,
    a: int,
    b: int,
)
    requires
        before.wf(),
        before.can_run(names),
        plan.is_for(before.containers(names)),
        before.is_planned(after, names, plan),
        0 <= a < names.len(),
        0 <= b < names.len(),
        before.set@[names[a]].container.build_tag is None,
        before.set@[names[b]].container.build_tag is None,
    ensures
        ({
            let x = after.set@[names[a]].container;
            let y = after.set@[names[b]].container;
            &&& x.build_tag is Some
            &&& y.build_tag is Some
            &&& optional(x.build_tag) == optional(y.build_tag) <==> {
                &&& x.dockerfile@ == y.dockerfile@
                &&& texts(x.build_args@) == texts(y.build_args@)
            }
        }),
{
    let containers = before.containers(names);
    crate::build_plan::builds_are_shared(containers, plan, a, b);
    let keys = crate::build_plan::needed_keys(containers);
    let i = plan.images@[a]->0 as int;
    let j = plan.images@[b]->0 as int;
    assert(crate::build_plan::is_builder_of(keys, a, i));
    assert(crate::build_plan::is_builder_of(keys, b, j));
    if i != j {
        assert(names[i] != names[j]);
        crate::uuid::uuid_texts_differ(before.uuid, before.uuid);
        let s = before.image_tag(names[i]);
        let t = before.image_tag(names[j]);
        if s == t {
            let head = "super_orchestrator_"@;
            let tail = "_"@ + hyphenated(before.uuid.bits);
            assert(s =~= head + names[i] + tail);
            assert(t =~= head + names[j] + tail);
            assert(names[i] =~= s.subrange(head.len() as int, s.len() - tail.len()));
            assert(names[j] =~= t.subrange(head.len() as int, t.len() - tail.len()));
        }
    }
    let x = after.set@[names[a]].container;
    let y = after.set@[names[b]].container;
    assert(x.dockerfile == containers[a].dockerfile);
    assert(y.dockerfile == containers[b].dockerfile);
}

/// The result of a container that was looked at decides what follows: a running one is
/// passed over and nothing changes; one that is done is complete if it was successful,
/// if it may be unsuccessful or if failures do not end the waiting, and ends it
/// otherwise. A container that was waited for is inactive then, with its own result.
pub proof fn looked_at_containers_are_judged_by_their_results(
    was: ContainerState,
    now: ContainerState,
    waited: bool,
    terminate_on_failure: bool,
    event: Polled,
    verdict: Verdict,
)
    requires
        ContainerNetwork::is_polled(was, now, waited, terminate_on_failure, event, verdict),
    ensures
        !(was.run_state is Active) ==> now == was && verdict is Complete,
        was.run_state is Active && event is Running ==> now == was && verdict is Pass,
        was.run_state is Active && event is Failed ==> now == was && (waited ==> verdict is OsError)
            && (!waited ==> verdict is Pass),
        was.run_state is Active && (event matches Polled::Done(Some(c)) && (c.status matches Some(s)
            && s.success)) ==> verdict is Complete,
        was.run_state is Active && event is Done && !(event matches Polled::Done(Some(c)) && (
        c.status matches Some(s) && s.success)) ==> (verdict is Unsuccessful
            <==> terminate_on_failure && !was.container.allow_unsuccessful) && (verdict
            is Unsuccessful || verdict is Complete),
        was.run_state is Active && event is Done && (waited || verdict is Unsuccessful) ==> {
            &&& now.run_state is PostActive
            &&& event matches Polled::Done(Some(c)) ==> now.run_state == RunState::PostActive(Ok(c))
            &&& event matches Polled::Done(None) ==> now.run_state->PostActive_0 is Err
        },
        was.run_state is Active && event is Done && !waited && verdict is Complete ==> now == was,
        now.container == was.container,
        now.active_container_id == was.active_container_id,
{
}

/// Terminating ends an active container, with the result of its runner or with an error,
/// and leaves one that is not active as it is.
pub proof fn termination_ends_active_containers(
    before: RunState,
    after: RunState,
    outcome: Result<Option<CommandResult>, Error>,
)
    requires
        is_terminated_state(before, after, outcome),
    ensures
        !(after is Active),
        !(before is Active) ==> after == before,
        before is Active && (outcome matches Ok(Some(c))) ==> after == RunState::PostActive(
            Ok(outcome->Ok_0->0),
        ),
        before is Active && !(outcome matches Ok(Some(c))) ==> after is PostActive
            && after->PostActive_0 is Err,
{
}

/// The active IDs are those of the active containers with their names, and the known IDs
/// are those of the containers that have one.
pub proof fn ids_belong_to_their_containers(
    set: NameMap<ContainerState>,
    n: int,
    name: Seq<char>,
    id: Seq<char>,
)
    requires
        0 <= n <= set.names@.len(),
    ensures
        active_ids(set, n).contains((name, id)) <==> exists|i: int|
            0 <= i < n && (#[trigger] set.values@[i]).run_state is Active && set.names@[i]@ == name
                && set.values@[i].active_container_id->0@ == id,
        known_ids(set, n).contains(id) <==> exists|i: int|
            0 <= i < n && optional((#[trigger] set.values@[i]).active_container_id) == Some(id),
    decreases n,
{
    if n > 0 {
        ids_belong_to_their_containers(set, n - 1, name, id);
        let state = set.values@[n - 1];
        let a = active_ids(set, n - 1);
        let b = active_ids(set, n);
        let x = (name, id);
        if b.contains(x) && !a.contains(x) {
            let k = choose|k: int| 0 <= k < b.len() && b[k] == x;
            if k < a.len() {
                assert(a[k] == x);
            }
            assert(state.run_state is Active && set.names@[n - 1]@ == name);
        }
        if a.contains(x) {
            let k = choose|k: int| 0 <= k < a.len() && a[k] == x;
            assert(b[k] == x);
        }
        if state.run_state is Active && set.names@[n - 1]@ == name
            && state.active_container_id->0@ == id {
            assert(b[a.len() as int] == x);
        }
        let a = known_ids(set, n - 1);
        let b = known_ids(set, n);
        if b.contains(id) && !a.contains(id) {
            let k = choose|k: int| 0 <= k < b.len() && b[k] == id;
            if k < a.len() {
                assert(a[k] == id);
            }
            assert(optional(state.active_container_id) == Some(id));
        }
        if a.contains(id) {
            let k = choose|k: int| 0 <= k < a.len() && a[k] == id;
            assert(b[k] == id);
        }
        if optional(state.active_container_id) == Some(id) {
            assert(b[a.len() as int] == id);
        }
    }
}

/// The others looked at while containers are waited for are all the active ones that are
/// not among these.
pub proof fn others_are_the_active_not_waited_for(
    network: ContainerNetwork,
    names: Seq<Seq<char>>,
    n: int,
    name: Seq<char>,
)
    requires
        0 <= n <= network.set.names@.len(),
    ensures
        network.others_among(names, n).contains(name) <==> !names.contains(name) && exists|i: int|
            0 <= i < n && (#[trigger] network.set.values@[i]).run_state is Active
                && network.set.names@[i]@ == name,
    decreases n,
{
    if n > 0 {
        others_are_the_active_not_waited_for(network, names, n - 1, name);
        let state = network.set.values@[n - 1];
        let a = network.others_among(names, n - 1);
        let b = network.others_among(names, n);
        if b.contains(name) && !a.contains(name) {
            let k = choose|k: int| 0 <= k < b.len() && b[k] == name;
            if k < a.len() {
                assert(a[k] == name);
            }
            assert(state.run_state is Active && network.set.names@[n - 1]@ == name);
        }
        if a.contains(name) {
            let k = choose|k: int| 0 <= k < a.len() && a[k] == name;
            assert(b[k] == name);
        }
        if state.run_state is Active && network.set.names@[n - 1]@ == name && !names.contains(
            name,
        ) {
            assert(b[a.len() as int] == name);
        }
    }
}

/// What is compiled has the report of each container that ended, and the error of each
/// whose handling failed, under its name.
pub proof fn ended_containers_are_compiled(network: ContainerNetwork, n: int, i: int, kind: KindView)
    requires
        0 <= i < n <= network.set.names@.len(),
    ensures
        network.set.values@[i].run_state matches RunState::PostActive(Ok(c)) ==> (result_report(
            network.set.names@[i]@,
            c,
        ).contains(kind) ==> network.compiled(n).contains(kind)),
        network.set.values@[i].run_state matches RunState::PostActive(Err(e))
            ==> network.compiled(n).contains(
            KindView::Text(
                "Error: The internal handling of Container "@ + "\""@ + network.set.names@[i]@
                    + "\""@ + " produced this error:\n "@ + e@.debug(),
            ),
        ),
    decreases n,
{
    let a = network.compiled(n - 1);
    let new = match network.set.values@[n - 1].run_state {
        RunState::PostActive(Ok(comres)) => result_report(network.set.names@[n - 1]@, comres),
        RunState::PostActive(Err(e)) => seq![
            KindView::Text(
                "Error: The internal handling of Container "@ + "\""@ + network.set.names@[n - 1]@
                    + "\""@ + " produced this error:\n "@ + e@.debug(),
            ),
        ],
        _ => Seq::empty(),
    };
    let b = network.compiled(n);
    assert(b == a + new);
    if i < n - 1 {
        ended_containers_are_compiled(network, n - 1, i, kind);
    }
    lemma_in_sum(a, new, kind);
    if let RunState::PostActive(Err(e)) = network.set.values@[i].run_state {
        let shown = KindView::Text(
            "Error: The internal handling of Container "@ + "\""@ + network.set.names@[i]@ + "\""@
                + " produced this error:\n "@ + e@.debug(),
        );
        if i == n - 1 {
            assert(new[0] == shown);
        }
        lemma_in_sum(a, new, shown);
    }
}

pub(crate) proof fn lemma_in_sum(a: Seq<KindView>, b: Seq<KindView>, x: KindView)
    ensures
        (a + b).contains(x) <==> a.contains(x) || b.contains(x),
{
    if a.contains(x) {
        let k = choose|k: int| 0 <= k < a.len() && a[k] == x;
        assert((a + b)[k] == x);
    }
    if b.contains(x) {
        let k = choose|k: int| 0 <= k < b.len() && b[k] == x;
        assert((a + b)[a.len() + k] == x);
    }
    if (a + b).contains(x) {
        let k = choose|k: int| 0 <= k < (a + b).len() && (a + b)[k] == x;
        if k < a.len() {
            assert(a[k] == x);
        } else {
            assert(b[k - a.len()] == x);
        }
    }
}

/// A container is refused exactly if one of its name is there or its dockerfile has to be
/// written and there is no directory for it.
pub proof fn containers_are_refused_for_these_reasons(
    network: ContainerNetwork,
    container: Container,
)
    ensures
        network.add_fault(container) is None <==> !network.set@.dom().contains(container.name@)
            && (container.dockerfile@ is Contents ==> network.dockerfile_write_dir is Some),
{
}

/// A name can be run exactly if it did not come before and is that of a container of the
/// network that is not active; it can be waited for exactly if that is active.
pub proof fn names_are_refused_for_these_reasons(
    network: ContainerNetwork,
    names: Seq<Seq<char>>,
    i: int,
)
    requires
        0 <= i < names.len(),
    ensures
        network.run_fault(names, i) is None <==> {
            &&& forall|k: int| 0 <= k < i ==> #[trigger] names[k] != names[i]
            &&& network.set@.dom().contains(names[i])
            &&& !(network.set@[names[i]].run_state is Active)
        },
        network.wait_fault(names[i]) is None <==> {
            &&& network.set@.dom().contains(names[i])
            &&& network.set@[names[i]].run_state is Active
        },
        network.wait_fault(names[i]) matches Some(e) ==> e.kinds == seq![
            KindView::Text(
                "ContainerNetwork::wait_with_timeout -> name "@ + "\""@ + names[i] + "\""@ + (
                if network.set@.dom().contains(names[i]) {
                    " is already inactive"@
                } else {
                    " not found in the network"@
                }),
            ),
        ],
{
    let front = names.take(i);
    if front.contains(names[i]) {
        let k = choose|k: int| 0 <= k < front.len() && front[k] == names[i];
        assert(names[k] == names[i]);
    }
    if exists|k: int| 0 <= k < i && #[trigger] names[k] == names[i] {
        let k = choose|k: int| 0 <= k < i && #[trigger] names[k] == names[i];
        assert(front[k] == names[i]);
        assert(front.contains(names[i]));
    }
}

/// The log of a stream is the file that was set for it, or else a new one of the log
/// directory that has the name of the container and the suffix.
pub proof fn stream_logs_are_found_by_name(
    network: ContainerNetwork,
    name: Seq<char>,
    chosen: Option<FileOptions>,
    suffix: Seq<char>,
    log: FileOptions,
)
    requires
        network.is_stream_log(name, chosen, suffix, log),
    ensures
        chosen matches Some(f) ==> log == f,
        chosen is None ==> log.path@ == pushed(network.log_dir@, name + suffix)
            && log.overwrites(),
{
}

/// Planning a run changes only build tags, only those of containers that are run, and
/// gives each that is built the tag of the container that it is built for.
pub proof fn planning_sets_build_tags(
    before: ContainerNetwork,
    after: ContainerNetwork,
    names: Seq<Seq<char>>,
    plan: BuildPlan,
    name: Seq<char>,
    i: int,
)
    requires
        before.is_planned(after, names, plan),
        0 <= i < names.len(),
    ensures
        before.set@.dom().contains(name) && !names.contains(name) ==> after.set@[name]
            == before.set@[name],
        after.set@[names[i]].run_state == before.set@[names[i]].run_state,
        after.set@[names[i]].container.dockerfile == before.set@[names[i]].container.dockerfile,
        plan.images@[i] matches Some(j) ==> optional(after.set@[names[i]].container.build_tag)
            == Some(
            "super_orchestrator_"@ + names[j as int] + "_"@ + hyphenated(before.uuid.bits),
        ),
        plan.images@[i] is None ==> after.set@[names[i]].container.build_tag
            == before.set@[names[i]].container.build_tag,
{
}

/// The error of asking for an address tells how often, how long and for whom it was asked;
/// the log file of a network is named after it.
pub proof fn networks_are_told_by_name(
    network: ContainerNetwork,
    num_retries: u64,
    delay: Duration,
    name: Seq<char>,
)
    ensures
        ip_addr_text(num_retries, delay, name) == "ContainerNetwork::get_ip_addr(num_retries: "@
            + decimal(num_retries as nat) + ", delay: "@ + duration_debug(delay.secs, delay.nanos)
            + ", name: "@ + name + ")"@,
        network.log_path() == pushed(
            network.log_dir@,
            "container_network_"@ + network.network_name@ + ".log"@,
        ),
{
}

/// The error for a name or a container that is refused tells the first reason that holds.
pub proof fn refusals_tell_their_reason(
    network: ContainerNetwork,
    names: Seq<Seq<char>>,
    i: int,
    container: Container,
)
    requires
        0 <= i < names.len(),
    ensures
        names.take(i).contains(names[i]) ==> (network.run_fault(names, i) matches Some(e) && e.kinds
            == seq![
            KindView::Text(
                "ContainerNetwork::run -> two containers were supplied with the same name "@
                    + "\""@ + names[i] + "\""@ + ""@,
            ),
        ]),
        !names.take(i).contains(names[i]) && network.has_active(names[i]) ==> (network.run_fault(
            names,
            i,
        ) matches Some(e) && e.kinds == seq![
            KindView::Text(
                "ContainerNetwork::run -> name "@ + "\""@ + names[i] + "\""@
                    + " is already an active container"@,
            ),
        ]),
        !names.take(i).contains(names[i]) && !network.has(names[i]) ==> (network.run_fault(
            names,
            i,
        ) matches Some(e) && e.kinds == seq![
            KindView::Text(
                "ContainerNetwork::run -> argument name "@ + "\""@ + names[i] + "\""@
                    + " is not contained in the network"@,
            ),
        ]),
        network.dockerfile_write_dir is None && container.dockerfile@ is Contents ==> (
        network.add_fault(container) matches Some(e) && e.kinds == seq![
            KindView::Str(
                "ContainerNetwork::add_container -> a container is built with `Dockerfile::Contents`, but `dockerfile_write_dir` is unset"@,
            ),
        ]),
        (container.dockerfile@ is Contents ==> network.dockerfile_write_dir is Some)
            && network.has(container.name@) ==> (network.add_fault(container) matches Some(e)
            && e.kinds == seq![
            KindView::Text(
                "ContainerNetwork::add_container -> two containers were supplied with the same name "@
                    + "\""@ + container.name@ + "\""@ + ""@,
            ),
        ]),
{
}

/// The lists of a network go by the order of its names: the container behind the first `n`
/// is added behind what is listed of these, if it belongs to the list.
pub proof fn lists_go_by_the_order_of_names(
    network: ContainerNetwork,
    names: Seq<Seq<char>>,
    n: int,
)
    requires
        0 <= n < network.set.names@.len(),
    ensures
        ({
            let set = network.set;
            let name = set.names@[n]@;
            let state = set.values@[n];
            let active = state.run_state is Active;
            &&& active_ids(set, n + 1) == if active {
                active_ids(set, n).push((name, state.active_container_id->0@))
            } else {
                active_ids(set, n)
            }
            &&& state.active_container_id matches Some(id) ==> known_ids(set, n + 1) == known_ids(
                set,
                n,
            ).push(id@)
            &&& state.active_container_id is None ==> known_ids(set, n + 1) == known_ids(set, n)
            &&& network.others_among(names, n + 1) == if active && !names.contains(name) {
                network.others_among(names, n).push(name)
            } else {
                network.others_among(names, n)
            }
            &&& state.run_state matches RunState::PostActive(Ok(c)) ==> network.compiled(n + 1)
                == network.compiled(n) + result_report(name, c)
            &&& state.run_state is PreActive || active ==> network.compiled(n + 1)
                == network.compiled(n)
            &&& state.run_state matches RunState::PostActive(Err(e)) ==> network.compiled(
                n + 1,
            ).len() == network.compiled(n).len() + 1
        }),
        active_ids(network.set, 0).len() == 0 && known_ids(network.set, 0).len() == 0,
        network.others_among(names, 0).len() == 0 && network.compiled(0).len() == 0,
{
    assert(network.compiled(n) + Seq::<KindView>::empty() =~= network.compiled(n));
}

} // verus!
