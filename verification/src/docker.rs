//! Docker container management with names that carry the UUID of their network.

use vstd::prelude::*;

use crate::cli_docker::{dir_of, dir_path_of, first_error, localized, Build};
use crate::command::{optional, status_successful, text_pairs, Command, CommandResult};
use crate::docker_container::{acquired_volumes, logged, make_root_path, root_path};
use crate::docker_network::{contains_before, lemma_in_sum, name_text, named, Verdict};
use crate::dockerfile::{create_list_is_told_in_full, tells_docker_create};
use crate::dockerfile::{
    build_arg_list, docker, flagged_pairs, is_docker, listed, push_arg, push_args, push_pairs,
    to_build_args, CreateArgs, Dockerfile, DockerfileView,
};
use crate::error::{Error, ErrorKind, ErrorView, KindView, Location};
use crate::error_report::{add_result_report, new_report, result_report};
use crate::file_options::FileOptions;
use crate::name_map::NameMap;
use crate::paths::{file_name, push_path, pushed};
use crate::text::{debug_list, debug_quote, debug_quoted, debug_texts, texts};
use crate::uuid::{hyphenated, name_with_uuid, with_uuid, Uuid};

verus! {

/// Container running information, put this into a `ContainerNetwork`
///
/// # Note
///
/// Weird things happen if volumes to the same container overlap, e.g. if the
/// directory used for logs is added as a volume, and a volume to another path
/// contained within the directory is also added as a volume.
pub struct Container {
    /// The name of the container, note the "name:tag" docker argument would go
    /// in [Dockerfile::NameTag]
    pub name: String,
    /// Hostname of the URL that could access the container (the container can
    /// alternatively be accessed by an ip address). Usually, this should be the
    /// same as `name`.
    pub host_name: String,
    /// If true, `host_name` is used directly without appending a UUID
    pub no_uuid_for_host_name: bool,
    /// The dockerfile
    pub dockerfile: Dockerfile,
    /// Any flags and args passed to to `docker build`
    pub build_args: Vec<String>,
    /// Any flags and args passed to to `docker create`
    pub create_args: Vec<String>,
    /// Passed as `--volume` to the create args, but these have the advantage of
    /// being canonicalized and prechecked
    pub volumes: Vec<(String, String)>,
    /// Environment variable pairs passed to docker
    pub environment_vars: Vec<(String, String)>,
    /// When set, this indicates that the container should run an entrypoint
    /// using this path to a binary in the container
    pub entrypoint_file: Option<String>,
    /// Arguments of the entrypoint
    pub entrypoint_args: Vec<String>,
}

impl Container {
    /// A container that has only its names and its dockerfile set.
    pub open spec fn is_new(self, name: Seq<char>, dockerfile: Dockerfile) -> bool {
        &&& self.name@ == name
        &&& self.host_name@ == name
        &&& !self.no_uuid_for_host_name
        &&& self.dockerfile == dockerfile
        &&& self.build_args@.len() == 0
        &&& self.create_args@.len() == 0
        &&& self.volumes@.len() == 0
        &&& self.environment_vars@.len() == 0
        &&& self.entrypoint_file is None
        &&& self.entrypoint_args@.len() == 0
    }

    /// Creates the information needed to describe a `Container`. `name` is used
    /// for both the `name` and `hostname`.
    pub fn new(name: &str, dockerfile: Dockerfile) -> (r: Self)
        ensures
            r.is_new(name@, dockerfile),
            r.name@ == name@ && r.host_name@ == name@ && !r.no_uuid_for_host_name,
            r.dockerfile == dockerfile && r.entrypoint_file is None,
            r.build_args@.len() == 0 && r.create_args@.len() == 0 && r.volumes@.len() == 0,
            r.environment_vars@.len() == 0 && r.entrypoint_args@.len() == 0,
    {
        Container {
            name: name.to_owned(),
            host_name: name.to_owned(),
            no_uuid_for_host_name: false,
            dockerfile,
            build_args: Vec::new(),
            create_args: Vec::new(),
            volumes: Vec::new(),
            environment_vars: Vec::new(),
            entrypoint_file: None,
            entrypoint_args: Vec::new(),
        }
    }

    /// This is used in the entrypoint pattern where an externally compiled
    /// binary is used as the entrypoint for the container. This adds a volume
    /// from `entrypoint_binary` to "/{binary_file_name}", sets `entrypoint_file`
    /// to that, and also adds the `entrypoint_args`. `entrypoint_binary` is what
    /// acquiring the binary file path returned; its error is passed on.
    pub fn external_entrypoint(
        self,
        entrypoint_binary: Result<String, Error>,
        entrypoint_args: Vec<String>,
    ) -> (r: Result<Self, Error>)
        requires
            entrypoint_binary matches Ok(p) ==> file_name(p@) is Some,
        ensures
            match entrypoint_binary {
                Err(e) => r is Err && r->Err_0@ == e@.with(
                    KindView::Str(
                        "external_entrypoint could not acquire the external entrypoint binary"@,
                    ),
                ),
                Ok(p) => r matches Ok(c) && {
                    &&& c == (Container {
                        entrypoint_file: c.entrypoint_file,
                        entrypoint_args: c.entrypoint_args,
                        volumes: c.volumes,
                        ..self
                    })
                    &&& optional(c.entrypoint_file) == Some(root_path(p@))
                    &&& text_pairs(c.volumes@) == text_pairs(self.volumes@).push(
                        (p@, root_path(p@)),
                    )
                    &&& c.entrypoint_args@ == self.entrypoint_args@ + entrypoint_args@
                },
            },
    {
        match entrypoint_binary {
            Err(e) => Err(
                e.add_err_no_location(
                    ErrorKind::StrError(
                        "external_entrypoint could not acquire the external entrypoint binary",
                    ),
                ),
            ),
            Ok(p) => {
                let file: String = make_root_path(p.as_str());
                Ok(self.volume(p.as_str(), file.as_str()).entrypoint(file.as_str(), entrypoint_args))
            },
        }
    }

    /// Sets `entrypoint_file` and adds to `entrypoint_args`
    pub fn entrypoint(self, entrypoint_file: &str, entrypoint_args: Vec<String>) -> (r: Self)
        ensures
            r == (Container {
                entrypoint_file: r.entrypoint_file,
                entrypoint_args: r.entrypoint_args,
                ..self
            }),
            optional(r.entrypoint_file) == Some(entrypoint_file@),
            r.entrypoint_args@ == self.entrypoint_args@ + entrypoint_args@,
    {
        let mut r: Container = self;
        let mut args: Vec<String> = entrypoint_args;
        r.entrypoint_file = Some(entrypoint_file.to_owned());
        r.entrypoint_args.append(&mut args);
        r
    }

    /// Adds an entrypoint argument
    pub fn entrypoint_arg(self, entrypoint_arg: &str) -> (r: Self)
        ensures
            r == (Container { entrypoint_args: r.entrypoint_args, ..self }),
            texts(r.entrypoint_args@) == texts(self.entrypoint_args@).push(entrypoint_arg@),
    {
        let mut r: Container = self;
        push_arg(&mut r.entrypoint_args, entrypoint_arg);
        r
    }

    /// Adds a volume to map a local path to a path in the container
    pub fn volume(self, local: &str, container: &str) -> (r: Self)
        ensures
            r == (Container { volumes: r.volumes, ..self }),
            text_pairs(r.volumes@) == text_pairs(self.volumes@).push((local@, container@)),
    {
        let mut r: Container = self;
        r.volumes.push((local.to_owned(), container.to_owned()));
        assert(text_pairs(r.volumes@) =~= text_pairs(self.volumes@).push((local@, container@)));
        r
    }

    /// Adds multiple volumes
    pub fn volumes(self, volumes: Vec<(String, String)>) -> (r: Self)
        ensures
            r == (Container { volumes: r.volumes, ..self }),
            r.volumes@ == self.volumes@ + volumes@,
    {
        let mut r: Container = self;
        let mut volumes: Vec<(String, String)> = volumes;
        r.volumes.append(&mut volumes);
        r
    }

    /// Add arguments to be passed to `docker build`
    pub fn build_args(self, build_args: Vec<String>) -> (r: Self)
        ensures
            r == (Container { build_args: r.build_args, ..self }),
            r.build_args@ == self.build_args@ + build_args@,
    {
        let mut r: Container = self;
        let mut args: Vec<String> = build_args;
        r.build_args.append(&mut args);
        r
    }

    /// Add arguments to be passed to `docker create`
    pub fn create_args(self, create_args: Vec<String>) -> (r: Self)
        ensures
            r == (Container { create_args: r.create_args, ..self }),
            r.create_args@ == self.create_args@ + create_args@,
    {
        let mut r: Container = self;
        let mut args: Vec<String> = create_args;
        r.create_args.append(&mut args);
        r
    }

    /// Adds environment vars to be passed
    pub fn environment_vars(self, environment_vars: Vec<(String, String)>) -> (r: Self)
        ensures
            r == (Container { environment_vars: r.environment_vars, ..self }),
            r.environment_vars@ == self.environment_vars@ + environment_vars@,
    {
        let mut r: Container = self;
        let mut vars: Vec<(String, String)> = environment_vars;
        r.environment_vars.append(&mut vars);
        r
    }

    /// Add arguments to be passed to the entrypoint
    pub fn entrypoint_args(self, entrypoint_args: Vec<String>) -> (r: Self)
        ensures
            r == (Container { entrypoint_args: r.entrypoint_args, ..self }),
            r.entrypoint_args@ == self.entrypoint_args@ + entrypoint_args@,
    {
        let mut r: Container = self;
        let mut args: Vec<String> = entrypoint_args;
        r.entrypoint_args.append(&mut args);
        r
    }

    /// Turns of the default behavior of attaching the UUID to the hostname
    pub fn no_uuid_for_host_name(self) -> (r: Self)
        ensures
            r == (Container { no_uuid_for_host_name: true, ..self }),
    {
        let mut r: Container = self;
        r.no_uuid_for_host_name = true;
        r
    }

    /// The host name in a network with the UUID.
    pub open spec fn full_host_name(self, uuid: Uuid) -> Seq<char> {
        if self.no_uuid_for_host_name {
            self.host_name@
        } else {
            with_uuid(self.host_name@, uuid)
        }
    }

    /// The image that the container is created from in a network with the UUID.
    pub open spec fn image(self, uuid: Uuid) -> Seq<char> {
        match self.dockerfile@ {
            DockerfileView::NameTag(s) => s,
            _ => with_uuid(self.name@, uuid),
        }
    }

    /// The arguments of `docker` that create the container in a network with the
    /// UUID.
    pub open spec fn create_list(
        self,
        network_name: Seq<char>,
        uuid: Uuid,
        volumes: Seq<(Seq<char>, Seq<char>)>,
    ) -> Seq<Seq<char>> {
        seq![
            "create"@,
            "--rm"@,
            "--network"@,
            network_name,
            "--hostname"@,
            self.full_host_name(uuid),
            "--name"@,
            with_uuid(self.name@, uuid),
        ] + flagged_pairs("-e"@, text_pairs(self.environment_vars@), "="@) + flagged_pairs(
            "--volume"@,
            volumes,
            ":"@,
        ) + texts(self.create_args@) + seq!["-t"@, self.image(uuid)] + listed(
            optional(self.entrypoint_file),
        ) + texts(self.entrypoint_args@)
    }
}

/// The command is `docker` with the arguments, forwards its streams if `debug` is
/// set, and writes them to the log file.
pub open spec fn is_shown(
    command: Command,
    args: Seq<Seq<char>>,
    debug: bool,
    log_file: FileOptions,
) -> bool {
    exists|plain: Command|
        {
            &&& #[trigger] plain.is_plain()
            &&& is_docker(plain, args)
            &&& command == logged(
                (Command { stdout_debug: debug, stderr_debug: debug, ..plain }),
                Some(&log_file),
            )
        }
}

fn shown_docker(args: Vec<String>, debug: bool, log_file: &FileOptions) -> (r: Command)
    ensures
        r.program@ == "docker"@,
        texts(r.args@) == texts(args@),
        r.stdout_debug == debug && r.stderr_debug == debug,
        r.stdout_log == Some(*log_file) && r.stderr_log == Some(*log_file),
        is_shown(r, texts(args@), debug, *log_file),
{
    let plain: Command = docker(args);
    assert(plain.is_plain());
    plain.debug(debug).log(Some(log_file))
}

/// A complete network of one or more containers, a more programmable
/// alternative to `docker-compose`
///
/// # Note
///
/// When running multiple containers with networking, there is an issue on some
/// platforms <https://github.com/moby/libnetwork/issues/2647> that means you may
/// have to set `is_not_internal` to `true` even if networking is only done
/// between containers within the network.
pub struct ContainerNetwork {
    pub uuid: Uuid,
    pub network_name: String,
    pub containers: NameMap<Container>,
    pub dockerfile_write_dir: Option<String>,
    /// is `--internal` by default
    pub is_not_internal: bool,
    pub log_dir: String,
    pub active_container_ids: NameMap<String>,
    /// The names of the containers that have a runner
    pub container_runners: NameMap<()>,
    pub container_results: NameMap<Result<CommandResult, Error>>,
    pub network_active: bool,
}

/// The error of putting the container behind others in a network, if there is one.
pub open spec fn add_fault(
    has_write_dir: bool,
    duplicate: bool,
    container: Container,
) -> Option<ErrorView> {
    if !has_write_dir && container.dockerfile@ is Contents {
        Some(
            ErrorView::of(
                KindView::Str(
                    "ContainerNetwork::new() a container is built with `Dockerfile::Contents`, but `dockerfile_write_dir` is unset"@,
                ),
            ),
        )
    } else if duplicate {
        Some(
            ErrorView::message(
                named(
                    "ContainerNetwork::new() two containers were supplied with the same name "@,
                    container.name@,
                    ""@,
                ),
            ),
        )
    } else {
        None
    }
}

/// The error of the container at `i` of a list, if there is one.
pub open spec fn list_fault(has_write_dir: bool, containers: Seq<Container>, i: int) -> Option<
    ErrorView,
> {
    add_fault(
        has_write_dir,
        exists|k: int| 0 <= k < i && #[trigger] containers[k].name@ == containers[i].name@,
        containers[i],
    )
}

/// The containers of a list by their names.
pub open spec fn by_name(containers: Seq<Container>) -> Map<Seq<char>, Container>
    decreases containers.len(),
{
    if containers.len() == 0 {
        Map::empty()
    } else {
        by_name(containers.drop_last()).insert(containers.last().name@, containers.last())
    }
}

proof fn lemma_by_name(containers: Seq<Container>, name: Seq<char>)
    ensures
        by_name(containers).dom().contains(name) <==> exists|k: int|
            0 <= k < containers.len() && #[trigger] containers[k].name@ == name,
    decreases containers.len(),
{
    if containers.len() > 0 {
        lemma_by_name(containers.drop_last(), name);
        assert forall|k: int| 0 <= k < containers.len() - 1 implies #[trigger] containers[k]
            == containers.drop_last()[k] by {}
        if by_name(containers).dom().contains(name) && name != containers.last().name@ {
            let k = choose|k: int|
                0 <= k < containers.len() - 1 && #[trigger] containers.drop_last()[k].name@ == name;
            assert(containers[k].name@ == name);
        }
        if exists|k: int| 0 <= k < containers.len() && #[trigger] containers[k].name@ == name {
            let k = choose|k: int|
                0 <= k < containers.len() && #[trigger] containers[k].name@ == name;
            if k < containers.len() - 1 {
                assert(containers.drop_last()[k].name@ == name);
            } else {
                assert(name == containers.last().name@);
            }
        }
        if name == containers.last().name@ {
            assert(containers[containers.len() - 1].name@ == name);
        }
    }
}

/// The error of adding a container, if there is one
fn check_add(has_write_dir: bool, duplicate: bool, container: &Container) -> (r: Result<(), Error>)
    ensures
        match r {
            Ok(_) => add_fault(has_write_dir, duplicate, *container) is None,
            Err(e) => add_fault(has_write_dir, duplicate, *container) == Some(e@),
        },
{
    if !has_write_dir {
        if let Dockerfile::Contents(_) = &container.dockerfile {
            return Err(
                Error::from_kind_locationless(
                    ErrorKind::StrError(
                        "ContainerNetwork::new() a container is built with `Dockerfile::Contents`, but `dockerfile_write_dir` is unset",
                    ),
                ),
            );
        }
    }
    if duplicate {
        return Err(
            Error::from_text(
                name_text(
                    "ContainerNetwork::new() two containers were supplied with the same name ",
                    container.name.as_str(),
                    "",
                ),
            ),
        );
    }
    Ok(())
}

/// The names of the first `n` containers that are not active.
pub open spec fn inactive_among(network: ContainerNetwork, n: int) -> Seq<Seq<char>>
    decreases n,
{
    if n <= 0 {
        Seq::empty()
    } else {
        let before = inactive_among(network, n - 1);
        let name = network.containers.names@[n - 1]@;
        if network.active_container_ids@.dom().contains(name) {
            before
        } else {
            before.push(name)
        }
    }
}

/// What is reported of the first `n` results.
pub open spec fn compiled(results: NameMap<Result<CommandResult, Error>>, n: int) -> Seq<KindView>
    decreases n,
{
    if n <= 0 {
        Seq::empty()
    } else {
        compiled(results, n - 1) + match results.values@[n - 1] {
            Ok(comres) => result_report(results.names@[n - 1]@, comres),
            Err(e) => seq![
                KindView::Text(
                    "Command runner level error from container "@ + results.names@[n - 1]@ + ":\n"@
                        + e@.debug() + "\n"@,
                ),
            ],
        }
    }
}

/// What was found when the runner of a container was looked at.
pub enum RunnerEvent {
    /// It is done
    Done(CommandResult),
    /// It is still running
    Running,
    /// It had an error of its own, and was terminated
    Failed(Error),
    /// It had an error of its own, and could not be terminated because of this one
    Lost(Error),
}

impl ContainerNetwork {
    /// The names are those of the containers, only containers of the network are
    /// active, only active ones have runners, and contents can be written.
    pub open spec fn wf(self) -> bool {
        &&& self.containers.wf()
        &&& self.active_container_ids.wf()
        &&& self.container_runners.wf()
        &&& self.container_results.wf()
        &&& forall|name: Seq<char>| #[trigger]
            self.containers@.dom().contains(name) ==> {
                &&& self.containers@[name].name@ == name
                &&& self.containers@[name].dockerfile@ is Contents ==> self.dockerfile_write_dir
                    is Some
            }
        &&& forall|name: Seq<char>| #[trigger]
            self.active_container_ids@.dom().contains(name) ==> self.containers@.dom().contains(
                name,
            )
        &&& forall|name: Seq<char>| #[trigger]
            self.container_runners@.dom().contains(name)
                ==> self.active_container_ids@.dom().contains(name)
    }

    /// The network has a container with that name.
    pub open spec fn has(self, name: Seq<char>) -> bool {
        self.containers@.dom().contains(name)
    }

    /// The container with that name is active.
    pub open spec fn has_active(self, name: Seq<char>) -> bool {
        self.active_container_ids@.dom().contains(name)
    }

    /// The container with that name has a runner.
    pub open spec fn has_runner(self, name: Seq<char>) -> bool {
        self.container_runners@.dom().contains(name)
    }

    /// A network of the containers that has not been run.
    pub open spec fn is_new(
        self,
        network_name: Seq<char>,
        containers: Seq<Container>,
        dockerfile_write_dir: Option<&str>,
        is_not_internal: bool,
        log_dir: Seq<char>,
    ) -> bool {
        &&& self.network_name@ == network_name
        &&& self.containers@ == by_name(containers)
        &&& optional(self.dockerfile_write_dir) == match dockerfile_write_dir {
            Some(dir) => Some(dir@),
            None => None,
        }
        &&& self.is_not_internal == is_not_internal
        &&& self.log_dir@ == log_dir
        &&& self.active_container_ids@ == Map::<Seq<char>, String>::empty()
        &&& self.container_runners@ == Map::<Seq<char>, ()>::empty()
        &&& self.container_results@ == Map::<Seq<char>, Result<CommandResult, Error>>::empty()
        &&& !self.network_active
    }

    /// Creates a new `ContainerNetwork`.
    ///
    /// This function generates a UUID used for enabling multiple
    /// `ContainerNetwork`s with the same names and ids to run simultaneously.
    /// The uuid is appended to network names, container names, and hostnames.
    /// Arguments involving container names automatically append the uuid.
    ///
    /// `network_name` sets the name of the docker network that containers will
    /// be attached to, `containers` is the set of containers that can be
    /// referred to later by name, `dockerfile_write_dir` is the directory in
    /// which "__tmp.dockerfile" can be written if `Dockerfile::Contents` is
    /// used, `is_not_internal` turns off `--internal`, and `log_dir` is where
    /// ".log" log files will be written.
    ///
    /// Note: if `Dockerfile::Contents` is used, and if it uses resources like
    /// `COPY --from [resource]`, then the resource needs to be in
    /// `dockerfile_write_dir` because of restrictions that Docker makes.
    ///
    /// The standard layout is to have a "./logs" directory for the log files,
    /// "./dockerfiles" for the write directory, and
    /// "./dockerfiles/dockerfile_resources" for resources used by the
    /// dockerfiles.
    ///
    /// # Errors
    ///
    /// Can return an error if there are containers with duplicate names, or a
    /// container is built with `Dockerfile::Content` but no
    /// `dockerfile_write_dir` is specified.
    pub fn new(
        network_name: &str,
        containers: Vec<Container>,
        dockerfile_write_dir: Option<&str>,
        is_not_internal: bool,
        log_dir: &str,
    ) -> (r: Result<Self, Error>)
        ensures
            match r {
                Ok(n) => {
                    &&& n.wf()
                    &&& n.uuid.is_v4()
                    &&& forall|i: int|
                        0 <= i < containers@.len() ==> (#[trigger] list_fault(
                            dockerfile_write_dir is Some,
                            containers@,
                            i,
                        )) is None
                    &&& n.network_name@ == network_name@ && n.log_dir@ == log_dir@
                    &&& n.is_not_internal == is_not_internal && !n.network_active
                    &&& n.dockerfile_write_dir is Some <==> dockerfile_write_dir is Some
                    &&& n.active_container_ids@ == Map::<Seq<char>, String>::empty()
                    &&& n.is_new(
                        network_name@,
                        containers@,
                        dockerfile_write_dir,
                        is_not_internal,
                        log_dir@,
                    )
                },
                Err(e) => exists|i: int|
                    {
                        &&& 0 <= i < containers@.len()
                        &&& #[trigger] list_fault(dockerfile_write_dir is Some, containers@, i)
                            == Some(e@)
                        &&& forall|k: int|
                            0 <= k < i ==> (#[trigger] list_fault(
                                dockerfile_write_dir is Some,
                                containers@,
                                k,
                            )) is None
                    },
            },
    {
        let ghost all = containers@;
        let mut map: NameMap<Container> = NameMap::new();
        let mut rest: Vec<Container> = containers;
        let ghost mut i: int = 0;
        let has_write_dir: bool = dockerfile_write_dir.is_some();
        assert(all.take(0) =~= Seq::empty());
        assert(rest@ =~= all.skip(0));
        while rest.len() > 0
            invariant
                all == containers@,
                0 <= i <= all.len(),
                rest@ == all.skip(i),
                has_write_dir == dockerfile_write_dir is Some,
                map.wf(),
                map@ == by_name(all.take(i)),
                forall|k: int|
                    0 <= k < i ==> (#[trigger] list_fault(has_write_dir, all, k)) is None,
                forall|name: Seq<char>| #[trigger]
                    map@.dom().contains(name) ==> {
                        &&& map@[name].name@ == name
                        &&& map@[name].dockerfile@ is Contents ==> has_write_dir
                    },
            decreases rest@.len(),
        {
            let container: Container = rest.remove(0);
            let duplicate: bool = map.find(container.name.as_str()).is_some();
            proof {
                assert(container == all[i]);
                assert(rest@ =~= all.skip(i + 1));
                lemma_by_name(all.take(i), container.name@);
                assert(duplicate <==> exists|k: int|
                    0 <= k < i && #[trigger] all[k].name@ == all[i].name@) by {
                    if duplicate {
                        let k = choose|k: int|
                            0 <= k < i && #[trigger] all.take(i)[k].name@ == container.name@;
                        assert(all[k].name@ == container.name@);
                    }
                    if exists|k: int| 0 <= k < i && #[trigger] all[k].name@ == all[i].name@ {
                        let k = choose|k: int|
                            0 <= k < i && #[trigger] all[k].name@ == all[i].name@;
                        assert(all.take(i)[k].name@ == container.name@);
                    }
                }
            }
            match check_add(has_write_dir, duplicate, &container) {
                Err(e) => {
                    proof {
                        assert(list_fault(has_write_dir, all, i) == Some(e@));
                    }
                    return Err(e);
                },
                Ok(_) => {},
            }
            let name: String = container.name.clone();
            let _ = map.insert_new(name, container);
            proof {
                assert(list_fault(has_write_dir, all, i) is None);
                assert(all.take(i + 1).drop_last() =~= all.take(i));
                i = i + 1;
            }
        }
        assert(all.take(i) =~= all);
        Ok(
            ContainerNetwork {
                uuid: Uuid::new_v4(),
                network_name: network_name.to_owned(),
                containers: map,
                dockerfile_write_dir: match dockerfile_write_dir {
                    Some(dir) => Some(dir.to_owned()),
                    None => None,
                },
                is_not_internal,
                log_dir: log_dir.to_owned(),
                active_container_ids: NameMap::new(),
                container_runners: NameMap::new(),
                container_results: NameMap::new(),
                network_active: false,
            },
        )
    }

    /// Returns the common UUID
    pub fn uuid(&self) -> (r: Uuid)
        ensures
            r == self.uuid,
    {
        self.uuid
    }

    /// Returns the common UUID as a string
    pub fn uuid_as_string(&self) -> (r: String)
        ensures
            r@ == hyphenated(self.uuid.bits),
    {
        self.uuid.to_text()
    }

    /// Returns the full network name
    pub fn network_name_with_uuid(&self) -> (r: String)
        ensures
            r@ == with_uuid(self.network_name@, self.uuid),
    {
        name_with_uuid(self.network_name.as_str(), &self.uuid)
    }

    /// Returns an error if the container with the name could not be found
    pub fn container_name_with_uuid(&self, container_name: &str) -> (r: Result<String, Error>)
        requires
            self.wf(),
        ensures
            if self.has(container_name@) {
                r is Ok && r->Ok_0@ == with_uuid(container_name@, self.uuid)
            } else {
                r is Err && r->Err_0@ == ErrorView::message(
                    "container_name_with_uuid("@ + container_name@
                        + "): could not find container with given name"@,
                )
            },
    {
        match self.containers.find(container_name) {
            Some(_) => Ok(name_with_uuid(container_name, &self.uuid)),
            None => {
                let mut text: String = "container_name_with_uuid(".to_owned();
                text.append(container_name);
                text.append("): could not find container with given name");
                Err(Error::from_text(text))
            },
        }
    }

    /// If `no_uuid_for_host_name` is true for the container, this just returns
    /// the `host_name`. Returns an error if the container with the name could not
    /// be found
    pub fn hostname_with_uuid(&self, container_name: &str) -> (r: Result<String, Error>)
        requires
            self.wf(),
        ensures
            if self.has(container_name@) {
                r is Ok && r->Ok_0@ == self.containers@[container_name@].full_host_name(self.uuid)
            } else {
                r is Err && r->Err_0@ == ErrorView::message(
                    "hostname_with_uuid("@ + container_name@
                        + "): could not find container with given name"@,
                )
            },
    {
        match self.containers.find(container_name) {
            Some(i) => {
                let container: &Container = &self.containers.values[i];
                if container.no_uuid_for_host_name {
                    Ok(container.host_name.clone())
                } else {
                    Ok(name_with_uuid(container.host_name.as_str(), &self.uuid))
                }
            },
            None => {
                let mut text: String = "hostname_with_uuid(".to_owned();
                text.append(container_name);
                text.append("): could not find container with given name");
                Err(Error::from_text(text))
            },
        }
    }

    /// Adds the container to the inactive set
    pub fn add_container(&mut self, container: Container) -> (r: Result<&mut Self, Error>)
        requires
            old(self).wf(),
        ensures
            ({
                let fault = add_fault(
                    old(self).dockerfile_write_dir is Some,
                    old(self).has(container.name@),
                    container,
                );
                match r {
                    Ok(n) => {
                        &&& fault is None
                        &&& n.wf()
                        &&& *n == (ContainerNetwork { containers: n.containers, ..*old(self) })
                        &&& n.containers@ == old(self).containers@.insert(
                            container.name@,
                            container,
                        )
                        &&& *final(self) == *final(n)
                    },
                    Err(e) => fault == Some(e@) && *final(self) == *old(self),
                }
            }),
    {
        let duplicate: bool = self.containers.find(container.name.as_str()).is_some();
        match check_add(self.dockerfile_write_dir.is_some(), duplicate, &container) {
            Err(e) => {
                return Err(e);
            },
            Ok(_) => {},
        }
        let name: String = container.name.clone();
        let _ = self.containers.insert_new(name, container);
        Ok(self)
    }

    /// Adds the volumes to every container currently in the network
    pub fn add_common_volumes(&mut self, volumes: &Vec<(String, String)>) -> (r: &mut Self)
        requires
            old(self).wf(),
        ensures
            r.wf(),
            *r == (ContainerNetwork { containers: r.containers, ..*old(self) }),
            r.containers.names@ == old(self).containers.names@,
            forall|i: int|
                0 <= i < old(self).containers.names@.len() ==> {
                    let was = old(self).containers.values@[i];
                    let now = #[trigger] r.containers.values@[i];
                    &&& now == (Container { volumes: now.volumes, ..was })
                    &&& text_pairs(now.volumes@) == text_pairs(was.volumes@) + text_pairs(volumes@)
                },
            *final(self) == *final(r),
    {
        let n: usize = self.containers.values.len();
        let mut i: usize = 0;
        while i < n
            invariant
                i <= n,
                n == self.containers.values@.len(),
                old(self).wf(),
                n == old(self).containers.values@.len(),
                *self == (ContainerNetwork { containers: self.containers, ..*old(self) }),
                self.containers.names@ == old(self).containers.names@,
                forall|k: int|
                    i <= k < n ==> #[trigger] self.containers.values@[k]
                        == old(self).containers.values@[k],
                forall|k: int|
                    0 <= k < i ==> {
                        let was = old(self).containers.values@[k];
                        let now = #[trigger] self.containers.values@[k];
                        &&& now == (Container { volumes: now.volumes, ..was })
                        &&& text_pairs(now.volumes@) == text_pairs(was.volumes@) + text_pairs(
                            volumes@,
                        )
                    },
            decreases n - i,
        {
            let ghost before = *self;
            push_pairs(&mut self.containers.values[i].volumes, volumes);
            assert(self.containers.values@[i as int] == (Container {
                volumes: self.containers.values@[i as int].volumes,
                ..before.containers.values@[i as int]
            }));
            i = i + 1;
        }
        proof {
            self.lemma_same_names(*old(self));
        }
        self
    }

    proof fn lemma_same_names(self, before: Self)
        requires
            before.wf(),
            self == (ContainerNetwork { containers: self.containers, ..before }),
            self.containers.names@ == before.containers.names@,
            self.containers.values@.len() == before.containers.values@.len(),
            forall|i: int|
                0 <= i < self.containers.values@.len() ==> {
                    let was = before.containers.values@[i];
                    let now = #[trigger] self.containers.values@[i];
                    &&& now.name == was.name
                    &&& now.dockerfile == was.dockerfile
                },
        ensures
            self.wf(),
            self.containers@.dom() == before.containers@.dom(),
    {
        assert(self.containers.keys() == before.containers.keys());
        assert(self.containers@.dom() =~= before.containers@.dom());
        assert forall|name: Seq<char>| #[trigger] self.containers@.dom().contains(name) implies {
            &&& self.containers@[name].name@ == name
            &&& self.containers@[name].dockerfile@ is Contents ==> self.dockerfile_write_dir
                is Some
        } by {
            let i = self.containers.keys().index_of(name);
            assert(self.containers.keys()[i] == name);
            assert(self.containers.names@[i]@ == name);
            self.containers.at(i);
            before.containers.at(i);
            assert(before.containers@.dom().contains(name));
        }
    }

    /// Adds the arguments to every container
    pub fn add_common_entrypoint_args(&mut self, args: &Vec<String>) -> (r: &mut Self)
        requires
            old(self).wf(),
        ensures
            r.wf(),
            *r == (ContainerNetwork { containers: r.containers, ..*old(self) }),
            r.containers.names@ == old(self).containers.names@,
            forall|i: int|
                0 <= i < old(self).containers.names@.len() ==> {
                    let was = old(self).containers.values@[i];
                    let now = #[trigger] r.containers.values@[i];
                    &&& now == (Container { entrypoint_args: now.entrypoint_args, ..was })
                    &&& texts(now.entrypoint_args@) == texts(was.entrypoint_args@) + texts(args@)
                },
            *final(self) == *final(r),
    {
        let n: usize = self.containers.values.len();
        let mut i: usize = 0;
        while i < n
            invariant
                i <= n,
                n == self.containers.values@.len(),
                old(self).wf(),
                n == old(self).containers.values@.len(),
                *self == (ContainerNetwork { containers: self.containers, ..*old(self) }),
                self.containers.names@ == old(self).containers.names@,
                forall|k: int|
                    i <= k < n ==> #[trigger] self.containers.values@[k]
                        == old(self).containers.values@[k],
                forall|k: int|
                    0 <= k < i ==> {
                        let was = old(self).containers.values@[k];
                        let now = #[trigger] self.containers.values@[k];
                        &&& now == (Container { entrypoint_args: now.entrypoint_args, ..was })
                        &&& texts(now.entrypoint_args@) == texts(was.entrypoint_args@) + texts(
                            args@,
                        )
                    },
            decreases n - i,
        {
            let ghost before = *self;
            push_args(&mut self.containers.values[i].entrypoint_args, args);
            assert(self.containers.values@[i as int] == (Container {
                entrypoint_args: self.containers.values@[i as int].entrypoint_args,
                ..before.containers.values@[i as int]
            }));
            i = i + 1;
        }
        proof {
            self.lemma_same_names(*old(self));
        }
        self
    }

    /// Get a map of active container names to ids
    pub fn get_active_container_ids(&self) -> (r: &NameMap<String>)
        ensures
            *r == self.active_container_ids,
    {
        &self.active_container_ids
    }

    /// Get the names of all active containers
    pub fn active_names(&self) -> (r: Vec<String>)
        ensures
            texts(r@) == self.active_container_ids.keys(),
    {
        let mut r: Vec<String> = Vec::new();
        push_args(&mut r, &self.active_container_ids.names);
        assert(texts(r@) =~= self.active_container_ids.keys());
        r
    }

    /// Get the names of all inactive containers
    pub fn inactive_names(&self) -> (r: Vec<String>)
        requires
            self.wf(),
        ensures
            texts(r@) == inactive_among(*self, self.containers.names@.len() as int),
    {
        let mut r: Vec<String> = Vec::new();
        let mut i: usize = 0;
        assert(texts(r@) =~= inactive_among(*self, 0));
        while i < self.containers.names.len()
            invariant
                self.wf(),
                i <= self.containers.names@.len(),
                texts(r@) == inactive_among(*self, i as int),
            decreases self.containers.names@.len() - i,
        {
            let name: &str = self.containers.names[i].as_str();
            if self.active_container_ids.find(name).is_none() {
                push_arg(&mut r, name);
            }
            i = i + 1;
        }
        r
    }

    /// The command that force removes the container with the name, if it is
    /// active
    pub fn removal(&self, name: &str) -> (r: Option<Command>)
        requires
            self.wf(),
        ensures
            r is Some <==> self.has_active(name@),
            r is Some ==> r->0.is_plain() && is_docker(
                r->0,
                seq!["rm"@, "-f"@, self.active_container_ids@[name@]@],
            ),
    {
        match self.active_container_ids.find(name) {
            Some(i) => {
                let id: &String = &self.active_container_ids.values[i];
                let mut args: Vec<String> = Vec::new();
                push_arg(&mut args, "rm");
                push_arg(&mut args, "-f");
                push_arg(&mut args, id.as_str());
                assert(texts(args@) =~= seq!["rm"@, "-f"@, id@]);
                Some(docker(args))
            },
            None => None,
        }
    }

    /// Whether the container with the name has a runner
    pub fn is_running(&self, name: &str) -> (r: bool)
        requires
            self.wf(),
        ensures
            r == self.has_runner(name@),
    {
        self.container_runners.find(name).is_some()
    }

    /// The container with the name, if it is active, was force removed. If it had
    /// a runner, that was terminated with the result. Nothing happens for names
    /// that are not in the active set.
    pub fn terminate(&mut self, name: &str, result: Option<CommandResult>)
        requires
            old(self).wf(),
            old(self).has_runner(name@) ==> result is Some,
        ensures
            final(self).wf(),
            !final(self).has_active(name@),
            !final(self).has_runner(name@),
            *final(self) == (ContainerNetwork {
                active_container_ids: final(self).active_container_ids,
                container_runners: final(self).container_runners,
                container_results: final(self).container_results,
                ..*old(self)
            }),
            final(self).active_container_ids@ == old(self).active_container_ids@.remove(name@),
            final(self).container_runners@ == old(self).container_runners@.remove(name@),
            final(self).container_results@ == if old(self).has_runner(name@) {
                old(self).container_results@.insert(name@, Ok(result->0))
            } else {
                old(self).container_results@
            },
    {
        let _ = self.active_container_ids.take(name);
        let had: Option<()> = self.container_runners.take(name);
        if had.is_some() {
            if let Some(comres) = result {
                self.container_results.put(name.to_owned(), Ok(comres));
            }
        }
        proof {
            assert forall|k: Seq<char>| #[trigger]
                self.container_runners@.dom().contains(
                    k,
                ) implies self.active_container_ids@.dom().contains(k) by {
                assert(old(self).container_runners@.dom().contains(k));
            }
            assert forall|k: Seq<char>| #[trigger]
                self.active_container_ids@.dom().contains(
                    k,
                ) implies self.containers@.dom().contains(k) by {
                assert(old(self).active_container_ids@.dom().contains(k));
            }
        }
    }

    /// All active containers were force removed, `results` being for each of them,
    /// in the order of the names, as with [ContainerNetwork::terminate]. No
    /// container is active or has a runner any more.
    pub fn terminate_containers(&mut self, results: Vec<Option<CommandResult>>)
        requires
            old(self).wf(),
            results@.len() == old(self).active_container_ids.names@.len(),
            forall|i: int|
                0 <= i < results@.len() && old(self).has_runner(
                    old(self).active_container_ids.keys()[i],
                ) ==> (#[trigger] results@[i]) is Some,
        ensures
            final(self).wf(),
            *final(self) == (ContainerNetwork {
                active_container_ids: final(self).active_container_ids,
                container_runners: final(self).container_runners,
                container_results: final(self).container_results,
                ..*old(self)
            }),
            final(self).active_container_ids@ == Map::<Seq<char>, String>::empty(),
            final(self).container_runners@ == Map::<Seq<char>, ()>::empty(),
            final(self).container_results@.dom() == old(self).container_results@.dom().union(
                old(self).container_runners@.dom(),
            ),
            forall|i: int|
                0 <= i < results@.len() && old(self).has_runner(
                    old(self).active_container_ids.keys()[i],
                ) ==> final(self).container_results@[old(self).active_container_ids.keys()[i]]
                    == Ok::<CommandResult, Error>((#[trigger] results@[i])->0),
            forall|name: Seq<char>|
                old(self).container_results@.dom().contains(name) && !old(self).has_runner(name)
                    ==> #[trigger] final(self).container_results@[name]
                    == old(self).container_results@[name],
    {
        let names: Vec<String> = self.active_names();
        let mut results: Vec<Option<CommandResult>> = results;
        let ghost given = results@;
        let ghost all = self.active_container_ids.keys();
        let mut i: usize = names.len();
        assert(texts(names@).len() == names@.len());
        assert(given.take(i as int) =~= given);
        while i > 0
            invariant
                i <= names@.len(),
                texts(names@) == all,
                all == old(self).active_container_ids.keys(),
                given.len() == names@.len(),
                results@ == given.take(i as int),
                old(self).wf(),
                self.wf(),
                forall|j: int|
                    0 <= j < given.len() && old(self).has_runner(all[j]) ==> (
                    #[trigger] given[j]) is Some,
                *self == (ContainerNetwork {
                    active_container_ids: self.active_container_ids,
                    container_runners: self.container_runners,
                    container_results: self.container_results,
                    ..*old(self)
                }),
                forall|k: Seq<char>| #[trigger]
                    self.active_container_ids@.dom().contains(k) <==> old(
                        self,
                    ).active_container_ids@.dom().contains(k) && !all.skip(i as int).contains(k),
                forall|k: Seq<char>| #[trigger]
                    self.container_runners@.dom().contains(k) <==> old(self).has_runner(k)
                        && !all.skip(i as int).contains(k),
                forall|k: Seq<char>| #[trigger]
                    self.container_results@.dom().contains(k) <==> old(
                        self,
                    ).container_results@.dom().contains(k) || (old(self).has_runner(k) && all.skip(
                        i as int,
                    ).contains(k)),
                forall|j: int|
                    i <= j < given.len() && old(self).has_runner(all[j])
                        ==> self.container_results@[all[j]] == Ok::<CommandResult, Error>(
                        (#[trigger] given[j])->0,
                    ),
                forall|k: Seq<char>|
                    old(self).container_results@.dom().contains(k) && !old(self).has_runner(k)
                        ==> #[trigger] self.container_results@[k]
                        == old(self).container_results@[k],
            decreases i,
        {
            i = i - 1;
            let ghost before = *self;
            proof {
                assert(given.take(i + 1).drop_last() =~= given.take(i as int));
                assert(all[i as int] == names@[i as int]@);
                assert(given[i as int] == given.take(i + 1).last());
                old(self).active_container_ids.lemma_distinct();
                assert forall|k: Seq<char>| #[trigger]
                    all.skip(i as int).contains(k) <==> k == all[i as int] || all.skip(
                        i + 1,
                    ).contains(k) by {
                    assert(all.skip(i as int) =~= seq![all[i as int]] + all.skip(i + 1));
                    assert(all.skip(i as int)[0] == all[i as int]);
                    if all.skip(i + 1).contains(k) {
                        let j = all.skip(i + 1).index_of(k);
                        assert(all.skip(i as int)[j + 1] == k);
                    }
                    if all.skip(i as int).contains(k) {
                        let j = all.skip(i as int).index_of(k);
                        if j > 0 {
                            assert(all.skip(i + 1)[j - 1] == k);
                        }
                    }
                }
                assert(!all.skip(i + 1).contains(all[i as int])) by {
                    if all.skip(i + 1).contains(all[i as int]) {
                        let j = all.skip(i + 1).index_of(all[i as int]);
                        assert(all[i + 1 + j] == all[i as int]);
                    }
                }
            }
            if let Some(result) = results.pop() {
                self.terminate(names[i].as_str(), result);
            }
            proof {
                assert forall|j: int|
                    i <= j < given.len() && old(self).has_runner(
                        all[j],
                    ) implies self.container_results@[all[j]] == Ok::<CommandResult, Error>(
                    (#[trigger] given[j])->0,
                ) by {
                    if j > i {
                        assert(all[j] != all[i as int]);
                    }
                }
            }
        }
        proof {
            assert(all.skip(0) =~= all);
            assert forall|k: Seq<char>| !(#[trigger]
            self.active_container_ids@.dom().contains(k)) by {
                if old(self).active_container_ids@.dom().contains(k) {
                    assert(all.contains(k));
                }
            }
            assert(self.active_container_ids@ =~= Map::<Seq<char>, String>::empty());
            assert(self.container_runners@ =~= Map::<Seq<char>, ()>::empty());
            assert forall|k: Seq<char>| old(self).has_runner(k) implies all.contains(k) by {
                assert(old(self).active_container_ids@.dom().contains(k));
            }
            assert(self.container_results@.dom() =~= old(self).container_results@.dom().union(
                old(self).container_runners@.dom(),
            ));
        }
    }

    /// The command that removes the docker network, if the network is active
    pub fn network_removal(&self) -> (r: Option<Command>)
        ensures
            r is Some <==> self.network_active,
            r is Some ==> r->0.is_plain() && is_docker(
                r->0,
                seq!["network"@, "rm"@, with_uuid(self.network_name@, self.uuid)],
            ),
    {
        if self.network_active {
            let name: String = self.network_name_with_uuid();
            let mut args: Vec<String> = Vec::new();
            push_arg(&mut args, "network");
            push_arg(&mut args, "rm");
            push_arg(&mut args, name.as_str());
            assert(texts(args@) =~= seq!["network"@, "rm"@, name@]);
            Some(docker(args))
        } else {
            None
        }
    }

    /// The docker network was removed
    pub fn network_removed(&mut self)
        ensures
            *final(self) == (ContainerNetwork { network_active: false, ..*old(self) }),
    {
        self.network_active = false;
    }

    /// The warning for a network that is dropped without having been properly
    /// terminated
    pub fn drop_warning(&self) -> (r: Option<String>)
        requires
            self.wf(),
        ensures
            ({
                let name = with_uuid(self.network_name@, self.uuid);
                if self.container_runners.names@.len() > 0 {
                    optional(r) == Some(
                        "`ContainerNetwork` \""@ + name
                            + "\" was dropped with internal container runners still running (a termination function needs to be called"@,
                    )
                } else if self.network_active {
                    optional(r) == Some(
                        "`ContainerNetwork` \""@ + name
                            + "\" was dropped with the network still active (`ContainerNetwork::terminate_all` needs to be called)"@,
                    )
                } else {
                    r is None
                }
            }),
    {
        let runners: bool = self.container_runners.names.len() > 0;
        if !runners && !self.network_active {
            return None;
        }
        let mut text: String = "`ContainerNetwork` \"".to_owned();
        text.append(self.network_name_with_uuid().as_str());
        if runners {
            text.append(
                "\" was dropped with internal container runners still running (a termination function needs to be called",
            );
        } else {
            text.append(
                "\" was dropped with the network still active (`ContainerNetwork::terminate_all` needs to be called)",
            );
        }
        Some(text)
    }

    /// The error of the name at `i` among the names to run, if there is one.
    pub open spec fn run_fault(self, names: Seq<Seq<char>>, i: int) -> Option<ErrorView> {
        let name = names[i];
        if names.take(i).contains(name) {
            Some(
                ErrorView::message(
                    named(
                        "ContainerNetwork::run() two containers were supplied with the same name "@,
                        name,
                        ""@,
                    ),
                ),
            )
        } else if !self.has(name) {
            Some(
                ErrorView::message(
                    named(
                        "ContainerNetwork::run() argument name "@,
                        name,
                        " is not contained in the network"@,
                    ),
                ),
            )
        } else {
            None
        }
    }

    /// The names are different, and each is that of a container of the network.
    pub open spec fn can_run(self, names: Seq<Seq<char>>) -> bool {
        &&& names.no_duplicates()
        &&& forall|i: int| 0 <= i < names.len() ==> self.has(#[trigger] names[i])
    }

    /// Checks the names before a run. Returns the error of the first name that
    /// has one.
    pub fn check_run(&self, names: &Vec<String>) -> (r: Result<(), Error>)
        requires
            self.wf(),
        ensures
            r is Ok <==> self.can_run(texts(names@)),
            r matches Err(e) ==> exists|i: int|
                {
                    &&& 0 <= i < names@.len()
                    &&& #[trigger] self.run_fault(texts(names@), i) == Some(e@)
                    &&& forall|k: int|
                        0 <= k < i ==> (#[trigger] self.run_fault(texts(names@), k)) is None
                },
    {
        let ghost all = texts(names@);
        let mut i: usize = 0;
        while i < names.len()
            invariant
                self.wf(),
                all == texts(names@),
                i <= names@.len(),
                forall|k: int| 0 <= k < i ==> (#[trigger] self.run_fault(all, k)) is None,
            decreases names@.len() - i,
        {
            let name: &str = names[i].as_str();
            assert(all[i as int] == name@);
            if contains_before(names, i, name) {
                proof {
                    assert(self.run_fault(all, i as int) is Some);
                    let k = all.take(i as int).index_of(name@);
                    assert(all.take(i as int)[k] == all[k]);
                }
                return Err(
                    Error::from_text(
                        name_text(
                            "ContainerNetwork::run() two containers were supplied with the same name ",
                            name,
                            "",
                        ),
                    ),
                );
            }
            if self.containers.find(name).is_none() {
                assert(self.run_fault(all, i as int) is Some);
                return Err(
                    Error::from_text(
                        name_text(
                            "ContainerNetwork::run() argument name ",
                            name,
                            " is not contained in the network",
                        ),
                    ),
                );
            }
            i = i + 1;
        }
        proof {
            assert forall|a: int, b: int| 0 <= a < b < all.len() implies all[a] != all[b] by {
                assert(self.run_fault(all, b) is None);
                assert(all.take(b)[a] == all[a]);
            }
            assert forall|k: int| 0 <= k < all.len() implies self.has(#[trigger] all[k]) by {
                assert(self.run_fault(all, k) is None);
            }
        }
        Ok(())
    }

    /// The log file of the network.
    pub open spec fn is_log_file(self, f: FileOptions) -> bool {
        &&& f.path@ == pushed(
            self.log_dir@,
            "container_network_"@ + self.network_name@ + ".log"@,
        )
        &&& f.overwrites()
    }

    /// The log file of the network, which is acquired before a run
    pub fn log_file(&self) -> (r: FileOptions)
        ensures
            self.is_log_file(r),
    {
        let mut name: String = "container_network_".to_owned();
        name.append(self.network_name.as_str());
        name.append(".log");
        FileOptions::write2(self.log_dir.as_str(), name.as_str())
    }

    /// Adds what was being done to an error of acquiring the log file
    pub fn log_error(e: Error) -> (r: Error)
        ensures
            r@ == e@.with(KindView::Str("ContainerNetwork::run() when acquiring logs directory"@)),
    {
        e.add_err_no_location(
            ErrorKind::StrError("ContainerNetwork::run() when acquiring logs directory"),
        )
    }

    /// The dockerfile of a container that needs to exist
    pub fn dockerfile_to_find(&self, name: &str) -> (r: Option<&String>)
        requires
            self.wf(),
            self.has(name@),
        ensures
            crate::dockerfile::optional_ref(r) == match self.containers@[name@].dockerfile@ {
                DockerfileView::Path(p) => Some(p),
                _ => None,
            },
    {
        match self.containers.find(name) {
            Some(i) => match &self.containers.values[i].dockerfile {
                Dockerfile::Path(p) => Some(p),
                _ => None,
            },
            None => None,
        }
    }

    /// Adds what was being done to an error of finding a dockerfile
    pub fn dockerfile_error(e: Error) -> (r: Error)
        ensures
            r@ == e@.with(KindView::Str("could not find dockerfile path"@)),
    {
        e.add_err_no_location(ErrorKind::StrError("could not find dockerfile path"))
    }

    /// The directory that has to be acquired for the names, because contents are
    /// written to it
    pub fn write_dir_to_find(&self, names: &Vec<String>) -> (r: Option<&String>)
        requires
            self.wf(),
            self.can_run(texts(names@)),
        ensures
            r is Some <==> exists|i: int|
                0 <= i < names@.len() && self.containers@[(#[trigger] names@[i])@].dockerfile@
                    is Contents,
            r is Some ==> Some(r->0@) == optional(self.dockerfile_write_dir),
    {
        let ghost all = texts(names@);
        let mut i: usize = 0;
        while i < names.len()
            invariant
                self.wf(),
                all == texts(names@),
                self.can_run(all),
                i <= names@.len(),
                forall|k: int|
                    0 <= k < i ==> !(self.containers@[(#[trigger] names@[k])@].dockerfile@
                        is Contents),
            decreases names@.len() - i,
        {
            assert(all[i as int] == names@[i as int]@);
            assert(self.has(all[i as int]));
            if let Some(k) = self.containers.find(names[i].as_str()) {
                if let Dockerfile::Contents(_) = &self.containers.values[k].dockerfile {
                    assert(self.containers@[names@[i as int]@].dockerfile@ is Contents);
                    return self.dockerfile_write_dir.as_ref();
                }
            }
            i = i + 1;
        }
        None
    }

    /// Adds what was being done to an error of finding the write directory
    pub fn write_dir_error(e: Error) -> (r: Error)
        ensures
            r@ == e@.with(KindView::Str("could not find `dockerfile_write_dir` directory"@)),
    {
        e.add_err_no_location(
            ErrorKind::StrError("could not find `dockerfile_write_dir` directory"),
        )
    }

    /// The file in the acquired write directory that contents are written to
    pub fn write_file(dir: &str) -> (r: String)
        ensures
            r@ == pushed(dir@, "__tmp.dockerfile"@),
    {
        push_path(dir, "__tmp.dockerfile")
    }

    /// The command that creates the docker network, unless the network is active
    pub fn network_creation(&self) -> (r: Option<Command>)
        ensures
            r is Some <==> !self.network_active,
            r matches Some(c) ==> c.program@ == "docker"@,
            r matches Some(c) ==> texts(c.args@) == if self.is_not_internal {
                seq!["network"@, "create"@, with_uuid(self.network_name@, self.uuid)]
            } else {
                seq![
                    "network"@,
                    "create"@,
                    "--internal"@,
                    with_uuid(self.network_name@, self.uuid),
                ]
            },
            r is Some ==> exists|log: FileOptions|
                {
                    &&& #[trigger] self.is_log_file(log)
                    &&& is_shown(
                        r->0,
                        seq!["network"@, "create"@] + (if self.is_not_internal {
                            Seq::empty()
                        } else {
                            seq!["--internal"@]
                        }) + seq![with_uuid(self.network_name@, self.uuid)],
                        false,
                        log,
                    )
                },
    {
        if self.network_active {
            return None;
        }
        let name: String = self.network_name_with_uuid();
        let mut args: Vec<String> = Vec::new();
        push_arg(&mut args, "network");
        push_arg(&mut args, "create");
        if !self.is_not_internal {
            push_arg(&mut args, "--internal");
        }
        push_arg(&mut args, name.as_str());
        proof {
            assert(texts(args@) =~= seq!["network"@, "create"@] + (if self.is_not_internal {
                Seq::empty()
            } else {
                seq!["--internal"@]
            }) + seq![name@]);
        }
        let log: FileOptions = self.log_file();
        Some(shown_docker(args, false, &log))
    }

    /// `created` is what the network creation command returned
    pub fn network_created(&mut self, created: Result<CommandResult, Error>) -> (r: Result<(), Error>)
        ensures
            match created {
                Err(e) => *final(self) == *old(self) && r == Err::<(), Error>(e),
                Ok(comres) => if status_successful(comres.status) {
                    &&& *final(self) == (ContainerNetwork { network_active: true, ..*old(self) })
                    &&& r is Ok
                } else {
                    &&& *final(self) == *old(self)
                    &&& r is Err
                    &&& r->Err_0@ == ErrorView::message(
                        comres.debug_view() + if comres.status is Some {
                            ".assert_success() -> unsuccessful"@
                        } else {
                            ".assert_success() -> termination was called before completion"@
                        },
                    )
                },
            },
    {
        match created {
            Err(e) => Err(e),
            Ok(comres) => match comres.assert_success() {
                Ok(_) => {
                    self.network_active = true;
                    Ok(())
                },
                Err(e) => Err(e),
            },
        }
    }

    /// The volumes of a container with their acquired local parts, `locals` being
    /// what acquiring them returned
    pub fn create_volumes(&self, name: &str, locals: Vec<Result<String, Error>>) -> (r: Result<
        Vec<(String, String)>,
        Error,
    >)
        requires
            self.wf(),
            self.has(name@),
            locals@.len() == self.containers@[name@].volumes@.len(),
        ensures
            ({
                let k = first_error(locals@);
                if k < locals@.len() {
                    r is Err && r->Err_0@ == (locals@[k]->Err_0)@.with(
                        KindView::Str("could not locate local part of volume argument"@),
                    )
                } else {
                    r is Ok && text_pairs(r->Ok_0@) == localized(
                        text_pairs(self.containers@[name@].volumes@),
                        locals@,
                        locals@.len() as int,
                    )
                }
            }),
    {
        match self.containers.find(name) {
            Some(i) => acquired_volumes(
                &self.containers.values[i].volumes,
                locals,
                "could not locate local part of volume argument",
            ),
            None => Ok(Vec::new()),
        }
    }

    /// The command builds the dockerfile of the directory as the image of the
    /// container.
    pub open spec fn is_build(
        self,
        command: Command,
        container: Container,
        file: Seq<char>,
        dir: Seq<char>,
        debug: bool,
    ) -> bool {
        exists|log: FileOptions|
            {
                &&& #[trigger] self.is_log_file(log)
                &&& is_shown(
                    command,
                    build_arg_list(
                        with_uuid(container.name@, self.uuid),
                        file,
                        texts(container.build_args@),
                        dir,
                    ),
                    debug,
                    log,
                )
            }
    }

    fn build_command(&self, container: &Container, file: &str, dir: &str, debug: bool) -> (r: Command)
        ensures
            r.program@ == "docker"@,
            texts(r.args@).len() == 6 + container.build_args@.len(),
            texts(r.args@).take(5) == seq![
                "build"@,
                "-t"@,
                with_uuid(container.name@, self.uuid),
                "--file"@,
                file@,
            ],
            texts(r.args@).subrange(5, (5 + container.build_args@.len()) as int) == texts(
                container.build_args@,
            ),
            texts(r.args@).last() == dir@,
            self.is_build(r, *container, file@, dir@, debug),
    {
        let tag: String = name_with_uuid(container.name.as_str(), &self.uuid);
        let args: Vec<String> = to_build_args(tag.as_str(), file, &container.build_args, dir);
        let log: FileOptions = self.log_file();
        shown_docker(args, debug, &log)
    }

    /// What is to be done to build the image of a container. For a
    /// `Dockerfile::Path`, `dockerfile` is its acquired path; it plays no role
    /// otherwise. For a `Dockerfile::Contents`, `write_dir` is the acquired write
    /// directory.
    pub fn build(
        &self,
        name: &str,
        dockerfile: Result<String, Error>,
        write_dir: Option<&str>,
        debug: bool,
    ) -> (r: Result<Build, Error>)
        requires
            self.wf(),
            self.has(name@),
            self.containers@[name@].dockerfile@ is Contents ==> write_dir is Some,
        ensures
            r matches Ok(Build::Run { write, command }) ==> {
                let c = self.containers@[name@];
                let (file, dir) = if c.dockerfile@ is Path {
                    (dockerfile->Ok_0@, dir_of(dockerfile->Ok_0@))
                } else {
                    (pushed(write_dir->0@, "__tmp.dockerfile"@), write_dir->0@)
                };
                let args = texts(command.args@);
                &&& command.program@ == "docker"@
                &&& args.len() == 6 + c.build_args@.len()
                &&& args.take(5) == seq![
                    "build"@,
                    "-t"@,
                    with_uuid(c.name@, self.uuid),
                    "--file"@,
                    file,
                ]
                &&& args.subrange(5, (5 + c.build_args@.len()) as int) == texts(c.build_args@)
                &&& args.last() == dir
            },
            ({
                let c = self.containers@[name@];
                match c.dockerfile@ {
                    DockerfileView::NameTag(_) => r matches Ok(b) && b is Nothing,
                    DockerfileView::Path(_) => match dockerfile {
                        Err(e) => r == Err::<Build, Error>(e),
                        Ok(file) => {
                            &&& r matches Ok(Build::Run { write, command })
                            &&& write is None
                            &&& self.is_build(command, c, file@, dir_of(file@), debug)
                        },
                    },
                    DockerfileView::Contents(contents) => {
                        let file = pushed(write_dir->0@, "__tmp.dockerfile"@);
                        &&& r matches Ok(Build::Run { write, command })
                        &&& write matches Some(w) && w.0@ == file && w.1@ == contents
                        &&& self.is_build(command, c, file, write_dir->0@, debug)
                    },
                }
            }),
    {
        match self.containers.find(name) {
            None => Ok(Build::Nothing),
            Some(i) => {
                let container: &Container = &self.containers.values[i];
                match &container.dockerfile {
                    Dockerfile::NameTag(_) => Ok(Build::Nothing),
                    Dockerfile::Path(_) => match dockerfile {
                        Err(e) => Err(e),
                        Ok(file) => {
                            let dir: String = dir_path_of(file.as_str());
                            Ok(
                                Build::Run {
                                    write: None,
                                    command: self.build_command(
                                        container,
                                        file.as_str(),
                                        dir.as_str(),
                                        debug,
                                    ),
                                },
                            )
                        },
                    },
                    Dockerfile::Contents(contents) => match write_dir {
                        None => Ok(Build::Nothing),
                        Some(dir) => {
                            let file: String = ContainerNetwork::write_file(dir);
                            let command: Command = self.build_command(
                                container,
                                file.as_str(),
                                dir,
                                debug,
                            );
                            Ok(Build::Run { write: Some((file, contents.clone())), command })
                        },
                    },
                }
            },
        }
    }

    /// Adds what was being done to an error of the build command of a container
    pub fn build_error(&self, name: &str, e: Error) -> (r: Error)
        requires
            self.wf(),
            self.has(name@),
        ensures
            match self.containers@[name@].dockerfile@ {
                DockerfileView::NameTag(_) => r@ == e@,
                DockerfileView::Path(path) => r@ == e@.with(
                    KindView::Text(
                        "Failed when using the dockerfile at "@ + debug_quoted(path),
                    ),
                ),
                DockerfileView::Contents(contents) => r@ == e@.with(
                    KindView::Text(
                        "The Dockerfile::Contents written to \"__tmp.dockerfile\":\n"@ + contents
                            + "\n"@,
                    ),
                ),
            },
    {
        match self.containers.find(name) {
            None => e,
            Some(i) => match &self.containers.values[i].dockerfile {
                Dockerfile::NameTag(_) => e,
                Dockerfile::Path(path) => {
                    let mut text: String = "Failed when using the dockerfile at ".to_owned();
                    text.append(debug_quote(path.as_str()).as_str());
                    e.add_err_no_location(ErrorKind::StringError(text))
                },
                Dockerfile::Contents(contents) => {
                    let mut text: String =
                        "The Dockerfile::Contents written to \"__tmp.dockerfile\":\n".to_owned();
                    text.append(contents.as_str());
                    text.append("\n");
                    e.add_err_no_location(ErrorKind::StringError(text))
                },
            },
        }
    }

    /// The `docker create` command of a container. `volumes` are those of
    /// [ContainerNetwork::create_volumes].
    pub fn create(&self, name: &str, volumes: &Vec<(String, String)>, debug: bool) -> (r: Command)
        requires
            self.wf(),
            self.has(name@),
        ensures
            r.program@ == "docker"@,
            ({
                let c = self.containers@[name@];
                tells_docker_create(
                    texts(r.args@),
                    (
                        with_uuid(self.network_name@, self.uuid),
                        if c.no_uuid_for_host_name {
                            c.host_name@
                        } else {
                            with_uuid(c.host_name@, self.uuid)
                        },
                        with_uuid(c.name@, self.uuid),
                    ),
                    None,
                    text_pairs(c.environment_vars@),
                    text_pairs(volumes@),
                    texts(c.create_args@),
                    match c.dockerfile@ {
                        DockerfileView::NameTag(s) => seq!["-t"@, s],
                        _ => seq!["-t"@, with_uuid(c.name@, self.uuid)],
                    },
                    match c.entrypoint_file {
                        Some(f) => seq![f@] + texts(c.entrypoint_args@),
                        None => texts(c.entrypoint_args@),
                    },
                )
            }),
            exists|log: FileOptions|
                {
                    let c = self.containers@[name@];
                    &&& #[trigger] self.is_log_file(log)
                    &&& is_shown(
                        r,
                        c.create_list(
                            with_uuid(self.network_name@, self.uuid),
                            self.uuid,
                            text_pairs(volumes@),
                        ),
                        debug && c.dockerfile@ is NameTag,
                        log,
                    )
                },
    {
        match self.containers.find(name) {
            None => Command::new_os_str("docker"),
            Some(i) => {
                let container: &Container = &self.containers.values[i];
                let network_name: String = self.network_name_with_uuid();
                let host_name: String = if container.no_uuid_for_host_name {
                    container.host_name.clone()
                } else {
                    name_with_uuid(container.host_name.as_str(), &self.uuid)
                };
                let full_name: String = name_with_uuid(container.name.as_str(), &self.uuid);
                let mut is_image: bool = false;
                let image: &String = match &container.dockerfile {
                    Dockerfile::NameTag(s) => {
                        is_image = true;
                        s
                    },
                    _ => &full_name,
                };
                let args = CreateArgs {
                    network_name: network_name.as_str(),
                    host_name: host_name.as_str(),
                    container_name: full_name.as_str(),
                    workdir: None,
                    environment_vars: &container.environment_vars,
                    volumes,
                    create_args: &container.create_args,
                    tag_flag: true,
                    image: image.as_str(),
                    entrypoint_file: container.entrypoint_file.as_ref(),
                    entrypoint_args: &container.entrypoint_args,
                };
                assert(args.list() =~= container.create_list(
                    with_uuid(self.network_name@, self.uuid),
                    self.uuid,
                    text_pairs(volumes@),
                ));
                proof {
                    create_list_is_told_in_full(args);
                }
                let log: FileOptions = self.log_file();
                shown_docker(args.to_args(), debug && is_image, &log)
            },
        }
    }

    /// The container was created under the ID
    pub fn created(&mut self, name: &str, docker_id: String)
        requires
            old(self).wf(),
            old(self).has(name@),
        ensures
            final(self).wf(),
            *final(self) == (ContainerNetwork {
                active_container_ids: final(self).active_container_ids,
                ..*old(self)
            }),
            final(self).active_container_ids@ == old(self).active_container_ids@.insert(
                name@,
                docker_id,
            ),
    {
        self.active_container_ids.put(name.to_owned(), docker_id);
    }

    /// The command that starts a created container
    pub fn start(&self, name: &str, debug: bool) -> (r: Command)
        requires
            self.wf(),
            self.has_active(name@),
        ensures
            r.program@ == "docker"@,
            texts(r.args@) == seq!["start"@, "--attach"@, self.active_container_ids@[name@]@],
            r.stdout_debug == debug && r.stderr_debug == debug,
            r.stdout_log is Some && r.stderr_log is Some,
            exists|plain: Command, out: FileOptions, err: FileOptions|
                {
                    &&& #[trigger] plain.is_plain()
                    &&& is_docker(
                        plain,
                        seq!["start"@, "--attach"@, self.active_container_ids@[name@]@],
                    )
                    &&& #[trigger] self.is_stream_log(name@, "_stdout.log"@, out)
                    &&& #[trigger] self.is_stream_log(name@, "_stderr.log"@, err)
                    &&& r == (Command {
                        stdout_log: Some(out),
                        stderr_log: Some(err),
                        stdout_debug: debug,
                        stderr_debug: debug,
                        ..plain
                    })
                },
    {
        match self.active_container_ids.find(name) {
            None => Command::new_os_str("docker"),
            Some(i) => {
                let id: &String = &self.active_container_ids.values[i];
                let mut args: Vec<String> = Vec::new();
                push_arg(&mut args, "start");
                push_arg(&mut args, "--attach");
                push_arg(&mut args, id.as_str());
                assert(texts(args@) =~= seq!["start"@, "--attach"@, id@]);
                let plain: Command = docker(args);
                assert(plain.is_plain());
                let out: FileOptions = self.stream_log(name, "_stdout.log");
                let err: FileOptions = self.stream_log(name, "_stderr.log");
                plain.stdout_log(Some(&out)).stderr_log(Some(&err)).debug(debug)
            },
        }
    }

    /// The log file of a stream of a container.
    pub open spec fn is_stream_log(self, name: Seq<char>, suffix: Seq<char>, log: FileOptions) -> bool {
        log.path@ == pushed(self.log_dir@, "container_"@ + name + suffix) && log.overwrites()
    }

    fn stream_log(&self, name: &str, suffix: &str) -> (r: FileOptions)
        ensures
            self.is_stream_log(name@, suffix@, r),
    {
        let mut file: String = "container_".to_owned();
        file.append(name);
        file.append(suffix);
        FileOptions::write2(self.log_dir.as_str(), file.as_str())
    }

    /// The container was started
    pub fn started(&mut self, name: &str)
        requires
            old(self).wf(),
            old(self).has_active(name@),
        ensures
            final(self).wf(),
            *final(self) == (ContainerNetwork {
                container_runners: final(self).container_runners,
                ..*old(self)
            }),
            final(self).container_runners@ == old(self).container_runners@.insert(name@, ()),
    {
        self.container_runners.put(name.to_owned(), ());
    }

    /// Looks through the results and includes the last "Error: Error { stack: ["
    /// or " panicked at " parts of stdouts. Omits stacks that have
    /// "ProbablyNotRootCauseError".
    pub fn error_compilation(&self) -> (r: Error)
        requires
            self.wf(),
        ensures
            r@ == (ErrorView {
                kinds: compiled(
                    self.container_results,
                    self.container_results.names@.len() as int,
                ),
                locations: Seq::empty(),
            }),
    {
        let results: &NameMap<Result<CommandResult, Error>> = &self.container_results;
        let mut r: Error = new_report();
        let mut i: usize = 0;
        assert(r@ =~= (ErrorView { kinds: compiled(*results, 0), locations: Seq::empty() }));
        while i < results.names.len()
            invariant
                results.wf(),
                i <= results.names@.len(),
                r@ == (ErrorView { kinds: compiled(*results, i as int), locations: Seq::empty() }),
            decreases results.names@.len() - i,
        {
            let ghost before = r@.kinds;
            match &results.values[i] {
                Ok(comres) => {
                    r = add_result_report(r, results.names[i].as_str(), comres);
                },
                Err(e) => {
                    let mut text: String = "Command runner level error from container ".to_owned();
                    text.append(results.names[i].as_str());
                    text.append(":\n");
                    text.append(e.debug_text().as_str());
                    text.append("\n");
                    let ghost t = text@;
                    r = r.add_err_no_location(ErrorKind::StringError(text));
                    assert(r@.kinds =~= before + seq![KindView::Text(t)]);
                },
            }
            i = i + 1;
        }
        r
    }

    /// A container can be waited for as long as it has a runner
    pub fn check_wait(&self, name: &str) -> (r: Result<(), Error>)
        requires
            self.wf(),
        ensures
            r is Ok <==> self.has_runner(name@),
            r is Err ==> r->Err_0@ == ErrorView::message(
                named(
                    "ContainerNetwork::wait_with_timeout -> name "@,
                    name@,
                    " not found in the network"@,
                ),
            ),
    {
        if self.is_running(name) {
            Ok(())
        } else {
            Err(
                Error::from_text(
                    name_text(
                        "ContainerNetwork::wait_with_timeout -> name ",
                        name,
                        " not found in the network",
                    ),
                ),
            )
        }
    }

    /// The containers among the first `n` with runners that are not among the
    /// names.
    pub open spec fn others_among(self, names: Seq<Seq<char>>, n: int) -> Seq<Seq<char>>
        decreases n,
    {
        if n <= 0 {
            Seq::empty()
        } else {
            let before = self.others_among(names, n - 1);
            if names.contains(self.container_runners.names@[n - 1]@) {
                before
            } else {
                before.push(self.container_runners.names@[n - 1]@)
            }
        }
    }

    /// The names of the containers with runners that are not among the names.
    /// They are looked at while waiting for the names if `terminate_on_failure`,
    /// because a failure of any container runner then ends the waiting.
    pub fn other_names(&self, names: &Vec<String>, terminate_on_failure: bool) -> (r: Vec<String>)
        requires
            self.wf(),
        ensures
            texts(r@) == if terminate_on_failure {
                self.others_among(texts(names@), self.container_runners.names@.len() as int)
            } else {
                Seq::empty()
            },
    {
        let ghost all = texts(names@);
        let mut r: Vec<String> = Vec::new();
        if !terminate_on_failure {
            assert(texts(r@) =~= Seq::empty());
            return r;
        }
        let mut i: usize = 0;
        assert(texts(r@) =~= self.others_among(all, 0));
        while i < self.container_runners.names.len()
            invariant
                all == texts(names@),
                i <= self.container_runners.names@.len(),
                texts(r@) == self.others_among(all, i as int),
            decreases self.container_runners.names@.len() - i,
        {
            let name: &str = self.container_runners.names[i].as_str();
            assert(all.take(names@.len() as int) =~= all);
            if !contains_before(names, names.len(), name) {
                push_arg(&mut r, name);
            }
            i = i + 1;
        }
        r
    }

    /// What was found fails the whole network.
    pub open spec fn is_failure(terminate_on_failure: bool, event: RunnerEvent) -> bool {
        terminate_on_failure && match event {
            RunnerEvent::Done(comres) => !status_successful(comres.status),
            RunnerEvent::Running => false,
            _ => true,
        }
    }

    /// What becomes of the network and of the waiting when the runner of a
    /// container was looked at. `waited` is whether the container is one that is
    /// waited for. A container that is not keeps its runner, so that it can be
    /// waited for later, unless it fails the whole network. If a runner could not
    /// be terminated, the waiting ends with the error of that.
    pub open spec fn is_polled(
        self,
        after: Self,
        name: Seq<char>,
        waited: bool,
        terminate_on_failure: bool,
        event: RunnerEvent,
        verdict: Result<Verdict, Error>,
    ) -> bool {
        let failed = ContainerNetwork::is_failure(terminate_on_failure, event);
        if event is Running {
            after == self && verdict == Ok::<Verdict, Error>(Verdict::Pass)
        } else if !waited && !failed {
            after == self && verdict == Ok::<Verdict, Error>(
                if event is Done {
                    Verdict::Complete
                } else {
                    Verdict::Pass
                },
            )
        } else {
            &&& after == (ContainerNetwork {
                active_container_ids: after.active_container_ids,
                container_runners: after.container_runners,
                container_results: after.container_results,
                ..self
            })
            &&& after.active_container_ids@ == self.active_container_ids@.remove(name)
            &&& after.container_runners@ == self.container_runners@.remove(name)
            &&& match event {
                RunnerEvent::Done(comres) => {
                    &&& after.container_results@ == self.container_results@.insert(
                        name,
                        Ok(comres),
                    )
                    &&& verdict == Ok::<Verdict, Error>(
                        if failed {
                            Verdict::Unsuccessful
                        } else {
                            Verdict::Complete
                        },
                    )
                },
                RunnerEvent::Failed(e) => {
                    &&& after.container_results@ == self.container_results@.insert(name, Err(e))
                    &&& verdict == Ok::<Verdict, Error>(Verdict::OsError)
                },
                RunnerEvent::Lost(e) => {
                    &&& after.container_results == self.container_results
                    &&& verdict == Err::<Verdict, Error>(e)
                },
                RunnerEvent::Running => true,
            }
        }
    }

    /// The runner of the container was looked at
    pub fn polled(
        &mut self,
        name: &str,
        waited: bool,
        terminate_on_failure: bool,
        event: RunnerEvent,
    ) -> (r: Result<Verdict, Error>)
        requires
            old(self).wf(),
            old(self).has_runner(name@),
        ensures
            final(self).wf(),
            event is Running ==> r == Ok::<Verdict, Error>(Verdict::Pass),
            event matches RunnerEvent::Done(c) ==> r == Ok::<Verdict, Error>(
                if terminate_on_failure && !(c.status matches Some(s) && s.success) {
                    Verdict::Unsuccessful
                } else {
                    Verdict::Complete
                },
            ),
            waited && !(event is Running) ==> !final(self).has_runner(name@),
            old(self).is_polled(*final(self), name@, waited, terminate_on_failure, event, r),
    {
        let (failed, unwaited): (bool, Verdict) = match &event {
            RunnerEvent::Running => {
                return Ok(Verdict::Pass);
            },
            RunnerEvent::Done(comres) => (
                terminate_on_failure && !comres.successful(),
                Verdict::Complete,
            ),
            _ => (terminate_on_failure, Verdict::Pass),
        };
        if !waited && !failed {
            return Ok(unwaited);
        }
        let _ = self.active_container_ids.take(name);
        let _ = self.container_runners.take(name);
        proof {
            assert forall|k: Seq<char>| #[trigger]
                self.container_runners@.dom().contains(
                    k,
                ) implies self.active_container_ids@.dom().contains(k) by {
                assert(old(self).container_runners@.dom().contains(k));
            }
            assert forall|k: Seq<char>| #[trigger]
                self.active_container_ids@.dom().contains(
                    k,
                ) implies self.containers@.dom().contains(k) by {
                assert(old(self).active_container_ids@.dom().contains(k));
            }
        }
        match event {
            RunnerEvent::Done(comres) => {
                self.container_results.put(name.to_owned(), Ok(comres));
                if failed {
                    Ok(Verdict::Unsuccessful)
                } else {
                    Ok(Verdict::Complete)
                }
            },
            RunnerEvent::Failed(e) => {
                self.container_results.put(name.to_owned(), Err(e));
                Ok(Verdict::OsError)
            },
            RunnerEvent::Lost(e) => Err(e),
            RunnerEvent::Running => Ok(Verdict::Pass),
        }
    }

    /// The error of waiting when a container was unsuccessful or its runner had
    /// an error
    pub fn wait_error(&self) -> (r: Error)
        requires
            self.wf(),
        ensures
            r@ == (ErrorView {
                kinds: compiled(
                    self.container_results,
                    self.container_results.names@.len() as int,
                ).push(
                    KindView::Str(
                        "ContainerNetwork::wait_with_timeout(terminate_on_failure: true) error compilation (check logs for more):\n"@,
                    ),
                ),
                locations: Seq::empty(),
            }),
    {
        self.error_compilation().add_err_no_location(
            ErrorKind::StrError(
                "ContainerNetwork::wait_with_timeout(terminate_on_failure: true) error compilation (check logs for more):\n",
            ),
        )
    }

    /// The error of waiting when the time is over, `names` being those that are
    /// left
    pub fn timeout_error(names: &Vec<String>, l: Location) -> (r: Error)
        ensures
            r@ == ErrorView::of(KindView::Timeout).at(l@).with(
                KindView::Text(
                    "ContainerNetwork::wait_with_timeout() timeout waiting for container names "@
                        + debug_list(texts(names@)) + " to complete"@,
                ),
            ),
            r@.timed_out(),
    {
        let mut text: String =
            "ContainerNetwork::wait_with_timeout() timeout waiting for container names ".to_owned();
        text.append(debug_texts(names).as_str());
        text.append(" to complete");
        let r: Error = Error::timeout(l).add_err_no_location(ErrorKind::StringError(text));
        assert(r@.kinds[0] == KindView::Timeout);
        r
    }

    /// The ID of an active container, for which the IP address is asked
    pub fn ip_addr_id(&self, name: &str) -> (r: Result<&String, Error>)
        requires
            self.wf(),
        ensures
            if self.has_active(name@) {
                r == Ok::<&String, Error>(&self.active_container_ids@[name@])
            } else {
                r is Err && r->Err_0@ == ErrorView::message(
                    "get_ip_addr("@ + name@ + ") -> could not find active container with name"@,
                )
            },
    {
        match self.active_container_ids.find(name) {
            Some(i) => Ok(&self.active_container_ids.values[i]),
            None => {
                let mut text: String = "get_ip_addr(".to_owned();
                text.append(name);
                text.append(") -> could not find active container with name");
                Err(Error::from_text(text))
            },
        }
    }

    /// Adds what was being done to an error of asking for an IP address
    pub fn ip_addr_error(name: &str, e: Error) -> (r: Error)
        ensures
            r@ == e@.with(KindView::Text("get_ip_addr("@ + name@ + ")"@)),
    {
        let mut text: String = "get_ip_addr(".to_owned();
        text.append(name);
        text.append(")");
        e.add_err_no_location(ErrorKind::StringError(text))
    }
}

/// A container that is not waited for can still be waited for after its runner was
/// looked at, whatever was found, unless that failed the whole network.
pub proof fn unwaited_containers_keep_their_runners(
    before: ContainerNetwork,
    after: ContainerNetwork,
    name: Seq<char>,
    terminate_on_failure: bool,
    event: RunnerEvent,
    verdict: Result<Verdict, Error>,
)
    requires
        before.wf(),
        before.has_runner(name),
        before.is_polled(after, name, false, terminate_on_failure, event, verdict),
    ensures
        !ContainerNetwork::is_failure(terminate_on_failure, event) ==> after == before,
        ContainerNetwork::is_failure(terminate_on_failure, event) <==> {
            ||| verdict is Err
            ||| verdict->Ok_0 is Unsuccessful
            ||| verdict->Ok_0 is OsError
        },
{
}

/// What is to be done next in a run. The indices are those of the names.
#[derive(Clone, Copy, PartialEq, Eq, Structural, Debug)]
pub enum RunStep {
    /// The names are checked
    CheckNames,
    /// The logs directory is acquired
    AcquireLog,
    /// The dockerfile is looked for
    FindDockerfile(usize),
    /// The write directory is looked for, if it is needed
    FindWriteDir,
    /// The docker network is created, if it is not active
    CreateNetwork,
    /// The volumes are acquired and the image is built
    Prepare(usize),
    /// The container is created
    Create(usize),
    /// The container is started
    Start(usize),
    /// All the containers and the docker network are terminated
    TerminateAll,
    /// Everything is running
    Finished,
    /// An error is returned
    Failed,
}

/// What is done after a step of a run of `n` names, `ok` being whether it
/// succeeded. `identified` tells for a creation that has not succeeded that docker
/// reported success, but with an ID that is no text.
pub open spec fn after_step(n: int, step: RunStep, ok: bool, identified: bool) -> RunStep {
    match step {
        RunStep::TerminateAll => RunStep::Failed,
        RunStep::Finished => RunStep::Finished,
        RunStep::Failed => RunStep::Failed,
        RunStep::Create(i) => if ok {
            if i + 1 < n {
                RunStep::Prepare((i + 1) as usize)
            } else {
                RunStep::Start(0)
            }
        } else if identified {
            RunStep::Failed
        } else {
            RunStep::TerminateAll
        },
        RunStep::Start(i) => if ok {
            if i + 1 < n {
                RunStep::Start((i + 1) as usize)
            } else {
                RunStep::Finished
            }
        } else {
            RunStep::TerminateAll
        },
        _ => if !ok {
            RunStep::Failed
        } else {
            match step {
                RunStep::CheckNames => RunStep::AcquireLog,
                RunStep::AcquireLog => if n > 0 {
                    RunStep::FindDockerfile(0)
                } else {
                    RunStep::FindWriteDir
                },
                RunStep::FindDockerfile(i) => if i + 1 < n {
                    RunStep::FindDockerfile((i + 1) as usize)
                } else {
                    RunStep::FindWriteDir
                },
                RunStep::FindWriteDir => RunStep::CreateNetwork,
                RunStep::CreateNetwork => if n > 0 {
                    RunStep::Prepare(0)
                } else {
                    RunStep::Finished
                },
                RunStep::Prepare(i) => RunStep::Create(i),
                _ => step,
            }
        },
    }
}

/// The index of a step is that of a name.
pub open spec fn step_in_range(n: int, step: RunStep) -> bool {
    match step {
        RunStep::FindDockerfile(i) => i < n,
        RunStep::Prepare(i) => i < n,
        RunStep::Create(i) => i < n,
        RunStep::Start(i) => i < n,
        _ => true,
    }
}

/// Decides what is done after a step of a run of `n` names
pub fn next_step(n: usize, step: RunStep, ok: bool, identified: bool) -> (r: RunStep)
    requires
        step_in_range(n as int, step),
    ensures
        step_in_range(n as int, r),
        r == after_step(n as int, step, ok, identified),
{
    match step {
        RunStep::TerminateAll => RunStep::Failed,
        RunStep::Finished => RunStep::Finished,
        RunStep::Failed => RunStep::Failed,
        RunStep::Create(i) => {
            if ok {
                if i + 1 < n {
                    RunStep::Prepare(i + 1)
                } else {
                    RunStep::Start(0)
                }
            } else if identified {
                RunStep::Failed
            } else {
                RunStep::TerminateAll
            }
        },
        RunStep::Start(i) => {
            if ok {
                if i + 1 < n {
                    RunStep::Start(i + 1)
                } else {
                    RunStep::Finished
                }
            } else {
                RunStep::TerminateAll
            }
        },
        RunStep::CheckNames => {
            if ok {
                RunStep::AcquireLog
            } else {
                RunStep::Failed
            }
        },
        RunStep::AcquireLog => {
            if !ok {
                RunStep::Failed
            } else if n > 0 {
                RunStep::FindDockerfile(0)
            } else {
                RunStep::FindWriteDir
            }
        },
        RunStep::FindDockerfile(i) => {
            if !ok {
                RunStep::Failed
            } else if i + 1 < n {
                RunStep::FindDockerfile(i + 1)
            } else {
                RunStep::FindWriteDir
            }
        },
        RunStep::FindWriteDir => {
            if ok {
                RunStep::CreateNetwork
            } else {
                RunStep::Failed
            }
        },
        RunStep::CreateNetwork => {
            if !ok {
                RunStep::Failed
            } else if n > 0 {
                RunStep::Prepare(0)
            } else {
                RunStep::Finished
            }
        },
        RunStep::Prepare(i) => {
            if ok {
                RunStep::Create(i)
            } else {
                RunStep::Failed
            }
        },
    }
}

/// A bound on the number of steps that are left.
pub open spec fn steps_left(n: int, step: RunStep) -> int {
    match step {
        RunStep::CheckNames => 4 * n + 6,
        RunStep::AcquireLog => 4 * n + 5,
        RunStep::FindDockerfile(i) => 4 * n + 4 - i,
        RunStep::FindWriteDir => 3 * n + 4,
        RunStep::CreateNetwork => 3 * n + 3,
        RunStep::Prepare(i) => 3 * n + 2 - 2 * i,
        RunStep::Create(i) => 3 * n + 1 - 2 * i,
        RunStep::Start(i) => n + 1 - i,
        RunStep::TerminateAll => 1,
        RunStep::Finished => 0,
        RunStep::Failed => 0,
    }
}

/// A run always comes to an end, whatever succeeds: each step brings it closer.
pub proof fn steps_come_to_an_end(n: int, step: RunStep, ok: bool, identified: bool)
    requires
        0 <= n <= usize::MAX,
        step_in_range(n, step),
        !(step is Finished),
        !(step is Failed),
    ensures
        0 <= steps_left(n, after_step(n, step, ok, identified)) < steps_left(n, step),
{
}

/// What a run has done.
#[verifier::ext_equal]
pub struct StepTrace {
    /// What is done next
    pub step: RunStep,
    /// The number of containers that were created
    pub created: int,
    /// The number of containers that were started
    pub started: int,
    /// A command that creates or starts a container has failed
    pub command_failed: bool,
    /// Everything was terminated
    pub terminated: bool,
}

/// What a run has done after as many steps as there are outcomes, each saying
/// whether the step succeeded and, if not, whether docker reported success.
pub open spec fn step_trace(n: int, outcomes: Seq<(bool, bool)>) -> StepTrace
    decreases outcomes.len(),
{
    if outcomes.len() == 0 {
        StepTrace {
            step: RunStep::CheckNames,
            created: 0,
            started: 0,
            command_failed: false,
            terminated: false,
        }
    } else {
        let before = step_trace(n, outcomes.drop_last());
        let (ok, identified) = outcomes.last();
        StepTrace {
            step: after_step(n, before.step, ok, identified),
            created: if before.step is Create && ok {
                before.created + 1
            } else {
                before.created
            },
            started: if before.step is Start && ok {
                before.started + 1
            } else {
                before.started
            },
            command_failed: before.command_failed || (before.step is Create && !ok && !identified)
                || (before.step is Start && !ok),
            terminated: before.terminated || before.step is TerminateAll,
        }
    }
}

/// If a run succeeds then every container was created and started; if a command
/// that creates or starts a container fails then everything is terminated before
/// the run fails, and only then.
pub proof fn steps_run_everything(n: int, outcomes: Seq<(bool, bool)>)
    requires
        0 <= n <= usize::MAX,
    ensures
        ({
            let t = step_trace(n, outcomes);
            &&& t.step is Finished ==> t.created == n && t.started == n && !t.terminated
            &&& t.step is Failed ==> (t.terminated <==> t.command_failed)
        }),
{
    lemma_steps(n, outcomes);
}

/// A run in which everything succeeds consists of exactly these steps: the names are
/// checked, the logs directory is acquired, each dockerfile is looked for, the write
/// directory is looked for, the network is created, each container is prepared and
/// then created, and each is started. Nothing is done twice or left out.
pub proof fn successful_run_is_this_list_of_steps(n: int, outcomes: Seq<(bool, bool)>)
    requires
        0 <= n <= usize::MAX,
        forall|i: int| 0 <= i < outcomes.len() ==> #[trigger] outcomes[i].0,
    ensures
        ({
            let k = outcomes.len() as int;
            let a = step_trace(n, outcomes).step;
            let network = 3 + n;
            let started = network + 1 + 2 * n;
            &&& k == 0 ==> a is CheckNames
            &&& k == 1 ==> a is AcquireLog
            &&& 2 <= k < 2 + n ==> a == RunStep::FindDockerfile((k - 2) as usize)
            &&& k == 2 + n ==> a is FindWriteDir
            &&& k == network ==> a is CreateNetwork
            &&& network < k < started && (k - network) % 2 == 1 ==> a == RunStep::Prepare(
                ((k - network - 1) / 2) as usize,
            )
            &&& network < k < started && (k - network) % 2 == 0 ==> a == RunStep::Create(
                ((k - network - 2) / 2) as usize,
            )
            &&& started <= k < started + n ==> a == RunStep::Start((k - started) as usize)
            &&& k >= started + n ==> a is Finished
        }),
    decreases outcomes.len(),
{
    if outcomes.len() > 0 {
        let before = outcomes.drop_last();
        assert forall|i: int| 0 <= i < before.len() implies #[trigger] before[i].0 by {
            assert(outcomes[i].0);
        }
        assert(outcomes[outcomes.len() - 1].0);
        successful_run_is_this_list_of_steps(n, before);
    }
}

/// A step that fails ends the run: at once, or after everything was terminated if it
/// was a command that creates or starts a container. A creation of which docker
/// reported success, but with an ID that is no text, ends it at once too.
pub proof fn failed_steps_end_the_run(n: int, step: RunStep, identified: bool, ok: bool)
    requires
        step_in_range(n, step),
    ensures
        match step {
            RunStep::Start(_) => after_step(n, step, false, identified) is TerminateAll,
            RunStep::Create(_) => if identified {
                after_step(n, step, false, identified) is Failed
            } else {
                after_step(n, step, false, identified) is TerminateAll
            },
            RunStep::TerminateAll => after_step(n, step, ok, identified) is Failed,
            RunStep::Failed => after_step(n, step, ok, identified) is Failed,
            RunStep::Finished => after_step(n, step, ok, identified) is Finished,
            _ => after_step(n, step, false, identified) is Failed,
        },
{
}

proof fn lemma_steps(n: int, outcomes: Seq<(bool, bool)>)
    requires
        0 <= n <= usize::MAX,
    ensures
        ({
            let t = step_trace(n, outcomes);
            &&& step_in_range(n, t.step)
            &&& match t.step {
                RunStep::Prepare(i) => t.created == i && t.started == 0 && !t.terminated
                    && !t.command_failed,
                RunStep::Create(i) => t.created == i && t.started == 0 && !t.terminated
                    && !t.command_failed,
                RunStep::Start(i) => t.created == n && t.started == i && !t.terminated
                    && !t.command_failed,
                RunStep::Finished => t.created == n && t.started == n && !t.terminated
                    && !t.command_failed,
                RunStep::Failed => t.terminated == t.command_failed,
                RunStep::TerminateAll => t.command_failed,
                _ => t.created == 0 && t.started == 0 && !t.terminated && !t.command_failed,
            }
        }),
    decreases outcomes.len(),
{
    if outcomes.len() > 0 {
        lemma_steps(n, outcomes.drop_last());
    }
}

/// What was found of a runner decides what follows: a running one is passed over; with
/// `terminate_on_failure` everything but a success fails the network; a container that
/// is not waited for keeps its runner unless it does. Otherwise the runner is gone and
/// the result is kept under the name, for no other name anything changes.
pub proof fn runners_are_judged_by_their_results(
    before: ContainerNetwork,
    after: ContainerNetwork,
    name: Seq<char>,
    waited: bool,
    terminate_on_failure: bool,
    event: RunnerEvent,
    verdict: Result<Verdict, Error>,
    other: Seq<char>,
)
    requires
        before.wf(),
        before.has_runner(name),
        before.is_polled(after, name, waited, terminate_on_failure, event, verdict),
    ensures
        event is Running ==> after == before && verdict == Ok::<Verdict, Error>(Verdict::Pass),
        event matches RunnerEvent::Done(c) ==> {
            let success = c.status matches Some(s) && s.success;
            &&& verdict == Ok::<Verdict, Error>(
                if terminate_on_failure && !success {
                    Verdict::Unsuccessful
                } else {
                    Verdict::Complete
                },
            )
            &&& waited || (terminate_on_failure && !success) ==> {
                &&& after.container_results@.dom().contains(name)
                &&& after.container_results@[name] == Ok::<CommandResult, Error>(c)
                &&& !after.has_runner(name)
                &&& !after.has_active(name)
            }
            &&& !waited && (success || !terminate_on_failure) ==> after == before
        },
        event matches RunnerEvent::Failed(e) ==> {
            &&& waited || terminate_on_failure ==> {
                &&& verdict == Ok::<Verdict, Error>(Verdict::OsError)
                &&& after.container_results@.dom().contains(name)
                &&& after.container_results@[name] == Err::<CommandResult, Error>(e)
                &&& !after.has_runner(name)
            }
            &&& !waited && !terminate_on_failure ==> after == before && verdict == Ok::<
                Verdict,
                Error,
            >(Verdict::Pass)
        },
        event matches RunnerEvent::Lost(e) ==> {
            &&& waited || terminate_on_failure ==> verdict == Err::<Verdict, Error>(e)
                && !after.has_runner(name)
            &&& !waited && !terminate_on_failure ==> after == before && verdict == Ok::<
                Verdict,
                Error,
            >(Verdict::Pass)
        },
        other != name ==> after.has_runner(other) == before.has_runner(other) && after.has_active(
            other,
        ) == before.has_active(other),
        other != name && before.container_results@.dom().contains(other)
            ==> after.container_results@.dom().contains(other) && after.container_results@[other]
            == before.container_results@[other],
        after.containers == before.containers,
        after.network_active == before.network_active,
{
}

/// The containers of a list are found under their names, of two with one name the later.
pub proof fn containers_are_found_by_name(containers: Seq<Container>, k: int)
    requires
        0 <= k < containers.len(),
        forall|j: int| k < j < containers.len() ==> #[trigger] containers[j].name@
            != containers[k].name@,
    ensures
        by_name(containers).dom().contains(containers[k].name@),
        by_name(containers)[containers[k].name@] == containers[k],
    decreases containers.len(),
{
    let front = containers.drop_last();
    if k < containers.len() - 1 {
        assert(containers[containers.len() - 1].name@ != containers[k].name@);
        assert forall|j: int| k < j < front.len() implies #[trigger] front[j].name@
            != front[k].name@ by {
            assert(front[j] == containers[j]);
        }
        assert(front[k] == containers[k]);
        containers_are_found_by_name(front, k);
    }
}

/// A container is refused exactly if one of its name came before or its dockerfile has to
/// be written and there is no directory for it.
pub proof fn containers_are_refused_for_these_reasons(
    has_write_dir: bool,
    containers: Seq<Container>,
    i: int,
)
    requires
        0 <= i < containers.len(),
    ensures
        list_fault(has_write_dir, containers, i) is None <==> {
            &&& forall|k: int| 0 <= k < i ==> #[trigger] containers[k].name@ != containers[i].name@
            &&& containers[i].dockerfile@ is Contents ==> has_write_dir
        },
{
}

/// A name can be run exactly if it did not come before and is that of a container of the
/// network.
pub proof fn names_are_refused_for_these_reasons(
    network: ContainerNetwork,
    names: Seq<Seq<char>>,
    i: int,
)
    requires
        0 <= i < names.len(),
    ensures
        network.run_fault(names, i) is None <==> {
            &&& forall|k: int| 0 <= k < i ==> #[trigger] names[k] != names[i]
            &&& network.containers@.dom().contains(names[i])
        },
{
    let front = names.take(i);
    if front.contains(names[i]) {
        let k = choose|k: int| 0 <= k < front.len() && front[k] == names[i];
        assert(names[k] == names[i]);
    }
    if exists|k: int| 0 <= k < i && #[trigger] names[k] == names[i] {
        let k = choose|k: int| 0 <= k < i && #[trigger] names[k] == names[i];
        assert(front[k] == names[i]);
        assert(front.contains(names[i]));
    }
}

/// The inactive names are those of the containers without an active ID, and the others
/// looked at while containers are waited for are those with a runner that are not among
/// these.
pub proof fn inactive_and_others_are_these(
    network: ContainerNetwork,
    names: Seq<Seq<char>>,
    n: int,
    m: int,
    name: Seq<char>,
)
    requires
        0 <= n <= network.containers.names@.len(),
        0 <= m <= network.container_runners.names@.len(),
    ensures
        inactive_among(network, n).contains(name) <==> !network.active_container_ids@.dom().contains(
            name,
        ) && exists|i: int| 0 <= i < n && (#[trigger] network.containers.names@[i])@ == name,
        network.others_among(names, m).contains(name) <==> !names.contains(name) && exists|i: int|
            0 <= i < m && (#[trigger] network.container_runners.names@[i])@ == name,
    decreases n + m,
{
    if n > 0 {
        inactive_and_others_are_these(network, names, n - 1, m, name);
        let last = network.containers.names@[n - 1]@;
        lemma_filtered(
            inactive_among(network, n - 1),
            inactive_among(network, n),
            last,
            !network.active_container_ids@.dom().contains(last),
            name,
        );
    }
    if m > 0 {
        inactive_and_others_are_these(network, names, n, m - 1, name);
        let last = network.container_runners.names@[m - 1]@;
        lemma_filtered(
            network.others_among(names, m - 1),
            network.others_among(names, m),
            last,
            !names.contains(last),
            name,
        );
    }
}

proof fn lemma_filtered(
    a: Seq<Seq<char>>,
    b: Seq<Seq<char>>,
    last: Seq<char>,
    kept: bool,
    name: Seq<char>,
)
    requires
        b == if kept {
            a.push(last)
        } else {
            a
        },
    ensures
        b.contains(name) <==> a.contains(name) || (kept && name == last),
{
    if a.contains(name) {
        let k = choose|k: int| 0 <= k < a.len() && a[k] == name;
        assert(b[k] == name);
    }
    if kept {
        assert(b[a.len() as int] == last);
    }
    if b.contains(name) {
        let k = choose|k: int| 0 <= k < b.len() && b[k] == name;
        if k < a.len() {
            assert(a[k] == name);
        }
    }
}

/// What is compiled has the report of each result and the error of each runner that
/// failed, under the name of the container.
pub proof fn results_are_compiled(
    results: NameMap<Result<CommandResult, Error>>,
    n: int,
    i: int,
    kind: KindView,
)
    requires
        0 <= i < n <= results.names@.len(),
    ensures
        results.values@[i] matches Ok(c) ==> (result_report(results.names@[i]@, c).contains(kind)
            ==> compiled(results, n).contains(kind)),
        results.values@[i] matches Err(e) ==> compiled(results, n).contains(
            KindView::Text(
                "Command runner level error from container "@ + results.names@[i]@ + ":\n"@
                    + e@.debug() + "\n"@,
            ),
        ),
    decreases n,
{
    let a = compiled(results, n - 1);
    let new = match results.values@[n - 1] {
        Ok(comres) => result_report(results.names@[n - 1]@, comres),
        Err(e) => seq![
            KindView::Text(
                "Command runner level error from container "@ + results.names@[n - 1]@ + ":\n"@
                    + e@.debug() + "\n"@,
            ),
        ],
    };
    assert(compiled(results, n) == a + new);
    if i < n - 1 {
        results_are_compiled(results, n - 1, i, kind);
    }
    lemma_in_sum(a, new, kind);
    if let Err(e) = results.values@[i] {
        let shown = KindView::Text(
            "Command runner level error from container "@ + results.names@[i]@ + ":\n"@ + e@.debug()
                + "\n"@,
        );
        if i == n - 1 {
            assert(new[0] == shown);
        }
        lemma_in_sum(a, new, shown);
    }
}

/// The log files of a network are new files of its log directory: one that is named
/// after the network, and two that are named after each container.
pub proof fn logs_are_named_after_their_owners(
    network: ContainerNetwork,
    name: Seq<char>,
    suffix: Seq<char>,
    log: FileOptions,
)
    ensures
        network.is_log_file(log) <==> log.overwrites() && log.path@ == pushed(
            network.log_dir@,
            "container_network_"@ + network.network_name@ + ".log"@,
        ),
        network.is_stream_log(name, suffix, log) <==> log.overwrites() && log.path@ == pushed(
            network.log_dir@,
            "container_"@ + name + suffix,
        ),
{
}

/// A command runs docker with the arguments, is shown only where debugging is asked for,
/// and writes both streams to the log file.
pub proof fn commands_are_shown_and_logged(
    command: Command,
    args: Seq<Seq<char>>,
    debug: bool,
    log_file: FileOptions,
)
    requires
        is_shown(command, args, debug, log_file),
    ensures
        command.program@ == "docker"@,
        texts(command.args@) == args,
        command.stdout_debug == debug && command.stderr_debug == debug,
        command.stdout_recording && command.stderr_recording,
        command.stdout_log == Some(log_file) && command.stderr_log == Some(log_file),
{
}

/// The error for a name or a container that is refused tells the first reason that holds.
pub proof fn refusals_tell_their_reason(
    network: ContainerNetwork,
    names: Seq<Seq<char>>,
    i: int,
    has_write_dir: bool,
    duplicate: bool,
    container: Container,
)
    requires
        0 <= i < names.len(),
    ensures
        names.take(i).contains(names[i]) ==> (network.run_fault(names, i) matches Some(e) && e.kinds
            == seq![
            KindView::Text(
                "ContainerNetwork::run() two containers were supplied with the same name "@
                    + "\""@ + names[i] + "\""@ + ""@,
            ),
        ]),
        !names.take(i).contains(names[i]) && !network.has(names[i]) ==> (network.run_fault(
            names,
            i,
        ) matches Some(e) && e.kinds == seq![
            KindView::Text(
                "ContainerNetwork::run() argument name "@ + "\""@ + names[i] + "\""@
                    + " is not contained in the network"@,
            ),
        ]),
        !has_write_dir && container.dockerfile@ is Contents ==> (add_fault(
            has_write_dir,
            duplicate,
            container,
        ) matches Some(e) && e.kinds == seq![
            KindView::Str(
                "ContainerNetwork::new() a container is built with `Dockerfile::Contents`, but `dockerfile_write_dir` is unset"@,
            ),
        ]),
        (has_write_dir || !(container.dockerfile@ is Contents)) && duplicate ==> (add_fault(
            has_write_dir,
            duplicate,
            container,
        ) matches Some(e) && e.kinds == seq![
            KindView::Text(
                "ContainerNetwork::new() two containers were supplied with the same name "@
                    + "\""@ + container.name@ + "\""@ + ""@,
            ),
        ]),
{
}

/// The lists of a network go by the order of its names: what is behind the first `n` is
/// added behind what is listed of these, if it belongs to the list.
pub proof fn lists_go_by_the_order_of_names(
    network: ContainerNetwork,
    names: Seq<Seq<char>>,
    results: NameMap<Result<CommandResult, Error>>,
    n: int,
)
    requires
        0 <= n,
    ensures
        n < network.containers.names@.len() ==> inactive_among(network, n + 1)
            == if network.active_container_ids@.dom().contains(network.containers.names@[n]@) {
            inactive_among(network, n)
        } else {
            inactive_among(network, n).push(network.containers.names@[n]@)
        },
        n < network.container_runners.names@.len() ==> network.others_among(names, n + 1)
            == if names.contains(network.container_runners.names@[n]@) {
            network.others_among(names, n)
        } else {
            network.others_among(names, n).push(network.container_runners.names@[n]@)
        },
        n < results.names@.len() && results.values@[n] is Ok ==> compiled(results, n + 1)
            == compiled(results, n) + result_report(results.names@[n]@, results.values@[n]->Ok_0),
        n < results.names@.len() && results.values@[n] is Err ==> compiled(results, n + 1).len()
            == compiled(results, n).len() + 1,
        inactive_among(network, 0).len() == 0 && network.others_among(names, 0).len() == 0,
        compiled(results, 0).len() == 0,
{
}

} // verus!
