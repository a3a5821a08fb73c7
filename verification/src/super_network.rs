//! A set of containers that is managed through the docker API, each with a
//! directory for its outputs.

use vstd::prelude::*;

use crate::command::{optional, text_pairs};
use crate::container_network::{AddContainerOptions, ImageStep, OutputDirConfig};
use crate::container_runner::{
    are_log_prefixes, as_ref_of, is_config, make_config, make_log_prefixes, CreateConfig,
    SuperContainerOptions,
};
use crate::dockerfile::{push_arg, push_args, DockerfileView};
use crate::error::{Error, ErrorKind, ErrorView, KindView};
use crate::misc_structs::SuperImage;
use crate::name_map::NameMap;
use crate::paths::{push_path, pushed};
use crate::super_docker_file::{pushed_lines, SuperDockerFile};
use crate::text::{same, texts, to_chars};

verus! {

/// The environment variable that tells a container where its outputs go.
pub open spec fn output_dir_var() -> Seq<char> {
    "SUPER_NETWORK_OUTPUT_DIR"@
}

/// The environment variable that tells a container where its outputs go
pub fn output_dir_env_var_name() -> (r: &'static str)
    ensures
        r@ == output_dir_var(),
        r@ == "SUPER_NETWORK_OUTPUT_DIR"@,
{
    "SUPER_NETWORK_OUTPUT_DIR"
}

/// Options for creating a network.
pub struct SuperCreateNetworkOptions {
    pub name: String,
    pub driver: Option<String>,
    pub enable_ipv6: bool,
    pub options: NameMap<String>,
    pub labels: NameMap<String>,
    /// If set the network will shutdown and start a new network if there's a
    /// name collision.
    pub overwrite_existing: bool,
    /// Configure an output directory for logging/assertions.
    ///
    /// This also adds env var SUPER_NETWORK_OUTPUT_DIR to the container. Add
    /// outputs using the env var to ensure compatibility.
    pub output_dir_config: Option<OutputDirConfig>,
    /// If true, [SuperContainerOptions] with `log_outs: None` will use this
    /// value as default
    pub log_by_default: bool,
}

/// If any field is None, it'll be equivalent to passing no argument to `docker
/// create` command.
pub struct SuperNetworkContainerOptions {
    pub hostname: Option<String>,
    pub mac_address: Option<String>,
}

impl Default for SuperNetworkContainerOptions {
    fn default() -> (r: Self)
        ensures
            r == (SuperNetworkContainerOptions { hostname: None, mac_address: None }),
    {
        SuperNetworkContainerOptions { hostname: None, mac_address: None }
    }
}

/// A container that was added to a network.
pub struct LiveContainer {
    pub image: SuperImage,
    pub container_opts: SuperContainerOptions,
    pub network_opts: SuperNetworkContainerOptions,
    pub should_be_started: bool,
    pub output_dir: Option<String>,
}

/// What creating a directory came to.
#[derive(Clone, Copy, PartialEq, Eq, Structural, Debug)]
pub enum DirOutcome {
    Created,
    AlreadyExists,
    Failed,
}

impl LiveContainer {
    /// Marks the container as started. Returns if it has to be created and
    /// started now, which is not so if this was called before.
    pub fn start_container(&mut self) -> (r: bool)
        ensures
            r == !old(self).should_be_started,
            *final(self) == (LiveContainer { should_be_started: true, ..*old(self) }),
    {
        if self.should_be_started {
            return false;
        }
        self.should_be_started = true;
        true
    }

    /// What the docker API is told to create the container
    pub fn create_config<'a>(&'a self, network_name: &'a str) -> (r: CreateConfig<'a>)
        ensures
            is_config(r, self.image, self.container_opts, network_name@),
            r.hostname == as_ref_of(&self.network_opts.hostname),
            r.mac_address == as_ref_of(&self.network_opts.mac_address),
            r.ipv4_addr is None,
            r.ipv6_addr is None,
    {
        make_config(
            self.network_opts.hostname.as_ref(),
            self.network_opts.mac_address.as_ref(),
            None,
            None,
            &self.image,
            &self.container_opts,
            network_name,
        )
    }

    /// The file that the output of the container is written to
    pub fn log_file(&self, write_logs: bool) -> (r: Option<String>)
        ensures
            optional(r) == match (write_logs, self.output_dir) {
                (true, Some(dir)) => Some(pushed(dir@, "super_log"@)),
                _ => None,
            },
    {
        match &self.output_dir {
            Some(dir) => if write_logs {
                Some(push_path(dir.as_str(), "super_log"))
            } else {
                None
            },
            None => None,
        }
    }
}

/// The prefixes of the lines of a container's stdout and stderr
pub fn log_prefixes(name: &str, is_terminal: bool, color_num: usize) -> (r: (String, String))
    ensures
        are_log_prefixes((r.0@, r.1@), name@, "   | "@, "  E| "@, is_terminal, color_num),
{
    make_log_prefixes(name, "   | ", "  E| ", is_terminal, color_num)
}

/// Manages a set of containers in a controlled environment. Useful for creating
/// integration tests and examples.
pub struct SuperNetwork {
    pub network_id: String,
    pub opts: SuperCreateNetworkOptions,
    pub containers: NameMap<LiveContainer>,
}

/// The names of the important containers among the first `n`.
pub open spec fn important_among(containers: NameMap<LiveContainer>, n: int) -> Seq<Seq<char>>
    decreases n,
{
    if n <= 0 {
        Seq::empty()
    } else {
        let before = important_among(containers, n - 1);
        if containers.values@[n - 1].container_opts.important {
            before.push(containers.names@[n - 1]@)
        } else {
            before
        }
    }
}

/// Whether a container has shut down, `inspected` being what docker tells of it,
/// if it knows it, and of that whether it is running
pub fn is_down(inspected: Option<Option<bool>>) -> (r: bool)
    ensures
        r == match inspected {
            Some(Some(running)) => !running,
            _ => true,
        },
{
    match inspected {
        Some(Some(running)) => !running,
        _ => true,
    }
}

impl SuperNetwork {
    /// The containers are kept under their names.
    pub open spec fn wf(self) -> bool {
        &&& self.containers.wf()
        &&& forall|name: Seq<char>| #[trigger]
            self.containers@.dom().contains(name) ==> self.containers@[name].container_opts.name@
                == name
    }

    /// The network has a container with that name.
    pub open spec fn has(self, name: Seq<char>) -> bool {
        self.containers@.dom().contains(name)
    }

    /// The network that was created under the ID
    pub fn create(network_id: String, opts: SuperCreateNetworkOptions) -> (r: Self)
        ensures
            r.wf(),
            r.network_id == network_id,
            r.opts == opts,
            r.containers@ == Map::<Seq<char>, LiveContainer>::empty(),
    {
        SuperNetwork { network_id, opts, containers: NameMap::new() }
    }

    /// A container can be added if it is not already registered in the network
    pub fn check_add(&self, name: &str) -> (r: Result<(), Error>)
        requires
            self.wf(),
        ensures
            if self.has(name@) {
                r is Err && r->Err_0@ == ErrorView::of(
                    KindView::Str("Name is already registered"@),
                )
            } else if name@.len() == 0 {
                r is Err && r->Err_0@ == ErrorView::of(
                    KindView::Str("Name for container can't be empty"@),
                )
            } else {
                r is Ok
            },
    {
        if self.containers.find(name).is_some() {
            return Err(
                Error::from_kind_locationless(ErrorKind::StrError("Name is already registered")),
            );
        }
        if to_chars(name).len() == 0 {
            return Err(
                Error::from_kind_locationless(
                    ErrorKind::StrError("Name for container can't be empty"),
                ),
            );
        }
        Ok(())
    }

    /// How the image of a container comes about. With an output directory, an
    /// image that is there is the base of a docker file, and a docker file also
    /// makes the directory that the outputs go to; so it is for an image that is
    /// built from arguments, for which this is called again.
    pub fn image_step(&self, add_opts: AddContainerOptions) -> (r: ImageStep)
        ensures
            match add_opts {
                AddContainerOptions::Container(image) => if self.opts.output_dir_config is Some {
                    &&& r matches ImageStep::BuildFile(f)
                    &&& f.base@ == DockerfileView::NameTag(image.0@)
                    &&& f.image_name is None
                    &&& f.content_extend@ == pushed_lines(seq!["RUN mkdir /super_out"@])
                    &&& f.tarball.written@.len() == 0
                    &&& f.tarball.paths@.len() == 0
                    &&& f.build_path is None
                    &&& f.build_opts.is_default()
                    &&& f.wf()
                } else {
                    r == ImageStep::Use(image)
                },
                AddContainerOptions::DockerFile(f) => if self.opts.output_dir_config is Some {
                    &&& r matches ImageStep::BuildFile(g)
                    &&& g == (SuperDockerFile { content_extend: g.content_extend, ..f })
                    &&& g.content_extend@ == f.content_extend@ + pushed_lines(
                        seq!["RUN mkdir /super_out"@],
                    )
                } else {
                    r == ImageStep::BuildFile(f)
                },
                AddContainerOptions::BollardArgs { image_options, tarball } => r
                    == (ImageStep::BuildArgs { image_options, tarball }),
            },
    {
        let with_output: bool = self.opts.output_dir_config.is_some();
        match add_opts {
            AddContainerOptions::Container(image) => {
                if with_output {
                    let f: SuperDockerFile = image.to_docker_file();
                    let g: SuperDockerFile = making_output_dir(f);
                    assert(g.content_extend@ =~= pushed_lines(seq!["RUN mkdir /super_out"@]));
                    ImageStep::BuildFile(g)
                } else {
                    ImageStep::Use(image)
                }
            },
            AddContainerOptions::DockerFile(f) => {
                if with_output {
                    ImageStep::BuildFile(making_output_dir(f))
                } else {
                    ImageStep::BuildFile(f)
                }
            },
            AddContainerOptions::BollardArgs { image_options, tarball } => ImageStep::BuildArgs {
                image_options,
                tarball,
            },
        }
    }

    /// The directory of the host for the outputs of a container, which is to be
    /// created
    pub fn output_dir(&self, name: &str) -> (r: Option<String>)
        ensures
            optional(r) == match self.opts.output_dir_config {
                Some(config) => Some(pushed(config.output_dir@, name@)),
                None => None,
            },
    {
        match &self.opts.output_dir_config {
            Some(config) => Some(push_path(config.output_dir.as_str(), name)),
            None => None,
        }
    }

    /// The directory for the outputs of a container may exist already, unless it
    /// is the root
    pub fn check_output_dir(dir: &str, name: &str, outcome: DirOutcome) -> (r: Result<(), Error>)
        ensures
            match outcome {
                DirOutcome::Created => r is Ok,
                DirOutcome::AlreadyExists => if dir@ == "/"@ {
                    r is Err && r->Err_0@ == ErrorView::message(
                        "Trying to create output_dir at "@ + dir@ + " for "@ + name@,
                    )
                } else {
                    r is Ok
                },
                DirOutcome::Failed => r is Err && r->Err_0@ == ErrorView::message(
                    "Problems creating output_dir ("@ + dir@ + ") for container "@ + name@,
                ),
            },
    {
        match outcome {
            DirOutcome::Created => Ok(()),
            DirOutcome::AlreadyExists => {
                if same(dir, "/") {
                    let mut text: String = "Trying to create output_dir at ".to_owned();
                    text.append(dir);
                    text.append(" for ");
                    text.append(name);
                    Err(Error::from_text(text))
                } else {
                    Ok(())
                }
            },
            DirOutcome::Failed => {
                let mut text: String = "Problems creating output_dir (".to_owned();
                text.append(dir);
                text.append(") for container ");
                text.append(name);
                Err(Error::from_text(text))
            },
        }
    }

    /// Registers a container with its image. With an output directory, the
    /// directory of the container is mounted and the container is told of it.
    pub fn add_container(
        &mut self,
        image: SuperImage,
        network_opts: SuperNetworkContainerOptions,
        container: SuperContainerOptions,
    )
        requires
            old(self).wf(),
            !old(self).has(container.name@),
        ensures
            final(self).wf(),
            *final(self) == (SuperNetwork { containers: final(self).containers, ..*old(self) }),
            final(self).has(container.name@),
            ({
                let now = final(self).containers@[container.name@];
                let opts = now.container_opts;
                &&& final(self).containers@ == old(self).containers@.insert(container.name@, now)
                &&& now.image == image
                &&& now.network_opts == network_opts
                &&& !now.should_be_started
                &&& opts == (SuperContainerOptions {
                    volumes: opts.volumes,
                    env_vars: opts.env_vars,
                    ..container
                })
                &&& match old(self).opts.output_dir_config {
                    None => opts == container && now.output_dir is None,
                    Some(config) => {
                        let dir = pushed(config.output_dir@, container.name@);
                        &&& optional(now.output_dir) == Some(dir)
                        &&& text_pairs(opts.volumes@) == text_pairs(container.volumes@).push(
                            (dir, "/super_out"@),
                        )
                        &&& texts(opts.env_vars@) == texts(container.env_vars@).push(
                            output_dir_var() + "=/super_out"@,
                        )
                        &&& texts(opts.env_vars@).last() == "SUPER_NETWORK_OUTPUT_DIR"@
                            + "=/super_out"@
                    },
                }
            }),
    {
        let mut opts: SuperContainerOptions = container;
        let output_dir: Option<String> = self.output_dir(opts.name.as_str());
        if let Some(dir) = &output_dir {
            opts.volumes.push((dir.clone(), "/super_out".to_owned()));
            assert(text_pairs(opts.volumes@) =~= text_pairs(container.volumes@).push(
                (dir@, "/super_out"@),
            ));
            let mut var: String = output_dir_env_var_name().to_owned();
            var.append("=/super_out");
            push_arg(&mut opts.env_vars, var.as_str());
        }
        let name: String = opts.name.clone();
        let _ = self.containers.insert_new(
            name,
            LiveContainer {
                image,
                container_opts: opts,
                network_opts,
                should_be_started: false,
                output_dir,
            },
        );
    }

    /// Marks the container as started. Returns what the docker API is told to
    /// create it, unless this was called before.
    pub fn start_container(&mut self, container_name: &str) -> (r: Result<
        Option<CreateConfig<'_>>,
        Error,
    >)
        requires
            old(self).wf(),
        ensures
            if old(self).has(container_name@) {
                let was = old(self).containers@[container_name@];
                &&& final(self).wf()
                &&& *final(self) == (SuperNetwork {
                    containers: final(self).containers,
                    ..*old(self)
                })
                &&& final(self).containers@ == old(self).containers@.insert(
                    container_name@,
                    (LiveContainer { should_be_started: true, ..was }),
                )
                &&& if was.should_be_started {
                    r matches Ok(None)
                } else {
                    &&& r matches Ok(Some(config))
                    &&& is_config(config, was.image, was.container_opts, old(self).opts.name@)
                    &&& config.hostname == as_ref_of(&was.network_opts.hostname)
                    &&& config.mac_address == as_ref_of(&was.network_opts.mac_address)
                    &&& config.ipv4_addr is None
                    &&& config.ipv6_addr is None
                }
            } else {
                &&& *final(self) == *old(self)
                &&& r is Err
                &&& r->Err_0@ == ErrorView::message(
                    "Container with name "@ + container_name@ + " not found"@,
                )
            },
    {
        match self.containers.find(container_name) {
            None => {
                let mut text: String = "Container with name ".to_owned();
                text.append(container_name);
                text.append(" not found");
                Err(Error::from_text(text))
            },
            Some(i) => {
                let start: bool = self.containers.values[i].start_container();
                proof {
                    let now = self.containers.values@[i as int];
                    assert(self.containers.values@ =~= old(self).containers.values@.update(
                        i as int,
                        now,
                    ));
                    NameMap::updated(old(self).containers, self.containers, i as int, now);
                }
                if start {
                    Ok(Some(self.containers.values[i].create_config(self.opts.name.as_str())))
                } else {
                    Ok(None)
                }
            },
        }
    }

    /// The names of the containers marked as important, which are waited for
    pub fn wait_important(&self) -> (r: Vec<String>)
        requires
            self.wf(),
        ensures
            texts(r@) == important_among(self.containers, self.containers.names@.len() as int),
    {
        let mut r: Vec<String> = Vec::new();
        let mut i: usize = 0;
        assert(texts(r@) =~= important_among(self.containers, 0));
        while i < self.containers.names.len()
            invariant
                self.wf(),
                i <= self.containers.names@.len(),
                texts(r@) == important_among(self.containers, i as int),
            decreases self.containers.names@.len() - i,
        {
            if self.containers.values[i].container_opts.important {
                push_arg(&mut r, self.containers.names[i].as_str());
            }
            i = i + 1;
        }
        r
    }

    /// The names of all the containers, which are stopped when the network is torn
    /// down
    pub fn teardown(self) -> (r: Vec<String>)
        ensures
            texts(r@) == self.containers.keys(),
    {
        let mut r: Vec<String> = Vec::new();
        push_args(&mut r, &self.containers.names);
        assert(texts(r@) =~= self.containers.keys());
        r
    }
}

fn making_output_dir(f: SuperDockerFile) -> (r: SuperDockerFile)
    ensures
        r == (SuperDockerFile { content_extend: r.content_extend, ..f }),
        r.content_extend@ == f.content_extend@ + pushed_lines(seq!["RUN mkdir /super_out"@]),
{
    let mut v: Vec<String> = Vec::new();
    v.push("RUN mkdir /super_out".to_owned());
    assert(texts(v@) =~= seq!["RUN mkdir /super_out"@]);
    f.appending_dockerfile_instructions(&v)
}

/// The containers waited for are those marked as important, and no others.
pub proof fn exactly_the_important_are_waited_for(
    containers: NameMap<LiveContainer>,
    n: int,
    name: Seq<char>,
)
    requires
        n <= containers.names@.len(),
        containers.names@.len() == containers.values@.len(),
    ensures
        important_among(containers, n).contains(name) <==> exists|i: int|
            0 <= i < n && (#[trigger] containers.names@[i])@ == name
                && containers.values@[i].container_opts.important,
    decreases n,
{
    if n > 0 {
        let a = important_among(containers, n - 1);
        let b = important_among(containers, n);
        exactly_the_important_are_waited_for(containers, n - 1, name);
        if a.contains(name) {
            let k = choose|k: int| 0 <= k < a.len() && a[k] == name;
            assert(b[k] == name);
        }
        if b.contains(name) && !a.contains(name) {
            let k = choose|k: int| 0 <= k < b.len() && b[k] == name;
            if k < a.len() {
                assert(a[k] == name);
            }
            assert(containers.names@[n - 1]@ == name);
        }
        if containers.names@[n - 1]@ == name
            && containers.values@[n - 1].container_opts.important {
            assert(b[a.len() as int] == name);
        }
    }
}

/// Containers are waited for in the order of their names.
pub proof fn important_containers_go_by_the_order_of_names(
    containers: NameMap<LiveContainer>,
    n: int,
)
    requires
        0 <= n < containers.names@.len(),
    ensures
        important_among(containers, n + 1)
            == if containers.values@[n].container_opts.important {
            important_among(containers, n).push(containers.names@[n]@)
        } else {
            important_among(containers, n)
        },
        important_among(containers, 0).len() == 0,
{
}

} // verus!
