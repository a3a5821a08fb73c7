//! Containers that are built and created in one step.

use vstd::prelude::*;

use crate::cli_docker::{dir_of, dir_path_of, first_error, localize, localized, take_error, Build};
use crate::command::{optional, text_pairs, Command};
use crate::dockerfile::{
    apply_debug, build_arg_list, debug_applied, docker, flagged_pairs, is_docker, listed, push_arg,
    create_list_is_told_in_full, push_pairs, tells_docker_create, to_build_args, CreateArgs, Dockerfile, DockerfileView,
};
use crate::error::{Error, ErrorKind, ErrorView, KindView};
use crate::file_options::FileOptions;
use crate::paths::{file_name, last_name, pushed, pushed_name_is_found};
use crate::text::{debug_quote, debug_quoted, os_quote, os_quoted, texts};

verus! {

/// Container running information, put this into a network of containers
///
/// # Note
///
/// Weird things happen if volumes to the same container overlap, e.g. if the
/// directory used for logs is added as a volume, and a volume to another path
/// contained within the directory is also added as a volume.
pub struct Container {
    /// The name of the container as referenced by
    pub name: String,
    /// The name that the container is tagged with, note that the "name:tag"
    /// dockerhub image argument would go in [Dockerfile::NameTag]
    pub tag_name: String,
    /// Hostname of the URL that could access the container (the container can
    /// alternatively be accessed by an ip address). Usually, this should be the
    /// same as `name`.
    pub host_name: String,
    /// The dockerfile
    pub dockerfile: Dockerfile,
    /// Any flags and args passed to to `docker build`
    pub build_args: Vec<String>,
    /// Any flags and args passed to to `docker create`
    pub create_args: Vec<String>,
    /// Passed as `--volume string0:string1` to the create args, but these have
    /// the advantage of being canonicalized and prechecked
    pub volumes: Vec<(String, String)>,
    /// Working directory inside the container
    pub workdir: Option<String>,
    /// Environment variable mappings passed to docker
    pub environment_vars: Vec<(String, String)>,
    /// When set, this indicates that the container should run an entrypoint
    /// using this path to a binary in the container
    pub entrypoint_file: Option<String>,
    /// Arguments of the entrypoint
    pub entrypoint_args: Vec<String>,
    /// Set by default, this tells the network to forward stdout/stderr from
    /// `docker start`
    pub debug: bool,
    /// Set by default, this tells the network to copy stdout/stderr to log files
    /// in the log directory
    pub log: bool,
    /// If `log` is set, then this will override the file that the network
    /// chooses
    pub stdout_log: Option<FileOptions>,
    /// If `log` is set, then this will override the file that the network
    /// chooses
    pub stderr_log: Option<FileOptions>,
}

/// The path in a container for a binary: its name at the root.
pub open spec fn root_path(binary: Seq<char>) -> Seq<char> {
    "/"@ + file_name(binary)->0
}

/// The path in a container for a binary
pub fn make_root_path(binary: &str) -> (r: String)
    requires
        file_name(binary@) is Some,
    ensures
        r@ == root_path(binary@),
{
    let mut r: String = "/".to_owned();
    if let Some(name) = last_name(binary) {
        r.append(name.as_str());
    }
    r
}

/// The volumes with their acquired local parts, or the first error with what was
/// being done
pub fn acquired_volumes(
    volumes: &Vec<(String, String)>,
    locals: Vec<Result<String, Error>>,
    what: &'static str,
) -> (r: Result<Vec<(String, String)>, Error>)
    requires
        locals@.len() == volumes@.len(),
    ensures
        ({
            let k = first_error(locals@);
            if k < locals@.len() {
                r is Err && r->Err_0@ == (locals@[k]->Err_0)@.with(KindView::Str(what@))
            } else {
                r is Ok && text_pairs(r->Ok_0@) == localized(
                    text_pairs(volumes@),
                    locals@,
                    locals@.len() as int,
                )
            }
        }),
{
    let mut r: Vec<(String, String)> = Vec::new();
    push_pairs(&mut r, volumes);
    assert(text_pairs(r@) =~= text_pairs(volumes@));
    assert(text_pairs(r@).len() == r@.len());
    let k: usize = localize(&mut r, &locals);
    if k < locals.len() {
        Err(take_error(locals, k).add_err_no_location(ErrorKind::StrError(what)))
    } else {
        Ok(r)
    }
}

/// The command with its streams written to the log file, if there is one.
pub open spec fn logged(command: Command, log_file: Option<&FileOptions>) -> Command {
    match log_file {
        Some(f) => (Command { stdout_log: Some(*f), stderr_log: Some(*f), ..command }),
        None => command,
    }
}

/// The command is plain `docker` with the arguments and the log file.
pub open spec fn is_logged(command: Command, args: Seq<Seq<char>>, log_file: Option<&FileOptions>) -> bool {
    exists|plain: Command|
        {
            &&& #[trigger] plain.is_plain()
            &&& is_docker(plain, args)
            &&& command == logged(plain, log_file)
        }
}

impl Container {
    /// A container that has only its names and its dockerfile set.
    pub open spec fn is_new(self, name: Seq<char>, dockerfile: Dockerfile) -> bool {
        &&& self.name@ == name
        &&& self.tag_name@ == name
        &&& self.host_name@ == name
        &&& self.dockerfile == dockerfile
        &&& self.build_args@.len() == 0
        &&& self.create_args@.len() == 0
        &&& self.volumes@.len() == 0
        &&& self.workdir is None
        &&& self.environment_vars@.len() == 0
        &&& self.entrypoint_file is None
        &&& self.entrypoint_args@.len() == 0
        &&& self.debug
        &&& self.log
        &&& self.stdout_log is None
        &&& self.stderr_log is None
    }

    /// Creates the information needed to describe a `Container`. `name` is used
    /// for the `name`, `tag_name`, and `hostname`.
    pub fn new(name: &str, dockerfile: Dockerfile) -> (r: Self)
        ensures
            r.is_new(name@, dockerfile),
            r.name@ == name@ && r.tag_name@ == name@ && r.host_name@ == name@,
            r.dockerfile == dockerfile && r.debug && r.log,
            r.workdir is None && r.entrypoint_file is None,
            r.build_args@.len() == 0 && r.create_args@.len() == 0 && r.volumes@.len() == 0,
            r.environment_vars@.len() == 0 && r.entrypoint_args@.len() == 0,
    {
        Container {
            name: name.to_owned(),
            tag_name: name.to_owned(),
            host_name: name.to_owned(),
            dockerfile,
            build_args: Vec::new(),
            create_args: Vec::new(),
            volumes: Vec::new(),
            workdir: None,
            environment_vars: Vec::new(),
            entrypoint_file: None,
            entrypoint_args: Vec::new(),
            debug: true,
            log: true,
            stdout_log: None,
            stderr_log: None,
        }
    }

    /// This is used in the entrypoint pattern where an externally compiled
    /// binary is used as the entrypoint for the container. This adds a volume
    /// from `entrypoint_binary` to "/{binary_file_name}", sets `entrypoint_file`
    /// to that, and also adds the `entrypoint_args`. `entrypoint_binary` is what
    /// acquiring the binary file path returned; its error is passed on.
    pub fn external_entrypoint(
        self,
        entrypoint_binary: Result<String, Error>,
        entrypoint_args: Vec<String>,
    ) -> (r: Result<Self, Error>)
        requires
            entrypoint_binary matches Ok(p) ==> file_name(p@) is Some,
        ensures
            match entrypoint_binary {
                Err(e) => r is Err && r->Err_0@ == e@.with(
                    KindView::Str(
                        "Container::external_entrypoint could not acquire the external entrypoint binary"@,
                    ),
                ),
                Ok(p) => r matches Ok(c) && {
                    &&& c == (Container {
                        entrypoint_file: c.entrypoint_file,
                        entrypoint_args: c.entrypoint_args,
                        volumes: c.volumes,
                        ..self
                    })
                    &&& optional(c.entrypoint_file) == Some(root_path(p@))
                    &&& text_pairs(c.volumes@) == text_pairs(self.volumes@).push(
                        (p@, root_path(p@)),
                    )
                    &&& c.entrypoint_args@ == self.entrypoint_args@ + entrypoint_args@
                },
            },
    {
        match entrypoint_binary {
            Err(e) => Err(
                e.add_err_no_location(
                    ErrorKind::StrError(
                        "Container::external_entrypoint could not acquire the external entrypoint binary",
                    ),
                ),
            ),
            Ok(p) => {
                let file: String = make_root_path(p.as_str());
                Ok(self.volume(p.as_str(), file.as_str()).entrypoint(file.as_str(), entrypoint_args))
            },
        }
    }

    /// Sets `entrypoint_file` and adds to `entrypoint_args`
    pub fn entrypoint(self, entrypoint_file: &str, entrypoint_args: Vec<String>) -> (r: Self)
        ensures
            r == (Container {
                entrypoint_file: r.entrypoint_file,
                entrypoint_args: r.entrypoint_args,
                ..self
            }),
            optional(r.entrypoint_file) == Some(entrypoint_file@),
            r.entrypoint_args@ == self.entrypoint_args@ + entrypoint_args@,
    {
        let mut r: Container = self;
        let mut args: Vec<String> = entrypoint_args;
        r.entrypoint_file = Some(entrypoint_file.to_owned());
        r.entrypoint_args.append(&mut args);
        r
    }

    /// Adds an entrypoint argument
    pub fn entrypoint_arg(self, entrypoint_arg: &str) -> (r: Self)
        ensures
            r == (Container { entrypoint_args: r.entrypoint_args, ..self }),
            texts(r.entrypoint_args@) == texts(self.entrypoint_args@).push(entrypoint_arg@),
    {
        let mut r: Container = self;
        push_arg(&mut r.entrypoint_args, entrypoint_arg);
        r
    }

    /// Adds a volume to map a local path to a path in the container
    pub fn volume(self, local: &str, container: &str) -> (r: Self)
        ensures
            r == (Container { volumes: r.volumes, ..self }),
            text_pairs(r.volumes@) == text_pairs(self.volumes@).push((local@, container@)),
    {
        let mut r: Container = self;
        r.volumes.push((local.to_owned(), container.to_owned()));
        assert(text_pairs(r.volumes@) =~= text_pairs(self.volumes@).push((local@, container@)));
        r
    }

    /// Adds multiple volumes
    pub fn volumes(self, volumes: Vec<(String, String)>) -> (r: Self)
        ensures
            r == (Container { volumes: r.volumes, ..self }),
            r.volumes@ == self.volumes@ + volumes@,
    {
        let mut r: Container = self;
        let mut volumes: Vec<(String, String)> = volumes;
        r.volumes.append(&mut volumes);
        r
    }

    /// Add arguments to be passed to `docker build`
    pub fn build_args(self, build_args: Vec<String>) -> (r: Self)
        ensures
            r == (Container { build_args: r.build_args, ..self }),
            r.build_args@ == self.build_args@ + build_args@,
    {
        let mut r: Container = self;
        let mut args: Vec<String> = build_args;
        r.build_args.append(&mut args);
        r
    }

    /// Add arguments to be passed to `docker create`
    pub fn create_args(self, create_args: Vec<String>) -> (r: Self)
        ensures
            r == (Container { create_args: r.create_args, ..self }),
            r.create_args@ == self.create_args@ + create_args@,
    {
        let mut r: Container = self;
        let mut args: Vec<String> = create_args;
        r.create_args.append(&mut args);
        r
    }

    /// Adds environment vars to be passed
    pub fn environment_vars(self, environment_vars: Vec<(String, String)>) -> (r: Self)
        ensures
            r == (Container { environment_vars: r.environment_vars, ..self }),
            r.environment_vars@ == self.environment_vars@ + environment_vars@,
    {
        let mut r: Container = self;
        let mut vars: Vec<(String, String)> = environment_vars;
        r.environment_vars.append(&mut vars);
        r
    }

    /// Add arguments to be passed to the entrypoint
    pub fn entrypoint_args(self, entrypoint_args: Vec<String>) -> (r: Self)
        ensures
            r == (Container { entrypoint_args: r.entrypoint_args, ..self }),
            r.entrypoint_args@ == self.entrypoint_args@ + entrypoint_args@,
    {
        let mut r: Container = self;
        let mut args: Vec<String> = entrypoint_args;
        r.entrypoint_args.append(&mut args);
        r
    }

    /// Sets the working directory inside the container
    pub fn workdir(self, workdir: &str) -> (r: Self)
        ensures
            r == (Container { workdir: r.workdir, ..self }),
            optional(r.workdir) == Some(workdir@),
    {
        let mut r: Container = self;
        r.workdir = Some(workdir.to_owned());
        r
    }

    /// Sets whether container stdout/stderr should be forwarded
    pub fn debug(self, debug: bool) -> (r: Self)
        ensures
            r == (Container { debug, ..self }),
    {
        let mut r: Container = self;
        r.debug = debug;
        r
    }

    /// Sets whether container stdout/stderr should be written to log files
    pub fn log(self, log: bool) -> (r: Self)
        ensures
            r == (Container { log, ..self }),
    {
        let mut r: Container = self;
        r.log = log;
        r
    }

    /// The dockerfile that needs to exist, if any. `Dockerfile::Contents` needs a
    /// file to be written to.
    pub fn check_create(&self, dockerfile_write_file: Option<&str>) -> (r: Result<
        Option<&String>,
        Error,
    >)
        ensures
            match self.dockerfile@ {
                DockerfileView::NameTag(_) => r == Ok::<Option<&String>, Error>(None),
                DockerfileView::Path(p) => r is Ok && crate::dockerfile::optional_ref(r->Ok_0)
                    == Some(p),
                DockerfileView::Contents(_) => if dockerfile_write_file is Some {
                    r == Ok::<Option<&String>, Error>(None)
                } else {
                    r is Err && r->Err_0@ == ErrorView::message(
                        "Container::create -> `Dockerfile::Contents` requires a `dockerfile_write_dir`, but none was provided"@,
                    )
                },
            },
    {
        match &self.dockerfile {
            Dockerfile::NameTag(_) => Ok(None),
            Dockerfile::Path(p) => Ok(Some(p)),
            Dockerfile::Contents(_) => {
                if dockerfile_write_file.is_none() {
                    Err(
                        Error::from_text(
                            "Container::create -> `Dockerfile::Contents` requires a `dockerfile_write_dir`, but none was provided".to_owned(),
                        ),
                    )
                } else {
                    Ok(None)
                }
            },
        }
    }

    /// Adds what was being done to an error of acquiring the dockerfile
    pub fn dockerfile_error(e: Error) -> (r: Error)
        ensures
            r@ == e@.with(
                KindView::Str(
                    "Container::create -> could not acquire the path in a `Dockerfile::Path`"@,
                ),
            ),
    {
        e.add_err_no_location(
            ErrorKind::StrError(
                "Container::create -> could not acquire the path in a `Dockerfile::Path`",
            ),
        )
    }

    /// The volumes with their acquired local parts, `locals` being what acquiring
    /// them returned
    pub fn create_volumes(&self, locals: Vec<Result<String, Error>>) -> (r: Result<
        Vec<(String, String)>,
        Error,
    >)
        requires
            locals@.len() == self.volumes@.len(),
        ensures
            ({
                let k = first_error(locals@);
                if k < locals@.len() {
                    r is Err && r->Err_0@ == (locals@[k]->Err_0)@.with(
                        KindView::Str(
                            "Container::create -> could not acquire_path to local part of volume argument"@,
                        ),
                    )
                } else {
                    r is Ok && text_pairs(r->Ok_0@) == localized(
                        text_pairs(self.volumes@),
                        locals@,
                        locals@.len() as int,
                    )
                }
            }),
    {
        acquired_volumes(
            &self.volumes,
            locals,
            "Container::create -> could not acquire_path to local part of volume argument",
        )
    }

    /// What is to be done to build the image of the container. For a
    /// `Dockerfile::Path`, `dockerfile` is its acquired path; it plays no role
    /// otherwise. For a `Dockerfile::Contents`, `dockerfile_write_file` is the
    /// file that the contents are written to.
    pub fn build(
        &self,
        dockerfile: Result<String, Error>,
        dockerfile_write_file: Option<&str>,
        log_file: Option<&FileOptions>,
    ) -> (r: Result<Build, Error>)
        requires
            self.dockerfile@ is Contents ==> dockerfile_write_file is Some,
        ensures
            r matches Ok(Build::Run { write, command }) ==> {
                let file = if self.dockerfile@ is Path {
                    dockerfile->Ok_0@
                } else {
                    dockerfile_write_file->0@
                };
                let args = texts(command.args@);
                &&& command.program@ == "docker"@
                &&& args.len() == 6 + self.build_args@.len()
                &&& args.take(5) == seq!["build"@, "-t"@, self.tag_name@, "--file"@, file]
                &&& args.subrange(5, (5 + self.build_args@.len()) as int) == texts(
                    self.build_args@,
                )
                &&& args.last() == dir_of(file)
            },
            match self.dockerfile@ {
                DockerfileView::NameTag(_) => r matches Ok(b) && b is Nothing,
                DockerfileView::Path(_) => match dockerfile {
                    Err(e) => r == Err::<Build, Error>(e),
                    Ok(file) => {
                        &&& r matches Ok(Build::Run { write, command })
                        &&& write is None
                        &&& is_logged(
                            command,
                            build_arg_list(
                                self.tag_name@,
                                file@,
                                texts(self.build_args@),
                                dir_of(file@),
                            ),
                            log_file,
                        )
                    },
                },
                DockerfileView::Contents(contents) => {
                    &&& r matches Ok(Build::Run { write, command })
                    &&& write matches Some(w) && w.0@ == dockerfile_write_file->0@ && w.1@
                        == contents
                    &&& is_logged(
                        command,
                        build_arg_list(
                            self.tag_name@,
                            dockerfile_write_file->0@,
                            texts(self.build_args@),
                            dir_of(dockerfile_write_file->0@),
                        ),
                        log_file,
                    )
                },
            },
    {
        match &self.dockerfile {
            Dockerfile::NameTag(_) => Ok(Build::Nothing),
            Dockerfile::Path(_) => match dockerfile {
                Err(e) => Err(e),
                Ok(file) => Ok(
                    Build::Run { write: None, command: self.build_command(file.as_str(), log_file) },
                ),
            },
            Dockerfile::Contents(contents) => match dockerfile_write_file {
                None => Ok(Build::Nothing),
                Some(file) => Ok(
                    Build::Run {
                        write: Some((file.to_owned(), contents.clone())),
                        command: self.build_command(file, log_file),
                    },
                ),
            },
        }
    }

    fn build_command(&self, file: &str, log_file: Option<&FileOptions>) -> (r: Command)
        ensures
            r.program@ == "docker"@,
            texts(r.args@).len() == 6 + self.build_args@.len(),
            texts(r.args@).take(5) == seq!["build"@, "-t"@, self.tag_name@, "--file"@, file@],
            texts(r.args@).subrange(5, (5 + self.build_args@.len()) as int) == texts(
                self.build_args@,
            ),
            texts(r.args@).last() == dir_of(file@),
            is_logged(
                r,
                build_arg_list(self.tag_name@, file@, texts(self.build_args@), dir_of(file@)),
                log_file,
            ),
    {
        let args: Vec<String> = to_build_args(
            self.tag_name.as_str(),
            file,
            &self.build_args,
            dir_path_of(file).as_str(),
        );
        let plain: Command = docker(args);
        assert(plain.is_plain());
        plain.log(log_file)
    }

    /// Adds what was being done to an error of the build command
    pub fn build_error(&self, dockerfile_write_file: Option<&str>, e: Error) -> (r: Error)
        ensures
            match self.dockerfile@ {
                DockerfileView::Path(path) => r@ == e@.with(
                    KindView::Text(
                        "Container::create -> when using the dockerfile at "@ + debug_quoted(path),
                    ),
                ),
                DockerfileView::Contents(contents) => r@ == match dockerfile_write_file {
                    Some(file) => e@.with(
                        KindView::Text(
                            "Container::create -> when using the `Dockerfile::Contents` written to \""@
                                + os_quoted(file@) + "\":\n"@ + contents + "\n"@,
                        ),
                    ),
                    None => e@,
                },
                DockerfileView::NameTag(_) => r@ == e@,
            },
    {
        match &self.dockerfile {
            Dockerfile::NameTag(_) => e,
            Dockerfile::Path(path) => {
                let mut text: String =
                    "Container::create -> when using the dockerfile at ".to_owned();
                text.append(debug_quote(path.as_str()).as_str());
                e.add_err_no_location(ErrorKind::StringError(text))
            },
            Dockerfile::Contents(contents) => match dockerfile_write_file {
                None => e,
                Some(file) => {
                    let mut text: String =
                        "Container::create -> when using the `Dockerfile::Contents` written to \"".to_owned();
                    text.append(os_quote(file).as_str());
                    text.append("\":\n");
                    text.append(contents.as_str());
                    text.append("\n");
                    e.add_err_no_location(ErrorKind::StringError(text))
                },
            },
        }
    }

    /// The image that the container is created from.
    pub open spec fn image(self) -> Seq<char> {
        match self.dockerfile@ {
            DockerfileView::NameTag(s) => s,
            _ => self.tag_name@,
        }
    }

    /// The arguments of `docker` that create the container in the network.
    pub open spec fn create_list(
        self,
        network_name: Seq<char>,
        volumes: Seq<(Seq<char>, Seq<char>)>,
    ) -> Seq<Seq<char>> {
        seq![
            "create"@,
            "--rm"@,
            "--network"@,
            network_name,
            "--hostname"@,
            self.host_name@,
            "--name"@,
            self.tag_name@,
        ] + (match self.workdir {
            Some(w) => seq!["-w"@, w@],
            None => Seq::empty(),
        }) + flagged_pairs("-e"@, text_pairs(self.environment_vars@), "="@) + flagged_pairs(
            "--volume"@,
            volumes,
            ":"@,
        ) + texts(self.create_args@) + seq!["-t"@, self.image()] + listed(
            optional(self.entrypoint_file),
        ) + texts(self.entrypoint_args@)
    }

    /// The `docker create` command of the container, after its image was built.
    /// `volumes` are those of [Container::create_volumes].
    pub fn create(
        &self,
        network_name: &str,
        volumes: &Vec<(String, String)>,
        log_file: Option<&FileOptions>,
    ) -> (r: Command)
        ensures
            r.program@ == "docker"@,
            tells_docker_create(
                texts(r.args@),
                (network_name@, self.host_name@, self.tag_name@),
                optional(self.workdir),
                text_pairs(self.environment_vars@),
                text_pairs(volumes@),
                texts(self.create_args@),
                match self.dockerfile@ {
                    DockerfileView::NameTag(s) => seq!["-t"@, s],
                    _ => seq!["-t"@, self.tag_name@],
                },
                match self.entrypoint_file {
                    Some(f) => seq![f@] + texts(self.entrypoint_args@),
                    None => texts(self.entrypoint_args@),
                },
            ),
            log_file matches Some(f) ==> r.stdout_log == Some(*f) && r.stderr_log == Some(*f),
            log_file is None ==> r.stdout_log is None && r.stderr_log is None,
            is_logged(r, self.create_list(network_name@, text_pairs(volumes@)), log_file),
    {
        let image: &String = match &self.dockerfile {
            Dockerfile::NameTag(s) => s,
            _ => &self.tag_name,
        };
        let args = CreateArgs {
            network_name,
            host_name: self.host_name.as_str(),
            container_name: self.tag_name.as_str(),
            workdir: self.workdir.as_ref(),
            environment_vars: &self.environment_vars,
            volumes,
            create_args: &self.create_args,
            tag_flag: true,
            image: image.as_str(),
            entrypoint_file: self.entrypoint_file.as_ref(),
            entrypoint_args: &self.entrypoint_args,
        };
        assert(args.list() =~= self.create_list(network_name@, text_pairs(volumes@)));
        proof {
            create_list_is_told_in_full(args);
        }
        let plain: Command = docker(args.to_args());
        assert(plain.is_plain());
        plain.log(log_file)
    }

    /// Adds what was being done to an error of running the create command
    pub fn create_error(e: Error) -> (r: Error)
        ensures
            r@ == e@.with(KindView::Str("Container::create -> when creating the container"@)),
    {
        e.add_err_no_location(
            ErrorKind::StrError("Container::create -> when creating the container"),
        )
    }

    /// The `docker start` command for a `container_id` (preferably from
    /// [Container::create]). `color_num` is a number of the color cycle.
    pub fn start(
        &self,
        container_id: &str,
        stdout_log: Option<&FileOptions>,
        stderr_log: Option<&FileOptions>,
        color_num: usize,
    ) -> (r: Command)
        ensures
            r.program@ == "docker"@,
            texts(r.args@) == seq!["start"@, "--attach"@, container_id@],
            r.stdout_debug == self.debug,
            r.stderr_debug == self.debug,
            self.log && stdout_log is Some ==> r.stdout_log == Some(*stdout_log->0),
            self.log && stderr_log is Some ==> r.stderr_log == Some(*stderr_log->0),
            !self.log ==> r.stdout_log is None && r.stderr_log is None,
            exists|plain: Command, shown: Command|
                {
                    &&& plain.is_plain()
                    &&& is_docker(plain, seq!["start"@, "--attach"@, container_id@])
                    &&& #[trigger] debug_applied(plain, shown, self.name@, self.debug, color_num)
                    &&& r == if self.log {
                        (Command {
                            stdout_log: match stdout_log {
                                Some(f) => Some(*f),
                                None => None,
                            },
                            stderr_log: match stderr_log {
                                Some(f) => Some(*f),
                                None => None,
                            },
                            ..shown
                        })
                    } else {
                        shown
                    }
                },
    {
        let mut args: Vec<String> = Vec::new();
        push_arg(&mut args, "start");
        push_arg(&mut args, "--attach");
        push_arg(&mut args, container_id);
        assert(texts(args@) =~= seq!["start"@, "--attach"@, container_id@]);
        let plain: Command = docker(args);
        let shown: Command = apply_debug(plain, self.name.as_str(), self.debug, color_num);
        assert(debug_applied(plain, shown, self.name@, self.debug, color_num));
        if self.log {
            shown.stdout_log(stdout_log).stderr_log(stderr_log)
        } else {
            shown
        }
    }

    /// Adds what was being done to an error of running the start command
    pub fn start_error(e: Error) -> (r: Error)
        ensures
            r@ == e@.with(KindView::Str("Container::start"@)),
    {
        e.add_err_no_location(ErrorKind::StrError("Container::start"))
    }
}

/// A command runs docker with the arguments and writes both streams to the log file if
/// there is one. A binary has its name at the root of the container.
pub proof fn commands_are_logged(
    command: Command,
    args: Seq<Seq<char>>,
    log_file: Option<&FileOptions>,
    dir: Seq<char>,
    name: Seq<char>,
)
    requires
        is_logged(command, args, log_file),
        name.len() > 0,
        forall|i: int| 0 <= i < name.len() ==> #[trigger] name[i] != '/',
        name != seq!['.'],
        name != seq!['.', '.'],
    ensures
        command.program@ == "docker"@,
        texts(command.args@) == args,
        !command.stdout_debug && !command.stderr_debug,
        command.stdout_recording && command.stderr_recording,
        log_file matches Some(f) ==> command.stdout_log == Some(*f) && command.stderr_log == Some(
            *f,
        ),
        log_file is None ==> command.stdout_log is None && command.stderr_log is None,
        root_path(pushed(dir, name)) == "/"@ + name,
{
    pushed_name_is_found(dir, name);
}

} // verus!
