//! Containers that are built, created and started by the `docker` command.

use vstd::prelude::*;

use crate::command::{optional, text_pairs, Command, CommandResult};
use crate::dockerfile::{
    create_list_is_told_in_full, tells_docker_create,
};
use crate::dockerfile::{
    apply_debug, build_arg_list, created_id, debug_applied, docker, is_created_id, is_docker,
    optional_ref, push_arg, to_build_args, CreateArgs, Dockerfile, DockerfileView,
};
use crate::error::{Error, ErrorKind, ErrorView, KindView};
use crate::file_options::FileOptions;
use crate::paths::{
    bare_paths_have_no_name, directory_is_left_as_it_was, pushed, pushed_name_is_found,
};
use crate::paths::{file_name, last_name, parent, parent_path};
use crate::text::{debug_quote, debug_quoted, texts};
use crate::uuid::{hyphenated, Uuid};

verus! {

/// Configuration for running a container.
///
/// The `docker run` command can be split into separate `docker build`, `docker
/// create`, and `docker start` commands (which are what is called here for
/// precision and reuse). `docker build` and `docker create` take different
/// subsets of options from `docker run`. If you want to pass arguments that you
/// would when manually running `docker run`, e.x.
/// `docker run --no-cache -p 127.0.0.1:5432:5432`, then you need to look at
/// `docker build --help` and `docker create --help` to figure out which
/// subcommand the options belong to.
pub struct Container {
    /// The name of the container as it will be referenced by in a network
    pub name: String,
    /// The name that the container is actually named with, note that the
    /// "name:tag" dockerhub image argument would go in
    /// [Dockerfile::NameTag] or in the `build_tag`
    pub container_name: String,
    /// Hostname of the URL that could access the container. Usually, this should
    /// be the same as `name`.
    pub host_name: String,
    /// The dockerfile
    pub dockerfile: Dockerfile,
    /// Any flags and args passed to to `docker build`
    pub build_args: Vec<String>,
    /// The tag used for images, this is set automatically by the network but can
    /// be set to override the image it would automatically build
    pub build_tag: Option<String>,
    /// Any flags and args passed to to `docker create`
    pub create_args: Vec<String>,
    /// Passed as `--volume string0:string1` to the create args, but these have
    /// the advantage of being canonicalized and prechecked
    pub volumes: Vec<(String, String)>,
    /// Local paths whose contents are copied to paths in the created container
    pub copied_contents: Vec<(String, String)>,
    /// Working directory inside the container
    pub workdir: Option<String>,
    /// Environment variable mappings passed to docker
    pub environment_vars: Vec<(String, String)>,
    /// When set, this indicates that the container should run an entrypoint
    /// using this path to a binary in the container
    pub entrypoint_file: Option<String>,
    /// Arguments of the entrypoint
    pub entrypoint_args: Vec<String>,
    /// Changes what some functions allow to fail when running the container
    pub allow_unsuccessful: bool,
    /// Set by default, this tells the network to forward stdout/stderr from
    /// `docker start`
    pub debug: bool,
    /// Unset by default, this tells the network to copy stdout/stderr to log
    /// files in the log directory
    pub log: bool,
    /// If `log` is set, then this will override the file that the network
    /// chooses
    pub stdout_log: Option<FileOptions>,
    /// If `log` is set, then this will override the file that the network
    /// chooses
    pub stderr_log: Option<FileOptions>,
    /// This can be explicitly set to override the default temporary file that
    /// the network uses
    pub dockerfile_write_file: Option<String>,
}

/// What is to be done to build an image.
pub enum Build {
    /// Nothing, the image exists or is pulled later
    Nothing,
    /// The contents are written to the file, if there are any, then the command
    /// is run
    Run { write: Option<(String, String)>, command: Command },
}

/// What is done after a container has been created.
pub enum CopyStep {
    /// The contents at the index are copied to the container
    Copy(usize),
    /// All the contents are in the container
    Finished,
    /// The creation failed
    Failed(Error),
}

/// The directory of a dockerfile.
pub open spec fn dir_of(file: Seq<char>) -> Seq<char> {
    match parent(file) {
        Some(dir) => dir,
        None => file,
    }
}

/// The directory of a dockerfile
pub fn dir_path_of(file: &str) -> (r: String)
    ensures
        r@ == dir_of(file@),
{
    match parent_path(file) {
        Some(dir) => dir,
        None => file.to_owned(),
    }
}

/// The path in a container for a binary: its name and a UUID, which is for
/// preventing accidental collisions with things in the file system.
pub open spec fn entrypoint_path(binary: Seq<char>, uuid: Uuid) -> Seq<char> {
    "/"@ + file_name(binary)->0 + "_"@ + hyphenated(uuid.bits)
}

fn make_entrypoint_path(binary: &str, uuid: &Uuid) -> (r: String)
    requires
        file_name(binary@) is Some,
    ensures
        r@ == entrypoint_path(binary@, *uuid),
{
    let mut r: String = "/".to_owned();
    if let Some(name) = last_name(binary) {
        r.append(name.as_str());
    }
    r.append("_");
    r.append(uuid.to_text().as_str());
    r
}

/// The pairs with the first parts of the first `n` of them exchanged.
pub open spec fn localized(
    pairs: Seq<(Seq<char>, Seq<char>)>,
    locals: Seq<Result<String, Error>>,
    n: int,
) -> Seq<(Seq<char>, Seq<char>)> {
    Seq::new(
        pairs.len(),
        |i: int|
            if i < n {
                (locals[i]->Ok_0@, pairs[i].1)
            } else {
                pairs[i]
            },
    )
}

/// The index of the first error, or the length.
pub open spec fn first_error(results: Seq<Result<String, Error>>) -> int
    decreases results.len(),
{
    if results.len() == 0 {
        0
    } else {
        let before = first_error(results.drop_last());
        if before < results.len() - 1 || results.last() is Err {
            before
        } else {
            results.len() as int
        }
    }
}

proof fn lemma_first_error(results: Seq<Result<String, Error>>)
    ensures
        0 <= first_error(results) <= results.len(),
        forall|i: int| 0 <= i < first_error(results) ==> (#[trigger] results[i]) is Ok,
        first_error(results) < results.len() ==> results[first_error(results)] is Err,
    decreases results.len(),
{
    if results.len() > 0 {
        lemma_first_error(results.drop_last());
        assert forall|i: int| 0 <= i < first_error(results) implies (#[trigger] results[i]) is Ok by {
            if i < results.len() - 1 {
                assert(results[i] == results.drop_last()[i]);
            }
        }
        let k = first_error(results.drop_last());
        if k < results.len() - 1 {
            assert(results.drop_last()[k] == results[k]);
        }
    }
}

proof fn lemma_first_error_is(results: Seq<Result<String, Error>>, k: int)
    requires
        0 <= k <= results.len(),
        forall|i: int| 0 <= i < k ==> (#[trigger] results[i]) is Ok,
        k < results.len() ==> results[k] is Err,
    ensures
        first_error(results) == k,
{
    lemma_first_error(results);
    let e = first_error(results);
    if e < k {
        assert(results[e] is Ok);
    } else if k < e {
        assert(results[k] is Ok);
    }
}

/// The results before the first error are all successes, and where there is no
/// error the index is the length.
pub proof fn first_error_is_behind_successes(results: Seq<Result<String, Error>>)
    ensures
        0 <= first_error(results) <= results.len(),
        forall|i: int| 0 <= i < first_error(results) ==> (#[trigger] results[i]) is Ok,
        first_error(results) < results.len() ==> results[first_error(results)] is Err,
{
    lemma_first_error(results);
}

/// Exchanges the local parts of the pairs, up to the first that could not be
/// acquired
pub(crate) fn localize(pairs: &mut Vec<(String, String)>, locals: &Vec<Result<String, Error>>) -> (k: usize)
    requires
        old(pairs)@.len() == locals@.len(),
    ensures
        k == first_error(locals@),
        k <= locals@.len(),
        k < locals@.len() ==> locals@[k as int] is Err,
        text_pairs(final(pairs)@) == localized(
            text_pairs(old(pairs)@),
            locals@,
            first_error(locals@),
        ),
{
    let ghost start = text_pairs(pairs@);
    let mut i: usize = 0;
    assert(text_pairs(pairs@) =~= localized(start, locals@, 0));
    while i < locals.len()
        invariant
            i <= locals@.len(),
            pairs@.len() == locals@.len(),
            start == text_pairs(old(pairs)@),
            start.len() == locals@.len(),
            forall|k: int| 0 <= k < i ==> (#[trigger] locals@[k]) is Ok,
            text_pairs(pairs@) == localized(start, locals@, i as int),
        decreases locals@.len() - i,
    {
        match &locals[i] {
            Ok(path) => {
                let ghost before = pairs@;
                let second: String = pairs[i].1.clone();
                pairs.push((path.clone(), second));
                let _ = pairs.swap_remove(i);
                assert(pairs@ =~= before.update(i as int, (*path, second)));
                proof {
                    let was = localized(start, locals@, i as int);
                    let now = localized(start, locals@, i + 1);
                    assert forall|k: int| 0 <= k < now.len() implies text_pairs(pairs@)[k]
                        == now[k] by {
                        assert(text_pairs(before)[k] == was[k]);
                    }
                    assert(text_pairs(pairs@) =~= now);
                }
            },
            Err(_) => {
                proof {
                    lemma_first_error_is(locals@, i as int);
                }
                return i;
            },
        }
        i = i + 1;
    }
    proof {
        lemma_first_error_is(locals@, i as int);
    }
    i
}

/// The error at an index, taken out of the results
pub(crate) fn take_error(results: Vec<Result<String, Error>>, i: usize) -> (r: Error)
    requires
        i < results@.len(),
        results@[i as int] is Err,
    ensures
        r == results@[i as int]->Err_0,
{
    let mut results: Vec<Result<String, Error>> = results;
    match results.swap_remove(i) {
        Err(e) => e,
        Ok(_) => Error::from_text(String::new()),
    }
}

/// A precheck exchanges local parts only, for what was acquired, and succeeds exactly
/// where everything could be acquired and contents have a file to be written to.
pub proof fn precheck_exchanges_what_was_acquired(
    before: Container,
    after: Container,
    dockerfile: Result<(), Error>,
    copied: Seq<Result<String, Error>>,
    mapped: Seq<Result<String, Error>>,
    r: Result<(), Error>,
)
    requires
        before.is_prechecked(after, dockerfile, copied, mapped, r),
        copied.len() == before.copied_contents@.len(),
        mapped.len() == before.volumes@.len(),
    ensures
        r is Ok <==> {
            &&& forall|i: int| 0 <= i < copied.len() ==> (#[trigger] copied[i]) is Ok
            &&& forall|i: int| 0 <= i < mapped.len() ==> (#[trigger] mapped[i]) is Ok
            &&& before.dockerfile@ is Path ==> dockerfile is Ok
            &&& before.dockerfile@ is Contents ==> before.dockerfile_write_file is Some
        },
        after.copied_contents@.len() == before.copied_contents@.len(),
        after.volumes@.len() == before.volumes@.len(),
        forall|i: int|
            0 <= i < copied.len() ==> (#[trigger] after.copied_contents@[i]).1@
                == before.copied_contents@[i].1@,
        forall|i: int|
            0 <= i < mapped.len() ==> (#[trigger] after.volumes@[i]).1@ == before.volumes@[i].1@,
        r is Ok ==> forall|i: int|
            0 <= i < copied.len() ==> (#[trigger] after.copied_contents@[i]).0@ == (
            copied[i]->Ok_0)@,
        r is Ok ==> forall|i: int|
            0 <= i < mapped.len() ==> (#[trigger] after.volumes@[i]).0@ == (mapped[i]->Ok_0)@,
{
    lemma_first_error(copied);
    lemma_first_error(mapped);
    let c = text_pairs(after.copied_contents@);
    let v = text_pairs(after.volumes@);
    assert(c.len() == after.copied_contents@.len());
    assert(v.len() == after.volumes@.len());
    assert(text_pairs(before.copied_contents@).len() == copied.len());
    assert(text_pairs(before.volumes@).len() == mapped.len());
    assert forall|i: int| 0 <= i < copied.len() implies (#[trigger] after.copied_contents@[i]).1@
        == before.copied_contents@[i].1@ && (r is Ok ==> after.copied_contents@[i].0@ == (
    copied[i]->Ok_0)@) by {
        assert(c[i].1 == after.copied_contents@[i].1@);
        assert(c[i].0 == after.copied_contents@[i].0@);
        assert(text_pairs(before.copied_contents@)[i].1 == before.copied_contents@[i].1@);
    }
    assert forall|i: int| 0 <= i < mapped.len() implies (#[trigger] after.volumes@[i]).1@
        == before.volumes@[i].1@ && (r is Ok ==> after.volumes@[i].0@ == (mapped[i]->Ok_0)@) by {
        assert(v[i].1 == after.volumes@[i].1@);
        assert(v[i].0 == after.volumes@[i].0@);
        assert(text_pairs(before.volumes@)[i].1 == before.volumes@[i].1@);
    }
}

impl Container {
    /// A container that has only its names and its dockerfile set.
    pub open spec fn is_new(self, name: Seq<char>, dockerfile: Dockerfile) -> bool {
        &&& self.name@ == name
        &&& self.container_name@ == name
        &&& self.host_name@ == name
        &&& self.dockerfile == dockerfile
        &&& self.build_args@.len() == 0
        &&& self.build_tag is None
        &&& self.create_args@.len() == 0
        &&& self.volumes@.len() == 0
        &&& self.copied_contents@.len() == 0
        &&& self.workdir is None
        &&& self.environment_vars@.len() == 0
        &&& self.entrypoint_file is None
        &&& self.entrypoint_args@.len() == 0
        &&& !self.allow_unsuccessful
        &&& self.debug
        &&& !self.log
        &&& self.stdout_log is None
        &&& self.stderr_log is None
        &&& self.dockerfile_write_file is None
    }

    /// Creates the information needed to describe a `Container`. `name` is used
    /// for the `name`, `container_name`, and `hostname`.
    pub fn new(name: &str, dockerfile: Dockerfile) -> (r: Self)
        ensures
            r.is_new(name@, dockerfile),
            r.name@ == name@ && r.container_name@ == name@ && r.host_name@ == name@,
            r.dockerfile == dockerfile,
            r.debug && !r.log && !r.allow_unsuccessful,
            r.build_tag is None && r.workdir is None && r.entrypoint_file is None,
            r.build_args@.len() == 0 && r.create_args@.len() == 0 && r.volumes@.len() == 0,
            r.copied_contents@.len() == 0 && r.environment_vars@.len() == 0,
            r.entrypoint_args@.len() == 0 && r.dockerfile_write_file is None,
            r.stdout_log is None && r.stderr_log is None,
    {
        Container {
            name: name.to_owned(),
            container_name: name.to_owned(),
            host_name: name.to_owned(),
            dockerfile,
            build_args: Vec::new(),
            build_tag: None,
            create_args: Vec::new(),
            volumes: Vec::new(),
            copied_contents: Vec::new(),
            workdir: None,
            environment_vars: Vec::new(),
            entrypoint_file: None,
            entrypoint_args: Vec::new(),
            allow_unsuccessful: false,
            debug: true,
            log: false,
            stdout_log: None,
            stderr_log: None,
            dockerfile_write_file: None,
        }
    }

    /// The container with the binary at `binary_path` as its entrypoint: a volume
    /// maps it to its path in the container.
    pub fn with_external_entrypoint(
        self,
        binary_path: &str,
        uuid: Uuid,
        entrypoint_args: Vec<String>,
    ) -> (r: Self)
        requires
            file_name(binary_path@) is Some,
        ensures
            r == (Container {
                entrypoint_file: r.entrypoint_file,
                entrypoint_args: r.entrypoint_args,
                volumes: r.volumes,
                ..self
            }),
            optional(r.entrypoint_file) == Some(entrypoint_path(binary_path@, uuid)),
            text_pairs(r.volumes@) == text_pairs(self.volumes@).push(
                (binary_path@, entrypoint_path(binary_path@, uuid)),
            ),
            r.entrypoint_args@ == self.entrypoint_args@ + entrypoint_args@,
    {
        let file: String = make_entrypoint_path(binary_path, &uuid);
        self.volume(binary_path, file.as_str()).entrypoint(file.as_str(), entrypoint_args)
    }

    /// This is used in the entrypoint pattern where an externally compiled
    /// binary is used as the entrypoint for the container. This adds a volume
    /// from `entrypoint_binary` to "/{binary_file_name}_{uuid}" (the UUID is
    /// for preventing accidental collisions with things in the file system),
    /// sets `entrypoint_file` to that, and also adds the `entrypoint_args`.
    /// Returns an error if the binary file path could not be acquired.
    pub fn external_entrypoint(
        self,
        entrypoint_binary: Result<String, Error>,
        entrypoint_args: Vec<String>,
    ) -> (r: Result<Self, Error>)
        requires
            entrypoint_binary matches Ok(p) ==> file_name(p@) is Some,
        ensures
            match entrypoint_binary {
                Err(e) => r is Err && r->Err_0@ == e@.with(
                    KindView::Str(
                        "Container::external_entrypoint could not acquire the external entrypoint binary"@,
                    ),
                ),
                Ok(p) => r is Ok && exists|uuid: Uuid|
                    {
                        let c = r->Ok_0;
                        &&& uuid.is_v4()
                        &&& c == (Container {
                            entrypoint_file: c.entrypoint_file,
                            entrypoint_args: c.entrypoint_args,
                            volumes: c.volumes,
                            ..self
                        })
                        &&& optional(c.entrypoint_file) == Some(#[trigger] entrypoint_path(p@, uuid))
                        &&& text_pairs(c.volumes@) == text_pairs(self.volumes@).push(
                            (p@, entrypoint_path(p@, uuid)),
                        )
                        &&& c.entrypoint_args@ == self.entrypoint_args@ + entrypoint_args@
                    },
            },
    {
        match entrypoint_binary {
            Err(e) => Err(
                e.add_err_no_location(
                    ErrorKind::StrError(
                        "Container::external_entrypoint could not acquire the external entrypoint binary",
                    ),
                ),
            ),
            Ok(p) => {
                let uuid: Uuid = Uuid::new_v4();
                Ok(self.with_external_entrypoint(p.as_str(), uuid, entrypoint_args))
            },
        }
    }

    /// The container with the binary at `host_path` as its entrypoint: build
    /// steps copy it to its path in the container. `binary_path` is the acquired
    /// path of the binary, `file` is what reading the file of a
    /// `Dockerfile::Path` returned.
    pub fn with_copied_entrypoint(
        self,
        host_path: &str,
        binary_path: &str,
        file: Result<String, Error>,
        uuid: Uuid,
        entrypoint_args: Vec<String>,
    ) -> (r: Result<Self, Error>)
        requires
            file_name(binary_path@) is Some,
        ensures
            self.dockerfile@ is Path && file is Err ==> r == Err::<Container, Error>(file->Err_0),
            !(self.dockerfile@ is Path && file is Err) ==> {
                let path = entrypoint_path(binary_path@, uuid);
                let steps = seq![
                    "COPY "@ + host_path@ + " "@ + path,
                    "RUN chmod +x "@ + path,
                ];
                &&& r is Ok
                &&& r->Ok_0 == (Container {
                    entrypoint_file: r->Ok_0.entrypoint_file,
                    entrypoint_args: r->Ok_0.entrypoint_args,
                    dockerfile: r->Ok_0.dockerfile,
                    ..self
                })
                &&& optional(r->Ok_0.entrypoint_file) == Some(path)
                &&& r->Ok_0.dockerfile@ == DockerfileView::Contents(
                    crate::dockerfile::with_steps(
                        match self.dockerfile@ {
                            DockerfileView::NameTag(s) => "FROM "@ + s,
                            DockerfileView::Path(_) => file->Ok_0@,
                            DockerfileView::Contents(s) => s,
                        },
                        steps,
                    ),
                )
                &&& r->Ok_0.entrypoint_args@ == self.entrypoint_args@ + entrypoint_args@
            },
    {
        let path: String = make_entrypoint_path(binary_path, &uuid);
        let mut copy: String = "COPY ".to_owned();
        copy.append(host_path);
        copy.append(" ");
        copy.append(path.as_str());
        let mut chmod: String = "RUN chmod +x ".to_owned();
        chmod.append(path.as_str());
        let mut steps: Vec<String> = Vec::new();
        steps.push(copy);
        steps.push(chmod);
        proof {
            assert(texts(steps@) =~= seq![
                "COPY "@ + host_path@ + " "@ + path@,
                "RUN chmod +x "@ + path@,
            ]);
        }
        let mut r: Container = self;
        let dockerfile: Dockerfile = r.dockerfile.clone();
        match dockerfile.add_build_steps(file, &steps) {
            Err(e) => Err(e),
            Ok(d) => {
                r.dockerfile = d;
                Ok(r.entrypoint(path.as_str(), entrypoint_args))
            },
        }
    }

    /// Makes a binary the entrypoint of the container by copying it when the
    /// image is built. Returns an error if the binary file path could not be
    /// acquired.
    pub fn copy_entrypoint(
        self,
        entrypoint_relative_host_path: &str,
        binary: Result<String, Error>,
        file: Result<String, Error>,
        entrypoint_args: Vec<String>,
    ) -> (r: Result<Self, Error>)
        requires
            binary matches Ok(p) ==> file_name(p@) is Some,
        ensures
            match binary {
                Err(e) => r is Err && r->Err_0@ == e@.with(
                    KindView::Str(
                        "Container::copy_entrypoint could not acquire the external entrypoint binary"@,
                    ),
                ),
                Ok(p) => if self.dockerfile@ is Path && file is Err {
                    r == Err::<Container, Error>(file->Err_0)
                } else {
                    r is Ok && exists|uuid: Uuid|
                        {
                            let c = r->Ok_0;
                            let path = #[trigger] entrypoint_path(p@, uuid);
                            &&& uuid.is_v4()
                            &&& c == (Container {
                                entrypoint_file: c.entrypoint_file,
                                entrypoint_args: c.entrypoint_args,
                                dockerfile: c.dockerfile,
                                ..self
                            })
                            &&& optional(c.entrypoint_file) == Some(path)
                            &&& c.entrypoint_args@ == self.entrypoint_args@ + entrypoint_args@
                            &&& c.dockerfile@ == DockerfileView::Contents(
                                crate::dockerfile::with_steps(
                                    match self.dockerfile@ {
                                        DockerfileView::NameTag(s) => "FROM "@ + s,
                                        DockerfileView::Path(_) => file->Ok_0@,
                                        DockerfileView::Contents(s) => s,
                                    },
                                    seq![
                                        "COPY "@ + entrypoint_relative_host_path@ + " "@ + path,
                                        "RUN chmod +x "@ + path,
                                    ],
                                ),
                            )
                        }
                },
            },
    {
        match binary {
            Err(e) => Err(
                e.add_err_no_location(
                    ErrorKind::StrError(
                        "Container::copy_entrypoint could not acquire the external entrypoint binary",
                    ),
                ),
            ),
            Ok(p) => {
                let uuid: Uuid = Uuid::new_v4();
                self.with_copied_entrypoint(
                    entrypoint_relative_host_path,
                    p.as_str(),
                    file,
                    uuid,
                    entrypoint_args,
                )
            },
        }
    }

    /// Sets `entrypoint_file` and adds to `entrypoint_args`
    pub fn entrypoint(self, entrypoint_file: &str, entrypoint_args: Vec<String>) -> (r: Self)
        ensures
            r == (Container {
                entrypoint_file: r.entrypoint_file,
                entrypoint_args: r.entrypoint_args,
                ..self
            }),
            optional(r.entrypoint_file) == Some(entrypoint_file@),
            r.entrypoint_args@ == self.entrypoint_args@ + entrypoint_args@,
    {
        let mut r: Container = self;
        let mut args: Vec<String> = entrypoint_args;
        r.entrypoint_file = Some(entrypoint_file.to_owned());
        r.entrypoint_args.append(&mut args);
        r
    }

    /// Adds an entrypoint argument
    pub fn entrypoint_arg(self, entrypoint_arg: &str) -> (r: Self)
        ensures
            r == (Container { entrypoint_args: r.entrypoint_args, ..self }),
            texts(r.entrypoint_args@) == texts(self.entrypoint_args@).push(entrypoint_arg@),
    {
        let mut r: Container = self;
        push_arg(&mut r.entrypoint_args, entrypoint_arg);
        r
    }

    /// Adds a volume to map a local path to a path in the container
    pub fn volume(self, local: &str, container: &str) -> (r: Self)
        ensures
            r == (Container { volumes: r.volumes, ..self }),
            text_pairs(r.volumes@) == text_pairs(self.volumes@).push((local@, container@)),
    {
        let mut r: Container = self;
        r.volumes.push((local.to_owned(), container.to_owned()));
        assert(text_pairs(r.volumes@) =~= text_pairs(self.volumes@).push((local@, container@)));
        r
    }

    /// Adds multiple volumes
    pub fn volumes(self, volumes: Vec<(String, String)>) -> (r: Self)
        ensures
            r == (Container { volumes: r.volumes, ..self }),
            r.volumes@ == self.volumes@ + volumes@,
    {
        let mut r: Container = self;
        let mut volumes: Vec<(String, String)> = volumes;
        r.volumes.append(&mut volumes);
        r
    }

    /// Add arguments to be passed to `docker build`
    pub fn build_args(self, build_args: Vec<String>) -> (r: Self)
        ensures
            r == (Container { build_args: r.build_args, ..self }),
            r.build_args@ == self.build_args@ + build_args@,
    {
        let mut r: Container = self;
        let mut args: Vec<String> = build_args;
        r.build_args.append(&mut args);
        r
    }

    /// Add arguments to be passed to `docker create`
    pub fn create_args(self, create_args: Vec<String>) -> (r: Self)
        ensures
            r == (Container { create_args: r.create_args, ..self }),
            r.create_args@ == self.create_args@ + create_args@,
    {
        let mut r: Container = self;
        let mut args: Vec<String> = create_args;
        r.create_args.append(&mut args);
        r
    }

    /// Adds environment vars to be passed
    pub fn environment_vars(self, environment_vars: Vec<(String, String)>) -> (r: Self)
        ensures
            r == (Container { environment_vars: r.environment_vars, ..self }),
            r.environment_vars@ == self.environment_vars@ + environment_vars@,
    {
        let mut r: Container = self;
        let mut vars: Vec<(String, String)> = environment_vars;
        r.environment_vars.append(&mut vars);
        r
    }

    /// Add arguments to be passed to the entrypoint
    pub fn entrypoint_args(self, entrypoint_args: Vec<String>) -> (r: Self)
        ensures
            r == (Container { entrypoint_args: r.entrypoint_args, ..self }),
            r.entrypoint_args@ == self.entrypoint_args@ + entrypoint_args@,
    {
        let mut r: Container = self;
        let mut args: Vec<String> = entrypoint_args;
        r.entrypoint_args.append(&mut args);
        r
    }

    /// Sets the working directory inside the container
    pub fn workdir(self, workdir: &str) -> (r: Self)
        ensures
            r == (Container { workdir: r.workdir, ..self }),
            optional(r.workdir) == Some(workdir@),
    {
        let mut r: Container = self;
        r.workdir = Some(workdir.to_owned());
        r
    }

    /// Sets whether a container is allowed to have an unsuccesful output
    pub fn allow_unsuccessful(self, allow_unsuccessful: bool) -> (r: Self)
        ensures
            r == (Container { allow_unsuccessful, ..self }),
    {
        let mut r: Container = self;
        r.allow_unsuccessful = allow_unsuccessful;
        r
    }

    /// Sets whether container stdout/stderr should be forwarded
    pub fn debug(self, debug: bool) -> (r: Self)
        ensures
            r == (Container { debug, ..self }),
    {
        let mut r: Container = self;
        r.debug = debug;
        r
    }

    /// Sets whether container stdout/stderr should be written to log files
    pub fn log(self, log: bool) -> (r: Self)
        ensures
            r == (Container { log, ..self }),
    {
        let mut r: Container = self;
        r.log = log;
        r
    }

    /// Sets the `dockerfile_write_file` used for the `Dockerfile::Contents`
    /// option explicitly
    pub fn dockerfile_write_file(self, file_path: Option<String>) -> (r: Self)
        ensures
            r == (Container { dockerfile_write_file: file_path, ..self }),
    {
        let mut r: Container = self;
        r.dockerfile_write_file = file_path;
        r
    }

    /// The error that a precheck has of the dockerfile, if there is one: a path has
    /// to be acquired, and contents need a file to be written to.
    pub open spec fn dockerfile_fault(self, dockerfile: Result<(), Error>) -> Option<ErrorView> {
        match self.dockerfile@ {
            DockerfileView::NameTag(_) => None,
            DockerfileView::Path(_) => match dockerfile {
                Err(e) => Some(
                    e@.with(
                        KindView::Str(
                            "Container::precheck -> could not acquire the path in a `Dockerfile::Path`"@,
                        ),
                    ),
                ),
                Ok(_) => None,
            },
            DockerfileView::Contents(_) => if self.dockerfile_write_file is Some {
                None
            } else {
                Some(
                    ErrorView::message(
                        "Container::precheck -> `Dockerfile::Contents` requires a `dockerfile_write_dir`, but none was provided"@,
                    ),
                )
            },
        }
    }

    fn precheck_dockerfile(&self, dockerfile: Result<(), Error>) -> (r: Result<(), Error>)
        ensures
            match self.dockerfile_fault(dockerfile) {
                Some(fault) => r is Err && r->Err_0@ == fault,
                None => r is Ok,
            },
    {
        match &self.dockerfile {
            Dockerfile::NameTag(_) => Ok(()),
            Dockerfile::Path(_) => match dockerfile {
                Err(e) => Err(
                    e.add_err_no_location(
                        ErrorKind::StrError(
                            "Container::precheck -> could not acquire the path in a `Dockerfile::Path`",
                        ),
                    ),
                ),
                Ok(_) => Ok(()),
            },
            Dockerfile::Contents(_) => {
                if self.dockerfile_write_file.is_none() {
                    Err(
                        Error::from_text(
                            "Container::precheck -> `Dockerfile::Contents` requires a `dockerfile_write_dir`, but none was provided".to_owned(),
                        ),
                    )
                } else {
                    Ok(())
                }
            },
        }
    }

    /// The outcome of a precheck: what acquiring the path of the dockerfile, the local
    /// parts of the copied contents and the local parts of the volumes returned
    /// decides which of them are normalized and which error is returned.
    pub open spec fn is_prechecked(
        self,
        after: Self,
        dockerfile: Result<(), Error>,
        copied: Seq<Result<String, Error>>,
        mapped: Seq<Result<String, Error>>,
        r: Result<(), Error>,
    ) -> bool {
        match self.dockerfile_fault(dockerfile) {
            Some(fault) => {
                &&& after == self
                &&& r is Err
                &&& r->Err_0@ == fault
            },
            None => {
                let c = first_error(copied);
                let v = first_error(mapped);
                let text = KindView::Str(
                    "Container::precheck -> could not acquire_path to local part of volume argument"@,
                );
                &&& text_pairs(after.copied_contents@) == localized(
                    text_pairs(self.copied_contents@),
                    copied,
                    c,
                )
                &&& if c < copied.len() {
                    &&& r is Err
                    &&& r->Err_0@ == (copied[c]->Err_0)@.with(text)
                    &&& after.volumes == self.volumes
                } else {
                    &&& text_pairs(after.volumes@) == localized(
                        text_pairs(self.volumes@),
                        mapped,
                        v,
                    )
                    &&& if v < mapped.len() {
                        r is Err && r->Err_0@ == (mapped[v]->Err_0)@.with(text)
                    } else {
                        r is Ok
                    }
                }
            },
        }
    }

    /// Prechecks several things needed to successfully run `self`, and
    /// normalizes paths like the local parts of volumes, given what acquiring
    /// the path of the dockerfile, the local parts of the copied contents and the local
    /// parts of the volumes returned. What was acquired before an error stays
    /// normalized.
    pub fn precheck(
        &mut self,
        dockerfile: Result<(), Error>,
        copied_contents: Vec<Result<String, Error>>,
        volumes: Vec<Result<String, Error>>,
    ) -> (r: Result<(), Error>)
        requires
            copied_contents@.len() == old(self).copied_contents@.len(),
            volumes@.len() == old(self).volumes@.len(),
        ensures
            *final(self) == (Container {
                copied_contents: final(self).copied_contents,
                volumes: final(self).volumes,
                ..*old(self)
            }),
            old(self).is_prechecked(*final(self), dockerfile, copied_contents@, volumes@, r),
    {
        if let Err(e) = self.precheck_dockerfile(dockerfile) {
            return Err(e);
        }
        let k: usize = localize(&mut self.copied_contents, &copied_contents);
        if k < copied_contents.len() {
            return Err(
                take_error(copied_contents, k).add_err_no_location(
                    ErrorKind::StrError(
                        "Container::precheck -> could not acquire_path to local part of volume argument",
                    ),
                ),
            );
        }
        let k: usize = localize(&mut self.volumes, &volumes);
        if k < volumes.len() {
            return Err(
                take_error(volumes, k).add_err_no_location(
                    ErrorKind::StrError(
                        "Container::precheck -> could not acquire_path to local part of volume argument",
                    ),
                ),
            );
        }
        Ok(())
    }

    /// The outcome of a build: nothing is built of what is just an image, the rest
    /// needs a build tag.
    pub open spec fn is_build_result(
        self,
        dockerfile: Result<String, Error>,
        debug_build: bool,
        color_num: usize,
        r: Result<Build, Error>,
    ) -> bool {
        if self.dockerfile@ is NameTag {
            r matches Ok(b) && b is Nothing
        } else if self.build_tag is None {
            r is Err && r->Err_0@ == ErrorView::message(
                "Container::build -> the `build_tag` needs to be set"@,
            )
        } else if self.dockerfile@ is Path {
            match dockerfile {
                Err(e) => r == Err::<Build, Error>(e),
                Ok(file) => {
                    &&& r matches Ok(Build::Run { write, command })
                    &&& write is None
                    &&& self.is_build(command, file@, debug_build, color_num)
                },
            }
        } else {
            match self.dockerfile_write_file {
                None => r is Err && r->Err_0@ == ErrorView::of(KindView::Unit),
                Some(file) => {
                    &&& r matches Ok(Build::Run { write, command })
                    &&& write matches Some(w) && w.0@ == file@ && w.1@
                        == self.dockerfile@->Contents_0
                    &&& self.is_build(command, file@, debug_build, color_num)
                },
            }
        }
    }

    /// What is to be done to build the image of the container (preferably after
    /// [Container::precheck] was run). `build_tag` needs to be set unless
    /// `Dockerfile::NameTag` was used. For a `Dockerfile::Path`, `dockerfile` is its
    /// acquired path; it plays no role otherwise. `color_num` is a number of the color cycle, which only plays a
    /// role with `debug_build`.
    ///
    /// Builds are uniquely determined from `dockerfile` and `build_args`.
    pub fn build(
        &self,
        dockerfile: Result<String, Error>,
        debug_build: bool,
        color_num: usize,
    ) -> (r: Result<Build, Error>)
        ensures
            self.dockerfile@ is NameTag ==> (r matches Ok(b) && b is Nothing),
            r matches Ok(b) ==> (b is Nothing <==> self.dockerfile@ is NameTag),
            !(self.dockerfile@ is NameTag) && self.build_tag is None ==> r is Err,
            self.dockerfile@ is Contents && self.build_tag is Some ==> (r is Ok
                <==> self.dockerfile_write_file is Some),
            self.dockerfile@ is Path && self.build_tag is Some ==> (r is Ok <==> dockerfile is Ok),
            r matches Ok(Build::Run { write, command }) ==> {
                let file = if self.dockerfile@ is Path {
                    dockerfile->Ok_0@
                } else {
                    self.dockerfile_write_file->0@
                };
                let args = texts(command.args@);
                &&& command.program@ == "docker"@
                &&& args.len() == 6 + self.build_args@.len()
                &&& args.take(5) == seq!["build"@, "-t"@, self.build_tag->0@, "--file"@, file]
                &&& args.subrange(5, (5 + self.build_args@.len()) as int) == texts(
                    self.build_args@,
                )
                &&& args.last() == dir_of(file)
                &&& write is Some <==> self.dockerfile@ is Contents
                &&& write matches Some(w) ==> w.0@ == file && self.dockerfile@
                    == DockerfileView::Contents(w.1@)
            },
            self.is_build_result(dockerfile, debug_build, color_num, r),
    {
        if let Dockerfile::NameTag(_) = &self.dockerfile {
            return Ok(Build::Nothing);
        }
        let tag: &String = match &self.build_tag {
            None => {
                return Err(
                    Error::from_text(
                        "Container::build -> the `build_tag` needs to be set".to_owned(),
                    ),
                );
            },
            Some(tag) => tag,
        };
        match &self.dockerfile {
            Dockerfile::NameTag(_) => Ok(Build::Nothing),
            Dockerfile::Path(_) => match dockerfile {
                Err(e) => Err(e),
                Ok(file) => Ok(
                    Build::Run {
                        write: None,
                        command: self.build_command(
                            tag.as_str(),
                            file.as_str(),
                            debug_build,
                            color_num,
                        ),
                    },
                ),
            },
            Dockerfile::Contents(contents) => match &self.dockerfile_write_file {
                None => Err(Error::from_kind_locationless(ErrorKind::UnitError)),
                Some(file) => Ok(
                    Build::Run {
                        write: Some((file.clone(), contents.clone())),
                        command: self.build_command(
                            tag.as_str(),
                            file.as_str(),
                            debug_build,
                            color_num,
                        ),
                    },
                ),
            },
        }
    }

    /// The command builds the dockerfile at `file` under the build tag.
    pub open spec fn is_build(
        self,
        command: Command,
        file: Seq<char>,
        debug_build: bool,
        color_num: usize,
    ) -> bool {
        exists|plain: Command|
            {
                &&& plain.is_plain()
                &&& is_docker(
                    plain,
                    build_arg_list(self.build_tag->0@, file, texts(self.build_args@), dir_of(file)),
                )
                &&& #[trigger] debug_applied(plain, command, self.name@, debug_build, color_num)
            }
    }

    fn build_command(&self, tag: &str, file: &str, debug_build: bool, color_num: usize) -> (r:
        Command)
        requires
            optional(self.build_tag) == Some(tag@),
        ensures
            r.program@ == "docker"@,
            texts(r.args@) == build_arg_list(tag@, file@, texts(self.build_args@), dir_of(file@)),
            texts(r.args@).len() == 6 + self.build_args@.len(),
            texts(r.args@).take(5) == seq!["build"@, "-t"@, tag@, "--file"@, file@],
            texts(r.args@).subrange(5, (5 + self.build_args@.len()) as int) == texts(
                self.build_args@,
            ),
            texts(r.args@).last() == dir_of(file@),
            self.is_build(r, file@, debug_build, color_num),
    {
        let args: Vec<String> = to_build_args(
            tag,
            file,
            &self.build_args,
            dir_path_of(file).as_str(),
        );
        let plain: Command = docker(args);
        apply_debug(plain, self.name.as_str(), debug_build, color_num)
    }

    /// Adds what was being done to an error of the build command
    pub fn build_error(&self, e: Error) -> (r: Error)
        ensures
            match self.dockerfile@ {
                DockerfileView::Path(path) => r@ == e@.with(
                    KindView::Text(
                        "Container::build -> when using the dockerfile at "@ + debug_quoted(path),
                    ),
                ),
                DockerfileView::Contents(contents) => r@ == match self.dockerfile_write_file {
                    Some(file) => e@.with(
                        KindView::Text(
                            "Container::build -> when using the `Dockerfile::Contents` written to \""@
                                + debug_quoted(file@) + "\":\n"@ + contents + "\n"@,
                        ),
                    ),
                    None => e@,
                },
                DockerfileView::NameTag(_) => r@ == e@,
            },
    {
        match &self.dockerfile {
            Dockerfile::NameTag(_) => e,
            Dockerfile::Path(path) => {
                let mut text: String =
                    "Container::build -> when using the dockerfile at ".to_owned();
                text.append(debug_quote(path.as_str()).as_str());
                e.add_err_no_location(ErrorKind::StringError(text))
            },
            Dockerfile::Contents(contents) => match &self.dockerfile_write_file {
                None => e,
                Some(file) => {
                    let mut text: String =
                        "Container::build -> when using the `Dockerfile::Contents` written to \"".to_owned();
                    text.append(debug_quote(file.as_str()).as_str());
                    text.append("\":\n");
                    text.append(contents.as_str());
                    text.append("\n");
                    e.add_err_no_location(ErrorKind::StringError(text))
                },
            },
        }
    }

    /// The image that the container is created from.
    pub open spec fn image(self) -> Option<Seq<char>> {
        match self.dockerfile@ {
            DockerfileView::NameTag(s) => Some(s),
            _ => optional(self.build_tag),
        }
    }

    /// The arguments of `docker` that create the container in the network.
    pub open spec fn create_list(self, network_name: Seq<char>, image: Seq<char>) -> Seq<Seq<char>> {
        seq![
            "create"@,
            "--rm"@,
            "--network"@,
            network_name,
            "--hostname"@,
            self.host_name@,
            "--name"@,
            self.container_name@,
        ] + (match self.workdir {
            Some(w) => seq!["-w"@, w@],
            None => Seq::empty(),
        }) + crate::dockerfile::flagged_pairs("-e"@, text_pairs(self.environment_vars@), "="@)
            + crate::dockerfile::flagged_pairs("--volume"@, text_pairs(self.volumes@), ":"@)
            + texts(self.create_args@) + seq![image] + crate::dockerfile::listed(
            optional(self.entrypoint_file),
        ) + texts(self.entrypoint_args@)
    }

    /// The outcome of asking for the `docker create` command: it needs an image.
    pub open spec fn is_create_result(
        self,
        network_name: Seq<char>,
        log_file: Option<&FileOptions>,
        debug_create: bool,
        color_num: usize,
        r: Result<Command, Error>,
    ) -> bool {
        match self.image() {
            None => r is Err && r->Err_0@ == ErrorView::message(
                "Container::create -> `build_tag` needs to be set"@,
            ),
            Some(image) => r is Ok && self.is_logged_docker(
                r->Ok_0,
                self.create_list(network_name, image),
                log_file,
                debug_create,
                color_num,
            ),
        }
    }

    /// The `docker create` command of the container (preferably after running
    /// [Container::build]). `build_tag` needs to be set unless
    /// `Dockerfile::NameTag` was used.
    pub fn create(
        &self,
        network_name: &str,
        log_file: Option<&FileOptions>,
        debug_create: bool,
        color_num: usize,
    ) -> (r: Result<Command, Error>)
        ensures
            r is Err <==> !(self.dockerfile@ is NameTag) && self.build_tag is None,
            r matches Ok(c) ==> c.program@ == "docker"@,
            r matches Ok(c) ==> tells_docker_create(
                texts(c.args@),
                (network_name@, self.host_name@, self.container_name@),
                optional(self.workdir),
                text_pairs(self.environment_vars@),
                text_pairs(self.volumes@),
                texts(self.create_args@),
                match self.dockerfile@ {
                    DockerfileView::NameTag(s) => seq![s],
                    _ => seq![self.build_tag->0@],
                },
                match self.entrypoint_file {
                    Some(f) => seq![f@] + texts(self.entrypoint_args@),
                    None => texts(self.entrypoint_args@),
                },
            ),
            self.is_create_result(network_name@, log_file, debug_create, color_num, r),
    {
        let image: &String = match &self.dockerfile {
            Dockerfile::NameTag(s) => s,
            _ => match &self.build_tag {
                Some(tag) => tag,
                None => {
                    return Err(
                        Error::from_text(
                            "Container::create -> `build_tag` needs to be set".to_owned(),
                        ),
                    );
                },
            },
        };
        let args = CreateArgs {
            network_name,
            host_name: self.host_name.as_str(),
            container_name: self.container_name.as_str(),
            workdir: self.workdir.as_ref(),
            environment_vars: &self.environment_vars,
            volumes: &self.volumes,
            create_args: &self.create_args,
            tag_flag: false,
            image: image.as_str(),
            entrypoint_file: self.entrypoint_file.as_ref(),
            entrypoint_args: &self.entrypoint_args,
        };
        assert(args.list() =~= self.create_list(network_name@, image@));
        proof {
            create_list_is_told_in_full(args);
        }
        Ok(self.logged_docker(args.to_args(), log_file, debug_create, color_num))
    }

    /// The command is `docker` with the arguments, under the name of the
    /// container and with the log file.
    pub open spec fn is_logged_docker(
        self,
        command: Command,
        args: Seq<Seq<char>>,
        log_file: Option<&FileOptions>,
        debug: bool,
        color_num: usize,
    ) -> bool {
        exists|plain: Command, shown: Command|
            {
                &&& plain.is_plain()
                &&& is_docker(plain, args)
                &&& #[trigger] debug_applied(plain, shown, self.name@, debug, color_num)
                &&& command == match log_file {
                    Some(f) => (Command { stdout_log: Some(*f), stderr_log: Some(*f), ..shown }),
                    None => shown,
                }
            }
    }

    fn logged_docker(
        &self,
        args: Vec<String>,
        log_file: Option<&FileOptions>,
        debug: bool,
        color_num: usize,
    ) -> (r: Command)
        ensures
            r.program@ == "docker"@,
            texts(r.args@) == texts(args@),
            self.is_logged_docker(r, texts(args@), log_file, debug, color_num),
    {
        let plain: Command = docker(args);
        let shown: Command = apply_debug(plain, self.name.as_str(), debug, color_num);
        assert(debug_applied(plain, shown, self.name@, debug, color_num));
        shown.log(log_file)
    }

    /// The ID of the created container, given what running the `docker create`
    /// command returned
    pub fn create_result(ran: Result<CommandResult, Error>) -> (r: Result<String, Error>)
        ensures
            match ran {
                Err(e) => r is Err && r->Err_0@ == e@.with(
                    KindView::Str("Container::create -> when creating the container"@),
                ),
                Ok(output) => is_created_id(output, r),
            },
    {
        match ran {
            Err(e) => Err(
                e.add_err_no_location(
                    ErrorKind::StrError("Container::create -> when creating the container"),
                ),
            ),
            Ok(output) => created_id(&output),
        }
    }

    /// Decides what is done when the container has been created and the first
    /// `copied` contents have been copied, `failure` being the error of the last
    /// `docker cp` command, if it could not be run
    pub fn copy_step(&self, copied: usize, failure: Option<Error>) -> (r: CopyStep)
        ensures
            match failure {
                Some(e) => r matches CopyStep::Failed(f) && f@ == e@.with(
                    KindView::Str(
                        "Container::copy -> when copying contents to container after creation"@,
                    ),
                ),
                None => if copied < self.copied_contents@.len() {
                    r == CopyStep::Copy(copied)
                } else {
                    r is Finished
                },
            },
    {
        match failure {
            Some(e) => CopyStep::Failed(
                e.add_err_no_location(
                    ErrorKind::StrError(
                        "Container::copy -> when copying contents to container after creation",
                    ),
                ),
            ),
            None => if copied < self.copied_contents.len() {
                CopyStep::Copy(copied)
            } else {
                CopyStep::Finished
            },
        }
    }

    /// The `docker cp` command for the copied contents at an index, given the ID
    /// of the created container
    pub fn copy_contents(
        &self,
        i: usize,
        docker_id: &str,
        log_file: Option<&FileOptions>,
        debug_create: bool,
        color_num: usize,
    ) -> (r: Command)
        requires
            i < self.copied_contents@.len(),
        ensures
            r.program@ == "docker"@,
            texts(r.args@) == seq![
                "cp"@,
                self.copied_contents@[i as int].0@,
                docker_id@ + ":"@ + self.copied_contents@[i as int].1@,
            ],
            self.is_logged_docker(
                r,
                seq![
                    "cp"@,
                    self.copied_contents@[i as int].0@,
                    docker_id@ + ":"@ + self.copied_contents@[i as int].1@,
                ],
                log_file,
                debug_create,
                color_num,
            ),
    {
        let mut to: String = docker_id.to_owned();
        to.append(":");
        to.append(self.copied_contents[i].1.as_str());
        let mut args: Vec<String> = Vec::new();
        push_arg(&mut args, "cp");
        push_arg(&mut args, self.copied_contents[i].0.as_str());
        push_arg(&mut args, to.as_str());
        assert(texts(args@) =~= seq![
            "cp"@,
            self.copied_contents@[i as int].0@,
            docker_id@ + ":"@ + self.copied_contents@[i as int].1@,
        ]);
        self.logged_docker(args, log_file, debug_create, color_num)
    }

    /// The command attaches to the started container, under its name and with the
    /// log files.
    pub open spec fn is_start(
        self,
        command: Command,
        container_id: Seq<char>,
        stdout_log: Option<&FileOptions>,
        stderr_log: Option<&FileOptions>,
        color_num: usize,
    ) -> bool {
        exists|plain: Command, shown: Command|
            {
                &&& plain.is_plain()
                &&& is_docker(plain, seq!["start"@, "--attach"@, container_id])
                &&& #[trigger] debug_applied(plain, shown, self.name@, self.debug, color_num)
                &&& command == if self.log {
                    (Command {
                        stdout_log: match stdout_log {
                            Some(f) => Some(*f),
                            None => None,
                        },
                        stderr_log: match stderr_log {
                            Some(f) => Some(*f),
                            None => None,
                        },
                        ..shown
                    })
                } else {
                    shown
                }
            }
    }

    /// The `docker start` command for a `container_id` (preferably from
    /// [Container::create])
    pub fn start(
        &self,
        container_id: &str,
        stdout_log: Option<&FileOptions>,
        stderr_log: Option<&FileOptions>,
        color_num: usize,
    ) -> (r: Command)
        ensures
            r.program@ == "docker"@,
            texts(r.args@) == seq!["start"@, "--attach"@, container_id@],
            r.stdout_debug == self.debug,
            r.stderr_debug == self.debug,
            self.log && stdout_log is Some ==> r.stdout_log == Some(*stdout_log->0),
            self.log && stderr_log is Some ==> r.stderr_log == Some(*stderr_log->0),
            !self.log ==> r.stdout_log is None && r.stderr_log is None,
            self.is_start(r, container_id@, stdout_log, stderr_log, color_num),
    {
        let mut args: Vec<String> = Vec::new();
        push_arg(&mut args, "start");
        push_arg(&mut args, "--attach");
        push_arg(&mut args, container_id);
        assert(texts(args@) =~= seq!["start"@, "--attach"@, container_id@]);
        let plain: Command = docker(args);
        let shown: Command = apply_debug(plain, self.name.as_str(), self.debug, color_num);
        assert(debug_applied(plain, shown, self.name@, self.debug, color_num));
        if self.log {
            shown.stdout_log(stdout_log).stderr_log(stderr_log)
        } else {
            shown
        }
    }

    /// Adds what was being done to an error of the `docker start` command
    pub fn start_error(e: Error) -> (r: Error)
        ensures
            r@ == e@.with(KindView::Str("Container::start"@)),
    {
        e.add_err_no_location(ErrorKind::StrError("Container::start"))
    }

    /// The result of running a container by itself, given what removing it from
    /// its network returned
    pub fn run_result(removed: Option<CommandResult>) -> (r: Result<CommandResult, Error>)
        ensures
            match removed {
                Some(c) => r == Ok::<CommandResult, Error>(c),
                None => r is Err && r->Err_0@ == ErrorView::message(
                    "Container::run could not get `CommandResult` because of some internal bug or error"@,
                ),
            },
    {
        match removed {
            Some(c) => Ok(c),
            None => Err(
                Error::from_text(
                    "Container::run could not get `CommandResult` because of some internal bug or error".to_owned(),
                ),
            ),
        }
    }
}

/// The directory of a dockerfile is what its path is below, and a path that is below
/// nothing is its own. A binary has its name at the root of the container, with the UUID
/// behind it.
pub proof fn paths_are_made_of_names(dir: Seq<char>, name: Seq<char>, uuid: Uuid)
    requires
        name.len() > 0,
        forall|i: int| 0 <= i < name.len() ==> #[trigger] name[i] != '/',
        name != seq!['.'],
        name != seq!['.', '.'],
    ensures
        dir_of(pushed(dir, name)) == parent(pushed(dir, name))->0,
        file_name(dir_of(pushed(dir, name))) == file_name(dir),
        dir_of(seq!['/']) == seq!['/'],
        entrypoint_path(pushed(dir, name), uuid) == "/"@ + name + "_"@ + hyphenated(uuid.bits),
{
    pushed_name_is_found(dir, name);
    directory_is_left_as_it_was(dir, name);
    bare_paths_have_no_name(dir);
}

/// A command of a container runs docker with the arguments, is recorded, is shown only
/// where debugging is asked for, and writes both streams to the log file if there is one.
pub proof fn container_commands_are_logged(
    c: Container,
    command: Command,
    args: Seq<Seq<char>>,
    log_file: Option<&FileOptions>,
    debug: bool,
    color_num: usize,
)
    requires
        c.is_logged_docker(command, args, log_file, debug, color_num),
    ensures
        command.program@ == "docker"@,
        texts(command.args@) == args,
        command.stdout_recording && command.stderr_recording && !command.forget_on_drop,
        command.stdout_debug == debug && command.stderr_debug == debug,
        log_file matches Some(f) ==> command.stdout_log == Some(*f) && command.stderr_log == Some(
            *f,
        ),
        log_file is None ==> command.stdout_log is None && command.stderr_log is None,
{
}

/// A container is started by attaching to it, with each stream in a log file of its own
/// if logs are asked for.
pub proof fn started_containers_are_attached_to(
    c: Container,
    command: Command,
    container_id: Seq<char>,
    stdout_log: Option<&FileOptions>,
    stderr_log: Option<&FileOptions>,
    color_num: usize,
)
    requires
        c.is_start(command, container_id, stdout_log, stderr_log, color_num),
    ensures
        command.program@ == "docker"@,
        texts(command.args@) == seq!["start"@, "--attach"@, container_id],
        command.stdout_recording && command.stderr_recording && !command.forget_on_drop,
        command.stdout_debug == c.debug && command.stderr_debug == c.debug,
        c.log && stdout_log is Some ==> command.stdout_log == Some(*stdout_log->0),
        c.log && stderr_log is Some ==> command.stderr_log == Some(*stderr_log->0),
        c.log && stdout_log is None ==> command.stdout_log is None,
        c.log && stderr_log is None ==> command.stderr_log is None,
        !c.log ==> command.stdout_log is None && command.stderr_log is None,
{
}

/// The error of a precheck tells what is wrong with the dockerfile: a path that could not
/// be acquired, or contents without a file to be written to.
pub proof fn dockerfile_faults_are_told(c: Container, dockerfile: Result<(), Error>)
    ensures
        c.dockerfile@ is NameTag ==> c.dockerfile_fault(dockerfile) is None,
        c.dockerfile@ is Path && dockerfile is Err ==> (c.dockerfile_fault(dockerfile) matches Some(
            e,
        ) && e.kinds == (dockerfile->Err_0)@.kinds.push(
            KindView::Str(
                "Container::precheck -> could not acquire the path in a `Dockerfile::Path`"@,
            ),
        )),
        c.dockerfile@ is Contents && c.dockerfile_write_file is None ==> (c.dockerfile_fault(
            dockerfile,
        ) matches Some(e) && e.kinds == seq![
            KindView::Text(
                "Container::precheck -> `Dockerfile::Contents` requires a `dockerfile_write_dir`, but none was provided"@,
            ),
        ]),
{
}

/// A container that is to be built or created without a build tag is refused with the
/// name of what was to be done.
pub proof fn missing_build_tags_are_told(
    c: Container,
    dockerfile: Result<String, Error>,
    network_name: Seq<char>,
    log_file: Option<&FileOptions>,
    debug: bool,
    color_num: usize,
    built: Result<Build, Error>,
    created: Result<Command, Error>,
)
    requires
        !(c.dockerfile@ is NameTag),
        c.build_tag is None,
        c.is_build_result(dockerfile, debug, color_num, built),
        c.is_create_result(network_name, log_file, debug, color_num, created),
    ensures
        built matches Err(e) && e@.kinds == seq![
            KindView::Text("Container::build -> the `build_tag` needs to be set"@),
        ],
        created matches Err(e) && e@.kinds == seq![
            KindView::Text("Container::create -> `build_tag` needs to be set"@),
        ],
{
}

} // verus!
