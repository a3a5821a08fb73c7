//! Docker files that are put together step by step, with the files that they
//! copy.

use vstd::prelude::*;
use vstd::utf8::encode_utf8;

use crate::command::{optional, sh_command, Command};
use crate::dockerfile::{Dockerfile, DockerfileView};
use crate::error::{Error, ErrorKind, ErrorView, KindView};
use crate::misc_structs::{BootstrapOptions, SuperImage};
use crate::name_map::NameMap;
use crate::paths::{directory_is_left_as_it_was, pushed_name_is_found};
use crate::paths::{file_name, last_name, parent, parent_path, push_path, pushed};
use crate::tarball::{
    distinct, finished, path_texts, tar_entry, tar_paths, tarball_fault, with_path, Tarball,
};
use crate::text::{first_character_is_found, joining_parts_neighbours};
use crate::text::{find, from_chars, index_of, joined, same, texts, to_chars, words};

verus! {

/// The version of the builder that is used.
#[derive(Clone, Copy, PartialEq, Eq, Structural, Debug)]
pub enum BuilderVersion {
    /// The first generation builder in the docker daemon
    BuilderV1,
    /// The builder based on the moby/buildkit project
    BuilderBuildKit,
}

/// Options of building an image that are not handled by [SuperDockerFile].
pub struct SuperBuildImageOptionsWrapper {
    /// A name and optional tag to apply to the image in the `name:tag` format.
    /// If you omit the tag the default `latest` value is assumed. You can
    /// provide several `t` parameters.
    pub t: String,
    /// Extra hosts to add to `/etc/hosts`.
    pub extrahosts: Option<String>,
    /// Suppress verbose build output.
    pub q: bool,
    /// Do not use the cache when building the image.
    pub nocache: bool,
    /// JSON array of images used for build cache resolution.
    pub cachefrom: Vec<String>,
    /// Attempt to pull the image even if an older image exists locally.
    pub pull: bool,
    /// Remove intermediate containers after a successful build.
    pub rm: bool,
    /// Always remove intermediate containers, even upon failure.
    pub forcerm: bool,
    /// Set memory limit for build.
    pub memory: Option<u64>,
    /// Total memory (memory + swap). Set as `-1` to disable swap.
    pub memswap: Option<i64>,
    /// CPU shares (relative weight).
    pub cpushares: Option<u64>,
    /// CPUs in which to allow execution (e.g., `0-3`, `0,1`).
    pub cpusetcpus: String,
    /// The length of a CPU period in microseconds.
    pub cpuperiod: Option<u64>,
    /// Microseconds of CPU time that the container can get in a CPU period.
    pub cpuquota: Option<u64>,
    /// JSON map of string pairs for build-time variables. Users pass these
    /// values at build-time. Docker uses the buildargs as the environment
    /// context for commands run via the `Dockerfile` RUN instruction, or
    /// for variable expansion in other `Dockerfile` instructions.
    pub buildargs: NameMap<String>,
    /// Size of `/dev/shm` in bytes. The size must be greater than 0. If
    /// omitted the system uses 64MB.
    pub shmsize: Option<u64>,
    /// Squash the resulting images layers into a single layer.
    pub squash: bool,
    /// Arbitrary key/value labels to set on the image, as a JSON map of string
    /// pairs.
    pub labels: NameMap<String>,
    /// Sets the networking mode for the run commands during build. Supported
    /// standard values are: `bridge`, `host`, `none`, and
    /// `container:<name|id>`. Any other value is taken as a custom network's
    /// name to which this container should connect to.
    pub networkmode: String,
    /// Platform in the format `os[/arch[/variant]]`
    pub platform: String,
    /// Target build stage
    pub target: String,
    /// Builder version to use
    pub version: BuilderVersion,
}

impl SuperBuildImageOptionsWrapper {
    /// Nothing is asked for.
    pub open spec fn is_default(self) -> bool {
        &&& self.t@.len() == 0
        &&& self.extrahosts is None
        &&& !self.q
        &&& !self.nocache
        &&& self.cachefrom@.len() == 0
        &&& !self.pull
        &&& !self.rm
        &&& !self.forcerm
        &&& self.memory is None
        &&& self.memswap is None
        &&& self.cpushares is None
        &&& self.cpusetcpus@.len() == 0
        &&& self.cpuperiod is None
        &&& self.cpuquota is None
        &&& self.buildargs.wf()
        &&& self.buildargs@ == Map::<Seq<char>, String>::empty()
        &&& self.shmsize is None
        &&& !self.squash
        &&& self.labels.wf()
        &&& self.labels@ == Map::<Seq<char>, String>::empty()
        &&& self.networkmode@.len() == 0
        &&& self.platform@.len() == 0
        &&& self.target@.len() == 0
        &&& self.version is BuilderV1
    }
}

impl Default for SuperBuildImageOptionsWrapper {
    fn default() -> (r: Self)
        ensures
            r.is_default(),
    {
        SuperBuildImageOptionsWrapper {
            t: String::new(),
            extrahosts: None,
            q: false,
            nocache: false,
            cachefrom: Vec::new(),
            pull: false,
            rm: false,
            forcerm: false,
            memory: None,
            memswap: None,
            cpushares: None,
            cpusetcpus: String::new(),
            cpuperiod: None,
            cpuquota: None,
            buildargs: NameMap::new(),
            shmsize: None,
            squash: false,
            labels: NameMap::new(),
            networkmode: String::new(),
            platform: String::new(),
            target: String::new(),
            version: BuilderVersion::BuilderV1,
        }
    }
}

/// Use this to create a docker file representation equivalent. It's useful for
/// creating images.
///
/// Use [SuperDockerFile] to define a "base" for it. This base can be an image
/// label, the contents of a Dockerfile or the path of a Dockerfile, see
/// [Dockerfile]. All further function calls simply add options to the build
/// command, prepare a tarball that will be used to seamleslly build the container
/// or "extend" (push lines) to the docker file.
pub struct SuperDockerFile {
    pub base: Dockerfile,
    pub content_extend: Vec<u8>,
    pub tarball: Tarball,
    pub build_path: Option<String>,
    pub image_name: Option<String>,
    pub build_opts: SuperBuildImageOptionsWrapper,
}

/// The bytes of lines that are pushed to a docker file, each after a newline.
pub open spec fn pushed_lines(lines: Seq<Seq<char>>) -> Seq<u8>
    decreases lines.len(),
{
    if lines.len() == 0 {
        Seq::empty()
    } else {
        pushed_lines(lines.drop_last()) + seq![10u8] + encode_utf8(lines.last())
    }
}

/// The path that a file is copied from: below the build path if there is one and
/// the path is relative.
pub open spec fn resolved_from(from: Seq<char>, build_path: Option<Seq<char>>) -> Seq<char> {
    match build_path {
        Some(dir) => pushed(dir, from),
        None => from,
    }
}

/// The path that a file is copied to: the path that it is copied from if there is
/// no other.
pub open spec fn resolved_to(
    from: Seq<char>,
    to: Option<Seq<char>>,
    build_path: Option<Seq<char>>,
) -> Seq<char> {
    match to {
        Some(to) => to,
        None => resolved_from(from, build_path),
    }
}

/// The paths that a file is copied from and to
pub fn resolve_from_to(from: &str, to: Option<&str>, build_path: Option<&str>) -> (r: (
    String,
    String,
))
    ensures
        ({
            let dir = match build_path {
                Some(dir) => Some(dir@),
                None => None,
            };
            let target = match to {
                Some(to) => Some(to@),
                None => None,
            };
            &&& r.0@ == resolved_from(from@, dir)
            &&& r.1@ == resolved_to(from@, target, dir)
        }),
{
    let from: String = match build_path {
        Some(dir) => push_path(dir, from),
        None => from.to_owned(),
    };
    let to: String = match to {
        Some(to) => to.to_owned(),
        None => from.clone(),
    };
    (from, to)
}

/// A file that is copied.
pub struct CopiedFile {
    /// The path that it was copied from, see [resolve_from_to]
    pub from: String,
    /// The path that it is copied to
    pub to: String,
    /// What opening the file returned, and then what writing it to a tarball gave
    pub opened: Result<Result<Vec<u8>, Error>, Error>,
}

/// Contents that are copied.
pub struct CopiedContents {
    /// The path that they are copied to
    pub to: String,
    /// The unix access mode octaves 0oXXX, defaults to 777
    pub mode: Option<u32>,
    pub content: Vec<u8>,
}

/// A `COPY` instruction.
pub open spec fn copy_line(from: Seq<char>, to: Seq<char>) -> Seq<char> {
    "COPY "@ + from + " "@ + to
}

/// The `COPY` instructions of files.
pub open spec fn copy_lines(files: Seq<CopiedFile>) -> Seq<Seq<char>> {
    Seq::new(files.len(), |i: int| copy_line(files[i].from@, files[i].to@))
}

/// The file was opened and written.
pub open spec fn is_copied(f: CopiedFile) -> bool {
    f.opened matches Ok(Ok(_))
}

/// The error of a file that was not copied.
pub open spec fn copy_fault(f: CopiedFile) -> ErrorView {
    match f.opened {
        Err(e) => e@,
        Ok(Err(e)) => e@.with(KindView::Str("Tarball::append_file"@)),
        Ok(Ok(_)) => arbitrary(),
    }
}

/// The bytes that the files add to a tarball.
pub open spec fn copied_bytes(files: Seq<CopiedFile>) -> Seq<u8>
    decreases files.len(),
{
    if files.len() == 0 {
        Seq::empty()
    } else {
        copied_bytes(files.drop_last()) + files.last().opened->Ok_0->Ok_0@
    }
}

/// The paths that are known with those of the files.
pub open spec fn copied_paths(paths: Seq<Seq<char>>, files: Seq<CopiedFile>) -> Seq<Seq<char>>
    decreases files.len(),
{
    if files.len() == 0 {
        paths
    } else {
        with_path(copied_paths(paths, files.drop_last()), files.last().from@)
    }
}

/// The mode of contents.
pub open spec fn mode_of(c: CopiedContents) -> u32 {
    match c.mode {
        Some(m) => m,
        None => 0o777,
    }
}

/// The `COPY` instructions of contents.
pub open spec fn contents_lines(v: Seq<CopiedContents>) -> Seq<Seq<char>> {
    Seq::new(v.len(), |i: int| copy_line(v[i].to@, v[i].to@))
}

/// The entry of contents in a tarball, or why they cannot have one.
pub open spec fn contents_entry(c: CopiedContents) -> Result<Seq<u8>, Seq<char>> {
    tar_entry(c.to@, mode_of(c), c.content@)
}

/// The bytes that contents add to a tarball.
pub open spec fn contents_bytes(v: Seq<CopiedContents>) -> Seq<u8>
    decreases v.len(),
{
    if v.len() == 0 {
        Seq::empty()
    } else {
        contents_bytes(v.drop_last()) + contents_entry(v.last())->Ok_0
    }
}

/// The `ENTRYPOINT` instruction for a binary and its arguments.
pub open spec fn entrypoint_line(to: Seq<char>, args: Seq<Seq<char>>) -> Seq<char> {
    "ENTRYPOINT [\""@ + to + "\""@ + (if args.len() == 0 {
        Seq::empty()
    } else {
        ", "@ + joined(Seq::new(args.len(), |i: int| "\""@ + args[i] + "\""@), ", "@)
    }) + "] "@
}

fn make_entrypoint_line(to: &str, args: &Vec<String>) -> (r: String)
    ensures
        r@ == entrypoint_line(to@, texts(args@)),
{
    let mut r: String = "ENTRYPOINT [\"".to_owned();
    r.append(to);
    r.append("\"");
    if args.len() > 0 {
        let mut quoted: Vec<String> = Vec::new();
        let mut i: usize = 0;
        while i < args.len()
            invariant
                i <= args@.len(),
                quoted@.len() == i,
                forall|k: int|
                    0 <= k < i ==> #[trigger] quoted@[k]@ == "\""@ + args@[k]@ + "\""@,
            decreases args@.len() - i,
        {
            let mut q: String = "\"".to_owned();
            q.append(args[i].as_str());
            q.append("\"");
            quoted.push(q);
            i = i + 1;
        }
        proof {
            assert(texts(quoted@) =~= Seq::new(
                texts(args@).len(),
                |i: int| "\""@ + texts(args@)[i] + "\""@,
            ));
        }
        let ghost head = r@;
        r.append(", ");
        r.append(crate::text::join(&quoted, ", ").as_str());
        proof {
            assert(r@ =~= head + (", "@ + joined(texts(quoted@), ", "@)));
        }
    } else {
        assert(r@ + Seq::<char>::empty() =~= r@);
    }
    r.append("] ");
    r
}

/// How a binary is built for `x86_64-unknown-linux-musl`.
pub struct MuslBuild {
    pub command: Command,
    /// The path of the binary that is built
    pub entrypoint: String,
}

/// The directory is that of the release profile of the musl target.
pub open spec fn is_musl_release(dir: Seq<char>) -> bool {
    match ends_with(dir, "release"@) {
        None => false,
        Some(d) => match ends_with(d, "x86_64-unknown-linux-musl"@) {
            None => false,
            Some(d) => ends_with(d, "target"@) is Some,
        },
    }
}

/// The last components of the directory of a binary are those of musl targets of
/// the kind.
pub open spec fn is_musl_dir(dir: Seq<char>, option: BootstrapOptions) -> bool {
    match option.path_text() {
        None => is_musl_release(dir),
        Some(p) => match ends_with(dir, p) {
            None => false,
            Some(d) => is_musl_release(d),
        },
    }
}

/// What comes before the last component of a path, if that is `name`.
pub open spec fn ends_with(path: Seq<char>, name: Seq<char>) -> Option<Seq<char>> {
    if file_name(path) == Some(name) {
        match parent(path) {
            Some(p) => Some(p),
            None => Some(path),
        }
    } else {
        None
    }
}

fn without_last(path: &str, name: &str) -> (r: Option<String>)
    ensures
        optional(r) == ends_with(path@, name@),
{
    match last_name(path) {
        Some(last) => {
            if same(last.as_str(), name) {
                match parent_path(path) {
                    Some(p) => Some(p),
                    None => Some(path.to_owned()),
                }
            } else {
                None
            }
        },
        None => None,
    }
}

/// Whether the binary with the path is a musl target of the kind.
pub open spec fn is_musl_binary(exe: Seq<char>, option: BootstrapOptions) -> bool {
    is_musl_dir(
        match parent(exe) {
            Some(dir) => dir,
            None => exe,
        },
        option,
    )
}

/// Whether the binary with the path is a musl target of the kind
pub fn is_musl(exe: &str, option: BootstrapOptions) -> (r: bool)
    ensures
        r == is_musl_binary(exe@, option),
{
    let dir: String = match parent_path(exe) {
        Some(dir) => dir,
        None => exe.to_owned(),
    };
    let dir: String = match option.to_path_str() {
        Some(p) => match without_last(dir.as_str(), p) {
            Some(d) => d,
            None => {
                return false;
            },
        },
        None => dir,
    };
    match without_last(dir.as_str(), "release") {
        None => false,
        Some(d) => match without_last(d.as_str(), "x86_64-unknown-linux-musl") {
            None => false,
            Some(d) => without_last(d.as_str(), "target").is_some(),
        },
    }
}

/// The path of the binary that a build for musl gives.
pub open spec fn musl_entrypoint(name: Seq<char>, option: BootstrapOptions) -> Seq<char> {
    "./target/x86_64-unknown-linux-musl/release"@ + (match option.path_text() {
        Some(p) => "/"@ + p,
        None => Seq::empty(),
    }) + "/"@ + name
}

/// How the binary with the path is built for musl, if it is not already. From
/// cargo build --help, the relevant flags that select the target: --bin --example
/// --test --bench
pub fn bootstrap_musl(exe: &str, option: BootstrapOptions, other_build_flags: Vec<String>) -> (r:
    Option<MuslBuild>)
    requires
        file_name(exe@) is Some,
    ensures
        r is None <==> is_musl_binary(exe@, option),
        r matches Some(b) ==> {
            &&& b.entrypoint@ == musl_entrypoint(file_name(exe@)->0, option)
            &&& option is Bin ==> b.entrypoint@ == "./target/x86_64-unknown-linux-musl/release"@
                + "/"@ + file_name(exe@)->0
            &&& option is Example ==> b.entrypoint@
                == "./target/x86_64-unknown-linux-musl/release"@ + ("/"@ + "examples"@) + "/"@
                + file_name(exe@)->0
            &&& seq![b.command.program@] + texts(b.command.args@) == words(
                "cargo build -r --target x86_64-unknown-linux-musl"@,
            ) + (seq![option.flag(), file_name(exe@)->0] + texts(other_build_flags@))
            &&& b.command.stdout_debug
            &&& b.command.stderr_debug
            &&& (Command { stdout_debug: false, stderr_debug: false, ..b.command }).is_plain()
        },
{
    if is_musl(exe, option) {
        return None;
    }
    let name: String = match last_name(exe) {
        Some(n) => n,
        None => String::new(),
    };
    let mut args: Vec<String> = Vec::new();
    crate::dockerfile::push_arg(&mut args, option.to_flag());
    crate::dockerfile::push_arg(&mut args, name.as_str());
    assert(texts(args@) =~= seq![option.flag(), name@]);
    crate::dockerfile::push_args(&mut args, &other_build_flags);
    let command: Command = sh_command(
        "cargo build -r --target x86_64-unknown-linux-musl",
        args,
        true,
    );
    proof {
        lemma_cargo_words();
    }
    let mut entrypoint: String = "./target/x86_64-unknown-linux-musl/release".to_owned();
    let ghost head = entrypoint@;
    match option.to_path_str() {
        Some(p) => {
            entrypoint.append("/");
            entrypoint.append(p);
            assert(entrypoint@ =~= head + ("/"@ + p@));
        },
        None => {
            assert(entrypoint@ =~= head + Seq::<char>::empty());
        },
    }
    entrypoint.append("/");
    entrypoint.append(name.as_str());
    Some(MuslBuild { command, entrypoint })
}

proof fn lemma_cargo_words()
    ensures
        words("cargo build -r --target x86_64-unknown-linux-musl"@).len() > 0,
{
    let s = "cargo build -r --target x86_64-unknown-linux-musl"@;
    reveal_strlit("cargo build -r --target x86_64-unknown-linux-musl");
    assert(s[0] == 'c');
    assert(s.len() > 0);
}

/// The path that a bootstrapped binary has in its container
pub fn bootstrap_path(to: Option<String>) -> (r: String)
    ensures
        r@ == match to {
            Some(p) => p@,
            None => "/super-bootstrapped"@,
        },
{
    match to {
        Some(p) => p,
        None => "/super-bootstrapped".to_owned(),
    }
}

/// The arguments of building an image.
pub struct BuildImageArgs {
    /// The name of the docker file in the tarball
    pub dockerfile: String,
    /// The other options
    pub opts: SuperBuildImageOptionsWrapper,
}

/// The key of the label for an image name.
pub open spec fn label_key(image_name: Seq<char>) -> Seq<char> {
    match find(image_name, ":"@) {
        Some(i) => image_name.take(i),
        None => image_name,
    }
}

/// The value of the label for an image name.
pub open spec fn label_value(image_name: Seq<char>) -> Seq<char> {
    match find(image_name, ":"@) {
        Some(i) => image_name.skip(i + 1),
        None => Seq::empty(),
    }
}

fn label_of(image_name: &str) -> (r: (String, String))
    ensures
        r.0@ == label_key(image_name@),
        r.1@ == label_value(image_name@),
{
    let chars: Vec<char> = to_chars(image_name);
    let colon: Vec<char> = to_chars(":");
    proof {
        reveal_strlit(":");
        crate::text::lemma_find_from(image_name@, ":"@, 0);
    }
    match index_of(&chars, &colon, 0) {
        Some(i) => {
            let n: usize = chars.len();
            assert(crate::text::occurs_at(image_name@, ":"@, i as int));
            assert(i < n);
            let key: String = from_chars(&chars, 0, i);
            let value: String = from_chars(&chars, i + 1, n);
            assert(key@ =~= image_name@.take(i as int));
            assert(value@ =~= image_name@.skip(i + 1));
            (key, value)
        },
        None => {
            let value: String = String::new();
            assert(value@ =~= Seq::<char>::empty());
            (image_name.to_owned(), value)
        },
    }
}

/// The image that was built, given what building it returned: the IDs that were
/// reported, of which the first is the image's
pub fn built_image(built: Result<Vec<Option<String>>, Error>) -> (r: Result<SuperImage, Error>)
    ensures
        match built {
            Err(e) => r is Err && r->Err_0@ == e@.with(KindView::Str("try to build img"@)),
            Ok(ids) => if ids@.len() > 0 && ids@[0] is Some {
                r == Ok::<SuperImage, Error>(SuperImage(ids@[0]->0))
            } else {
                r is Err && r->Err_0@ == ErrorView::of(KindView::Str("image built without id"@))
            },
        },
{
    match built {
        Err(e) => Err(e.add_err_no_location(ErrorKind::StrError("try to build img"))),
        Ok(ids) => {
            let mut ids: Vec<Option<String>> = ids;
            if ids.len() > 0 {
                if let Some(id) = ids.swap_remove(0) {
                    return Ok(SuperImage::new(id));
                }
            }
            Err(Error::from_kind_locationless(ErrorKind::StrError("image built without id")))
        },
    }
}

impl SuperDockerFile {
    /// Labels and build arguments are kept as maps.
    pub open spec fn wf(self) -> bool {
        self.build_opts.labels.wf() && self.build_opts.buildargs.wf()
    }

    /// A docker file from the base, with nothing added
    pub fn new(base: Dockerfile, image_name: Option<String>) -> (r: Self)
        ensures
            r.wf(),
            r.base == base,
            r.image_name == image_name,
            r.content_extend@.len() == 0,
            r.tarball.written@.len() == 0,
            r.tarball.paths@.len() == 0,
            r.build_path is None,
            r.build_opts.is_default(),
    {
        SuperDockerFile {
            base,
            content_extend: Vec::new(),
            tarball: Tarball::default(),
            build_path: None,
            image_name,
            build_opts: SuperBuildImageOptionsWrapper::default(),
        }
    }

    /// A docker file from the base with the files of an existing tarball
    pub fn new_with_tar(base: Dockerfile, image_name: Option<String>, tarball: Vec<u8>) -> (r: Result<
        Self,
        Error,
    >)
        ensures
            match tarball_fault(tarball@) {
                Some(e) => r is Err && r->Err_0@ == e,
                None => r matches Ok(f) && {
                    &&& f.wf()
                    &&& f.base == base
                    &&& f.image_name == image_name
                    &&& f.content_extend@.len() == 0
                    &&& f.tarball.written == tarball
                    &&& texts(f.tarball.paths@) == distinct(path_texts(tar_paths(tarball@)))
                    &&& f.build_path is None
                    &&& f.build_opts.is_default()
                },
            },
    {
        match Tarball::new(tarball) {
            Err(e) => Err(e),
            Ok(tarball) => Ok(
                SuperDockerFile {
                    base,
                    content_extend: Vec::new(),
                    tarball,
                    build_path: None,
                    image_name,
                    build_opts: SuperBuildImageOptionsWrapper::default(),
                },
            ),
        }
    }

    /// The build path is the last argument in a docker build command.
    ///
    /// `docker build [OPTS] <build_path>`
    ///
    /// If you're copying relative files, they will be copied relative to the
    /// current build_path which resolves to cwd if not specified (absolute paths
    /// don't apply). So specify this before copying or defining entrypoint to
    /// have paths resolved according to build path.
    pub fn with_build_path(self, build_path: String) -> (r: Self)
        ensures
            r == (SuperDockerFile { build_path: Some(build_path), ..self }),
    {
        let mut r: SuperDockerFile = self;
        r.build_path = Some(build_path);
        r
    }

    pub fn with_build_opts(self, build_opts: SuperBuildImageOptionsWrapper) -> (r: Self)
        ensures
            r == (SuperDockerFile { build_opts, ..self }),
    {
        let mut r: SuperDockerFile = self;
        r.build_opts = build_opts;
        r
    }

    /// Add instructions to the underlying docker file
    pub fn appending_dockerfile_instructions(self, v: &Vec<String>) -> (r: Self)
        ensures
            r == (SuperDockerFile { content_extend: r.content_extend, ..self }),
            r.content_extend@ == self.content_extend@ + pushed_lines(texts(v@)),
    {
        let mut r: SuperDockerFile = self;
        r.appending_dockerfile_lines_mut(v);
        r
    }

    /// Add instructions to the underlying docker file
    pub fn appending_dockerfile_lines_mut(&mut self, v: &Vec<String>)
        ensures
            *final(self) == (SuperDockerFile {
                content_extend: final(self).content_extend,
                ..*old(self)
            }),
            final(self).content_extend@ == old(self).content_extend@ + pushed_lines(texts(v@)),
    {
        let ghost lines = texts(v@);
        let mut i: usize = 0;
        assert(lines.take(0) =~= Seq::empty());
        assert(self.content_extend@ =~= self.content_extend@ + pushed_lines(lines.take(0)));
        while i < v.len()
            invariant
                i <= v@.len(),
                lines == texts(v@),
                *self == (SuperDockerFile { content_extend: self.content_extend, ..*old(self) }),
                self.content_extend@ == old(self).content_extend@ + pushed_lines(
                    lines.take(i as int),
                ),
            decreases v@.len() - i,
        {
            let ghost before = self.content_extend@;
            self.append_line(v[i].as_str());
            proof {
                assert(lines.take(i + 1).drop_last() =~= lines.take(i as int));
                assert(lines.take(i + 1).last() == v@[i as int]@);
                assert(self.content_extend@ =~= old(self).content_extend@ + pushed_lines(
                    lines.take(i + 1),
                ));
            }
            i = i + 1;
        }
        assert(lines.take(i as int) =~= lines);
    }

    fn append_line(&mut self, line: &str)
        ensures
            *final(self) == (SuperDockerFile {
                content_extend: final(self).content_extend,
                ..*old(self)
            }),
            final(self).content_extend@ == old(self).content_extend@ + seq![10u8] + encode_utf8(
                line@,
            ),
    {
        // an extra newline is ok
        self.content_extend.push(10u8);
        let mut bytes: Vec<u8> = vstd::slice::slice_to_vec(line.as_bytes());
        self.content_extend.append(&mut bytes);
        assert(self.content_extend@ =~= old(self).content_extend@ + seq![10u8] + encode_utf8(
            line@,
        ));
    }

    /// The paths that a file is copied from and to, by the current build path
    pub fn resolve(&self, from: &str, to: Option<&str>) -> (r: (String, String))
        ensures
            r.0@ == resolved_from(from@, optional(self.build_path)),
            r.1@ == resolved_to(
                from@,
                match to {
                    Some(to) => Some(to@),
                    None => None,
                },
                optional(self.build_path),
            ),
    {
        match &self.build_path {
            Some(dir) => resolve_from_to(from, to, Some(dir.as_str())),
            None => resolve_from_to(from, to, None),
        }
    }

    /// Add a `COPY` instruction to docker file for each of the files, which were
    /// copied into memory so as long as it returns Ok(_), TOCTOU won't be a
    /// problem. The files are in the order in which they were opened; an error
    /// is that of the first file that could not be copied.
    pub fn copying_from_paths(self, v: Vec<CopiedFile>) -> (r: Result<Self, Error>)
        ensures
            match r {
                Ok(f) => {
                    &&& forall|i: int| 0 <= i < v@.len() ==> is_copied(#[trigger] v@[i])
                    &&& f == (SuperDockerFile {
                        content_extend: f.content_extend,
                        tarball: f.tarball,
                        ..self
                    })
                    &&& f.content_extend@ == self.content_extend@ + pushed_lines(copy_lines(v@))
                    &&& f.tarball.written@ == self.tarball.written@ + copied_bytes(v@)
                    &&& texts(f.tarball.paths@) == copied_paths(texts(self.tarball.paths@), v@)
                },
                Err(e) => exists|i: int|
                    {
                        &&& 0 <= i < v@.len()
                        &&& !is_copied(#[trigger] v@[i])
                        &&& e@ == copy_fault(v@[i])
                        &&& forall|k: int| 0 <= k < i ==> is_copied(#[trigger] v@[k])
                    },
            },
    {
        let ghost all = v@;
        let mut rest: Vec<CopiedFile> = v;
        let mut r: SuperDockerFile = self;
        let ghost mut i: int = 0;
        proof {
            assert(all.take(0) =~= Seq::empty());
            assert(copy_lines(all).take(0) =~= Seq::empty());
            assert(r.content_extend@ =~= self.content_extend@ + pushed_lines(
                copy_lines(all).take(0),
            ));
            assert(r.tarball.written@ =~= self.tarball.written@ + copied_bytes(all.take(0)));
            assert(rest@ =~= all.skip(0));
        }
        while rest.len() > 0
            invariant
                all == v@,
                0 <= i <= all.len(),
                rest@ == all.skip(i),
                forall|k: int| 0 <= k < i ==> is_copied(#[trigger] all[k]),
                r == (SuperDockerFile {
                    content_extend: r.content_extend,
                    tarball: r.tarball,
                    ..self
                }),
                r.content_extend@ == self.content_extend@ + pushed_lines(copy_lines(all).take(i)),
                r.tarball.written@ == self.tarball.written@ + copied_bytes(all.take(i)),
                texts(r.tarball.paths@) == copied_paths(
                    texts(self.tarball.paths@),
                    all.take(i),
                ),
            decreases rest@.len(),
        {
            let file: CopiedFile = rest.remove(0);
            proof {
                assert(file == all[i]);
                assert(rest@ =~= all.skip(i + 1));
                assert(all.take(i + 1).drop_last() =~= all.take(i));
                assert(all.take(i + 1).last() == file);
                assert(copy_lines(all).take(i + 1).drop_last() =~= copy_lines(all).take(i));
                assert(copy_lines(all).take(i + 1).last() == copy_line(file.from@, file.to@));
            }
            let entry: Result<Vec<u8>, Error> = match file.opened {
                Err(e) => {
                    assert(!is_copied(all[i]));
                    return Err(e);
                },
                Ok(entry) => entry,
            };
            let mut line: String = "COPY ".to_owned();
            line.append(file.from.as_str());
            line.append(" ");
            line.append(file.to.as_str());
            let ghost before = r;
            r.append_line(line.as_str());
            match r.tarball.append_file(file.from.as_str(), entry) {
                Err(e) => {
                    assert(!is_copied(all[i]));
                    return Err(e);
                },
                Ok(_) => {},
            }
            proof {
                assert(r.content_extend@ =~= self.content_extend@ + pushed_lines(
                    copy_lines(all).take(i + 1),
                ));
                assert(r.tarball.written@ =~= self.tarball.written@ + copied_bytes(
                    all.take(i + 1),
                ));
                i = i + 1;
            }
        }
        proof {
            assert(all.take(i) =~= all);
            assert(copy_lines(all).take(i) =~= copy_lines(all));
        }
        Ok(r)
    }

    /// Add a `COPY` instruction to docker file for each of the contents
    pub fn copying_from_contents(self, v: &Vec<CopiedContents>) -> (r: Result<Self, Error>)
        ensures
            match r {
                Ok(f) => {
                    &&& forall|i: int|
                        0 <= i < v@.len() ==> contents_entry(#[trigger] v@[i]) is Ok
                    &&& f == (SuperDockerFile {
                        content_extend: f.content_extend,
                        tarball: (Tarball { written: f.tarball.written, ..self.tarball }),
                        ..self
                    })
                    &&& f.content_extend@ == self.content_extend@ + pushed_lines(
                        contents_lines(v@),
                    )
                    &&& f.tarball.written@ == self.tarball.written@ + contents_bytes(v@)
                },
                Err(e) => {
                    exists|i: int|
                        {
                            &&& 0 <= i < v@.len()
                            &&& forall|k: int|
                                0 <= k < i ==> contents_entry(#[trigger] v@[k]) is Ok
                            &&& contents_entry(#[trigger] v@[i]) matches Err(m)
                            &&& e@ == ErrorView::of(KindView::StdIo(m))
                        }
                },
            },
    {
        let ghost all = v@;
        let mut r: SuperDockerFile = self;
        let mut i: usize = 0;
        proof {
            assert(all.take(0) =~= Seq::empty());
            assert(contents_lines(all).take(0) =~= Seq::empty());
            assert(r.content_extend@ =~= self.content_extend@ + pushed_lines(
                contents_lines(all).take(0),
            ));
            assert(r.tarball.written@ =~= self.tarball.written@ + contents_bytes(all.take(0)));
        }
        while i < v.len()
            invariant
                all == v@,
                0 <= i <= all.len(),
                forall|k: int| 0 <= k < i ==> contents_entry(#[trigger] all[k]) is Ok,
                r == (SuperDockerFile {
                    content_extend: r.content_extend,
                    tarball: (Tarball { written: r.tarball.written, ..self.tarball }),
                    ..self
                }),
                r.content_extend@ == self.content_extend@ + pushed_lines(
                    contents_lines(all).take(i as int),
                ),
                r.tarball.written@ == self.tarball.written@ + contents_bytes(all.take(i as int)),
            decreases all.len() - i,
        {
            let c: &CopiedContents = &v[i];
            proof {
                assert(all.take(i + 1).drop_last() =~= all.take(i as int));
                assert(all.take(i + 1).last() == *c);
                assert(contents_lines(all).take(i + 1).drop_last() =~= contents_lines(all).take(
                    i as int,
                ));
                assert(contents_lines(all).take(i + 1).last() == copy_line(c.to@, c.to@));
            }
            let mut line: String = "COPY ".to_owned();
            line.append(c.to.as_str());
            line.append(" ");
            line.append(c.to.as_str());
            r.append_line(line.as_str());
            let mode: u32 = match c.mode {
                Some(m) => m,
                None => 0o777,
            };
            match r.tarball.append_file_bytes(c.to.as_str(), mode, c.content.as_slice()) {
                Err(e) => {
                    assert(contents_entry(all[i as int]) is Err);
                    return Err(e);
                },
                Ok(_) => {},
            }
            proof {
                assert(r.content_extend@ =~= self.content_extend@ + pushed_lines(
                    contents_lines(all).take(i + 1),
                ));
                assert(r.tarball.written@ =~= self.tarball.written@ + contents_bytes(
                    all.take(i + 1),
                ));
            }
            i = i + 1;
        }
        proof {
            assert(all.take(i as int) =~= all);
            assert(contents_lines(all).take(i as int) =~= contents_lines(all));
        }
        Ok(r)
    }

    /// Add an `ENTRYPOINT` instruction and append its file to docker "build
    /// tarball".
    ///
    /// If you already have an entrypoint and need to just change args, use
    /// [SuperDockerFile::appending_dockerfile_instructions].
    pub fn with_entrypoint(self, entrypoint: CopiedFile, entrypoint_args: &Vec<String>) -> (r: Result<
        Self,
        Error,
    >)
        ensures
            if is_copied(entrypoint) {
                r matches Ok(f) && {
                    &&& f == (SuperDockerFile {
                        content_extend: f.content_extend,
                        tarball: f.tarball,
                        ..self
                    })
                    &&& f.content_extend@ == self.content_extend@ + pushed_lines(
                        seq![
                            copy_line(entrypoint.from@, entrypoint.to@),
                            entrypoint_line(entrypoint.to@, texts(entrypoint_args@)),
                        ],
                    )
                    &&& f.tarball.written@ == self.tarball.written@
                        + entrypoint.opened->Ok_0->Ok_0@
                    &&& texts(f.tarball.paths@) == with_path(
                        texts(self.tarball.paths@),
                        entrypoint.from@,
                    )
                }
            } else {
                r is Err && r->Err_0@ == copy_fault(entrypoint)
            },
    {
        let to: String = entrypoint.to.clone();
        let ghost file = entrypoint;
        let mut v: Vec<CopiedFile> = Vec::new();
        v.push(entrypoint);
        let ghost files = v@;
        match self.copying_from_paths(v) {
            Err(e) => {
                assert(files[0] == file);
                Err(e)
            },
            Ok(f) => {
                let mut f: SuperDockerFile = f;
                let ghost mid = f;
                let line: String = make_entrypoint_line(to.as_str(), entrypoint_args);
                f.append_line(line.as_str());
                proof {
                    assert(files[0] == file);
                    assert(is_copied(files[0]));
                    assert(files.drop_last() =~= Seq::empty());
                    reveal_with_fuel(copied_bytes, 2);
                    reveal_with_fuel(copied_paths, 2);
                    reveal_with_fuel(pushed_lines, 3);
                    let one = copy_lines(files);
                    let two = seq![copy_line(file.from@, file.to@), line@];
                    assert(one =~= seq![copy_line(file.from@, file.to@)]);
                    assert(two.drop_last() =~= one);
                    assert(f.content_extend@ =~= self.content_extend@ + pushed_lines(two));
                    assert(f.tarball.written@ =~= self.tarball.written@
                        + file.opened->Ok_0->Ok_0@);
                }
                Ok(f)
            },
        }
    }

    /// The bytes of the docker file, `read` being those of the file of a
    /// `Dockerfile::Path`: what the base stands for, then the instructions.
    pub open spec fn file_bytes(self, read: Seq<u8>) -> Seq<u8> {
        (match self.base@ {
            DockerfileView::NameTag(s) => encode_utf8("FROM "@ + s),
            DockerfileView::Path(_) => read,
            DockerfileView::Contents(s) => encode_utf8(s),
        }) + self.content_extend@
    }

    /// The contents of the docker file, `file` being what reading the file of a
    /// `Dockerfile::Path` returned
    pub fn docker_file_contents(&self, file: Result<Vec<u8>, Error>) -> (r: Result<
        Vec<u8>,
        Error,
    >)
        ensures
            match (self.base@, file) {
                (DockerfileView::Path(_), Err(e)) => r == Err::<Vec<u8>, Error>(e),
                _ => r is Ok && r->Ok_0@ == self.file_bytes(file->Ok_0@),
            },
    {
        let mut bytes: Vec<u8> = match &self.base {
            Dockerfile::NameTag(s) => {
                let mut from: String = "FROM ".to_owned();
                from.append(s.as_str());
                vstd::slice::slice_to_vec(from.as_str().as_bytes())
            },
            Dockerfile::Path(_) => match file {
                Ok(f) => f,
                Err(e) => {
                    return Err(e);
                },
            },
            Dockerfile::Contents(s) => vstd::slice::slice_to_vec(s.as_str().as_bytes()),
        };
        let mut extend: Vec<u8> = vstd::slice::slice_to_vec(self.content_extend.as_slice());
        bytes.append(&mut extend);
        Ok(bytes)
    }

    /// The arguments build the image from the tarball with the entry of the docker
    /// file behind what it holds.
    pub open spec fn is_build_args(self, entry: Seq<u8>, args: (BuildImageArgs, Vec<u8>)) -> bool {
        &&& args.0.dockerfile@ == "./super.dockerfile"@
        &&& args.0.opts == (SuperBuildImageOptionsWrapper {
            labels: args.0.opts.labels,
            ..self.build_opts
        })
        &&& args.0.opts.labels.wf()
        &&& match self.image_name {
            None => args.0.opts.labels == self.build_opts.labels,
            Some(name) => exists|value: String|
                {
                    &&& #[trigger] value@ == label_value(name@)
                    &&& args.0.opts.labels@ == self.build_opts.labels@.insert(
                        label_key(name@),
                        value,
                    )
                },
        }
        &&& args.1@ == finished(self.tarball.written@ + entry)
    }

    /// Inserts the docker file into the tarball and consumes Self returning the
    /// necessary arguments for building the image. `docker_file` is what writing
    /// the contents of the docker file to a tarball as "./super.dockerfile" gave.
    pub fn into_bollard_args(self, docker_file: Result<Vec<u8>, Error>) -> (r: Result<
        (BuildImageArgs, Vec<u8>),
        Error,
    >)
        requires
            self.wf(),
        ensures
            match docker_file {
                Err(e) => r is Err && r->Err_0@ == e@.with(KindView::Str("Tarball::append_file"@)),
                Ok(entry) => r matches Ok(args) && self.is_build_args(entry@, args),
            },
    {
        let mut this: SuperDockerFile = self;
        match this.tarball.append_file("./super.dockerfile", docker_file) {
            Err(e) => {
                return Err(e);
            },
            Ok(_) => {},
        }
        let mut opts: SuperBuildImageOptionsWrapper = this.build_opts;
        if let Some(name) = &this.image_name {
            let (key, value) = label_of(name.as_str());
            assert(value@ == label_value(name@));
            opts.labels.put(key, value);
        }
        match this.tarball.into_tarball() {
            Err(e) => Err(e),
            Ok(tarball) => Ok(
                (
                    BuildImageArgs { dockerfile: "./super.dockerfile".to_owned(), opts },
                    tarball,
                ),
            ),
        }
    }

    /// Composes the docker file, inserts it into the tarball and consumes Self
    /// returning the necessary arguments for building the image. `file` is what
    /// reading the file of a `Dockerfile::Path` returned.
    pub fn into_build_args(self, file: Result<Vec<u8>, Error>) -> (r: Result<
        (BuildImageArgs, Vec<u8>),
        Error,
    >)
        requires
            self.wf(),
        ensures
            match (self.base@, file) {
                (DockerfileView::Path(_), Err(e)) => r == Err::<(BuildImageArgs, Vec<u8>), Error>(
                    e,
                ),
                _ => match tar_entry(
                    "./super.dockerfile"@,
                    0o644,
                    self.file_bytes(file->Ok_0@),
                ) {
                    Ok(entry) => r matches Ok(args) && self.is_build_args(entry, args),
                    Err(m) => r is Err && r->Err_0@ == ErrorView::of(KindView::StdIo(m)).with(
                        KindView::Str("Tarball::append_file"@),
                    ),
                },
            },
    {
        let contents: Vec<u8> = match self.docker_file_contents(file) {
            Ok(contents) => contents,
            Err(e) => {
                return Err(e);
            },
        };
        let mut tarball: Tarball = Tarball::default();
        match tarball.append_file_bytes("./super.dockerfile", 0o644, contents.as_slice()) {
            Err(e) => self.into_bollard_args(Err(e)),
            Ok(_) => {
                proof {
                    let entry = tar_entry("./super.dockerfile"@, 0o644, contents@)->Ok_0;
                    assert(tarball.written@ =~= entry);
                }
                self.into_bollard_args(Ok(tarball.written))
            },
        }
    }
}

impl SuperImage {
    /// The docker file that starts from the image
    pub fn to_docker_file(&self) -> (r: SuperDockerFile)
        ensures
            r.wf(),
            r.base@ == DockerfileView::NameTag(self.0@),
            r.image_name is None,
            r.content_extend@.len() == 0,
            r.tarball.written@.len() == 0,
            r.tarball.paths@.len() == 0,
            r.build_path is None,
            r.build_opts.is_default(),
    {
        SuperDockerFile::new(Dockerfile::name_tag(self.get_image_id()), None)
    }
}

/// Instructions are only ever added behind those that are there: adding some and
/// then others is adding all of them in that order.
pub proof fn instructions_are_added_in_order(a: Seq<Seq<char>>, b: Seq<Seq<char>>)
    ensures
        pushed_lines(a + b) == pushed_lines(a) + pushed_lines(b),
    decreases b.len(),
{
    if b.len() == 0 {
        assert(a + b =~= a);
        assert(pushed_lines(a) + pushed_lines(b) =~= pushed_lines(a));
    } else {
        instructions_are_added_in_order(a, b.drop_last());
        assert((a + b).drop_last() =~= a + b.drop_last());
        assert(pushed_lines(a + b) =~= pushed_lines(a) + pushed_lines(b));
    }
}

/// Each instruction is put behind a newline of its own.
pub proof fn instructions_begin_lines(line: Seq<char>)
    ensures
        pushed_lines(Seq::empty()) == Seq::<u8>::empty(),
        pushed_lines(seq![line]) == seq![10u8] + encode_utf8(line),
{
    reveal_with_fuel(pushed_lines, 2);
    assert(seq![line].drop_last() =~= Seq::<Seq<char>>::empty());
    assert(pushed_lines(seq![line]) =~= seq![10u8] + encode_utf8(line));
}

/// A file is copied from below the build path, unless its own path is absolute, and to
/// where it was copied from, unless another path is given.
pub proof fn copies_are_resolved(
    from: Seq<char>,
    to: Option<Seq<char>>,
    build_path: Option<Seq<char>>,
)
    ensures
        resolved_from(from, None) == from,
        build_path matches Some(dir) ==> resolved_from(from, build_path) == pushed(dir, from),
        to matches Some(t) ==> resolved_to(from, to, build_path) == t,
        to is None ==> resolved_to(from, to, build_path) == resolved_from(from, build_path),
{
}

/// Files and contents have one `COPY` instruction each, in their order: from the path a
/// file was copied from to the path it is copied to, and for contents from and to the
/// path they are copied to. Contents have the mode 777 unless another is given.
pub proof fn copies_have_their_instructions(
    files: Seq<CopiedFile>,
    contents: Seq<CopiedContents>,
    i: int,
)
    ensures
        copy_lines(files).len() == files.len(),
        0 <= i < files.len() ==> copy_lines(files)[i] == "COPY "@ + files[i].from@ + " "@
            + files[i].to@,
        contents_lines(contents).len() == contents.len(),
        0 <= i < contents.len() ==> contents_lines(contents)[i] == "COPY "@ + contents[i].to@
            + " "@ + contents[i].to@,
        0 <= i < contents.len() ==> contents_entry(contents[i]) == tar_entry(
            contents[i].to@,
            match contents[i].mode {
                Some(m) => m,
                None => 0o777,
            },
            contents[i].content@,
        ),
{
}

/// The bytes of copied files and contents come one behind the other, in their order.
pub proof fn copies_are_written_in_order(
    files: Seq<CopiedFile>,
    file: CopiedFile,
    contents: Seq<CopiedContents>,
    c: CopiedContents,
)
    ensures
        copied_bytes(Seq::empty()) == Seq::<u8>::empty(),
        file.opened matches Ok(Ok(bytes)) ==> copied_bytes(files.push(file)) == copied_bytes(files)
            + bytes@,
        contents_bytes(Seq::empty()) == Seq::<u8>::empty(),
        contents_entry(c) matches Ok(entry) ==> contents_bytes(contents.push(c)) == contents_bytes(
            contents,
        ) + entry,
        is_copied(file) <==> (file.opened matches Ok(Ok(bytes))),
{
    assert(files.push(file).drop_last() =~= files);
    assert(contents.push(c).drop_last() =~= contents);
}

/// The paths known after copying are those known before and those of the files.
pub proof fn copied_paths_are_known(
    paths: Seq<Seq<char>>,
    files: Seq<CopiedFile>,
    path: Seq<char>,
)
    ensures
        copied_paths(paths, files).contains(path) <==> paths.contains(path) || exists|i: int|
            0 <= i < files.len() && (#[trigger] files[i]).from@ == path,
    decreases files.len(),
{
    if files.len() > 0 {
        let front = files.drop_last();
        copied_paths_are_known(paths, front, path);
        assert(forall|i: int| 0 <= i < front.len() ==> #[trigger] front[i] == files[i]);
        assert(forall|i: int| 0 <= i < front.len() ==> front[i] == #[trigger] files[i]);
        assert(files[files.len() - 1] == files.last());
        let x = copied_paths(paths, front);
        let y = copied_paths(paths, files);
        let last = files.last().from@;
        if x.contains(path) {
            let k = choose|k: int| 0 <= k < x.len() && x[k] == path;
            assert(y[k] == path);
        }
        if y.contains(path) && !x.contains(path) {
            let k = choose|k: int| 0 <= k < y.len() && y[k] == path;
            if k < x.len() {
                assert(x[k] == path);
            }
        }
        if last == path && !x.contains(last) {
            assert(y[x.len() as int] == path);
        }
    }
}

/// The `ENTRYPOINT` instruction has the binary and each argument in quotes, in their
/// order, with commas between them.
pub proof fn entrypoint_has_its_arguments(
    to: Seq<char>,
    args: Seq<Seq<char>>,
    arg: Seq<char>,
)
    ensures
        entrypoint_line(to, Seq::empty()) == "ENTRYPOINT [\""@ + to + "\""@ + "] "@,
        entrypoint_line(to, seq![arg]) == "ENTRYPOINT [\""@ + to + "\""@ + ", "@ + ("\""@ + arg
            + "\""@) + "] "@,
        args.len() > 0 ==> {
            let tail = "] "@.len() as int;
            let line = entrypoint_line(to, args);
            entrypoint_line(to, args.push(arg)) == line.take(line.len() - tail) + ", "@ + ("\""@
                + arg + "\""@) + "] "@
        },
{
    let quoted = |v: Seq<Seq<char>>| Seq::new(v.len(), |i: int| "\""@ + v[i] + "\""@);
    let head = "ENTRYPOINT [\""@ + to + "\""@;
    assert(entrypoint_line(to, Seq::empty()) =~= head + "] "@);
    assert(quoted(seq![arg]) =~= seq!["\""@ + arg + "\""@]);
    assert(joined(quoted(seq![arg]), ", "@) == "\""@ + arg + "\""@);
    assert(entrypoint_line(to, seq![arg]) =~= head + ", "@ + ("\""@ + arg + "\""@) + "] "@);
    if args.len() > 0 {
        let a = quoted(args);
        let b = seq!["\""@ + arg + "\""@];
        assert(quoted(args.push(arg)) =~= a + b);
        joining_parts_neighbours(a, b, ", "@);
        let line = entrypoint_line(to, args);
        assert(line == head + (", "@ + joined(a, ", "@)) + "] "@);
        assert(line.take(line.len() - "] "@.len()) =~= head + (", "@ + joined(a, ", "@)));
        assert(entrypoint_line(to, args.push(arg)) =~= head + (", "@ + joined(a, ", "@)) + ", "@ + (
        "\""@ + arg + "\""@) + "] "@);
    }
}

/// The label of an image name is parted by its first colon; a name without one is the key
/// of an empty value.
pub proof fn labels_are_parted_by_the_first_colon(key: Seq<char>, value: Seq<char>)
    requires
        !key.contains(':'),
    ensures
        label_key(key + seq![':'] + value) == key,
        label_value(key + seq![':'] + value) == value,
        label_key(key) == key,
        label_value(key).len() == 0,
{
    reveal_strlit(":");
    assert(":"@ =~= seq![':']);
    first_character_is_found(key, ':', value);
    let s = key + seq![':'] + value;
    assert(s.take(key.len() as int) =~= key);
    assert(s.skip(key.len() as int + 1) =~= value);
}

/// The docker file begins with what the base stands for, which is an instruction for an
/// image, and goes on with what was added.
pub proof fn docker_file_begins_with_its_base(f: SuperDockerFile, read: Seq<u8>)
    ensures
        f.base@ matches DockerfileView::NameTag(s) ==> f.file_bytes(read) == encode_utf8("FROM "@ + s)
            + f.content_extend@,
        f.base@ is Path ==> f.file_bytes(read) == read + f.content_extend@,
        f.base@ matches DockerfileView::Contents(s) ==> f.file_bytes(read) == encode_utf8(s)
            + f.content_extend@,
{
}

/// An image is built from the docker file that comes last in the tarball, with the options
/// that were set, and gets a label for its name.
pub proof fn build_arguments_are_complete(
    f: SuperDockerFile,
    entry: Seq<u8>,
    args: (BuildImageArgs, Vec<u8>),
)
    requires
        f.is_build_args(entry, args),
    ensures
        args.0.dockerfile@ == "./super.dockerfile"@,
        args.0.opts.t == f.build_opts.t,
        args.0.opts.nocache == f.build_opts.nocache,
        args.0.opts.buildargs == f.build_opts.buildargs,
        args.0.opts.version == f.build_opts.version,
        args.1@ == f.tarball.written@ + entry + Seq::new(1024, |i: int| 0u8),
        f.image_name is None ==> args.0.opts.labels == f.build_opts.labels,
        f.image_name matches Some(name) ==> args.0.opts.labels@.dom().contains(label_key(name@))
            && args.0.opts.labels@[label_key(name@)]@ == label_value(name@),
{
}

/// Nothing is asked for by default.
pub proof fn nothing_is_asked_for_by_default(o: SuperBuildImageOptionsWrapper, key: Seq<char>)
    requires
        o.is_default(),
    ensures
        !o.q && !o.nocache && !o.pull && !o.rm && !o.forcerm && !o.squash,
        o.t@.len() == 0 && o.cpusetcpus@.len() == 0 && o.networkmode@.len() == 0,
        o.platform@.len() == 0 && o.target@.len() == 0 && o.cachefrom@.len() == 0,
        o.extrahosts is None && o.memory is None && o.memswap is None && o.cpushares is None,
        o.cpuperiod is None && o.cpuquota is None && o.shmsize is None,
        !o.buildargs@.dom().contains(key) && !o.labels@.dom().contains(key),
        o.version is BuilderV1,
{
}

proof fn lemma_component(dir: Seq<char>, name: Seq<char>)
    requires
        name.len() > 2,
        forall|i: int| 0 <= i < name.len() ==> #[trigger] name[i] != '/',
    ensures
        file_name(pushed(dir, name)) == Some(name),
        parent(pushed(dir, name)) is Some,
        file_name(parent(pushed(dir, name))->0) == file_name(dir),
        parent(parent(pushed(dir, name))->0) == parent(dir),
{
    pushed_name_is_found(dir, name);
    directory_is_left_as_it_was(dir, name);
}

/// A binary in the release directory of the musl target is one of that target, and one of
/// examples, tests or benches is if it is in the directory for these below it; a binary
/// of another directory is not.
pub proof fn musl_binaries_are_told_by_their_directories(
    dir: Seq<char>,
    name: Seq<char>,
    option: BootstrapOptions,
    other: Seq<char>,
)
    requires
        name.len() > 0,
        forall|i: int| 0 <= i < name.len() ==> #[trigger] name[i] != '/',
        name != seq!['.'],
        name != seq!['.', '.'],
    ensures
        ({
            let release = pushed(
                pushed(pushed(dir, "target"@), "x86_64-unknown-linux-musl"@),
                "release"@,
            );
            &&& is_musl_binary(pushed(release, name), BootstrapOptions::Bin)
            &&& is_musl_binary(
                pushed(pushed(release, "examples"@), name),
                BootstrapOptions::Example,
            )
            &&& is_musl_binary(pushed(pushed(release, "tests"@), name), BootstrapOptions::Test)
            &&& is_musl_binary(pushed(pushed(release, "benches"@), name), BootstrapOptions::Bench)
        }),
        file_name(other) != Some("release"@) ==> !is_musl_binary(
            pushed(other, name),
            BootstrapOptions::Bin,
        ),
        (parent(other) matches Some(up) ==> file_name(up) != Some("release"@)) ==> !is_musl_binary(
            pushed(other, name),
            BootstrapOptions::Example,
        ),
{
    reveal_strlit("target");
    reveal_strlit("x86_64-unknown-linux-musl");
    reveal_strlit("release");
    reveal_strlit("examples");
    reveal_strlit("tests");
    reveal_strlit("benches");
    let t = pushed(dir, "target"@);
    let m = pushed(t, "x86_64-unknown-linux-musl"@);
    let r = pushed(m, "release"@);
    lemma_component(dir, "target"@);
    lemma_component(t, "x86_64-unknown-linux-musl"@);
    lemma_component(m, "release"@);
    lemma_component(r, "examples"@);
    lemma_component(r, "tests"@);
    lemma_component(r, "benches"@);
    directory_is_left_as_it_was(r, name);
    directory_is_left_as_it_was(pushed(r, "examples"@), name);
    directory_is_left_as_it_was(pushed(r, "tests"@), name);
    directory_is_left_as_it_was(pushed(r, "benches"@), name);
    directory_is_left_as_it_was(other, name);
}

/// The error of a file that was not copied is that of opening it, or that of writing it
/// with what was being done. Targets of a kind of their own are built in its directory.
pub proof fn failed_copies_are_told(f: CopiedFile, name: Seq<char>)
    ensures
        f.opened matches Err(e) ==> copy_fault(f) == e@,
        f.opened matches Ok(Err(e)) ==> copy_fault(f).kinds == e@.kinds.push(
            KindView::Str("Tarball::append_file"@),
        ),
        musl_entrypoint(name, BootstrapOptions::Test)
            == "./target/x86_64-unknown-linux-musl/release"@ + ("/"@ + "tests"@) + "/"@ + name,
        musl_entrypoint(name, BootstrapOptions::Bench)
            == "./target/x86_64-unknown-linux-musl/release"@ + ("/"@ + "benches"@) + "/"@ + name,
{
}

} // verus!
