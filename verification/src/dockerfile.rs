//! Ways of building a container, and the arguments of `docker` that follow from
//! the description of a container.

use vstd::prelude::*;
use vstd::utf8::{decode_utf8, encode_utf8, encode_utf8_decode_utf8, encode_utf8_valid_utf8, valid_utf8};

use crate::command::{optional, text_pairs, Command, CommandResult};
use crate::error::{Error, ErrorKind, ErrorView, KindView};
use crate::misc::{color_cycle, color_text, colored, next_terminal_color};
use crate::text::{same, texts};
use crate::utf8::{string_error_text, string_fault};

verus! {

/// Ways of using a dockerfile for building a container
pub enum Dockerfile {
    /// Builds using an image in the format "name:tag" such as "fedora:41" or
    /// "alpine:3.21" (running will call something such as `docker pull
    /// name:tag`). Docker will first try to fetch from the local registry, in
    /// which case there might not be a tag, and just the name of some image
    /// should be used.
    NameTag(String),
    /// Builds from a dockerfile on a path (e.x.
    /// "./tests/dockerfiles/example.dockerfile")
    Path(String),
    /// Builds from contents that are written to a file in a directory determined
    /// by the network. Note that resources used by this dockerfile may need to
    /// be in the same directory.
    Contents(String),
}

/// The value of a [Dockerfile].
#[verifier::ext_equal]
pub enum DockerfileView {
    NameTag(Seq<char>),
    Path(Seq<char>),
    Contents(Seq<char>),
}

impl View for Dockerfile {
    type V = DockerfileView;

    open spec fn view(&self) -> DockerfileView {
        match self {
            Dockerfile::NameTag(s) => DockerfileView::NameTag(s@),
            Dockerfile::Path(s) => DockerfileView::Path(s@),
            Dockerfile::Contents(s) => DockerfileView::Contents(s@),
        }
    }
}

impl Clone for Dockerfile {
    fn clone(&self) -> (r: Self)
        ensures
            r == *self,
    {
        match self {
            Dockerfile::NameTag(s) => Dockerfile::NameTag(s.clone()),
            Dockerfile::Path(s) => Dockerfile::Path(s.clone()),
            Dockerfile::Contents(s) => Dockerfile::Contents(s.clone()),
        }
    }
}

/// `contents` followed by the steps, each on a line of its own.
pub open spec fn with_steps(contents: Seq<char>, steps: Seq<Seq<char>>) -> Seq<char>
    decreases steps.len(),
{
    if steps.len() == 0 {
        contents
    } else {
        with_steps(contents, steps.drop_last()) + "\n"@ + steps.last()
    }
}

impl Dockerfile {
    /// Returns `Self::NameTag` with the argument
    pub fn name_tag(name_and_tag: &str) -> (r: Self)
        ensures
            r@ == DockerfileView::NameTag(name_and_tag@),
    {
        Dockerfile::NameTag(name_and_tag.to_owned())
    }

    /// Returns `Self::Path` with the argument
    pub fn path(path_to_dockerfile: &str) -> (r: Self)
        ensures
            r@ == DockerfileView::Path(path_to_dockerfile@),
    {
        Dockerfile::Path(path_to_dockerfile.to_owned())
    }

    /// Returns `Self::Contents` with the argument
    pub fn contents(contents_of_dockerfile: &str) -> (r: Self)
        ensures
            r@ == DockerfileView::Contents(contents_of_dockerfile@),
    {
        Dockerfile::Contents(contents_of_dockerfile.to_owned())
    }

    /// The file whose contents [Dockerfile::add_build_steps] needs
    pub fn needed_file(&self) -> (r: Option<&String>)
        ensures
            match r {
                Some(p) => self@ == DockerfileView::Path(p@),
                None => !(self@ is Path),
            },
    {
        match self {
            Dockerfile::Path(p) => Some(p),
            _ => None,
        }
    }

    /// Adds build steps at the end, with the result always being
    /// `Self::Contents`. `file` is what reading the file of a `Self::Path`
    /// returned; it plays no role otherwise.
    pub fn add_build_steps(self, file: Result<String, Error>, build_steps: &Vec<String>) -> (r:
        Result<Self, Error>)
        ensures
            match self@ {
                DockerfileView::NameTag(s) => r is Ok && r->Ok_0@ == DockerfileView::Contents(
                    with_steps("FROM "@ + s, texts(build_steps@)),
                ),
                DockerfileView::Path(_) => match file {
                    Ok(s) => r is Ok && r->Ok_0@ == DockerfileView::Contents(
                        with_steps(s@, texts(build_steps@)),
                    ),
                    Err(e) => r == Err::<Dockerfile, Error>(e),
                },
                DockerfileView::Contents(s) => r is Ok && r->Ok_0@ == DockerfileView::Contents(
                    with_steps(s, texts(build_steps@)),
                ),
            },
    {
        let contents: String = match self {
            Dockerfile::NameTag(name_tag) => {
                let mut s: String = "FROM ".to_owned();
                s.append(name_tag.as_str());
                s
            },
            Dockerfile::Path(_) => match file {
                Ok(s) => s,
                Err(e) => {
                    return Err(e);
                },
            },
            Dockerfile::Contents(contents) => contents,
        };
        let ghost steps = texts(build_steps@);
        let mut r: String = contents;
        let mut i: usize = 0;
        assert(steps.take(0) =~= Seq::empty());
        while i < build_steps.len()
            invariant
                i <= build_steps@.len(),
                steps == texts(build_steps@),
                r@ == with_steps(contents@, steps.take(i as int)),
            decreases build_steps@.len() - i,
        {
            r.append("\n");
            r.append(build_steps[i].as_str());
            proof {
                assert(steps.take(i + 1).drop_last() =~= steps.take(i as int));
                assert(steps.take(i + 1).last() == build_steps@[i as int]@);
            }
            i = i + 1;
        }
        assert(steps.take(i as int) =~= steps);
        Ok(Dockerfile::Contents(r))
    }

    /// Whether two ways of building are the same
    pub fn same_as(&self, other: &Dockerfile) -> (r: bool)
        ensures
            r == (self@ == other@),
    {
        match (self, other) {
            (Dockerfile::NameTag(a), Dockerfile::NameTag(b)) => same(a.as_str(), b.as_str()),
            (Dockerfile::Path(a), Dockerfile::Path(b)) => same(a.as_str(), b.as_str()),
            (Dockerfile::Contents(a), Dockerfile::Contents(b)) => same(a.as_str(), b.as_str()),
            _ => false,
        }
    }
}

/// Each pair after a flag, the two parts joined by `sep`.
pub open spec fn flagged_pairs(
    flag: Seq<char>,
    pairs: Seq<(Seq<char>, Seq<char>)>,
    sep: Seq<char>,
) -> Seq<Seq<char>>
    decreases pairs.len(),
{
    if pairs.len() == 0 {
        Seq::empty()
    } else {
        flagged_pairs(flag, pairs.drop_last(), sep).push(flag).push(
            pairs.last().0 + sep + pairs.last().1,
        )
    }
}

/// The text as the only element of a list, or none.
pub open spec fn listed(s: Option<Seq<char>>) -> Seq<Seq<char>> {
    match s {
        Some(s) => seq![s],
        None => Seq::empty(),
    }
}

/// What `docker create` is told of a container.
pub struct CreateArgs<'a> {
    pub network_name: &'a str,
    pub host_name: &'a str,
    pub container_name: &'a str,
    pub workdir: Option<&'a String>,
    pub environment_vars: &'a Vec<(String, String)>,
    /// The local parts have been acquired
    pub volumes: &'a Vec<(String, String)>,
    pub create_args: &'a Vec<String>,
    /// A `-t` comes before the image
    pub tag_flag: bool,
    pub image: &'a str,
    pub entrypoint_file: Option<&'a String>,
    pub entrypoint_args: &'a Vec<String>,
}

/// The view of an optional reference to a string.
pub open spec fn optional_ref(s: Option<&String>) -> Option<Seq<char>> {
    match s {
        Some(s) => Some(s@),
        None => None,
    }
}

/// The arguments tell `docker create` all of this: behind the names come the working
/// directory, each environment variable, each volume and the extra arguments, then
/// the image and what is run in it.
pub open spec fn tells_docker_create(
    args: Seq<Seq<char>>,
    names: (Seq<char>, Seq<char>, Seq<char>),
    workdir: Option<Seq<char>>,
    env: Seq<(Seq<char>, Seq<char>)>,
    volumes: Seq<(Seq<char>, Seq<char>)>,
    extra: Seq<Seq<char>>,
    image: Seq<Seq<char>>,
    run: Seq<Seq<char>>,
) -> bool {
    let e = if workdir is Some {
        10int
    } else {
        8int
    };
    let v = e + 2 * env.len();
    let x = v + 2 * volumes.len();
    let m = x + extra.len();
    &&& args.len() == m + image.len() + run.len()
    &&& args[0] == "create"@
    &&& args[1] == "--rm"@
    &&& args[2] == "--network"@
    &&& args[3] == names.0
    &&& args[4] == "--hostname"@
    &&& args[5] == names.1
    &&& args[6] == "--name"@
    &&& args[7] == names.2
    &&& workdir matches Some(d) ==> args[8] == "-w"@ && args[9] == d
    &&& forall|i: int|
        0 <= i < env.len() ==> flag_at(args, e + 2 * i, "-e"@, #[trigger] env[i], "="@)
    &&& forall|i: int|
        0 <= i < volumes.len() ==> flag_at(
            args,
            v + 2 * i,
            "--volume"@,
            #[trigger] volumes[i],
            ":"@,
        )
    &&& args.subrange(x, m) == extra
    &&& args.subrange(m, (m + image.len()) as int) == image
    &&& args.skip((m + image.len()) as int) == run
}

/// At `k` stands the flag, and behind it the pair joined by `sep`.
pub open spec fn flag_at(
    args: Seq<Seq<char>>,
    k: int,
    flag: Seq<char>,
    pair: (Seq<char>, Seq<char>),
    sep: Seq<char>,
) -> bool {
    0 <= k && k + 1 < args.len() && args[k] == flag && args[k + 1] == pair.0 + sep + pair.1
}

/// Each pair stands behind a flag of its own, in the order of the pairs.
pub proof fn flagged_pairs_are_in_order(
    flag: Seq<char>,
    pairs: Seq<(Seq<char>, Seq<char>)>,
    sep: Seq<char>,
)
    ensures
        flagged_pairs(flag, pairs, sep).len() == 2 * pairs.len(),
        forall|i: int|
            0 <= i < pairs.len() ==> flag_at(
                flagged_pairs(flag, pairs, sep),
                2 * i,
                flag,
                #[trigger] pairs[i],
                sep,
            ),
    decreases pairs.len(),
{
    if pairs.len() > 0 {
        let f = flagged_pairs(flag, pairs, sep);
        let g = flagged_pairs(flag, pairs.drop_last(), sep);
        flagged_pairs_are_in_order(flag, pairs.drop_last(), sep);
        assert forall|i: int| 0 <= i < pairs.len() implies flag_at(
            f,
            2 * i,
            flag,
            #[trigger] pairs[i],
            sep,
        ) by {
            if i < pairs.len() - 1 {
                assert(pairs.drop_last()[i] == pairs[i]);
                assert(flag_at(g, 2 * i, flag, pairs[i], sep));
                assert(f[2 * i] == g[2 * i]);
                assert(f[2 * i + 1] == g[2 * i + 1]);
            }
        }
    }
}

/// What creates a container is told in full: whatever the parts are, each stands at
/// its place among the arguments.
pub proof fn create_list_is_told_in_full(a: CreateArgs<'_>)
    ensures
        tells_docker_create(
            a.list(),
            (a.network_name@, a.host_name@, a.container_name@),
            match a.workdir {
                Some(w) => Some(w@),
                None => None,
            },
            text_pairs(a.environment_vars@),
            text_pairs(a.volumes@),
            texts(a.create_args@),
            if a.tag_flag {
                seq!["-t"@, a.image@]
            } else {
                seq![a.image@]
            },
            match a.entrypoint_file {
                Some(f) => seq![f@] + texts(a.entrypoint_args@),
                None => texts(a.entrypoint_args@),
            },
        ),
{
    let l = a.list();
    let env = text_pairs(a.environment_vars@);
    let vol = text_pairs(a.volumes@);
    let extra = texts(a.create_args@);
    let image = if a.tag_flag {
        seq!["-t"@, a.image@]
    } else {
        seq![a.image@]
    };
    let run = match a.entrypoint_file {
        Some(f) => seq![f@] + texts(a.entrypoint_args@),
        None => texts(a.entrypoint_args@),
    };
    flagged_pairs_are_in_order("-e"@, env, "="@);
    flagged_pairs_are_in_order("--volume"@, vol, ":"@);
    let ef = flagged_pairs("-e"@, env, "="@);
    let vf = flagged_pairs("--volume"@, vol, ":"@);
    let head = if a.workdir is Some {
        seq![
            "create"@,
            "--rm"@,
            "--network"@,
            a.network_name@,
            "--hostname"@,
            a.host_name@,
            "--name"@,
            a.container_name@,
            "-w"@,
            a.workdir->0@,
        ]
    } else {
        seq![
            "create"@,
            "--rm"@,
            "--network"@,
            a.network_name@,
            "--hostname"@,
            a.host_name@,
            "--name"@,
            a.container_name@,
        ]
    };
    assert(l =~= head + ef + vf + extra + image + run);
    let e = head.len() as int;
    let v = e + 2 * env.len();
    let x = v + 2 * vol.len();
    let m = x + extra.len();
    assert forall|i: int| 0 <= i < env.len() implies flag_at(
        l,
        e + 2 * i,
        "-e"@,
        #[trigger] env[i],
        "="@,
    ) by {
        assert(flag_at(ef, 2 * i, "-e"@, env[i], "="@));
        assert(l[e + 2 * i] == ef[2 * i]);
        assert(l[e + 2 * i + 1] == ef[2 * i + 1]);
    }
    assert forall|i: int| 0 <= i < vol.len() implies flag_at(
        l,
        v + 2 * i,
        "--volume"@,
        #[trigger] vol[i],
        ":"@,
    ) by {
        assert(flag_at(vf, 2 * i, "--volume"@, vol[i], ":"@));
        assert(l[v + 2 * i] == vf[2 * i]);
        assert(l[v + 2 * i + 1] == vf[2 * i + 1]);
    }
    assert(l.subrange(x, m) =~= extra);
    assert(l.subrange(m, (m + image.len()) as int) =~= image);
    assert(l.skip((m + image.len()) as int) =~= run);
}

impl<'a> CreateArgs<'a> {
    /// The arguments of `docker`: names, working directory, environment,
    /// volumes and other arguments, the image, then what is run in it.
    pub open spec fn list(self) -> Seq<Seq<char>> {
        seq![
            "create"@,
            "--rm"@,
            "--network"@,
            self.network_name@,
            "--hostname"@,
            self.host_name@,
            "--name"@,
            self.container_name@,
        ] + (match self.workdir {
            Some(w) => seq!["-w"@, w@],
            None => Seq::empty(),
        }) + flagged_pairs("-e"@, text_pairs(self.environment_vars@), "="@) + flagged_pairs(
            "--volume"@,
            text_pairs(self.volumes@),
            ":"@,
        ) + texts(self.create_args@) + (if self.tag_flag {
            seq!["-t"@]
        } else {
            Seq::empty()
        }) + seq![self.image@] + listed(optional_ref(self.entrypoint_file)) + texts(
            self.entrypoint_args@,
        )
    }

    /// The arguments of `docker`
    pub fn to_args(&self) -> (r: Vec<String>)
        ensures
            texts(r@) == self.list(),
    {
        let mut r: Vec<String> = Vec::new();
        push_arg(&mut r, "create");
        push_arg(&mut r, "--rm");
        push_arg(&mut r, "--network");
        push_arg(&mut r, self.network_name);
        push_arg(&mut r, "--hostname");
        push_arg(&mut r, self.host_name);
        push_arg(&mut r, "--name");
        push_arg(&mut r, self.container_name);
        let ghost head = seq![
            "create"@,
            "--rm"@,
            "--network"@,
            self.network_name@,
            "--hostname"@,
            self.host_name@,
            "--name"@,
            self.container_name@,
        ];
        assert(texts(r@) =~= head);
        let ghost workdir = match self.workdir {
            Some(w) => seq!["-w"@, w@],
            None => Seq::empty(),
        };
        if let Some(w) = self.workdir {
            push_arg(&mut r, "-w");
            push_arg(&mut r, w.as_str());
        }
        assert(texts(r@) =~= head + workdir);
        push_flagged(&mut r, "-e", self.environment_vars, "=");
        push_flagged(&mut r, "--volume", self.volumes, ":");
        push_args(&mut r, self.create_args);
        let ghost before = texts(r@);
        if self.tag_flag {
            push_arg(&mut r, "-t");
            assert(texts(r@) =~= before + seq!["-t"@]);
        } else {
            assert(texts(r@) =~= before + Seq::<Seq<char>>::empty());
        }
        let ghost before = texts(r@);
        push_arg(&mut r, self.image);
        assert(texts(r@) =~= before + seq![self.image@]);
        let ghost before = texts(r@);
        if let Some(s) = self.entrypoint_file {
            push_arg(&mut r, s.as_str());
        }
        assert(texts(r@) =~= before + listed(optional_ref(self.entrypoint_file)));
        push_args(&mut r, self.entrypoint_args);
        r
    }
}

/// Adds an argument to a list
pub fn push_arg(r: &mut Vec<String>, s: &str)
    ensures
        texts(final(r)@) == texts(old(r)@).push(s@),
{
    r.push(s.to_owned());
    assert(texts(r@) =~= texts(old(r)@).push(s@));
}

/// Adds all the arguments to a list
pub fn push_args(r: &mut Vec<String>, args: &Vec<String>)
    ensures
        texts(final(r)@) == texts(old(r)@) + texts(args@),
{
    let mut i: usize = 0;
    assert(texts(r@) =~= texts(old(r)@) + texts(args@).take(0));
    while i < args.len()
        invariant
            i <= args@.len(),
            texts(r@) == texts(old(r)@) + texts(args@).take(i as int),
        decreases args@.len() - i,
    {
        let ghost before = texts(r@);
        push_arg(r, args[i].as_str());
        i = i + 1;
        assert(texts(r@) =~= texts(old(r)@) + texts(args@).take(i as int));
    }
    assert(texts(args@).take(i as int) =~= texts(args@));
}

/// Adds copies of the pairs to a list
pub fn push_pairs(r: &mut Vec<(String, String)>, pairs: &Vec<(String, String)>)
    ensures
        text_pairs(final(r)@) == text_pairs(old(r)@) + text_pairs(pairs@),
{
    let mut i: usize = 0;
    assert(text_pairs(r@) =~= text_pairs(old(r)@) + text_pairs(pairs@).take(0));
    while i < pairs.len()
        invariant
            i <= pairs@.len(),
            text_pairs(r@) == text_pairs(old(r)@) + text_pairs(pairs@).take(i as int),
        decreases pairs@.len() - i,
    {
        let ghost before = text_pairs(r@);
        r.push((pairs[i].0.clone(), pairs[i].1.clone()));
        assert(text_pairs(r@) =~= before.push(text_pairs(pairs@)[i as int]));
        i = i + 1;
        assert(text_pairs(r@) =~= text_pairs(old(r)@) + text_pairs(pairs@).take(i as int));
    }
    assert(text_pairs(pairs@).take(i as int) =~= text_pairs(pairs@));
}

fn push_flagged(r: &mut Vec<String>, flag: &str, pairs: &Vec<(String, String)>, sep: &str)
    ensures
        texts(final(r)@) == texts(old(r)@) + flagged_pairs(flag@, text_pairs(pairs@), sep@),
{
    let ghost all = text_pairs(pairs@);
    let mut i: usize = 0;
    assert(all.take(0) =~= Seq::empty());
    assert(texts(r@) =~= texts(old(r)@) + Seq::<Seq<char>>::empty());
    while i < pairs.len()
        invariant
            i <= pairs@.len(),
            all == text_pairs(pairs@),
            texts(r@) == texts(old(r)@) + flagged_pairs(flag@, all.take(i as int), sep@),
        decreases pairs@.len() - i,
    {
        let mut t: String = pairs[i].0.clone();
        t.append(sep);
        t.append(pairs[i].1.as_str());
        push_arg(r, flag);
        push_arg(r, t.as_str());
        proof {
            assert(all.take(i + 1).drop_last() =~= all.take(i as int));
            assert(all.take(i + 1).last() == (pairs@[i as int].0@, pairs@[i as int].1@));
            assert(texts(r@) =~= texts(old(r)@) + flagged_pairs(flag@, all.take(i + 1), sep@));
        }
        i = i + 1;
    }
    assert(all.take(i as int) =~= all);
}

/// The arguments of `docker` for building the dockerfile `file` of the directory
/// `dir` as the image `tag`.
pub open spec fn build_arg_list(
    tag: Seq<char>,
    file: Seq<char>,
    build_args: Seq<Seq<char>>,
    dir: Seq<char>,
) -> Seq<Seq<char>> {
    seq!["build"@, "-t"@, tag, "--file"@, file] + build_args + seq![dir]
}

/// The arguments of `docker` for a build
pub fn to_build_args(tag: &str, file: &str, build_args: &Vec<String>, dir: &str) -> (r: Vec<String>)
    ensures
        texts(r@) == build_arg_list(tag@, file@, texts(build_args@), dir@),
        texts(r@).len() == 6 + build_args@.len(),
        texts(r@).take(5) == seq!["build"@, "-t"@, tag@, "--file"@, file@],
        texts(r@).subrange(5, (5 + build_args@.len()) as int) == texts(build_args@),
        texts(r@).last() == dir@,
{
    let mut r: Vec<String> = Vec::new();
    push_arg(&mut r, "build");
    push_arg(&mut r, "-t");
    push_arg(&mut r, tag);
    push_arg(&mut r, "--file");
    push_arg(&mut r, file);
    assert(texts(r@) =~= seq!["build"@, "-t"@, tag@, "--file"@, file@]);
    push_args(&mut r, build_args);
    let ghost before = texts(r@);
    push_arg(&mut r, dir);
    assert(texts(r@) =~= before + seq![dir@]);
    proof {
        build_is_told_in_full(tag@, file@, texts(build_args@), dir@);
    }
    r
}

/// What builds an image is told in full: the tag and the file by their flags, then
/// the build arguments, and the directory last.
pub proof fn build_is_told_in_full(
    tag: Seq<char>,
    file: Seq<char>,
    build_args: Seq<Seq<char>>,
    dir: Seq<char>,
)
    ensures
        ({
            let l = build_arg_list(tag, file, build_args, dir);
            &&& l.len() == 6 + build_args.len()
            &&& l.take(5) == seq!["build"@, "-t"@, tag, "--file"@, file]
            &&& l.subrange(5, (5 + build_args.len()) as int) == build_args
            &&& l.last() == dir
        }),
{
    let l = build_arg_list(tag, file, build_args, dir);
    assert(l.take(5) =~= seq!["build"@, "-t"@, tag, "--file"@, file]);
    assert(l.subrange(5, (5 + build_args.len()) as int) =~= build_args);
}

/// The command `docker` with the arguments.
pub open spec fn is_docker(c: Command, args: Seq<Seq<char>>) -> bool {
    &&& c.program@ == "docker"@
    &&& texts(c.args@) == args
}

/// A command of docker runs the program `docker` with these arguments and no other.
pub proof fn docker_command_has_these_arguments(c: Command, args: Seq<Seq<char>>)
    ensures
        is_docker(c, args) <==> c.program@ == "docker"@ && c.args@.len() == args.len()
            && forall|i: int| 0 <= i < args.len() ==> (#[trigger] c.args@[i])@ == args[i],
{
    if c.args@.len() == args.len() && forall|i: int|
        0 <= i < args.len() ==> (#[trigger] c.args@[i])@ == args[i] {
        assert(texts(c.args@) =~= args);
    }
    if is_docker(c, args) {
        assert forall|i: int| 0 <= i < args.len() implies (#[trigger] c.args@[i])@ == args[i] by {
            assert(texts(c.args@)[i] == args[i]);
        }
    }
}

/// The command `docker` with the arguments
pub fn docker(args: Vec<String>) -> (r: Command)
    ensures
        r.program@ == "docker"@,
        texts(r.args@) == texts(args@),
        is_docker(r, texts(args@)),
        r.is_plain(),
{
    let r: Command = Command::new_os_str("docker").args(args);
    assert(r.args@ =~= args@);
    r
}

/// `command` forwards its streams with prefixes made of `name`, in the color with
/// that number of the color cycle, if `debug` is set.
pub open spec fn debug_applied(
    before: Command,
    after: Command,
    name: Seq<char>,
    debug: bool,
    color_num: usize,
) -> bool {
    let color = color_cycle()[color_num as int % 8];
    if debug {
        &&& after == (Command {
            stdout_debug: true,
            stderr_debug: true,
            stdout_debug_line_prefix: after.stdout_debug_line_prefix,
            stderr_debug_line_prefix: after.stderr_debug_line_prefix,
            ..before
        })
        &&& optional(after.stdout_debug_line_prefix) == Some(colored(name + "  | "@, color))
        &&& optional(after.stderr_debug_line_prefix) == Some(colored(name + " E| "@, color))
    } else {
        after == before
    }
}

/// Lets the command forward its streams under a name, if `debug` is set.
/// `color_num` is the number that was taken of the color cycle.
pub fn apply_debug(command: Command, name: &str, debug: bool, color_num: usize) -> (r: Command)
    ensures
        debug_applied(command, r, name@, debug, color_num),
        r.program == command.program,
        r.args == command.args,
        !debug ==> r == command,
        debug ==> r.stdout_debug && r.stderr_debug,
{
    if debug {
        let color = next_terminal_color(color_num);
        let mut out: String = name.to_owned();
        out.append("  | ");
        let mut err: String = name.to_owned();
        err.append(" E| ");
        command.debug(true).stdout_debug_line_prefix(
            Some(color_text(out.as_str(), color)),
        ).stderr_debug_line_prefix(Some(color_text(err.as_str(), color)))
    } else {
        command
    }
}

/// The container ID in the output of `docker create`: all but the newline at its
/// end.
pub open spec fn id_bytes(stdout: Seq<u8>) -> Seq<u8> {
    if stdout.len() == 0 {
        stdout
    } else {
        stdout.drop_last()
    }
}

/// The ID of the container that `docker create` returned, or why there is none.
pub open spec fn is_created_id(output: CommandResult, r: Result<String, Error>) -> bool {
    if !crate::command::status_successful(output.status) {
        r is Err && r->Err_0@ == ErrorView::message(
            output.debug_view() + if output.status is Some {
                ".assert_success() -> unsuccessful"@
            } else {
                ".assert_success() -> termination was called before completion"@
            },
        )
    } else if valid_utf8(id_bytes(output.stdout@)) {
        r is Ok && r->Ok_0@ == decode_utf8(id_bytes(output.stdout@))
    } else {
        r is Err && r->Err_0@ == ErrorView::of(
            KindView::FromUtf8(string_fault(id_bytes(output.stdout@))),
        )
    }
}

/// Debugging changes nothing of a command but how its streams are shown: they are
/// forwarded under prefixes that differ for stdout and stderr, and are still recorded
/// and logged as before.
pub proof fn debugging_only_forwards(
    before: Command,
    after: Command,
    name: Seq<char>,
    debug: bool,
    color_num: usize,
)
    requires
        debug_applied(before, after, name, debug, color_num),
    ensures
        after.program == before.program,
        after.args == before.args,
        after.envs == before.envs,
        after.env_clear == before.env_clear,
        after.cwd == before.cwd,
        after.stdout_log == before.stdout_log,
        after.stderr_log == before.stderr_log,
        after.stdout_recording == before.stdout_recording,
        after.stderr_recording == before.stderr_recording,
        after.forget_on_drop == before.forget_on_drop,
        debug ==> after.stdout_debug && after.stderr_debug,
        debug ==> optional(after.stdout_debug_line_prefix) == Some(
            colored(name + "  | "@, color_cycle()[color_num as int % 8]),
        ),
        debug ==> optional(after.stderr_debug_line_prefix) == Some(
            colored(name + " E| "@, color_cycle()[color_num as int % 8]),
        ),
        !debug ==> after == before,
{
}

/// The ID that `docker create` prints on a line is the one that is taken, and only
/// a command that was successful has one.
pub proof fn printed_id_is_taken(
    output: CommandResult,
    id: Seq<char>,
    end: u8,
    r: Result<String, Error>,
)
    requires
        is_created_id(output, r),
    ensures
        r is Ok ==> output.status is Some && output.status->0.success,
        output.status is Some && output.status->0.success && output.stdout@ == encode_utf8(
            id,
        ).push(end) ==> r is Ok && r->Ok_0@ == id,
{
    if output.stdout@ == encode_utf8(id).push(end) {
        assert(output.stdout@.drop_last() =~= encode_utf8(id));
        encode_utf8_valid_utf8(id);
        encode_utf8_decode_utf8(id);
    }
}

/// Steps are only added behind what is there, each on a line of its own, in their
/// order.
pub proof fn steps_are_added_in_order(
    contents: Seq<char>,
    a: Seq<Seq<char>>,
    b: Seq<Seq<char>>,
    step: Seq<char>,
)
    ensures
        with_steps(contents, Seq::empty()) == contents,
        with_steps(contents, seq![step]) == contents + "\n"@ + step,
        with_steps(contents, a + b) == with_steps(with_steps(contents, a), b),
    decreases b.len(),
{
    reveal_with_fuel(with_steps, 2);
    assert(seq![step].drop_last() =~= Seq::<Seq<char>>::empty());
    if b.len() == 0 {
        assert(a + b =~= a);
    } else {
        steps_are_added_in_order(contents, a, b.drop_last(), step);
        assert((a + b).drop_last() =~= a + b.drop_last());
    }
}

/// The container ID, given what `docker create` returned
pub fn created_id(output: &CommandResult) -> (r: Result<String, Error>)
    ensures
        is_created_id(*output, r),
{
    match output.assert_success() {
        Err(e) => Err(e),
        Ok(_) => {
            // remove trailing '\n'
            let end: usize = if output.stdout.len() == 0 {
                0
            } else {
                output.stdout.len() - 1
            };
            let mut id: Vec<u8> = Vec::new();
            let mut i: usize = 0;
            while i < end
                invariant
                    i <= end <= output.stdout@.len(),
                    id@ == output.stdout@.take(i as int),
                decreases end - i,
            {
                id.push(output.stdout[i]);
                i = i + 1;
                assert(id@ =~= output.stdout@.take(i as int));
            }
            assert(id@ =~= id_bytes(output.stdout@));
            match std::str::from_utf8(id.as_slice()) {
                Ok(s) => Ok(s.to_owned()),
                Err(_) => {
                    let text: String = string_error_text(id);
                    Err(Error::from_kind_locationless(ErrorKind::FromUtf8Error(text)))
                },
            }
        },
    }
}

/// A container that could not be created is told with what its command returned: whether
/// it was unsuccessful or was terminated.
pub proof fn failed_creation_is_told(output: CommandResult, r: Result<String, Error>)
    requires
        is_created_id(output, r),
        !(output.status matches Some(status) && status.success),
    ensures
        r matches Err(e) && e@.kinds == seq![
            KindView::Text(
                output.debug_view() + (if output.status is Some {
                    ".assert_success() -> unsuccessful"@
                } else {
                    ".assert_success() -> termination was called before completion"@
                }),
            ),
        ],
{
}

} // verus!
