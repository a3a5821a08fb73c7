//! Which images are built for a set of containers: as few as possible, each for
//! all the containers that have the same dockerfile and the same build arguments.

use vstd::prelude::*;

use crate::cli_docker::Container;
use crate::dockerfile::{Dockerfile, DockerfileView};
use crate::name_map::{is_before, text_before, text_order_is_total, text_order_is_transitive};
use crate::text::{same, texts};

verus! {

/// What determines a build.
#[verifier::ext_equal]
pub struct BuildKey {
    pub dockerfile: DockerfileView,
    pub args: Seq<Seq<char>>,
}

/// The key of the build of a container.
pub open spec fn build_key(c: Container) -> BuildKey {
    BuildKey { dockerfile: c.dockerfile@, args: texts(c.build_args@) }
}

/// The list `a` comes before `b`: element by element, a prefix before what it
/// begins.
pub open spec fn list_before(a: Seq<Seq<char>>, b: Seq<Seq<char>>) -> bool
    decreases a.len(),
{
    if b.len() == 0 {
        false
    } else if a.len() == 0 {
        true
    } else if a[0] != b[0] {
        text_before(a[0], b[0])
    } else {
        list_before(a.skip(1), b.skip(1))
    }
}

/// The rank of the way of building.
pub open spec fn kind_rank(d: DockerfileView) -> int {
    match d {
        DockerfileView::NameTag(_) => 0,
        DockerfileView::Path(_) => 1,
        DockerfileView::Contents(_) => 2,
    }
}

/// The text of a way of building.
pub open spec fn kind_text(d: DockerfileView) -> Seq<char> {
    match d {
        DockerfileView::NameTag(s) => s,
        DockerfileView::Path(s) => s,
        DockerfileView::Contents(s) => s,
    }
}

/// The order in which builds are run: by the way of building, then by its text,
/// then by the build arguments.
pub open spec fn key_before(a: BuildKey, b: BuildKey) -> bool {
    if kind_rank(a.dockerfile) != kind_rank(b.dockerfile) {
        kind_rank(a.dockerfile) < kind_rank(b.dockerfile)
    } else if a.dockerfile != b.dockerfile {
        text_before(kind_text(a.dockerfile), kind_text(b.dockerfile))
    } else {
        list_before(a.args, b.args)
    }
}

proof fn lemma_list_total(a: Seq<Seq<char>>, b: Seq<Seq<char>>)
    ensures
        a == b ==> !list_before(a, b),
        a != b ==> (list_before(a, b) <==> !list_before(b, a)),
    decreases a.len(),
{
    if a.len() > 0 && b.len() > 0 {
        text_order_is_total(a[0], b[0]);
        if a[0] == b[0] {
            lemma_list_total(a.skip(1), b.skip(1));
            if a.skip(1) == b.skip(1) {
                assert(a =~= seq![a[0]] + a.skip(1));
                assert(b =~= seq![b[0]] + b.skip(1));
            }
        }
    } else if a.len() == 0 && b.len() == 0 {
        assert(a =~= b);
    }
}

proof fn lemma_list_transitive(a: Seq<Seq<char>>, b: Seq<Seq<char>>, c: Seq<Seq<char>>)
    requires
        list_before(a, b),
        list_before(b, c),
    ensures
        list_before(a, c),
    decreases a.len(),
{
    if a.len() > 0 && b.len() > 0 && c.len() > 0 {
        if a[0] == b[0] && b[0] == c[0] {
            lemma_list_transitive(a.skip(1), b.skip(1), c.skip(1));
        } else if a[0] != b[0] && b[0] != c[0] {
            text_order_is_transitive(a[0], b[0], c[0]);
            text_order_is_total(a[0], c[0]);
        }
    }
}

/// The order of builds is total.
pub proof fn key_order_is_total(a: BuildKey, b: BuildKey)
    ensures
        a == b ==> !key_before(a, b),
        a != b ==> (key_before(a, b) <==> !key_before(b, a)),
{
    text_order_is_total(kind_text(a.dockerfile), kind_text(b.dockerfile));
    lemma_list_total(a.args, b.args);
}

/// The order of builds is transitive.
pub proof fn key_order_is_transitive(a: BuildKey, b: BuildKey, c: BuildKey)
    requires
        key_before(a, b),
        key_before(b, c),
    ensures
        key_before(a, c),
{
    if kind_rank(a.dockerfile) == kind_rank(b.dockerfile) && kind_rank(b.dockerfile) == kind_rank(
        c.dockerfile,
    ) {
        if a.dockerfile == b.dockerfile && b.dockerfile == c.dockerfile {
            lemma_list_transitive(a.args, b.args, c.args);
        } else if a.dockerfile != b.dockerfile && b.dockerfile != c.dockerfile {
            text_order_is_transitive(
                kind_text(a.dockerfile),
                kind_text(b.dockerfile),
                kind_text(c.dockerfile),
            );
            text_order_is_total(kind_text(a.dockerfile), kind_text(c.dockerfile));
        }
    }
}

/// How two keys relate.
#[derive(Clone, Copy, PartialEq, Eq, Structural, Debug)]
pub enum KeyOrder {
    Before,
    Same,
    After,
}

/// How two lists relate
fn order_lists(a: &Vec<String>, b: &Vec<String>) -> (r: KeyOrder)
    ensures
        r is Before <==> list_before(texts(a@), texts(b@)),
        r is Same <==> texts(a@) == texts(b@),
{
    let ghost x = texts(a@);
    let ghost y = texts(b@);
    let mut i: usize = 0;
    assert(x.skip(0) =~= x);
    assert(y.skip(0) =~= y);
    while i < a.len() && i < b.len()
        invariant
            i <= a@.len(),
            i <= b@.len(),
            x == texts(a@),
            y == texts(b@),
            forall|k: int| 0 <= k < i ==> x[k] == y[k],
            list_before(x, y) == list_before(x.skip(i as int), y.skip(i as int)),
        decreases a@.len() - i,
    {
        proof {
            assert(x.skip(i as int)[0] == a@[i as int]@);
            assert(y.skip(i as int)[0] == b@[i as int]@);
            assert(x.skip(i as int).skip(1) =~= x.skip(i + 1));
            assert(y.skip(i as int).skip(1) =~= y.skip(i + 1));
        }
        if !same(a[i].as_str(), b[i].as_str()) {
            assert(x[i as int] != y[i as int]);
            if is_before(a[i].as_str(), b[i].as_str()) {
                return KeyOrder::Before;
            }
            return KeyOrder::After;
        }
        i = i + 1;
    }
    if i < b.len() {
        assert(x.len() != y.len());
        KeyOrder::Before
    } else if i < a.len() {
        assert(x.len() != y.len());
        KeyOrder::After
    } else {
        assert(x =~= y);
        proof {
            lemma_list_total(x, y);
        }
        KeyOrder::Same
    }
}

fn rank_of(d: &Dockerfile) -> (r: u8)
    ensures
        r == kind_rank(d@),
{
    match d {
        Dockerfile::NameTag(_) => 0,
        Dockerfile::Path(_) => 1,
        Dockerfile::Contents(_) => 2,
    }
}

fn text_of(d: &Dockerfile) -> (r: &String)
    ensures
        r@ == kind_text(d@),
{
    match d {
        Dockerfile::NameTag(s) => s,
        Dockerfile::Path(s) => s,
        Dockerfile::Contents(s) => s,
    }
}

/// How the keys of two containers relate
pub fn order_keys(a: &Container, b: &Container) -> (r: KeyOrder)
    ensures
        r is Before <==> key_before(build_key(*a), build_key(*b)),
        r is Same <==> build_key(*a) == build_key(*b),
{
    let x: u8 = rank_of(&a.dockerfile);
    let y: u8 = rank_of(&b.dockerfile);
    if x != y {
        return if x < y {
            KeyOrder::Before
        } else {
            KeyOrder::After
        };
    }
    if !a.dockerfile.same_as(&b.dockerfile) {
        return if is_before(text_of(&a.dockerfile).as_str(), text_of(&b.dockerfile).as_str()) {
            KeyOrder::Before
        } else {
            KeyOrder::After
        };
    }
    order_lists(&a.build_args, &b.build_args)
}

/// The keys of the containers that need an image, `None` for those that have a
/// build tag.
pub open spec fn needed_keys(containers: Seq<Container>) -> Seq<Option<BuildKey>> {
    Seq::new(
        containers.len(),
        |i: int|
            if containers[i].build_tag is None {
                Some(build_key(containers[i]))
            } else {
                None
            },
    )
}

/// The index of the first container with the key of the one at `i`: its image is
/// the one that is built.
pub open spec fn builder_of(keys: Seq<Option<BuildKey>>, i: int) -> int {
    choose|j: int|
        {
            &&& 0 <= j <= i
            &&& keys[j] == keys[i]
            &&& forall|k: int| 0 <= k < j ==> #[trigger] keys[k] != keys[i]
        }
}

/// `j` is the index of the first container with the key of the one at `i`.
pub open spec fn is_builder_of(keys: Seq<Option<BuildKey>>, i: int, j: int) -> bool {
    &&& 0 <= j <= i
    &&& keys[j] == keys[i]
    &&& forall|k: int| 0 <= k < j ==> #[trigger] keys[k] != keys[i]
}

/// There is exactly one such index.
pub proof fn builder_is_unique(keys: Seq<Option<BuildKey>>, i: int, j: int)
    requires
        0 <= i < keys.len(),
        is_builder_of(keys, i, j),
    ensures
        builder_of(keys, i) == j,
{
    let b = builder_of(keys, i);
    assert(is_builder_of(keys, i, b));
    if b < j {
        assert(keys[b] != keys[i]);
    }
    if j < b {
        assert(keys[j] != keys[i]);
    }
}

/// The image of the container at `i` is built for it.
pub open spec fn builds(keys: Seq<Option<BuildKey>>, i: int) -> bool {
    0 <= i < keys.len() && keys[i] is Some && is_builder_of(keys, i, i)
}

/// `order` lists the containers whose images are built, in the order of the
/// builds.
pub open spec fn is_build_order(keys: Seq<Option<BuildKey>>, order: Seq<usize>) -> bool {
    &&& forall|a: int| 0 <= a < order.len() ==> builds(keys, #[trigger] order[a] as int)
    &&& forall|i: int| #[trigger] builds(keys, i) ==> exists|a: int|
        0 <= a < order.len() && #[trigger] order[a] == i
    &&& forall|a: int, b: int|
        0 <= a < b < order.len() ==> key_before(
            keys[#[trigger] order[a] as int]->0,
            keys[#[trigger] order[b] as int]->0,
        )
}

/// A plan of builds.
pub struct BuildPlan {
    /// For each container the index of the one whose image it uses, if it needs
    /// an image
    pub images: Vec<Option<usize>>,
    /// The containers whose images are built, in the order of the builds
    pub order: Vec<usize>,
}

impl BuildPlan {
    /// The plan is the one for the containers.
    pub open spec fn is_for(self, containers: Seq<Container>) -> bool {
        let keys = needed_keys(containers);
        &&& self.images@.len() == containers.len()
        &&& forall|i: int|
            0 <= i < containers.len() ==> (match #[trigger] self.images@[i] {
                Some(j) => keys[i] is Some && is_builder_of(keys, i, j as int),
                None => keys[i] is None,
            })
        &&& is_build_order(keys, self.order@)
    }
}

/// Plans the builds for the containers. The trick with the build stage is that we
/// want to build as little as we have to. The build stage only uses the
/// dockerfile and the build arguments with respect to determinism, so here they
/// are ordered and redundancies are reduced.
pub fn plan_builds(containers: &Vec<&Container>) -> (r: BuildPlan)
    ensures
        r.is_for(Seq::new(containers@.len(), |i: int| *containers@[i])),
{
    let ghost all = Seq::new(containers@.len(), |i: int| *containers@[i]);
    let ghost keys = needed_keys(all);
    let mut images: Vec<Option<usize>> = Vec::new();
    let mut order: Vec<usize> = Vec::new();
    let mut i: usize = 0;
    while i < containers.len()
        invariant
            i <= containers@.len(),
            all == Seq::new(containers@.len(), |i: int| *containers@[i]),
            keys == needed_keys(all),
            images@.len() == i,
            forall|k: int|
                0 <= k < i ==> (match #[trigger] images@[k] {
                    Some(j) => keys[k] is Some && is_builder_of(keys, k, j as int),
                    None => keys[k] is None,
                }),
            forall|a: int|
                0 <= a < order@.len() ==> #[trigger] order@[a] < i && builds(
                    keys,
                    order@[a] as int,
                ),
            forall|k: int|
                k < i && #[trigger] builds(keys, k) ==> exists|a: int|
                    0 <= a < order@.len() && #[trigger] order@[a] == k,
            forall|a: int, b: int|
                0 <= a < b < order@.len() ==> key_before(
                    keys[#[trigger] order@[a] as int]->0,
                    keys[#[trigger] order@[b] as int]->0,
                ),
        decreases containers@.len() - i,
    {
        assert(all[i as int] == *containers@[i as int]);
        if containers[i].build_tag.is_some() {
            assert(keys[i as int] is None);
            images.push(None);
        } else {
            let ghost key = build_key(all[i as int]);
            assert(keys[i as int] == Some(key));
            let mut pos: usize = 0;
            let mut found: Option<usize> = None;
            while pos < order.len() && found.is_none()
                invariant
                    pos <= order@.len(),
                    i < containers@.len(),
                    all == Seq::new(containers@.len(), |i: int| *containers@[i]),
                    keys == needed_keys(all),
                    keys[i as int] == Some(key),
                    key == build_key(*containers@[i as int]),
                    forall|a: int|
                        0 <= a < order@.len() ==> #[trigger] order@[a] < i && builds(
                            keys,
                            order@[a] as int,
                        ),
                    forall|a: int|
                        0 <= a < pos ==> key_before(keys[#[trigger] order@[a] as int]->0, key),
                    found matches Some(j) ==> j < i && builds(keys, j as int) && keys[j as int]
                        == Some(key),
                ensures
                    pos <= order@.len(),
                    found is None ==> forall|a: int|
                        0 <= a < pos ==> key_before(keys[#[trigger] order@[a] as int]->0, key),
                    found is None && pos < order@.len() ==> key_before(
                        key,
                        keys[order@[pos as int] as int]->0,
                    ),
                    found matches Some(j) ==> j < i && builds(keys, j as int) && keys[j as int]
                        == Some(key),
                decreases order@.len() - pos, (if found is None { 1int } else { 0int }),
            {
                let j: usize = order[pos];
                proof {
                    assert(order@[pos as int] < i && builds(keys, order@[pos as int] as int));
                    assert(keys[j as int] == Some(build_key(*containers@[j as int]))) by {
                        assert(all[j as int] == *containers@[j as int]);
                    }
                    key_order_is_total(build_key(*containers@[j as int]), key);
                }
                match order_keys(containers[j], containers[i]) {
                    KeyOrder::Before => {
                        pos = pos + 1;
                    },
                    KeyOrder::Same => {
                        found = Some(j);
                    },
                    KeyOrder::After => {
                        break;
                    },
                }
            }
            match found {
                Some(j) => {
                    // use an already planned image
                    images.push(Some(j));
                    proof {
                        assert(is_builder_of(keys, j as int, j as int));
                        assert(is_builder_of(keys, i as int, j as int));
                        assert(!builds(keys, i as int)) by {
                            if builds(keys, i as int) {
                                assert(keys[j as int] != keys[i as int]);
                            }
                        }
                    }
                },
                None => {
                    let ghost before = order@;
                    proof {
                        // no planned build has the key
                        assert forall|k: int| 0 <= k < i implies #[trigger] keys[k]
                            != keys[i as int] by {
                            if keys[k] == keys[i as int] {
                                lemma_builder(keys, k);
                                let b = builder_of(keys, k);
                                assert(is_builder_of(keys, k, b));
                                assert(is_builder_of(keys, b, b)) by {
                                    assert(keys[b] == keys[k]);
                                }
                                assert(builds(keys, b));
                                let a = choose|a: int|
                                    0 <= a < before.len() && #[trigger] before[a] == b;
                                assert(keys[before[a] as int]->0 == key);
                                key_order_is_total(key, key);
                                if a < pos {
                                    assert(key_before(keys[before[a] as int]->0, key));
                                } else if a > pos {
                                    assert(key_before(
                                        keys[before[pos as int] as int]->0,
                                        keys[before[a] as int]->0,
                                    ));
                                    key_order_is_transitive(
                                        key,
                                        keys[before[pos as int] as int]->0,
                                        key,
                                    );
                                }
                            }
                        }
                        assert(is_builder_of(keys, i as int, i as int));
                        assert(builds(keys, i as int));
                    }
                    order.insert(pos, i);
                    images.push(Some(i));
                    proof {
                        assert forall|a: int| 0 <= a < order@.len() implies #[trigger] order@[a]
                            < i + 1 && builds(keys, order@[a] as int) by {
                            if a < pos {
                                assert(order@[a] == before[a]);
                            } else if a > pos {
                                assert(order@[a] == before[a - 1]);
                            }
                        }
                        assert forall|k: int| k < i + 1 && #[trigger] builds(
                            keys,
                            k,
                        ) implies exists|a: int|
                            0 <= a < order@.len() && #[trigger] order@[a] == k by {
                            if k < i {
                                let a = choose|a: int|
                                    0 <= a < before.len() && #[trigger] before[a] == k;
                                if a < pos {
                                    assert(order@[a] == k);
                                } else {
                                    assert(order@[a + 1] == k);
                                }
                            } else {
                                assert(order@[pos as int] == k);
                            }
                        }
                        assert forall|a: int, b: int| 0 <= a < b < order@.len() implies key_before(
                            keys[#[trigger] order@[a] as int]->0,
                            keys[#[trigger] order@[b] as int]->0,
                        ) by {
                            let x = if a < pos {
                                a
                            } else {
                                a - 1
                            };
                            let y = if b < pos {
                                b
                            } else {
                                b - 1
                            };
                            if a == pos {
                                if y > pos {
                                    assert(key_before(
                                        keys[before[pos as int] as int]->0,
                                        keys[before[y] as int]->0,
                                    ));
                                    key_order_is_transitive(
                                        key,
                                        keys[before[pos as int] as int]->0,
                                        keys[before[y] as int]->0,
                                    );
                                }
                            } else if b == pos {
                                assert(key_before(keys[before[x] as int]->0, key));
                            } else {
                                assert(key_before(
                                    keys[before[x] as int]->0,
                                    keys[before[y] as int]->0,
                                ));
                            }
                        }
                    }
                },
            }
        }
        i = i + 1;
    }
    BuildPlan { images, order }
}

proof fn lemma_builder(keys: Seq<Option<BuildKey>>, i: int)
    requires
        0 <= i < keys.len(),
    ensures
        is_builder_of(keys, i, builder_of(keys, i)),
{
    lemma_first(keys, i, i);
}

proof fn lemma_first(keys: Seq<Option<BuildKey>>, i: int, j: int)
    requires
        0 <= j <= i < keys.len(),
        keys[j] == keys[i],
    ensures
        exists|b: int| is_builder_of(keys, i, b),
    decreases j,
{
    if forall|k: int| 0 <= k < j ==> #[trigger] keys[k] != keys[i] {
        assert(is_builder_of(keys, i, j));
    } else {
        let k = choose|k: int| 0 <= k < j && #[trigger] keys[k] == keys[i];
        lemma_first(keys, i, k);
    }
}

/// Containers share an image exactly if their dockerfiles and build arguments are
/// the same, and no two builds have the same: as little as possible is built.
pub proof fn builds_are_shared(containers: Seq<Container>, plan: BuildPlan, a: int, b: int)
    requires
        plan.is_for(containers),
        0 <= a < containers.len(),
        0 <= b < containers.len(),
        containers[a].build_tag is None,
        containers[b].build_tag is None,
    ensures
        plan.images@[a] is Some,
        plan.images@[b] is Some,
        plan.images@[a] == plan.images@[b] <==> build_key(containers[a]) == build_key(
            containers[b],
        ),
        exists|k: int| 0 <= k < plan.order@.len() && plan.order@[k] == plan.images@[a]->0,
{
    let keys = needed_keys(containers);
    let x = plan.images@[a]->0 as int;
    let y = plan.images@[b]->0 as int;
    assert(is_builder_of(keys, a, x));
    assert(is_builder_of(keys, b, y));
    if build_key(containers[a]) == build_key(containers[b]) {
        assert(keys[a] == keys[b]);
        if x < y {
            assert(keys[x] != keys[b]);
        }
        if y < x {
            assert(keys[y] != keys[a]);
        }
    }
    assert(builds(keys, x));
}

/// Lists of arguments are ordered by the first argument in which they differ, and a list
/// comes before those that it begins.
pub proof fn first_difference_orders_lists(
    p: Seq<Seq<char>>,
    c: Seq<char>,
    x: Seq<Seq<char>>,
    d: Seq<char>,
    y: Seq<Seq<char>>,
)
    requires
        c != d,
    ensures
        list_before(p + seq![c] + x, p + seq![d] + y) <==> text_before(c, d),
        list_before(p, p + seq![c] + x),
        !list_before(p + seq![c] + x, p),
    decreases p.len(),
{
    let a = p + seq![c] + x;
    let b = p + seq![d] + y;
    if p.len() == 0 {
        assert(a[0] == c && b[0] == d);
    } else {
        let q = p.skip(1);
        first_difference_orders_lists(q, c, x, d, y);
        assert(a[0] == p[0] && b[0] == p[0]);
        assert(a.skip(1) =~= q + seq![c] + x);
        assert(b.skip(1) =~= q + seq![d] + y);
    }
}

/// Images come first in the order of builds, then dockerfiles at paths, then contents; of
/// one kind the text decides, and of one dockerfile the arguments do.
pub proof fn dockerfiles_order_builds(
    s: Seq<char>,
    t: Seq<char>,
    a: Seq<Seq<char>>,
    b: Seq<Seq<char>>,
)
    ensures
        ({
            let tag = |s: Seq<char>, a: Seq<Seq<char>>|
                BuildKey { dockerfile: DockerfileView::NameTag(s), args: a };
            let path = |s: Seq<char>, a: Seq<Seq<char>>|
                BuildKey { dockerfile: DockerfileView::Path(s), args: a };
            let contents = |s: Seq<char>, a: Seq<Seq<char>>|
                BuildKey { dockerfile: DockerfileView::Contents(s), args: a };
            &&& key_before(tag(s, a), path(t, b)) && !key_before(path(t, b), tag(s, a))
            &&& key_before(path(s, a), contents(t, b)) && !key_before(contents(t, b), path(s, a))
            &&& key_before(tag(s, a), contents(t, b)) && !key_before(contents(t, b), tag(s, a))
            &&& s != t ==> (key_before(path(s, a), path(t, b)) <==> text_before(s, t))
            &&& s != t ==> (key_before(contents(s, a), contents(t, b)) <==> text_before(s, t))
            &&& key_before(path(s, a), path(s, b)) <==> list_before(a, b)
            &&& key_before(contents(s, a), contents(s, b)) <==> list_before(a, b)
        }),
{
}

/// A container with a build tag needs no image; any other uses the image that is built
/// for the first container with its dockerfile and its arguments.
pub proof fn first_of_the_same_is_built(containers: Seq<Container>, plan: BuildPlan, i: int)
    requires
        plan.is_for(containers),
        0 <= i < containers.len(),
    ensures
        plan.images@[i] is None <==> containers[i].build_tag is Some,
        plan.images@[i] matches Some(j) ==> {
            &&& 0 <= j <= i
            &&& containers[j as int].build_tag is None
            &&& containers[j as int].dockerfile@ == containers[i].dockerfile@
            &&& texts(containers[j as int].build_args@) == texts(containers[i].build_args@)
            &&& plan.images@[j as int] == Some(j)
            &&& exists|k: int| 0 <= k < plan.order@.len() && #[trigger] plan.order@[k] == j
            &&& forall|k: int|
                0 <= k < j && (#[trigger] containers[k]).build_tag is None ==> {
                    ||| containers[k].dockerfile@ != containers[i].dockerfile@
                    ||| texts(containers[k].build_args@) != texts(containers[i].build_args@)
                }
        },
{
    let keys = needed_keys(containers);
    if let Some(j) = plan.images@[i] {
        let j = j as int;
        assert(is_builder_of(keys, i, j));
        assert(keys[j] == keys[i]);
        assert(is_builder_of(keys, j, j));
        assert(builds(keys, j));
        match plan.images@[j] {
            Some(x) => {
                assert(is_builder_of(keys, j, x as int));
                if x < j {
                    assert(keys[x as int] != keys[i]);
                }
            },
            None => {},
        }
        assert forall|k: int| 0 <= k < j && (
        #[trigger] containers[k]).build_tag is None implies containers[k].dockerfile@
            != containers[i].dockerfile@ || texts(containers[k].build_args@) != texts(
            containers[i].build_args@,
        ) by {
            assert(keys[k] != keys[i]);
        }
    }
}

/// The builds come in the order of what determines them, and each of them once.
pub proof fn builds_come_in_order(containers: Seq<Container>, plan: BuildPlan, a: int, b: int)
    requires
        plan.is_for(containers),
        0 <= a < b < plan.order@.len(),
    ensures
        plan.order@[a] < containers.len() && plan.order@[b] < containers.len(),
        plan.order@[a] != plan.order@[b],
        plan.images@[plan.order@[a] as int] == Some(plan.order@[a]),
        containers[plan.order@[a] as int].build_tag is None,
        key_before(
            BuildKey {
                dockerfile: containers[plan.order@[a] as int].dockerfile@,
                args: texts(containers[plan.order@[a] as int].build_args@),
            },
            BuildKey {
                dockerfile: containers[plan.order@[b] as int].dockerfile@,
                args: texts(containers[plan.order@[b] as int].build_args@),
            },
        ),
{
    let keys = needed_keys(containers);
    let i = plan.order@[a] as int;
    let j = plan.order@[b] as int;
    assert(builds(keys, i));
    assert(builds(keys, j));
    assert(key_before(keys[i]->0, keys[j]->0));
    if i == j {
        key_order_is_total(keys[i]->0, keys[i]->0);
    }
    first_of_the_same_is_built(containers, plan, i);
    if let Some(x) = plan.images@[i] {
        assert(is_builder_of(keys, i, x as int));
        if x < i {
            assert(keys[x as int] != keys[i]);
        }
    }
}

} // verus!
