//! Images, bootstrapping options and port bindings.

use vstd::prelude::*;

use crate::command::optional;
use crate::name_map::NameMap;
use crate::text::{decimal, decimal_stands_for_the_number, to_decimal};

verus! {

/// Wrapper struct for the image, call [SuperImage::get_image_id] to get the id
/// of the image as a &str or [SuperImage::into_inner] to get the underlying
/// [String].
pub struct SuperImage(pub String);

impl Clone for SuperImage {
    fn clone(&self) -> (r: Self)
        ensures
            r == *self,
    {
        SuperImage(self.0.clone())
    }
}

impl SuperImage {
    pub fn new(image_id: String) -> (r: Self)
        ensures
            r.0 == image_id,
    {
        SuperImage(image_id)
    }

    pub fn into_inner(self) -> (r: String)
        ensures
            r == self.0,
    {
        self.0
    }

    pub fn get_image_id(&self) -> (r: &str)
        ensures
            r@ == self.0@,
    {
        self.0.as_str()
    }
}

/// What kind of target a bootstrapped binary is.
#[derive(Clone, Copy, PartialEq, Eq, Structural, Debug)]
pub enum BootstrapOptions {
    Example,
    Bin,
    Test,
    Bench,
}

impl BootstrapOptions {
    /// The flag that selects the target.
    pub open spec fn flag(self) -> Seq<char> {
        match self {
            BootstrapOptions::Example => "--example"@,
            BootstrapOptions::Bin => "--bin"@,
            BootstrapOptions::Test => "--test"@,
            BootstrapOptions::Bench => "--bench"@,
        }
    }

    /// The directory below the profile's directory that the target is in.
    pub open spec fn path_text(self) -> Option<Seq<char>> {
        match self {
            BootstrapOptions::Example => Some("examples"@),
            BootstrapOptions::Test => Some("tests"@),
            BootstrapOptions::Bench => Some("benches"@),
            BootstrapOptions::Bin => None,
        }
    }

    pub fn to_flag(self) -> (r: &'static str)
        ensures
            r@ == self.flag(),
    {
        match self {
            BootstrapOptions::Example => "--example",
            BootstrapOptions::Bin => "--bin",
            BootstrapOptions::Test => "--test",
            BootstrapOptions::Bench => "--bench",
        }
    }

    pub fn to_path_str(self) -> (r: Option<&'static str>)
        ensures
            match r {
                Some(s) => self.path_text() == Some(s@),
                None => self.path_text() is None,
            },
    {
        match self {
            BootstrapOptions::Example => Some("examples"),
            BootstrapOptions::Test => Some("tests"),
            BootstrapOptions::Bench => Some("benches"),
            BootstrapOptions::Bin => None,
        }
    }
}

/// Define port mapping like -p <host_ip>:<host_port>:<container_port>. Usually
/// this shouldn't be used for integration testing because all container should
/// already be accessible.
pub struct PortBind {
    pub container_port: u16,
    pub host_port: Option<u16>,
    /// The text of an IP address
    pub host_ip: Option<String>,
}

impl PortBind {
    /// Results in option like <port>:<port>
    pub fn new(port: u16) -> (r: Self)
        ensures
            r == (PortBind { container_port: port, host_port: Some(port), host_ip: None }),
    {
        PortBind { container_port: port, host_port: Some(port), host_ip: None }
    }

    /// Results in option like <host_port>:<container_port>
    pub fn with_host_port(self, port: u16) -> (r: Self)
        ensures
            r == (PortBind { host_port: Some(port), ..self }),
    {
        let mut r: PortBind = self;
        r.host_port = Some(port);
        r
    }

    /// Results in option like <ip>:<host_port>:<container_port>
    pub fn with_host_ip(self, ip: String) -> (r: Self)
        ensures
            r == (PortBind { host_ip: Some(ip), ..self }),
    {
        let mut r: PortBind = self;
        r.host_ip = Some(ip);
        r
    }
}

impl From<u16> for PortBind {
    fn from(port: u16) -> (r: Self) {
        PortBind::new(port)
    }
}

impl vstd::std_specs::convert::FromSpecImpl<u16> for PortBind {
    open spec fn obeys_from_spec() -> bool {
        true
    }

    open spec fn from_spec(port: u16) -> Self {
        PortBind { container_port: port, host_port: Some(port), host_ip: None }
    }
}

/// The host's side of a port binding.
pub struct HostBinding {
    pub host_port: String,
    pub host_ip: Option<String>,
}

/// The value of a [HostBinding].
#[verifier::ext_equal]
pub struct HostBindingView {
    pub host_port: Seq<char>,
    pub host_ip: Option<Seq<char>>,
}

impl View for HostBinding {
    type V = HostBindingView;

    open spec fn view(&self) -> HostBindingView {
        HostBindingView { host_port: self.host_port@, host_ip: optional(self.host_ip) }
    }
}

/// The host's side of a binding: the container's port is used if no other is
/// given.
pub open spec fn host_side(pb: PortBind) -> HostBindingView {
    HostBindingView {
        host_port: decimal(
            (match pb.host_port {
                Some(p) => p,
                None => pb.container_port,
            }) as nat,
        ),
        host_ip: optional(pb.host_ip),
    }
}

/// The bindings of a port of the container, in their order.
pub open spec fn bindings_of(pbs: Seq<PortBind>, port: Seq<char>) -> Seq<HostBindingView>
    decreases pbs.len(),
{
    if pbs.len() == 0 {
        Seq::empty()
    } else {
        let before = bindings_of(pbs.drop_last(), port);
        if decimal(pbs.last().container_port as nat) == port {
            before.push(host_side(pbs.last()))
        } else {
            before
        }
    }
}

/// The views of bindings.
pub open spec fn binding_views(v: Seq<HostBinding>) -> Seq<HostBindingView> {
    Seq::new(v.len(), |i: int| v[i]@)
}

/// The ports of the container that are exposed, each with its bindings. Several
/// bindings of one port are all kept.
pub fn port_bindings_to_bollard_args(pbs: &Vec<PortBind>) -> (r: NameMap<Vec<HostBinding>>)
    ensures
        r.wf(),
        forall|port: Seq<char>|
            r@.dom().contains(port) <==> #[trigger] bindings_of(pbs@, port).len() > 0,
        forall|port: Seq<char>|
            r@.dom().contains(port) ==> binding_views((#[trigger] r@[port])@) == bindings_of(
                pbs@,
                port,
            ),
{
    let mut r: NameMap<Vec<HostBinding>> = NameMap::new();
    let mut i: usize = 0;
    assert(pbs@.take(0) =~= Seq::empty());
    while i < pbs.len()
        invariant
            i <= pbs@.len(),
            r.wf(),
            forall|port: Seq<char>|
                r@.dom().contains(port) <==> #[trigger] bindings_of(
                    pbs@.take(i as int),
                    port,
                ).len() > 0,
            forall|port: Seq<char>|
                r@.dom().contains(port) ==> binding_views((#[trigger] r@[port])@) == bindings_of(
                    pbs@.take(i as int),
                    port,
                ),
        decreases pbs@.len() - i,
    {
        let ghost before = r@;
        let ghost done = pbs@.take(i as int);
        let ghost now = pbs@.take(i + 1);
        proof {
            assert(now.drop_last() =~= done);
            assert(now.last() == pbs@[i as int]);
        }
        let pb: &PortBind = &pbs[i];
        let port: String = to_decimal(pb.container_port as u64);
        let host: u16 = match pb.host_port {
            Some(p) => p,
            None => pb.container_port,
        };
        let binding = HostBinding {
            host_port: to_decimal(host as u64),
            host_ip: match &pb.host_ip {
                Some(ip) => Some(ip.clone()),
                None => None,
            },
        };
        assert(binding@ =~= host_side(*pb));
        let ghost key = port@;
        let mut list: Vec<HostBinding> = match r.take(port.as_str()) {
            Some(list) => list,
            None => Vec::new(),
        };
        let ghost held = list@;
        proof {
            assert(bindings_of(done, key) =~= binding_views(held));
        }
        list.push(binding);
        r.put(port, list);
        proof {
            assert(binding_views(list@) =~= binding_views(held).push(binding@));
            assert(r@ =~= before.insert(key, list));
            assert forall|port: Seq<char>|
                r@.dom().contains(port) <==> #[trigger] bindings_of(now, port).len() > 0 by {
                assert(bindings_of(done, port).len() > 0 <==> before.dom().contains(port));
            }
            assert forall|port: Seq<char>| r@.dom().contains(port) implies binding_views(
                (#[trigger] r@[port])@,
            ) == bindings_of(now, port) by {
                if port != key {
                    assert(before.dom().contains(port));
                    assert(r@[port] == before[port]);
                }
            }
        }
        i = i + 1;
    }
    assert(pbs@.take(i as int) =~= pbs@);
    r
}

/// Every port binding that is asked for is there, whatever others are asked for
/// on the same port of the container.
pub proof fn no_binding_is_lost(pbs: Seq<PortBind>, i: int)
    requires
        0 <= i < pbs.len(),
    ensures
        bindings_of(pbs, decimal(pbs[i].container_port as nat)).contains(host_side(pbs[i])),
    decreases pbs.len(),
{
    let port = decimal(pbs[i].container_port as nat);
    let all = bindings_of(pbs, port);
    if i == pbs.len() - 1 {
        assert(all[all.len() - 1] == host_side(pbs[i]));
    } else {
        no_binding_is_lost(pbs.drop_last(), i);
        let before = bindings_of(pbs.drop_last(), port);
        let k = before.index_of(host_side(pbs[i]));
        assert(all[k] == host_side(pbs[i]));
    }
}

/// A port of the container has the bindings that are asked for on it and no others: on the
/// host's side with the port that was given, or else that of the container, and with the
/// address that was given.
pub proof fn bindings_belong_to_their_port(pbs: Seq<PortBind>, port: u16, b: HostBindingView)
    ensures
        bindings_of(pbs, decimal(port as nat)).contains(b) <==> exists|i: int|
            {
                &&& 0 <= i < pbs.len()
                &&& (#[trigger] pbs[i]).container_port == port
                &&& b.host_ip == optional(pbs[i].host_ip)
                &&& b.host_port == match pbs[i].host_port {
                    Some(p) => decimal(p as nat),
                    None => decimal(port as nat),
                }
            },
    decreases pbs.len(),
{
    let key = decimal(port as nat);
    if pbs.len() > 0 {
        let front = pbs.drop_last();
        let last = pbs.last();
        bindings_belong_to_their_port(front, port, b);
        decimal_stands_for_the_number(port as nat);
        decimal_stands_for_the_number(last.container_port as nat);
        assert(forall|i: int| 0 <= i < front.len() ==> #[trigger] front[i] == pbs[i]);
        assert(forall|i: int| 0 <= i < front.len() ==> front[i] == #[trigger] pbs[i]);
        assert(pbs[pbs.len() - 1] == last);
        let x = bindings_of(front, key);
        let y = bindings_of(pbs, key);
        if x.contains(b) {
            let k = choose|k: int| 0 <= k < x.len() && x[k] == b;
            assert(y[k] == b);
        }
        if y.contains(b) && !x.contains(b) {
            let k = choose|k: int| 0 <= k < y.len() && y[k] == b;
            if k < x.len() {
                assert(x[k] == b);
            }
        }
        if last.container_port == port && b == host_side(last) {
            assert(y[x.len() as int] == b);
        }
    }
}

/// The flags of cargo for the kinds of targets, and the directories they are built in.
pub proof fn targets_have_these_flags_and_directories(option: BootstrapOptions)
    ensures
        option is Example ==> option.flag() == "--example"@ && option.path_text() == Some(
            "examples"@,
        ),
        option is Test ==> option.flag() == "--test"@ && option.path_text() == Some("tests"@),
        option is Bench ==> option.flag() == "--bench"@ && option.path_text() == Some("benches"@),
        option is Bin ==> option.flag() == "--bin"@ && option.path_text() is None,
{
}

/// The bindings of a port are kept in the order in which they were asked for.
pub proof fn bindings_keep_their_order(pbs: Seq<PortBind>, pb: PortBind, port: Seq<char>)
    ensures
        bindings_of(pbs.push(pb), port) == if decimal(pb.container_port as nat) == port {
            bindings_of(pbs, port).push(host_side(pb))
        } else {
            bindings_of(pbs, port)
        },
{
    assert(pbs.push(pb).drop_last() =~= pbs);
}

} // verus!
