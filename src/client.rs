//! The client's decisions: which interface a new connection uses, and which
//! connection events end its reuse.
use vstd::prelude::*;

verus! {

/// The kind of an address.
#[derive(Debug, Clone, Copy, PartialEq, Eq, Structural)]
pub enum AddrKind {
    Ipv4,
    Ipv6,
    /// Anything that is not an IP address.
    Other,
}

/// A bound interface as the client sees it when it picks one.
#[derive(Debug, Clone, Copy, PartialEq, Eq, Structural)]
pub struct InterfaceCandidate {
    /// The kind of the address it is bound to.
    pub kind: AddrKind,
    /// Whether it is still registered, not closed.
    pub registered: bool,
    /// How many owners it has; one means only the registry holds it.
    pub strong_count: usize,
}

/// Whether the client may use an interface for a server of kind `kind`.
pub open spec fn usable(c: InterfaceCandidate, kind: AddrKind, reuse_address: bool) -> bool {
    c.kind == kind && c.registered && (reuse_address || c.strong_count == 1)
}

/// Picks the first bound interface of the server's address kind; unless
/// addresses are reused, one that another connection uses is passed over.
/// `None` means no suitable address is available.
pub fn select_interface(candidates: &Vec<InterfaceCandidate>, kind: AddrKind, reuse_address: bool) -> (r: Option<usize>)
    ensures
        r matches Some(i) ==> i < candidates@.len() && usable(candidates@[i as int], kind, reuse_address)
            && forall|j: int| 0 <= j < i ==> !usable(#[trigger] candidates@[j], kind, reuse_address),
        r is None ==> forall|j: int| 0 <= j < candidates@.len() ==> !usable(#[trigger] candidates@[j], kind, reuse_address),
{
    let mut i: usize = 0;
    while i < candidates.len()
        invariant
            i <= candidates@.len(),
            forall|j: int| 0 <= j < i ==> !usable(#[trigger] candidates@[j], kind, reuse_address),
        decreases candidates@.len() - i,
    {
        let c = candidates[i];
        if c.kind == kind && c.registered && (reuse_address || c.strong_count == 1) {
            return Some(i);
        }
        i = i + 1;
    }
    None
}

/// Where a client with no bound interface binds one for a server of kind
/// `kind`: any address of the same family with a port the system assigns.
pub fn unspecified_bind_addr(kind: AddrKind) -> (r: Option<&'static str>)
    ensures
        kind == AddrKind::Ipv4 ==> r == Some("inet://0.0.0.0/alloc"),
        kind == AddrKind::Ipv6 ==> r == Some("inet://::/alloc"),
        kind == AddrKind::Other ==> r is None,
{
    match kind {
        AddrKind::Ipv4 => Some("inet://0.0.0.0/alloc"),
        AddrKind::Ipv6 => Some("inet://::/alloc"),
        AddrKind::Other => None,
    }
}

/// The events a connection reports to the client.
#[derive(Debug, Clone, Copy, PartialEq, Eq, Structural)]
pub enum ConnEvent {
    Handshaked,
    ProbedNewPath,
    PathInactivated,
    ApplicationClose,
    Failed,
    Closed,
    StatelessReset,
    Terminated,
}

/// Whether an event takes the connection out of the cache of reusable
/// connections: the application closed it, it failed, or the peer closed it.
pub fn leaves_reuse_cache(event: ConnEvent) -> (r: bool)
    ensures
        r == (event == ConnEvent::ApplicationClose || event == ConnEvent::Failed || event
            == ConnEvent::Closed),
{
    match event {
        ConnEvent::ApplicationClose | ConnEvent::Failed | ConnEvent::Closed => true,
        _ => false,
    }
}

} // verus!
