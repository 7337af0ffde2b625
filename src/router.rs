//! The dispatch table that lets several protocols share one endpoint.

use vstd::prelude::*;

verus! {

/// The protocol handlers that the node serves.
#[derive(Clone, Copy, Debug, PartialEq, Eq, Structural)]
pub enum ProtocolHandler {
    /// Blob transfer for the content-addressed store.
    Blobs,
    /// The gossip overlay.
    Gossip,
}

/// Why an inbound connection could not be dispatched.
#[derive(Clone, Copy, Debug, PartialEq, Eq, Structural)]
pub enum RouterError {
    /// No handler is registered for the requested protocol identifier.
    UnknownProtocol,
}

/// Whether two byte strings are equal.
pub fn bytes_equal(a: &[u8], b: &[u8]) -> (r: bool)
    ensures
        r == (a@ == b@),
{
    if a.len() != b.len() {
        return false;
    }
    let mut i: usize = 0;
    while i < a.len()
        invariant
            0 <= i <= a@.len(),
            a@.len() == b@.len(),
            forall|j: int| 0 <= j < i ==> a@[j] == b@[j],
        decreases a@.len() - i,
    {
        if a[i] != b[i] {
            return false;
        }
        i = i + 1;
    }
    assert(a@ =~= b@);
    true
}

struct Route {
    protocol: Vec<u8>,
    handler: ProtocolHandler,
}

/// A table from protocol identifier to handler. It holds no application
/// state. It states the dispatch rule; a process whose endpoint routes
/// connections by itself does not pass them through this table.
pub struct ProtocolRouter {
    routes: Vec<Route>,
}

/// The handler the routes give for `protocol`: the last one registered for it.
pub open spec fn route_map(routes: Seq<(Seq<u8>, ProtocolHandler)>) -> Map<Seq<u8>, ProtocolHandler>
    decreases routes.len(),
{
    if routes.len() == 0 {
        Map::empty()
    } else {
        route_map(routes.drop_last()).insert(routes.last().0, routes.last().1)
    }
}

/// Registrations after the last one for `protocol` do not change what the
/// table gives for it.
proof fn lemma_route_prefix(s: Seq<(Seq<u8>, ProtocolHandler)>, k: int, protocol: Seq<u8>)
    requires
        0 <= k <= s.len(),
        forall|j: int| k <= j < s.len() ==> s[j].0 != protocol,
    ensures
        route_map(s).contains_key(protocol) == route_map(s.subrange(0, k)).contains_key(protocol),
        route_map(s).contains_key(protocol) ==> route_map(s)[protocol] == route_map(
            s.subrange(0, k),
        )[protocol],
    decreases s.len(),
{
    if s.len() == k {
        assert(s.subrange(0, k) =~= s);
    } else {
        let init = s.drop_last();
        assert(init.subrange(0, k) =~= s.subrange(0, k));
        lemma_route_prefix(init, k, protocol);
    }
}

impl ProtocolRouter {
    /// The registrations, in order.
    pub closed spec fn registrations(&self) -> Seq<(Seq<u8>, ProtocolHandler)> {
        self.routes@.map_values(|r: Route| (r.protocol@, r.handler))
    }

    /// The table: each identifier with the handler it dispatches to.
    pub open spec fn table(&self) -> Map<Seq<u8>, ProtocolHandler> {
        route_map(self.registrations())
    }

    /// An empty table.
    pub fn new() -> (r: ProtocolRouter)
        ensures
            r.table() == Map::<Seq<u8>, ProtocolHandler>::empty(),
    {
        let r = ProtocolRouter { routes: Vec::new() };
        assert(r.registrations() =~= Seq::<(Seq<u8>, ProtocolHandler)>::empty());
        r
    }

    /// Registers `handler` for `protocol`, replacing an earlier registration
    /// of the same identifier.
    pub fn accept(self, protocol: Vec<u8>, handler: ProtocolHandler) -> (r: ProtocolRouter)
        ensures
            r.table() == self.table().insert(protocol@, handler),
    {
        let ghost before = self.registrations();
        let mut routes = self.routes;
        routes.push(Route { protocol, handler });
        let r = ProtocolRouter { routes };
        assert(r.registrations().drop_last() =~= before);
        r
    }

    /// The handler for an inbound connection that asked for `protocol`.
    pub fn dispatch(&self, protocol: &[u8]) -> (r: Result<ProtocolHandler, RouterError>)
        ensures
            match r {
                Ok(h) => self.table().contains_key(protocol@) && h == self.table()[protocol@],
                Err(e) => !self.table().contains_key(protocol@) && e == RouterError::UnknownProtocol,
            },
    {
        let ghost regs = self.registrations();
        let mut i: usize = self.routes.len();
        while i > 0
            invariant
                i <= self.routes@.len(),
                regs == self.registrations(),
                regs.len() == self.routes@.len(),
                forall|j: int| i <= j < regs.len() ==> regs[j].0 != protocol@,
            decreases i,
        {
            i = i - 1;
            if bytes_equal(self.routes[i].protocol.as_slice(), protocol) {
                proof {
                    lemma_route_prefix(regs, i as int + 1, protocol@);
                    assert(regs.subrange(0, i as int + 1).drop_last() =~= regs.subrange(0, i as int));
                }
                return Ok(self.routes[i].handler);
            }
        }
        proof {
            lemma_route_prefix(regs, 0, protocol@);
            assert(regs.subrange(0, 0) =~= Seq::<(Seq<u8>, ProtocolHandler)>::empty());
        }
        Err(RouterError::UnknownProtocol)
    }
}

} // verus!
