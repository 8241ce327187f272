//! Where finished message sends go
//! (<https://html.spec.whatwg.org/multipage/web-messaging.html#window-post-message-steps>):
//! a window message is re-checked against its target's origin at delivery
//! time, and a port message follows its port to the frame that owns it.
//! Frames and ports are named by their ids.

use vstd::prelude::*;

use crate::text::str_eq;

verus! {

/// The ASCII serialization of the origin of the URL `url` parses to
/// (`url::Url::origin`, then `Origin::ascii_serialization`), or `None` when
/// it does not parse.
pub uninterp spec fn origin_of(url: Seq<char>) -> Option<Seq<char>>;

/// The view of an optional string.
pub open spec fn opt_text(s: Option<String>) -> Option<Seq<char>> {
    match s {
        Some(s) => Some(s@),
        None => None,
    }
}

/// Calls `url::Url::parse`, then `Url::origin` and
/// `Origin::ascii_serialization`; the result is named [`origin_of`].
#[verifier::external_body]
fn url_origin(url: &str) -> (origin: Option<String>)
    ensures
        opt_text(origin) == origin_of(url@),
{
    url::Url::parse(url).ok().map(|u| u.origin().ascii_serialization())
}

/// The origin of a document, from its URL.
pub fn origin_string(url: &str) -> (origin: Option<String>)
    ensures
        opt_text(origin) == origin_of(url@),
{
    url_origin(url)
}

/// Whether a window message for `target_origin` reaches a recipient whose
/// document URL is `recipient_url` (`None` when the target frame is gone):
/// `"*"` matches any origin, anything else must equal the recipient's.
pub open spec fn window_message_allowed_spec(target_origin: Seq<char>, recipient_url: Option<Seq<char>>) -> bool {
    match recipient_url {
        None => false,
        Some(u) => target_origin == "*"@ || origin_of(u) == Some(target_origin),
    }
}

/// Whether a window message is delivered; [`deliver_window_message`] also
/// forgets the ports of one that is not.
pub fn window_message_allowed(target_origin: &str, recipient_url: Option<&str>) -> (allowed: bool)
    ensures
        allowed == window_message_allowed_spec(
            target_origin@,
            match recipient_url {
                Some(u) => Some(u@),
                None => None,
            },
        ),
{
    let url = match recipient_url {
        Some(u) => u,
        None => return false,
    };
    if str_eq(target_origin, "*") {
        return true;
    }
    match url_origin(url) {
        Some(origin) => str_eq(origin.as_str(), target_origin),
        None => false,
    }
}

/// Where a port message or a port's close goes.
#[derive(Clone, Copy, Debug, PartialEq, Eq, Structural)]
pub enum PortRoute {
    /// To the frame that owns the port.
    Deliver(u64),
    /// Nowhere: the owning frame is gone. A message's ports are forgotten.
    Drop,
    /// Back to the queue: the port is in transit, and the realm that
    /// receives it flushes the queue when it enables the port.
    Requeue,
}

/// Routes a port message (or close) by the port's owner, if any, and
/// whether that owner frame still exists.
pub fn route_port(owner: Option<u64>, owner_alive: bool) -> (route: PortRoute)
    ensures
        route == (match owner {
            None => PortRoute::Requeue,
            Some(frame) => if owner_alive {
                PortRoute::Deliver(frame)
            } else {
                PortRoute::Drop
            },
        }),
{
    match owner {
        None => PortRoute::Requeue,
        Some(frame) => if owner_alive {
            PortRoute::Deliver(frame)
        } else {
            PortRoute::Drop
        },
    }
}

/// The endpoints named in `ports`.
pub open spec fn ports_set(ports: Seq<u64>) -> Set<u64> {
    Set::new(|e: u64| ports.contains(e))
}

/// Whether `e` is one of `v`.
fn holds(v: &Vec<u64>, e: u64) -> (found: bool)
    ensures
        found == v@.contains(e),
{
    let mut i: usize = 0;
    while i < v.len()
        invariant
            i <= v@.len(),
            forall|j: int| 0 <= j < i ==> v@[j] != e,
        decreases v@.len() - i,
    {
        if v[i] == e {
            return true;
        }
        i = i + 1;
    }
    false
}

/// An element of `s` pushed with `e` is one of `s` or `e`.
proof fn lemma_push_contains(s: Seq<u64>, e: u64, x: u64)
    ensures
        s.push(e).contains(x) <==> (s.contains(x) || x == e),
{
    if s.contains(x) {
        let k = choose|k: int| 0 <= k < s.len() && s[k] == x;
        assert(s.push(e)[k] == x);
    }
    if x == e {
        assert(s.push(e)[s.len() as int] == e);
    }
    if s.push(e).contains(x) {
        let k = choose|k: int| 0 <= k < s.len() + 1 && s.push(e)[k] == x;
        if k < s.len() {
            assert(s[k] == x);
        }
    }
}

/// The port endpoints the shared messaging state still knows.
pub struct PortTable {
    live: Vec<u64>,
}

impl View for PortTable {
    type V = Set<u64>;

    closed spec fn view(&self) -> Set<u64> {
        Set::new(|e: u64| self.live@.contains(e))
    }
}

impl PortTable {
    /// A table with no endpoints.
    pub fn new() -> (t: Self)
        ensures
            t@ == Set::<u64>::empty(),
    {
        let t = PortTable { live: Vec::new() };
        assert(t@ =~= Set::<u64>::empty());
        t
    }

    /// Records a live endpoint.
    pub fn register(&mut self, endpoint: u64)
        ensures
            final(self)@ == old(self)@.insert(endpoint),
    {
        let ghost before = self.live@;
        if !holds(&self.live, endpoint) {
            self.live.push(endpoint);
            assert forall|x: u64| self.live@.contains(x) <==> (before.contains(x) || x == endpoint) by {
                lemma_push_contains(before, endpoint, x);
            }
        }
        assert(self@ =~= old(self)@.insert(endpoint));
    }

    /// Whether the endpoint is known.
    pub fn contains(&self, endpoint: u64) -> (known: bool)
        ensures
            known == self@.contains(endpoint),
    {
        holds(&self.live, endpoint)
    }

    /// Forgets the endpoints of ports that no realm will receive.
    pub fn forget_endpoints(&mut self, ports: &Vec<u64>)
        ensures
            final(self)@ == old(self)@.difference(ports_set(ports@)),
    {
        let mut kept: Vec<u64> = Vec::new();
        let mut i: usize = 0;
        while i < self.live.len()
            invariant
                i <= self.live@.len(),
                forall|e: u64|
                    kept@.contains(e) <==> (self.live@.take(i as int).contains(e) && !ports@.contains(
                        e,
                    )),
            decreases self.live@.len() - i,
        {
            let e = self.live[i];
            let ghost before = kept@;
            if !holds(ports, e) {
                kept.push(e);
            }
            assert(self.live@.take(i + 1) =~= self.live@.take(i as int).push(e));
            assert forall|x: u64|
                kept@.contains(x) <==> (self.live@.take(i + 1).contains(x) && !ports@.contains(
                    x,
                )) by {
                lemma_push_contains(self.live@.take(i as int), e, x);
                if !ports@.contains(e) {
                    lemma_push_contains(before, e, x);
                }
            }
            i = i + 1;
        }
        assert(self.live@.take(self.live@.len() as int) =~= self.live@);
        self.live = kept;
        assert(self@ =~= old(self)@.difference(ports_set(ports@)));
    }
}

/// Delivers or refuses a window message whose send carried `ports`: it is
/// delivered exactly when [`window_message_allowed_spec`] holds; a refused
/// message's ports are forgotten, since no realm will receive them.
pub fn deliver_window_message(
    table: &mut PortTable,
    target_origin: &str,
    recipient_url: Option<&str>,
    ports: &Vec<u64>,
) -> (delivered: bool)
    ensures
        delivered == window_message_allowed_spec(
            target_origin@,
            match recipient_url {
                Some(u) => Some(u@),
                None => None,
            },
        ),
        delivered ==> final(table)@ == old(table)@,
        !delivered ==> final(table)@ == old(table)@.difference(ports_set(ports@)),
{
    let delivered = window_message_allowed(target_origin, recipient_url);
    if !delivered {
        table.forget_endpoints(ports);
    }
    delivered
}

/// Routes a port message by its port's owner; when the owner frame is gone
/// the message is dropped and the ports it carried are forgotten.
pub fn route_port_message(table: &mut PortTable, owner: Option<u64>, owner_alive: bool, ports: &Vec<u64>) -> (route:
    PortRoute)
    ensures
        route == (match owner {
            None => PortRoute::Requeue,
            Some(frame) => if owner_alive {
                PortRoute::Deliver(frame)
            } else {
                PortRoute::Drop
            },
        }),
        route == PortRoute::Drop ==> final(table)@ == old(table)@.difference(ports_set(ports@)),
        route != PortRoute::Drop ==> final(table)@ == old(table)@,
{
    let route = route_port(owner, owner_alive);
    if let PortRoute::Drop = route {
        table.forget_endpoints(ports);
    }
    route
}

/// Whether a port is owned by `frame`.
pub fn endpoint_owned(owner: Option<u64>, frame: u64) -> (owned: bool)
    ensures
        owned == (owner == Some(frame)),
{
    match owner {
        Some(f) => f == frame,
        None => false,
    }
}

} // verus!
