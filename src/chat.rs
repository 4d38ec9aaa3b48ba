//! Chat message handlers over the set of connected recipients: directed
//! whispers, broadcasts to everyone else, and help requests.

use crate::dispatch::{routed, Handler, Registry};
use vstd::prelude::*;

verus! {

/// The event name of an outbound message.
#[derive(Clone, Copy, Debug, PartialEq, Eq, Structural)]
pub enum OutEvent {
    Whisper,
    Broadcast,
    Help,
}

/// A message to send on connection `to`.
pub struct Outbound {
    pub to: u64,
    pub event: OutEvent,
    pub args: Vec<String>,
}

/// An outbound message as values: connection, event, arguments.
pub type OutboundView = (u64, OutEvent, Seq<Seq<char>>);

impl View for Outbound {
    type V = OutboundView;

    open spec fn view(&self) -> OutboundView {
        (self.to, self.event, self.args@.map_values(|s: String| s@))
    }
}

/// The messages of `v`, as values.
pub open spec fn sends_of(v: Seq<Outbound>) -> Seq<OutboundView> {
    v.map_values(|o: Outbound| o@)
}

/// The text sent in answer to a help request.
pub open spec fn help_message() -> Seq<char> {
    "Here's some help!"@
}

/// What a whisper of `message` to `recipient` sends, given the connections
/// `conns` (id and recipient name, in order): one message to each connection
/// of that name.
pub open spec fn whisper_sends(conns: Seq<(u64, Seq<char>)>, recipient: Seq<char>, message: Seq<char>) -> Seq<
    OutboundView,
>
    decreases conns.len(),
{
    if conns.len() == 0 {
        Seq::empty()
    } else {
        let c = conns.last();
        let rest = whisper_sends(conns.drop_last(), recipient, message);
        if c.1 == recipient {
            rest.push((c.0, OutEvent::Whisper, seq![recipient, message]))
        } else {
            rest
        }
    }
}

/// What a broadcast of `message` from connection `from` sends, given the
/// connections `conns`: one message to each connection other than `from`.
pub open spec fn broadcast_sends(conns: Seq<(u64, Seq<char>)>, from: u64, message: Seq<char>) -> Seq<
    OutboundView,
>
    decreases conns.len(),
{
    if conns.len() == 0 {
        Seq::empty()
    } else {
        let c = conns.last();
        let rest = broadcast_sends(conns.drop_last(), from, message);
        if c.0 != from {
            rest.push((c.0, OutEvent::Broadcast, seq![message]))
        } else {
            rest
        }
    }
}

/// What a help request from connection `from` sends: the help text, back to
/// `from` alone.
pub open spec fn help_sends(from: u64) -> Seq<OutboundView> {
    seq![(from, OutEvent::Help, seq![help_message()])]
}

/// What an inbound event `name` with `args` on connection `from` sends,
/// given the connections `conns` and the connection's table `table`.
pub open spec fn response(
    conns: Seq<(u64, Seq<char>)>,
    table: Map<Seq<char>, Handler>,
    from: u64,
    name: Seq<char>,
    args: Seq<Seq<char>>,
) -> Seq<OutboundView> {
    match routed(table, name, args.len()) {
        Some(Handler::Whisper) => whisper_sends(conns, args[0], args[1]),
        Some(Handler::Broadcast) => broadcast_sends(conns, from, args[0]),
        Some(Handler::Help) => help_sends(from),
        None => Seq::empty(),
    }
}

fn help_text() -> (r: String)
    ensures
        r@ == help_message(),
{
    proof {
        reveal_strlit("Here's some help!");
    }
    "Here's some help!".to_owned()
}

fn pair_args(a: &String, b: &String) -> (r: Vec<String>)
    ensures
        r@.map_values(|s: String| s@) == seq![a@, b@],
{
    let r = vec![a.clone(), b.clone()];
    assert(r@.map_values(|s: String| s@) =~= seq![a@, b@]);
    r
}

fn single_arg(a: &String) -> (r: Vec<String>)
    ensures
        r@.map_values(|s: String| s@) == seq![a@],
{
    let r = vec![a.clone()];
    assert(r@.map_values(|s: String| s@) =~= seq![a@]);
    r
}

/// Handles a whisper from `sender` on connection `from`: sends `message` to
/// every connection reached by the name `recipient`, and to no other. A
/// recipient that is not connected gets nothing, and the sender is not told.
/// The sender's name is taken as given, unchecked.
pub fn handle_whisper(hub: &Hub, from: u64, sender: &String, recipient: &String, message: &String) -> (r: Vec<
    Outbound,
>)
    requires
        hub.wf(),
    ensures
        sends_of(r@) == whisper_sends(hub@, recipient@, message@),
{
    let mut out: Vec<Outbound> = Vec::new();
    let n = hub.ids.len();
    let mut i: usize = 0;
    while i < n
        invariant
            hub.wf(),
            n == hub@.len(),
            i <= n,
            sends_of(out@) == whisper_sends(hub@.take(i as int), recipient@, message@),
        decreases n - i,
    {
        proof {
            assert(hub@.take(i + 1).drop_last() =~= hub@.take(i as int));
        }
        if hub.names[i] == *recipient {
            let o = Outbound { to: hub.ids[i], event: OutEvent::Whisper, args: pair_args(recipient, message) };
            let ghost prev = out@;
            out.push(o);
            proof {
                assert(sends_of(out@) =~= sends_of(prev).push(o@));
            }
        }
        i = i + 1;
    }
    proof {
        assert(hub@.take(n as int) =~= hub@);
    }
    out
}

/// Handles a broadcast from `sender` on connection `from`: sends `message`
/// to every connection but `from`. The sender's name is taken as given,
/// unchecked.
pub fn handle_broadcast(hub: &Hub, from: u64, sender: &String, message: &String) -> (r: Vec<Outbound>)
    requires
        hub.wf(),
    ensures
        sends_of(r@) == broadcast_sends(hub@, from, message@),
{
    let mut out: Vec<Outbound> = Vec::new();
    let n = hub.ids.len();
    let mut i: usize = 0;
    while i < n
        invariant
            hub.wf(),
            n == hub@.len(),
            i <= n,
            sends_of(out@) == broadcast_sends(hub@.take(i as int), from, message@),
        decreases n - i,
    {
        proof {
            assert(hub@.take(i + 1).drop_last() =~= hub@.take(i as int));
        }
        if hub.ids[i] != from {
            let o = Outbound { to: hub.ids[i], event: OutEvent::Broadcast, args: single_arg(message) };
            let ghost prev = out@;
            out.push(o);
            proof {
                assert(sends_of(out@) =~= sends_of(prev).push(o@));
            }
        }
        i = i + 1;
    }
    proof {
        assert(hub@.take(n as int) =~= hub@);
    }
    out
}

/// Handles a help request from `sender` on connection `from`: sends the
/// help text back to `from` alone.
pub fn handle_help(from: u64, sender: &String) -> (r: Vec<Outbound>)
    ensures
        sends_of(r@) == help_sends(from),
{
    let text = help_text();
    let o = Outbound { to: from, event: OutEvent::Help, args: single_arg(&text) };
    let r = vec![o];
    assert(sends_of(r@) =~= help_sends(from));
    r
}

/// The chat table: `whisper`, `broadcast`, and `command` for help requests.
pub fn chat_registry() -> (r: Registry)
    ensures
        r.wf(),
        r@ == map![
            "whisper"@ => Handler::Whisper,
            "broadcast"@ => Handler::Broadcast,
            "command"@ => Handler::Help,
        ],
{
    let mut r = Registry::new();
    r.register("whisper".to_owned(), Handler::Whisper);
    r.register("broadcast".to_owned(), Handler::Broadcast);
    r.register("command".to_owned(), Handler::Help);
    assert(r@ =~= map![
        "whisper"@ => Handler::Whisper,
        "broadcast"@ => Handler::Broadcast,
        "command"@ => Handler::Help,
    ]);
    r
}

/// Handles an inbound event `name` with `args` from `sender` on connection
/// `from`: routes it through `table` and runs the handler it reaches with
/// exactly those arguments. An unbound name, or arguments that do not fit
/// the handler, send nothing.
pub fn receive(hub: &Hub, table: &Registry, from: u64, sender: &String, name: &String, args: &Vec<String>) -> (r: Vec<
    Outbound,
>)
    requires
        hub.wf(),
        table.wf(),
    ensures
        sends_of(r@) == response(hub@, table@, from, name@, args@.map_values(|s: String| s@)),
{
    match table.dispatch(name, args) {
        Some(Handler::Whisper) => handle_whisper(hub, from, sender, &args[0], &args[1]),
        Some(Handler::Broadcast) => handle_broadcast(hub, from, sender, &args[0]),
        Some(Handler::Help) => handle_help(from, sender),
        None => {
            let r: Vec<Outbound> = Vec::new();
            assert(sends_of(r@) =~= Seq::<OutboundView>::empty());
            r
        },
    }
}

/// A broadcast from connection `from` reaches every other connection, and
/// never `from` itself.
pub proof fn lemma_broadcast_reaches_others(conns: Seq<(u64, Seq<char>)>, from: u64, message: Seq<char>)
    ensures
        forall|k: int|
            0 <= k < conns.len() && conns[k].0 != from ==> broadcast_sends(conns, from, message).contains(
                (conns[k].0, OutEvent::Broadcast, seq![message]),
            ),
        forall|j: int|
            0 <= j < broadcast_sends(conns, from, message).len() ==> broadcast_sends(conns, from, message)[j].0
                != from,
    decreases conns.len(),
{
    if conns.len() > 0 {
        let rest = conns.drop_last();
        lemma_broadcast_reaches_others(rest, from, message);
        let prev = broadcast_sends(rest, from, message);
        let all = broadcast_sends(conns, from, message);
        assert forall|k: int| 0 <= k < conns.len() && conns[k].0 != from implies all.contains(
            (conns[k].0, OutEvent::Broadcast, seq![message]),
        ) by {
            if k < conns.len() - 1 {
                assert(rest[k] == conns[k]);
                let j = choose|j: int| 0 <= j < prev.len() && prev[j] == (conns[k].0, OutEvent::Broadcast, seq![message]);
                assert(all[j] == prev[j]);
            } else {
                assert(all[all.len() - 1] == (conns[k].0, OutEvent::Broadcast, seq![message]));
            }
        }
    }
}

/// A whisper to a name that no connection has sends nothing.
pub proof fn lemma_whisper_to_absent(conns: Seq<(u64, Seq<char>)>, recipient: Seq<char>, message: Seq<char>)
    requires
        forall|k: int| 0 <= k < conns.len() ==> conns[k].1 != recipient,
    ensures
        whisper_sends(conns, recipient, message) == Seq::<OutboundView>::empty(),
    decreases conns.len(),
{
    if conns.len() > 0 {
        lemma_whisper_to_absent(conns.drop_last(), recipient, message);
    }
}

/// Once `name` is bound to the whisper handler, an event `name` with a
/// recipient and a message runs that handler on exactly those two arguments.
pub proof fn lemma_whisper_routed(
    conns: Seq<(u64, Seq<char>)>,
    table: Map<Seq<char>, Handler>,
    from: u64,
    name: Seq<char>,
    args: Seq<Seq<char>>,
)
    requires
        args.len() == 2,
    ensures
        response(conns, table.insert(name, Handler::Whisper), from, name, args) == whisper_sends(
            conns,
            args[0],
            args[1],
        ),
{
}

/// The currently connected clients: each connection's id, unique, and the
/// recipient name it is reached by.
pub struct Hub {
    ids: Vec<u64>,
    names: Vec<String>,
}

impl View for Hub {
    type V = Seq<(u64, Seq<char>)>;

    closed spec fn view(&self) -> Seq<(u64, Seq<char>)> {
        Seq::new(self.ids@.len(), |k: int| (self.ids@[k], self.names@[k]@))
    }
}

/// Whether the connection ids of `conns` are all different.
pub open spec fn ids_unique(conns: Seq<(u64, Seq<char>)>) -> bool {
    forall|j: int, k: int| 0 <= j < k < conns.len() ==> conns[j].0 != conns[k].0
}

impl Hub {
    /// Ids and names pair up, and no id is connected twice.
    pub closed spec fn wf(&self) -> bool {
        &&& self.ids@.len() == self.names@.len()
        &&& ids_unique(self@)
    }

    /// A hub with no connections.
    pub fn new() -> (r: Hub)
        ensures
            r.wf(),
            r@ == Seq::<(u64, Seq<char>)>::empty(),
    {
        let r = Hub { ids: Vec::new(), names: Vec::new() };
        assert(r@ =~= Seq::<(u64, Seq<char>)>::empty());
        r
    }

    /// The number of connections.
    pub fn len(&self) -> (r: usize)
        requires
            self.wf(),
        ensures
            r == self@.len(),
    {
        self.ids.len()
    }

    fn find(&self, id: u64) -> (r: Option<usize>)
        requires
            self.wf(),
        ensures
            match r {
                Some(k) => k < self@.len() && self@[k as int].0 == id,
                None => forall|k: int| 0 <= k < self@.len() ==> self@[k].0 != id,
            },
    {
        let mut i: usize = 0;
        while i < self.ids.len()
            invariant
                self.wf(),
                i <= self@.len(),
                forall|k: int| 0 <= k < i ==> self@[k].0 != id,
            decreases self@.len() - i,
        {
            if self.ids[i] == id {
                return Some(i);
            }
            i = i + 1;
        }
        None
    }

    /// Connects `id` under recipient name `name`; a connection that is
    /// already there is renamed in place.
    pub fn connect(&mut self, id: u64, name: String)
        requires
            old(self).wf(),
        ensures
            final(self).wf(),
            (forall|k: int| 0 <= k < old(self)@.len() ==> old(self)@[k].0 != id) ==> final(self)@ == old(self)@.push(
                (id, name@),
            ),
            forall|k: int|
                0 <= k < old(self)@.len() && old(self)@[k].0 == id ==> final(self)@ == old(self)@.update(
                    k,
                    (id, name@),
                ),
    {
        let ghost nm = name@;
        match self.find(id) {
            Some(k) => {
                self.names.set(k, name);
                proof {
                    assert(self@ =~= old(self)@.update(k as int, (id, nm)));
                }
            },
            None => {
                self.ids.push(id);
                self.names.push(name);
                proof {
                    assert(self@ =~= old(self)@.push((id, nm)));
                }
            },
        }
    }

    /// Disconnects `id`, if it is connected.
    pub fn disconnect(&mut self, id: u64)
        requires
            old(self).wf(),
        ensures
            final(self).wf(),
            (forall|k: int| 0 <= k < old(self)@.len() ==> old(self)@[k].0 != id) ==> final(self)@ == old(self)@,
            forall|k: int|
                0 <= k < old(self)@.len() && old(self)@[k].0 == id ==> final(self)@ == old(self)@.remove(k),
    {
        match self.find(id) {
            Some(k) => {
                self.ids.remove(k);
                self.names.remove(k);
                proof {
                    assert(self@ =~= old(self)@.remove(k as int));
                }
            },
            None => {},
        }
    }
}

} // verus!
