//! The per-connection table that routes named inbound events to handlers.

use vstd::prelude::*;

verus! {

/// The handler logic that an event name can be bound to.
#[derive(Clone, Copy, Debug, PartialEq, Eq, Structural)]
pub enum Handler {
    /// A directed message: recipient, then message text.
    Whisper,
    /// A message to every other connection: message text.
    Broadcast,
    /// A request answered with the help text: free-form request text.
    Help,
}

impl Handler {
    /// The number of arguments the handler decodes.
    pub open spec fn arity(self) -> nat {
        match self {
            Handler::Whisper => 2,
            Handler::Broadcast => 1,
            Handler::Help => 1,
        }
    }

    /// The number of arguments the handler decodes.
    pub fn arg_count(&self) -> (r: usize)
        ensures
            r == self.arity(),
    {
        match self {
            Handler::Whisper => 2,
            Handler::Broadcast => 1,
            Handler::Help => 1,
        }
    }
}

/// The position of the last of `names` equal to `name`, or -1 when there is
/// none.
pub open spec fn last_index(names: Seq<Seq<char>>, name: Seq<char>) -> int
    decreases names.len(),
{
    if names.len() == 0 {
        -1
    } else if names.last() == name {
        names.len() - 1
    } else {
        last_index(names.drop_last(), name)
    }
}

/// The handler that an inbound event `name` with `n_args` arguments reaches
/// through the table `table`: none when the name is unbound or the arguments
/// do not decode into the handler's shape.
pub open spec fn routed(table: Map<Seq<char>, Handler>, name: Seq<char>, n_args: nat) -> Option<Handler> {
    if table.contains_key(name) && table[name].arity() == n_args {
        Some(table[name])
    } else {
        None
    }
}

proof fn lemma_last_index_range(names: Seq<Seq<char>>, name: Seq<char>)
    ensures
        -1 <= last_index(names, name) < names.len(),
        last_index(names, name) >= 0 ==> names[last_index(names, name)] == name,
    decreases names.len(),
{
    if names.len() > 0 && names.last() != name {
        lemma_last_index_range(names.drop_last(), name);
    }
}

proof fn lemma_last_index_prefix(names: Seq<Seq<char>>, name: Seq<char>, i: int)
    requires
        0 <= i <= names.len(),
        forall|j: int| i <= j < names.len() ==> names[j] != name,
    ensures
        last_index(names, name) == last_index(names.take(i), name),
    decreases names.len(),
{
    if names.len() == i {
        assert(names.take(i) =~= names);
    } else {
        assert(names.drop_last().take(i) =~= names.take(i));
        lemma_last_index_prefix(names.drop_last(), name, i);
    }
}

/// Binds event names to handlers for one connection. Binding a name that is
/// already bound replaces the earlier binding.
pub struct Registry {
    names: Vec<String>,
    handlers: Vec<Handler>,
}

impl View for Registry {
    type V = Map<Seq<char>, Handler>;

    closed spec fn view(&self) -> Map<Seq<char>, Handler> {
        Map::new(
            |k: Seq<char>| last_index(self.names(), k) >= 0,
            |k: Seq<char>| self.handlers@[last_index(self.names(), k)],
        )
    }
}

impl Registry {
    /// The bound names, in the order they were first bound.
    closed spec fn names(&self) -> Seq<Seq<char>> {
        self.names@.map_values(|s: String| s@)
    }

    /// Every bound name has its handler.
    pub closed spec fn wf(&self) -> bool {
        self.names@.len() == self.handlers@.len()
    }

    /// A table with no bindings.
    pub fn new() -> (r: Registry)
        ensures
            r.wf(),
            r@ == Map::<Seq<char>, Handler>::empty(),
    {
        let r = Registry { names: Vec::new(), handlers: Vec::new() };
        assert(r@ =~= Map::<Seq<char>, Handler>::empty());
        r
    }

    fn position(&self, name: &String) -> (r: Option<usize>)
        requires
            self.wf(),
        ensures
            match r {
                Some(i) => i as int == last_index(self.names(), name@) && i < self.names@.len(),
                None => last_index(self.names(), name@) == -1,
            },
    {
        let mut i: usize = self.names.len();
        while i > 0
            invariant
                i <= self.names@.len(),
                forall|j: int| i <= j < self.names@.len() ==> self.names()[j] != name@,
            decreases i,
        {
            if self.names[i - 1] == *name {
                proof {
                    lemma_last_index_prefix(self.names(), name@, i as int);
                    assert(self.names().take(i as int).last() == name@);
                }
                return Some(i - 1);
            }
            i = i - 1;
        }
        proof {
            lemma_last_index_prefix(self.names(), name@, 0);
        }
        None
    }

    /// Binds `name` to `handler`, replacing any earlier binding of `name`.
    pub fn register(&mut self, name: String, handler: Handler)
        requires
            old(self).wf(),
        ensures
            final(self).wf(),
            final(self)@ == old(self)@.insert(name@, handler),
    {
        let found = self.position(&name);
        match found {
            Some(i) => {
                proof {
                    lemma_last_index_range(self.names(), name@);
                }
                let ghost prev = self.names();
                self.handlers.set(i, handler);
                proof {
                    assert(self.names() == prev);
                    assert(self.handlers@ == old(self).handlers@.update(i as int, handler));
                    assert forall|k: Seq<char>| k != name@ && last_index(prev, k) >= 0 implies last_index(prev, k) != i
                        && self.handlers@[last_index(prev, k)] == old(self).handlers@[last_index(prev, k)] by {
                        lemma_last_index_range(prev, k);
                    }
                    assert(self@[name@] == handler);
                    assert(self@ =~= old(self)@.insert(name@, handler));
                }
            },
            None => {
                let ghost prev = self.names();
                self.names.push(name);
                self.handlers.push(handler);
                proof {
                    assert(self.names().drop_last() =~= prev);
                    assert(self.names().last() == name@);
                    assert(last_index(self.names(), name@) == prev.len());
                    assert forall|k: Seq<char>| k != name@ implies last_index(self.names(), k) == last_index(prev, k) && (
                    last_index(prev, k) >= 0 ==> self.handlers@[last_index(prev, k)] == old(self).handlers@[last_index(prev, k)]) by {
                        lemma_last_index_range(prev, k);
                    }
                    assert(self@ =~= old(self)@.insert(name@, handler));
                }
            },
        }
    }

    /// Looks up the handler for an inbound event `name` carrying `args`:
    /// the bound handler when `args` has its shape, else none, in which case
    /// the event is dropped.
    pub fn dispatch(&self, name: &String, args: &Vec<String>) -> (r: Option<Handler>)
        requires
            self.wf(),
        ensures
            r == routed(self@, name@, args@.len()),
    {
        match self.position(name) {
            Some(i) => {
                let h = self.handlers[i];
                if h.arg_count() == args.len() {
                    Some(h)
                } else {
                    None
                }
            },
            None => None,
        }
    }
}

/// Dispatch depends on the table, the event name and the arguments alone:
/// once `name` is bound to `h`, an event `name` whose arguments have `h`'s
/// shape reaches `h`, whatever else the table holds.
pub proof fn lemma_dispatch_after_register(
    table: Map<Seq<char>, Handler>,
    name: Seq<char>,
    h: Handler,
    args: Seq<Seq<char>>,
)
    requires
        args.len() == h.arity(),
    ensures
        routed(table.insert(name, h), name, args.len()) == Some(h),
{
}

/// An event whose name is not bound reaches no handler.
pub proof fn lemma_unknown_event_dropped(table: Map<Seq<char>, Handler>, name: Seq<char>, n_args: nat)
    requires
        !table.contains_key(name),
    ensures
        routed(table, name, n_args) is None,
{
}

} // verus!
