//! A server: the objects and the signal handlers behind one bus name. A
//! server without a name only listens for signals.

use vstd::prelude::*;
use vstd::string::StringExecFns;
use crate::connection::{release_name_call, request_name_call, ReleaseNameReply, RequestNameFlags, RequestNameReply};
use crate::error::Error;
use crate::message::{Message, MessageType};
use crate::registry::{InterfacesBuilder, Outcome};
use crate::target::{Target, TargetView};
use crate::text::join;
use crate::tree::{inserted, removed, ObjectTree};

verus! {

/// The code that runs when a signal arrives.
pub trait SignalHandler {
    /// Takes notice of one signal.
    fn notify(&self, target: &Target);
}

/// A handler with the target that it is registered for.
pub struct Listener {
    /// The target.
    pub target: Target,
    /// The code to run.
    pub handler: Box<dyn SignalHandler>,
}

/// The objects and signal handlers of one bus name.
pub struct Server {
    /// The bus name.
    pub name: String,
    /// Whether the server owns its name and answers calls.
    pub can_handle: bool,
    /// The objects by path.
    pub objects: ObjectTree,
    /// The handlers for the signals of one object, in the order in which they
    /// were registered.
    pub signals: Vec<Listener>,
    /// The handlers for the signals of the objects below a path, in the order
    /// in which they were registered.
    pub namespace_signals: Vec<Listener>,
}

/// What a server made of a message.
pub enum Delivery {
    /// The message was a call for this server. It has been dealt with, and
    /// this is its outcome.
    Answered(Outcome),
    /// The message was a signal, and this many handlers took notice of it:
    /// first those registered for its target, then those registered for a
    /// path above it. The message stays available to other servers.
    Notified(usize, usize),
    /// The message is not for this server.
    Passed,
}

/// What the release of a server's name ended in.
#[derive(Debug, PartialEq, Eq)]
pub enum Released {
    /// The server had no name, or the name is released.
    Done,
    /// The request failed. This is to be logged, and nothing else happens.
    Failed(String),
    /// The bus says that the name was not this server's. This is an internal
    /// error and fatal.
    Fatal(String),
}

/// How many of the handlers are registered for exactly this target.
pub open spec fn exact_hits(list: Seq<Listener>, t: TargetView) -> nat
    decreases list.len(),
{
    if list.len() == 0 {
        0
    } else {
        exact_hits(list.drop_last(), t) + (if list.last().target@ == t {
            1nat
        } else {
            0nat
        })
    }
}

/// How many of the handlers are registered for a path above this target.
pub open spec fn namespace_hits(list: Seq<Listener>, t: TargetView) -> nat
    decreases list.len(),
{
    if list.len() == 0 {
        0
    } else {
        namespace_hits(list.drop_last(), t) + (if list.last().target@.covers(t) {
            1nat
        } else {
            0nat
        })
    }
}

/// The rule that makes the bus route a signal: its three parts, with the path
/// under the given key.
pub open spec fn rule_text(key: Seq<char>, t: TargetView) -> Seq<char> {
    "type='signal',interface='"@ + t.interface + "',"@ + key + "='"@ + t.object + "',member='"@ + t.method
        + "'"@
}

/// The rule that makes the bus route a signal.
fn rule(key: &str, signal: &Target) -> (r: String)
    ensures
        r@ == rule_text(key@, signal@),
{
    let mut out = join("type='signal',interface='", signal.interface.as_str());
    out.append("',");
    out.append(key);
    out.append("='");
    out.append(signal.object.as_str());
    out.append("',member='");
    out.append(signal.method.as_str());
    out.append("'");
    out
}

/// Runs the handlers that are registered for exactly this target, in their
/// order.
fn notify_exact(list: &Vec<Listener>, t: &Target) -> (n: usize)
    ensures
        n == exact_hits(list@, t@),
{
    let mut n: usize = 0;
    let mut i: usize = 0;
    while i < list.len()
        invariant
            i <= list.len(),
            n <= i,
            n == exact_hits(list@.take(i as int), t@),
        decreases list.len() - i,
    {
        proof {
            assert(list@.take(i as int + 1).drop_last() =~= list@.take(i as int));
        }
        if list[i].target.same(t) {
            list[i].handler.notify(t);
            n = n + 1;
        }
        i = i + 1;
    }
    assert(list@.take(i as int) =~= list@);
    n
}

/// Runs the handlers that are registered for a path above this target, in
/// their order.
fn notify_namespace(list: &Vec<Listener>, t: &Target) -> (n: usize)
    ensures
        n == namespace_hits(list@, t@),
{
    let mut n: usize = 0;
    let mut i: usize = 0;
    while i < list.len()
        invariant
            i <= list.len(),
            n <= i,
            n == namespace_hits(list@.take(i as int), t@),
        decreases list.len() - i,
    {
        proof {
            assert(list@.take(i as int + 1).drop_last() =~= list@.take(i as int));
        }
        if list[i].target.namespace_eq(t) {
            list[i].handler.notify(t);
            n = n + 1;
        }
        i = i + 1;
    }
    assert(list@.take(i as int) =~= list@);
    n
}

impl Server {
    /// Whether the server is as it was but for its objects.
    pub open spec fn same_but_objects(self, before: Server) -> bool {
        &&& self.name == before.name
        &&& self.can_handle == before.can_handle
        &&& self.signals == before.signals
        &&& self.namespace_signals == before.namespace_signals
    }

    /// A server that only listens for signals.
    pub fn new_listener(name: &str) -> (r: Result<Server, Error>)
        ensures
            r matches Ok(s) && s.name@ == name@ && !s.can_handle && s.signals@.len() == 0
                && s.namespace_signals@.len() == 0 && (forall|k: Seq<char>| !s.objects.has_object(k)),
    {
        Ok(
            Server {
                name: name.to_owned(),
                can_handle: false,
                objects: ObjectTree::new(),
                signals: Vec::new(),
                namespace_signals: Vec::new(),
            },
        )
    }

    /// The call that asks the bus for the name of a server. It asks not to be
    /// queued: where the name is taken, the request fails.
    pub fn name_request(name: &str) -> (r: Message)
        ensures
            r@.body.len() == 2,
            r@.body[0].text() == Some(name@),
            r@.body[1] == crate::value::Value::BasicValue(
                crate::value::BasicValue::Uint32(crate::connection::DO_NOT_QUEUE),
            ),
            r@ == crate::connection::bus_call("RequestName"@).with_values(r@.body),
    {
        request_name_call(name, RequestNameFlags::do_not_queue())
    }

    /// A server that answers calls under a name, given what the bus answered
    /// to the request for the name. The server comes to be only where it owns
    /// the name.
    pub fn new(name: &str, reply: RequestNameReply) -> (r: Result<Server, Error>)
        ensures
            match r {
                Ok(s) => (reply == RequestNameReply::PrimaryOwner || reply == RequestNameReply::AlreadyOwner)
                    && s.name@ == name@ && s.can_handle && s.signals@.len() == 0
                    && s.namespace_signals@.len() == 0 && (forall|k: Seq<char>| !s.objects.has_object(k)),
                Err(e) => (reply == RequestNameReply::InQueue || reply == RequestNameReply::Exists) && (
                e matches Error::NameUnavailable(n) && n@ == name@),
            },
    {
        match reply {
            RequestNameReply::PrimaryOwner | RequestNameReply::AlreadyOwner => Ok(
                Server {
                    name: name.to_owned(),
                    can_handle: true,
                    objects: ObjectTree::new(),
                    signals: Vec::new(),
                    namespace_signals: Vec::new(),
                },
            ),
            _ => Err(Error::NameUnavailable(name.to_owned())),
        }
    }

    /// The name of the server.
    pub fn name(&self) -> (r: &str)
        ensures
            r@ == self.name@,
    {
        self.name.as_str()
    }

    /// Registers an object with the given interfaces at a path. A server that
    /// only listens takes no object.
    pub fn add_object(&mut self, path: &str, ifaces: InterfacesBuilder) -> (r: Result<(), Error>)
        ensures
            final(self).same_but_objects(*old(self)),
            !old(self).can_handle ==> r == Err::<(), Error>(Error::NoServerName) && final(self).objects.nodes()
                == old(self).objects.nodes(),
            old(self).can_handle ==> inserted(old(self).objects, path@, ifaces, false, final(self).objects, r),
    {
        if !self.can_handle {
            return Err(Error::NoServerName);
        }
        self.objects.insert(path, ifaces, false)
    }

    /// Registers an object that manages the objects below it.
    pub fn add_object_manager(&mut self, path: &str, ifaces: InterfacesBuilder) -> (r: Result<(), Error>)
        ensures
            final(self).same_but_objects(*old(self)),
            !old(self).can_handle ==> r == Err::<(), Error>(Error::NoServerName) && final(self).objects.nodes()
                == old(self).objects.nodes(),
            old(self).can_handle ==> inserted(old(self).objects, path@, ifaces, true, final(self).objects, r),
    {
        if !self.can_handle {
            return Err(Error::NoServerName);
        }
        self.objects.insert(path, ifaces, true)
    }

    /// Takes the object at a path out of the server.
    pub fn remove_object(&mut self, path: &str) -> (r: Result<(), Error>)
        ensures
            final(self).same_but_objects(*old(self)),
            !old(self).can_handle ==> r == Err::<(), Error>(Error::NoServerName) && final(self).objects.nodes()
                == old(self).objects.nodes(),
            old(self).can_handle ==> removed(old(self).objects, path@, final(self).objects, r),
    {
        if !self.can_handle {
            return Err(Error::NoServerName);
        }
        self.objects.remove(path)
    }

    /// The rule that makes the bus route the signal of one object to this
    /// service.
    pub fn match_rule(signal: &Target) -> (r: String)
        ensures
            r@ == rule_text("path"@, signal@),
    {
        rule("path", signal)
    }

    /// The rule that makes the bus route the signal of every object below a
    /// path to this service.
    pub fn namespace_match_rule(signal: &Target) -> (r: String)
        ensures
            r@ == rule_text("path_namespace"@, signal@),
    {
        rule("path_namespace", signal)
    }

    /// Registers a handler for the signal of one object, after the handlers
    /// that are registered already.
    pub fn connect(&mut self, signal: Target, handler: Box<dyn SignalHandler>)
        ensures
            final(self).signals@ == old(self).signals@.push(Listener { target: signal, handler }),
            final(self).namespace_signals == old(self).namespace_signals,
            final(self).name == old(self).name,
            final(self).can_handle == old(self).can_handle,
            final(self).objects == old(self).objects,
    {
        self.signals.push(Listener { target: signal, handler });
    }

    /// Registers a handler for the signal of every object below a path, after
    /// the handlers that are registered already.
    pub fn connect_namespace(&mut self, signal: Target, handler: Box<dyn SignalHandler>)
        ensures
            final(self).namespace_signals@ == old(self).namespace_signals@.push(
                Listener { target: signal, handler },
            ),
            final(self).signals == old(self).signals,
            final(self).name == old(self).name,
            final(self).can_handle == old(self).can_handle,
            final(self).objects == old(self).objects,
    {
        self.namespace_signals.push(Listener { target: signal, handler });
    }

    /// How many handlers a message reaches as a signal: those registered for
    /// exactly its target and those registered for a path above it. A message
    /// that lacks one of interface, path and member reaches none.
    pub open spec fn hits(self, m: Message) -> (nat, nat) {
        match TargetView::of_message(m@) {
            Some(t) => (exact_hits(self.signals@, t), namespace_hits(self.namespace_signals@, t)),
            None => (0, 0),
        }
    }

    /// Runs the handlers that a signal reaches: first those for exactly its
    /// target, then those for a path above it, each group in the order of
    /// registration. Gives back how many of each ran.
    pub fn match_signal(&self, m: &Message) -> (n: (usize, usize))
        ensures
            n.0 == self.hits(*m).0,
            n.1 == self.hits(*m).1,
    {
        match Target::extract(m) {
            Some(signal) => {
                let a = notify_exact(&self.signals, &signal);
                let b = notify_namespace(&self.namespace_signals, &signal);
                (a, b)
            },
            None => (0, 0),
        }
    }

    /// Routes a call to the object at its path.
    pub fn call_method(&self, m: &Message) -> (r: Option<Outcome>)
        ensures
            self.objects.routed(*m, r),
    {
        self.objects.dispatch(m)
    }

    /// Whether the server has an object at the path that a call names.
    pub fn resolves(&self, m: &Message) -> (r: bool)
        ensures
            r == (self.can_handle && m@.path is Some && self.objects.has_object(m@.path->0)),
    {
        if !self.can_handle {
            return false;
        }
        match m.path() {
            Some(p) => self.objects.resolves(p.as_str()),
            None => false,
        }
    }

    /// Whether `r` is what the server makes of a message. A call is routed to
    /// the object at its path by a server that owns its name. A signal is
    /// given to the handlers that it reaches. Everything else is passed on.
    pub open spec fn delivers(self, m: Message, r: Delivery) -> bool {
        match m.kind {
            MessageType::MethodCall => if self.can_handle {
                exists|out: Option<Outcome>| #[trigger]
                    self.objects.routed(m, out) && (match out {
                        Some(o) => r == Delivery::Answered(o),
                        None => r == Delivery::Passed,
                    })
            } else {
                r == Delivery::Passed
            },
            MessageType::Signal => r == Delivery::Notified(self.hits(m).0 as usize, self.hits(m).1 as usize),
            _ => r == Delivery::Passed,
        }
    }

    /// Gives a message to the server.
    pub fn handle_message(&self, m: &Message) -> (r: Delivery)
        ensures
            self.delivers(*m, r),
    {
        match m.message_type() {
            MessageType::MethodCall => {
                if !self.can_handle {
                    return Delivery::Passed;
                }
                let out = self.call_method(m);
                let r = match out {
                    Some(o) => Delivery::Answered(o),
                    None => Delivery::Passed,
                };
                assert(self.objects.routed(*m, out));
                r
            },
            MessageType::Signal => {
                let n = self.match_signal(m);
                Delivery::Notified(n.0, n.1)
            },
            _ => Delivery::Passed,
        }
    }

    /// The call that gives the server's name back to the bus. A server that
    /// only listens has no name to give back.
    pub fn release_call(&self) -> (r: Option<Message>)
        ensures
            !self.can_handle ==> r is None,
            self.can_handle ==> (r matches Some(m) && m@.body.len() == 1 && m@.body[0].text() == Some(
                self.name@,
            ) && m@ == crate::connection::bus_call("ReleaseName"@).with_values(m@.body)),
    {
        if self.can_handle {
            Some(release_name_call(self.name.as_str()))
        } else {
            None
        }
    }

    /// What the release of the server's name ended in, given what the request
    /// brought. Any answer of the bus but that the name is released is fatal.
    /// A request that failed is only to be logged.
    pub fn released(&self, result: Result<ReleaseNameReply, Error>) -> (r: Released)
        ensures
            match result {
                Ok(ReleaseNameReply::Released) => r == Released::Done,
                Ok(ReleaseNameReply::NonExistent) => r matches Released::Fatal(t) && t@
                    == "internal error: non-existent name "@ + self.name@ + "?!"@,
                Ok(ReleaseNameReply::NotOwner) => r matches Released::Fatal(t) && t@
                    == "internal error: not the owner of "@ + self.name@ + "?!"@,
                Err(e) => r matches Released::Failed(t) && t@ == "failed to release "@ + self.name@ + ": "@
                    + e.text(),
            },
    {
        match result {
            Ok(ReleaseNameReply::Released) => Released::Done,
            Ok(ReleaseNameReply::NonExistent) => {
                let mut t = join("internal error: non-existent name ", self.name.as_str());
                t.append("?!");
                Released::Fatal(t)
            },
            Ok(ReleaseNameReply::NotOwner) => {
                let mut t = join("internal error: not the owner of ", self.name.as_str());
                t.append("?!");
                Released::Fatal(t)
            },
            Err(e) => {
                let why = e.message();
                let mut t = join("failed to release ", self.name.as_str());
                t.append(": ");
                t.append(why.as_str());
                Released::Failed(t)
            },
        }
    }
}

/// A handler that is registered reaches the signals of its own target: with
/// it at the end of the list, a signal of that target reaches one handler
/// more, and any other signal as many as before.
pub proof fn lemma_connect_reaches(list: Seq<Listener>, added: Listener, t: TargetView)
    ensures
        exact_hits(list.push(added), t) == exact_hits(list, t) + (if added.target@ == t {
            1nat
        } else {
            0nat
        }),
        namespace_hits(list.push(added), t) == namespace_hits(list, t) + (if added.target@.covers(t) {
            1nat
        } else {
            0nat
        }),
{
    assert(list.push(added).drop_last() =~= list);
}

/// Two handlers registered for one target, and no other, are both reached by
/// a signal of that target, each once.
pub proof fn lemma_two_listeners(first: Listener, second: Listener, t: TargetView)
    requires
        first.target@ == t,
        second.target@ == t,
    ensures
        exact_hits(seq![first, second], t) == 2,
{
    let one = Seq::<Listener>::empty().push(first);
    lemma_connect_reaches(Seq::<Listener>::empty(), first, t);
    lemma_connect_reaches(one, second, t);
    assert(one.push(second) =~= seq![first, second]);
}

} // verus!
