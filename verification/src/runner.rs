//! The runner: the listeners and the named servers of one connection, and
//! what each message that comes in is given to.

use vstd::prelude::*;
use crate::connection::RequestNameReply;
use crate::error::Error;
use crate::message::{Message, MessageType};
use crate::registry::Outcome;
use crate::server::Server;

verus! {

/// The listeners and named servers of one connection.
pub struct Runner {
    /// The servers that only listen for signals, in the order in which they
    /// were added.
    pub listeners: Vec<Server>,
    /// The servers that own a name, in the order in which they were added.
    pub servers: Vec<Server>,
}

/// What became of one message.
pub enum Step {
    /// The message was a signal. For each listener and then for each named
    /// server, in order, this holds how many handlers it reached: those
    /// registered for its target, and those registered for a path above it.
    Signal(Vec<(usize, usize)>),
    /// The message was a call. This is the outcome that the first server with
    /// an object at its path came to, or nothing where no server has one.
    Call(Option<Outcome>),
    /// The message was neither.
    Ignored,
}

/// Whether no two servers have the same name.
pub open spec fn distinct(servers: Seq<Server>) -> bool {
    forall|i: int, j: int|
        0 <= i < j < servers.len() ==> (#[trigger] servers[i]).name@ != (#[trigger] servers[j]).name@
}

/// Whether the server at a position is the first that has an object at the
/// path of a call.
pub open spec fn first_resolving(servers: Seq<Server>, m: Message, at: int) -> bool {
    &&& 0 <= at < servers.len()
    &&& answers(servers[at], m)
    &&& forall|i: int| 0 <= i < at ==> !answers(#[trigger] servers[i], m)
}

/// Whether a server owns its name and has an object at the path of a call.
pub open spec fn answers(server: Server, m: Message) -> bool {
    server.can_handle && m@.path is Some && server.objects.has_object(m@.path->0)
}

impl Runner {
    /// A runner without servers.
    pub fn new() -> (r: Result<Runner, Error>)
        ensures
            r matches Ok(run) && run.listeners@.len() == 0 && run.servers@.len() == 0,
    {
        Ok(Runner { listeners: Vec::new(), servers: Vec::new() })
    }

    /// Adds a server that listens for signals, after the listeners that are
    /// there already. Gives back its position among the listeners.
    pub fn add_listener(&mut self, name: &str) -> (r: Result<usize, Error>)
        ensures
            r == Ok::<usize, Error>(old(self).listeners@.len() as usize),
            final(self).listeners@.len() == old(self).listeners@.len() + 1,
            final(self).listeners@.drop_last() == old(self).listeners@,
            final(self).listeners@.last().name@ == name@,
            !final(self).listeners@.last().can_handle,
            final(self).servers == old(self).servers,
    {
        let ghost before = self.listeners@;
        match Server::new_listener(name) {
            Ok(listener) => {
                self.listeners.push(listener);
                assert(self.listeners@.drop_last() =~= before);
                Ok(self.listeners.len() - 1)
            },
            Err(e) => Err(e),
        }
    }

    /// Where the server of a name stands among the named servers.
    pub fn find_server(&self, name: &str) -> (r: Option<usize>)
        ensures
            match r {
                Some(at) => at < self.servers@.len() && self.servers@[at as int].name@ == name@ && forall|
                    i: int,
                | 0 <= i < at ==> (#[trigger] self.servers@[i]).name@ != name@,
                None => forall|i: int| 0 <= i < self.servers@.len() ==> (#[trigger] self.servers@[i]).name@ != name@,
            },
    {
        let wanted = name.to_owned();
        let mut i: usize = 0;
        while i < self.servers.len()
            invariant
                i <= self.servers@.len(),
                wanted@ == name@,
                forall|k: int| 0 <= k < i ==> (#[trigger] self.servers@[k]).name@ != name@,
            decreases self.servers.len() - i,
        {
            if self.servers[i].name == wanted {
                return Some(i);
            }
            i = i + 1;
        }
        None
    }

    /// Whether a server of that name is registered.
    pub fn has_server(&self, name: &str) -> (r: bool)
        ensures
            r == (exists|i: int| 0 <= i < self.servers@.len() && (#[trigger] self.servers@[i]).name@ == name@),
    {
        self.find_server(name).is_some()
    }

    /// Adds a server that answers calls under a name, after the servers that
    /// are there already, given what the bus answered to the request for the
    /// name. A name that a server of the runner has already is refused, and so
    /// is a name that the bus did not give. Gives back the position of the new
    /// server among the named servers.
    pub fn add_server(&mut self, name: &str, reply: RequestNameReply) -> (r: Result<usize, Error>)
        ensures
            final(self).listeners == old(self).listeners,
            match r {
                Ok(at) => {
                    &&& forall|i: int| 0 <= i < old(self).servers@.len() ==> (#[trigger] old(self).servers@[i]).name@ != name@
                    &&& reply == RequestNameReply::PrimaryOwner || reply == RequestNameReply::AlreadyOwner
                    &&& at == old(self).servers@.len()
                    &&& final(self).servers@.len() == at + 1
                    &&& final(self).servers@.drop_last() == old(self).servers@
                    &&& final(self).servers@.last().name@ == name@
                    &&& final(self).servers@.last().can_handle
                    &&& distinct(old(self).servers@) ==> distinct(final(self).servers@)
                },
                Err(e) => {
                    &&& final(self).servers == old(self).servers
                    &&& if exists|i: int| 0 <= i < old(self).servers@.len() && (#[trigger] old(self).servers@[i]).name@ == name@ {
                        e matches Error::ServerAlreadyRegistered(n) && n@ == name@
                    } else {
                        (reply == RequestNameReply::InQueue || reply == RequestNameReply::Exists) && (e matches Error::NameUnavailable(
                            n,
                        ) && n@ == name@)
                    }
                },
            },
    {
        if self.find_server(name).is_some() {
            return Err(Error::ServerAlreadyRegistered(name.to_owned()));
        }
        let ghost before = self.servers@;
        match Server::new(name, reply) {
            Ok(server) => {
                self.servers.push(server);
                assert(self.servers@.drop_last() =~= before);
                Ok(self.servers.len() - 1)
            },
            Err(e) => Err(e),
        }
    }

    /// Takes the server of a name out of the runner and hands it back, for its
    /// name to be released.
    pub fn remove_server(&mut self, name: &str) -> (r: Result<Server, Error>)
        ensures
            final(self).listeners == old(self).listeners,
            match r {
                Ok(server) => exists|at: int|
                    0 <= at < old(self).servers@.len() && #[trigger] old(self).servers@[at] == server
                        && server.name@ == name@ && final(self).servers@ == old(self).servers@.remove(at),
                Err(e) => final(self).servers == old(self).servers && (forall|i: int|
                    0 <= i < old(self).servers@.len() ==> (#[trigger] old(self).servers@[i]).name@ != name@) && (
                e matches Error::NoSuchServer(n) && n@ == name@),
            },
    {
        match self.find_server(name) {
            Some(at) => {
                let server = self.servers.remove(at);
                Ok(server)
            },
            None => Err(Error::NoSuchServer(name.to_owned())),
        }
    }

    /// Whether `r` holds, for each listener and then for each named server,
    /// how many handlers a signal reached.
    pub open spec fn signalled(self, m: Message, r: Seq<(usize, usize)>) -> bool {
        &&& r.len() == self.listeners@.len() + self.servers@.len()
        &&& forall|i: int|
            0 <= i < self.listeners@.len() ==> (#[trigger] r[i]).0 == self.listeners@[i].hits(m).0 && r[i].1
                == self.listeners@[i].hits(m).1
        &&& forall|i: int|
            0 <= i < self.servers@.len() ==> (#[trigger] r[self.listeners@.len() + i]).0
                == self.servers@[i].hits(m).0 && r[self.listeners@.len() + i].1 == self.servers@[i].hits(m).1
    }

    /// Whether `r` is what a call leads to: nothing where no named server has
    /// an object at its path, and else what the first such server makes of it.
    pub open spec fn called(self, m: Message, r: Option<Outcome>) -> bool {
        &&& (forall|i: int| 0 <= i < self.servers@.len() ==> !answers(#[trigger] self.servers@[i], m)) ==> r
            is None
        &&& forall|at: int|
            first_resolving(self.servers@, m, at) ==> (#[trigger] self.servers@[at]).objects.routed(m, r)
    }

    /// Gives a signal to every listener and then to every named server, in
    /// order. Gives back how many handlers each of them ran.
    pub fn run_signal(&self, m: &Message) -> (r: Vec<(usize, usize)>)
        ensures
            self.signalled(*m, r@),
    {
        let mut out: Vec<(usize, usize)> = Vec::new();
        let mut i: usize = 0;
        while i < self.listeners.len()
            invariant
                i <= self.listeners@.len(),
                out@.len() == i,
                forall|k: int|
                    0 <= k < i ==> (#[trigger] out@[k]).0 == self.listeners@[k].hits(*m).0 && out@[k].1
                        == self.listeners@[k].hits(*m).1,
            decreases self.listeners.len() - i,
        {
            out.push(self.listeners[i].match_signal(m));
            i = i + 1;
        }
        let mut j: usize = 0;
        while j < self.servers.len()
            invariant
                j <= self.servers@.len(),
                out@.len() == self.listeners@.len() + j,
                forall|k: int|
                    0 <= k < self.listeners@.len() ==> (#[trigger] out@[k]).0 == self.listeners@[k].hits(*m).0
                        && out@[k].1 == self.listeners@[k].hits(*m).1,
                forall|k: int|
                    0 <= k < j ==> (#[trigger] out@[self.listeners@.len() + k]).0 == self.servers@[k].hits(*m).0
                        && out@[self.listeners@.len() + k].1 == self.servers@[k].hits(*m).1,
            decreases self.servers.len() - j,
        {
            out.push(self.servers[j].match_signal(m));
            j = j + 1;
        }
        out
    }

    /// Gives a call to the first named server, in order, that has an object at
    /// the path of the call. Where none has, the call is dropped and gets no
    /// reply.
    pub fn run_call(&self, m: &Message) -> (r: Option<Outcome>)
        ensures
            self.called(*m, r),
    {
        let mut i: usize = 0;
        while i < self.servers.len()
            invariant
                i <= self.servers@.len(),
                forall|k: int| 0 <= k < i ==> !answers(#[trigger] self.servers@[k], *m),
            decreases self.servers.len() - i,
        {
            if self.servers[i].resolves(m) {
                let r = self.servers[i].call_method(m);
                assert forall|at: int| first_resolving(self.servers@, *m, at) implies (#[trigger] self.servers@[at]).objects.routed(
                    *m,
                    r,
                ) by {
                    if at < i {
                        assert(!answers(self.servers@[at], *m));
                    } else if at > i {
                        assert(answers(self.servers@[i as int], *m));
                    }
                }
                return r;
            }
            i = i + 1;
        }
        None
    }

    /// Deals with one message: a signal goes to every listener and every
    /// named server, a call to the first named server that has its object,
    /// and anything else to nobody.
    pub fn step(&self, m: &Message) -> (r: Step)
        ensures
            match r {
                Step::Signal(counts) => m.kind == MessageType::Signal && self.signalled(*m, counts@),
                Step::Call(out) => m.kind == MessageType::MethodCall && self.called(*m, out),
                Step::Ignored => m.kind != MessageType::Signal && m.kind != MessageType::MethodCall,
            },
    {
        match m.message_type() {
            MessageType::Signal => Step::Signal(self.run_signal(m)),
            MessageType::MethodCall => Step::Call(self.run_call(m)),
            _ => Step::Ignored,
        }
    }
}

} // verus!
