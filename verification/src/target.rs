//! The address of a signal: an interface, the path of an object and a member.

use vstd::prelude::*;
use crate::message::{Message, MessageView};
use crate::text::{has_prefix, join, lemma_lt_irreflexive, lemma_lt_total, lemma_lt_transitive, precedes, starts_with, text_lt};

verus! {

/// A signal that an object may emit.
#[derive(Clone, Debug, PartialEq, Eq, PartialOrd, Ord)]
pub struct Target {
    /// The interface that the signal belongs to.
    pub interface: String,
    /// The path of the object that emits the signal.
    pub object: String,
    /// The name of the signal.
    pub method: String,
}

/// A target as a mathematical value.
pub struct TargetView {
    pub interface: Seq<char>,
    pub object: Seq<char>,
    pub method: Seq<char>,
}

impl View for Target {
    type V = TargetView;

    open spec fn view(&self) -> TargetView {
        TargetView { interface: self.interface@, object: self.object@, method: self.method@ }
    }
}

impl TargetView {
    /// Whether a target registered for a whole subtree covers an observed
    /// target: the same interface and member, and an object path that starts
    /// with the registered path and a slash.
    pub open spec fn covers(self, seen: TargetView) -> bool {
        &&& self.interface == seen.interface
        &&& self.method == seen.method
        &&& has_prefix(seen.object, self.object + seq!['/'])
    }

    /// The order of targets: by interface, then by object path, then by member.
    pub open spec fn before(self, other: TargetView) -> bool {
        if self.interface != other.interface {
            text_lt(self.interface, other.interface)
        } else if self.object != other.object {
            text_lt(self.object, other.object)
        } else {
            text_lt(self.method, other.method)
        }
    }

    /// The target that the headers of a message name, where it has all three.
    pub open spec fn of_message(m: MessageView) -> Option<TargetView> {
        if m.interface is Some && m.path is Some && m.member is Some {
            Some(
                TargetView {
                    interface: m.interface->0,
                    object: m.path->0,
                    method: m.member->0,
                },
            )
        } else {
            None
        }
    }
}

/// The three headers that address a signal.
pub struct SignalHeaders {
    /// The interface of the signal.
    pub interface: String,
    /// The path of the object that emitted it.
    pub object: String,
    /// The name of the signal.
    pub method: String,
}

impl SignalHeaders {
    /// The headers of a message, where it has an interface, a path and a
    /// member.
    pub fn new(m: &Message) -> (r: Option<SignalHeaders>)
        ensures
            match r {
                Some(h) => TargetView::of_message(m@) == Some(
                    TargetView { interface: h.interface@, object: h.object@, method: h.method@ },
                ),
                None => TargetView::of_message(m@) is None,
            },
    {
        match m.interface() {
            Some(interface) => match m.path() {
                Some(object) => match m.member() {
                    Some(method) => Some(SignalHeaders { interface, object, method }),
                    None => None,
                },
                None => None,
            },
            None => None,
        }
    }
}

/// The three parts of a signal's address as one value.
pub fn make_signal(interface: String, object: String, method: String) -> (r: (String, String, String))
    ensures
        r == (interface, object, method),
{
    (interface, object, method)
}

impl Target {
    /// A target of an interface, an object path and a member.
    pub fn new(interface: &str, object: &str, method: &str) -> (r: Target)
        ensures
            r@ == (TargetView { interface: interface@, object: object@, method: method@ }),
    {
        Target { interface: interface.to_owned(), object: object.to_owned(), method: method.to_owned() }
    }

    /// The target that a message names, or nothing where one of the interface,
    /// path and member headers is missing.
    pub fn extract(m: &Message) -> (r: Option<Target>)
        ensures
            match r {
                Some(t) => TargetView::of_message(m@) == Some(t@),
                None => TargetView::of_message(m@) is None,
            },
    {
        match SignalHeaders::new(m) {
            Some(h) => Some(Target { interface: h.interface, object: h.object, method: h.method }),
            None => None,
        }
    }

    /// Whether this target, registered for a subtree, covers an observed
    /// target.
    pub fn namespace_eq(&self, t: &Target) -> (r: bool)
        ensures
            r == self@.covers(t@),
    {
        if self.interface != t.interface || self.method != t.method {
            return false;
        }
        proof {
            reveal_strlit("/");
            assert("/"@ =~= seq!['/']);
        }
        let prefix = join(self.object.as_str(), "/");
        starts_with(t.object.as_str(), prefix.as_str())
    }

    /// Whether the two targets are the same.
    pub fn same(&self, t: &Target) -> (r: bool)
        ensures
            r == (self@ == t@),
    {
        self.interface == t.interface && self.object == t.object && self.method == t.method
    }

    /// Whether this target comes before the other in the order of targets.
    pub fn precedes(&self, other: &Target) -> (r: bool)
        ensures
            r == self@.before(other@),
    {
        if self.interface != other.interface {
            precedes(self.interface.as_str(), other.interface.as_str())
        } else if self.object != other.object {
            precedes(self.object.as_str(), other.object.as_str())
        } else {
            precedes(self.method.as_str(), other.method.as_str())
        }
    }
}

/// Whether a path is another path, a slash and something more.
pub open spec fn descends(root: Seq<char>, path: Seq<char>) -> bool {
    exists|suffix: Seq<char>| suffix.len() > 0 && path == #[trigger] (root + seq!['/']).add(suffix)
}

/// A registered target covers an observed one exactly when interface and
/// member agree and the observed path is the registered path, a slash and
/// something more. The registered path followed by a slash alone is left out
/// of this statement.
pub proof fn lemma_covers_descendants(n: TargetView, t: TargetView)
    requires
        t.object != n.object + seq!['/'],
    ensures
        n.covers(t) <==> (n.interface == t.interface && n.method == t.method && descends(n.object, t.object)),
{
    let prefix = n.object + seq!['/'];
    if n.covers(t) {
        let suffix = t.object.subrange(prefix.len() as int, t.object.len() as int);
        assert(t.object =~= prefix.add(suffix));
        if suffix.len() == 0 {
            assert(t.object =~= prefix);
        }
    }
    if descends(n.object, t.object) {
        let suffix = choose|suffix: Seq<char>| suffix.len() > 0 && t.object == #[trigger] prefix.add(suffix);
        assert(t.object.subrange(0, prefix.len() as int) =~= prefix);
    }
}

/// A registered target never covers a target with its own object path.
pub proof fn lemma_covers_not_self(n: TargetView, t: TargetView)
    requires
        t.object == n.object,
    ensures
        !n.covers(t),
{
}

/// The order of targets is a strict total order.
pub proof fn lemma_target_order(a: TargetView, b: TargetView, c: TargetView)
    ensures
        !a.before(a),
        a.before(b) && b.before(c) ==> a.before(c),
        a == b || a.before(b) || b.before(a),
        !(a.before(b) && b.before(a)),
{
    lemma_lt_irreflexive(a.method);
    lemma_lt_total(a.interface, b.interface);
    lemma_lt_total(a.object, b.object);
    lemma_lt_total(a.method, b.method);
    if a.before(b) && b.before(c) {
        lemma_lt_total(a.interface, c.interface);
        lemma_lt_total(b.interface, c.interface);
        lemma_lt_total(a.object, c.object);
        lemma_lt_total(b.object, c.object);
        lemma_lt_irreflexive(a.interface);
        lemma_lt_irreflexive(a.object);
        if text_lt(a.interface, b.interface) && text_lt(b.interface, c.interface) {
            lemma_lt_transitive(a.interface, b.interface, c.interface);
        }
        if text_lt(a.object, b.object) && text_lt(b.object, c.object) {
            lemma_lt_transitive(a.object, b.object, c.object);
        }
        if text_lt(a.method, b.method) && text_lt(b.method, c.method) {
            lemma_lt_transitive(a.method, b.method, c.method);
        }
    }
}

} // verus!
