//! The set of interfaces of one object: built up, then finalized with the
//! standard interfaces, then asked to answer calls.

use vstd::prelude::*;
use vstd::string::StringExecFns;
use crate::arguments::Arguments;
use crate::error::Error;
use crate::interface::{
    args_signature, judged, signature_text, written, wrong_type_text, variant_of, Action, Argument,
    Defect, Interface, Method, MethodResult, Property, PropertyGetResult, PropertySetResult,
};
use crate::introspect::{document, introspect};
use crate::machine::machine_id_text;
use crate::message::{
    is_error_reply, ErrorMessage, Message, MessageView, FAILED, INVALID_ARGS, UNKNOWN_INTERFACE,
    UNKNOWN_METHOD, UNKNOWN_PROPERTY,
};
use crate::names::NameMap;
use crate::text::join;
use crate::value::{signature_of, values_signature, BasicValue, Dictionary, Signature, Value};

verus! {

/// The name of the standard interface `Peer`.
pub const PEER: &'static str = "org.freedesktop.DBus.Peer";

/// The name of the standard interface `Properties`.
pub const PROPERTIES: &'static str = "org.freedesktop.DBus.Properties";

/// The name of the standard interface `Introspectable`.
pub const INTROSPECTABLE: &'static str = "org.freedesktop.DBus.Introspectable";

/// The name of the standard interface `ObjectManager`.
pub const OBJECT_MANAGER: &'static str = "org.freedesktop.DBus.ObjectManager";

/// The names of the child objects of an object, in the order in which they
/// were added.
pub type ChildrenList = Vec<String>;

/// Whether an interface has a method of that name that runs the given action
/// and takes and gives values of the given signatures.
pub open spec fn offers(iface: Interface, name: Seq<char>, action: Action, ins: Seq<char>, outs: Seq<char>) -> bool {
    &&& iface.methods.has(name)
    &&& iface.methods.item(name).cb == action
    &&& args_signature(iface.methods.item(name).in_args@) == ins
    &&& args_signature(iface.methods.item(name).out_args@) == outs
}

/// Whether an interface has only methods, and that many.
pub open spec fn only_methods(iface: Interface, n: nat) -> bool {
    iface.methods.count() == n && iface.properties.count() == 0 && iface.signals.count() == 0
}

/// Whether an interface is the standard interface `Peer`.
pub open spec fn is_peer(iface: Interface) -> bool {
    &&& only_methods(iface, 2)
    &&& offers(iface, "Ping"@, Action::Ping, Seq::empty(), Seq::empty())
    &&& offers(iface, "GetMachineId"@, Action::GetMachineId, Seq::empty(), "s"@)
}

/// Whether an interface is the standard interface `Properties`.
pub open spec fn is_properties(iface: Interface) -> bool {
    &&& only_methods(iface, 3)
    &&& offers(iface, "Get"@, Action::GetProperty, "ss"@, "v"@)
    &&& offers(iface, "Set"@, Action::SetProperty, "ssv"@, Seq::empty())
    &&& offers(iface, "GetAll"@, Action::GetAllProperties, "s"@, "a{sv}"@)
}

/// Whether an interface is the standard interface `Introspectable`.
pub open spec fn is_introspectable(iface: Interface) -> bool {
    &&& only_methods(iface, 1)
    &&& offers(iface, "Introspect"@, Action::Introspect, Seq::empty(), "s"@)
}

/// Whether an interface is the standard interface `ObjectManager`.
pub open spec fn is_object_manager(iface: Interface) -> bool {
    &&& only_methods(iface, 1)
    &&& offers(iface, "GetManagedObjects"@, Action::GetManagedObjects, Seq::empty(), "a{oa{sa{sv}}}"@)
}

/// The signature of a list of arguments that starts with one argument.
proof fn lemma_one(a: Argument)
    ensures
        args_signature(seq![a]) == a.signature@,
{
    reveal_with_fuel(args_signature, 2);
    assert(seq![a].drop_last() =~= Seq::<Argument>::empty());
    assert(Seq::<char>::empty() + a.signature@ =~= a.signature@);
}

/// The signature of a list of arguments with one more at its end.
proof fn lemma_more(args: Seq<Argument>, a: Argument)
    ensures
        args_signature(args.push(a)) == args_signature(args) + a.signature@,
{
    assert(args.push(a).drop_last() =~= args);
}

/// The standard interface `Peer`.
pub struct PeerInterface;

impl PeerInterface {
    /// The interface with its two methods.
    pub fn new() -> (r: Interface)
        ensures
            is_peer(r),
    {
        let ping = Method::standard(Action::Ping);
        let id = Method::standard(Action::GetMachineId).add_result(Argument::new("machine_uuid", "s"));
        proof {
            reveal_strlit("Ping");
            reveal_strlit("GetMachineId");
            assert("Ping"@.len() != "GetMachineId"@.len());
            lemma_one(id.out_args@[0]);
            assert(id.out_args@ =~= seq![id.out_args@[0]]);
            assert(ping.in_args@ =~= Seq::<Argument>::empty());
            assert(ping.out_args@ =~= Seq::<Argument>::empty());
            assert(id.in_args@ =~= Seq::<Argument>::empty());
        }
        let empty = Interface::new();
        assert(!empty.methods.has("GetMachineId"@));
        let one = empty.add_method("Ping", ping);
        assert(!one.methods.has("GetMachineId"@));
        one.add_method("GetMachineId", id)
    }
}

/// The standard interface `Properties`.
pub struct PropertyInterface;

impl PropertyInterface {
    /// The interface with its three methods.
    pub fn new() -> (r: Interface)
        ensures
            is_properties(r),
    {
        let get = Method::standard(Action::GetProperty).add_argument(
            Argument::new("interface_name", "s"),
        ).add_argument(Argument::new("property_name", "s")).add_result(Argument::new("value", "v"));
        let set = Method::standard(Action::SetProperty).add_argument(
            Argument::new("interface_name", "s"),
        ).add_argument(Argument::new("property_name", "s")).add_argument(Argument::new("value", "v"));
        let all = Method::standard(Action::GetAllProperties).add_argument(
            Argument::new("interface_name", "s"),
        ).add_result(Argument::new("props", "a{sv}"));
        proof {
            reveal_strlit("Get");
            reveal_strlit("Set");
            reveal_strlit("GetAll");
            assert("Get"@.len() != "GetAll"@.len() && "Set"@.len() != "GetAll"@.len());
            assert("Get"@[0] != "Set"@[0]);
            reveal_strlit("s");
            reveal_strlit("v");
            reveal_strlit("ss");
            reveal_strlit("ssv");
            let g = get.in_args@;
            lemma_one(g[0]);
            lemma_more(seq![g[0]], g[1]);
            assert(g =~= seq![g[0]].push(g[1]));
            assert("s"@ + "s"@ =~= "ss"@);
            lemma_one(get.out_args@[0]);
            assert(get.out_args@ =~= seq![get.out_args@[0]]);
            let t = set.in_args@;
            lemma_one(t[0]);
            lemma_more(seq![t[0]], t[1]);
            lemma_more(seq![t[0]].push(t[1]), t[2]);
            assert(t =~= seq![t[0]].push(t[1]).push(t[2]));
            assert("s"@ + "s"@ + "v"@ =~= "ssv"@);
            assert(set.out_args@ =~= Seq::<Argument>::empty());
            lemma_one(all.in_args@[0]);
            assert(all.in_args@ =~= seq![all.in_args@[0]]);
            lemma_one(all.out_args@[0]);
            assert(all.out_args@ =~= seq![all.out_args@[0]]);
        }
        let empty = Interface::new();
        assert(!empty.methods.has("Set"@) && !empty.methods.has("GetAll"@) && !empty.methods.has("Get"@));
        let one = empty.add_method("Get", get);
        assert(!one.methods.has("Set"@) && !one.methods.has("GetAll"@));
        let two = one.add_method("Set", set);
        assert(!two.methods.has("GetAll"@));
        two.add_method("GetAll", all)
    }
}

/// The standard interface `Introspectable`.
pub struct IntrospectableInterface;

impl IntrospectableInterface {
    /// The interface with its one method.
    pub fn new() -> (r: Interface)
        ensures
            is_introspectable(r),
    {
        let m = Method::standard(Action::Introspect).add_result(Argument::new("xml_data", "s"));
        proof {
            lemma_one(m.out_args@[0]);
            assert(m.out_args@ =~= seq![m.out_args@[0]]);
            assert(m.in_args@ =~= Seq::<Argument>::empty());
        }
        Interface::new().add_method("Introspect", m)
    }
}

/// The standard interface `ObjectManager`.
pub struct ObjectManagerInterface;

impl ObjectManagerInterface {
    /// The interface with its one method.
    pub fn new() -> (r: Interface)
        ensures
            is_object_manager(r),
    {
        let m = Method::standard(Action::GetManagedObjects).add_result(
            Argument::new("objects", "a{oa{sa{sv}}}"),
        );
        proof {
            lemma_one(m.out_args@[0]);
            assert(m.out_args@ =~= seq![m.out_args@[0]]);
            assert(m.in_args@ =~= Seq::<Argument>::empty());
        }
        Interface::new().add_method("GetManagedObjects", m)
    }
}

/// A set of interfaces that still takes further interfaces.
pub struct InterfacesBuilder {
    /// The interfaces by name.
    pub map: NameMap<Interface>,
}

/// The finalized set of interfaces of an object.
pub struct Interfaces {
    /// The interfaces by name.
    pub map: NameMap<Interface>,
    /// The names of the object's children.
    pub children: ChildrenList,
}

/// Whether a name is one of the standard interfaces that finalizing adds.
pub open spec fn is_standard(name: Seq<char>, manager: bool) -> bool {
    name == PEER@ || name == PROPERTIES@ || name == INTROSPECTABLE@ || (manager && name == OBJECT_MANAGER@)
}

/// The first standard interface, in the order in which finalizing adds them,
/// whose name is taken already.
pub open spec fn first_taken(map: NameMap<Interface>, manager: bool) -> Option<Seq<char>> {
    if map.has(PEER@) {
        Some(PEER@)
    } else if map.has(PROPERTIES@) {
        Some(PROPERTIES@)
    } else if map.has(INTROSPECTABLE@) {
        Some(INTROSPECTABLE@)
    } else if manager && map.has(OBJECT_MANAGER@) {
        Some(OBJECT_MANAGER@)
    } else {
        None
    }
}

/// The four standard names differ from each other.
pub proof fn lemma_standard_names()
    ensures
        PEER@ != PROPERTIES@,
        PEER@ != INTROSPECTABLE@,
        PEER@ != OBJECT_MANAGER@,
        PROPERTIES@ != INTROSPECTABLE@,
        PROPERTIES@ != OBJECT_MANAGER@,
        INTROSPECTABLE@ != OBJECT_MANAGER@,
{
    reveal_strlit("org.freedesktop.DBus.Peer");
    reveal_strlit("org.freedesktop.DBus.Properties");
    reveal_strlit("org.freedesktop.DBus.Introspectable");
    reveal_strlit("org.freedesktop.DBus.ObjectManager");
    assert(PEER@[22] == 'e');
    assert(PROPERTIES@[22] == 'r');
    assert(INTROSPECTABLE@[21] == 'I');
    assert(OBJECT_MANAGER@[21] == 'O');
    assert(PEER@[21] == 'P');
    assert(PROPERTIES@[21] == 'P');
}

/// Whether `r` is what adding an interface under a name leads to: a name that
/// the set has is refused, and any other name gets the interface, with the
/// rest of the set as it was.
pub open spec fn added(b: InterfacesBuilder, name: Seq<char>, iface: Interface, r: Result<InterfacesBuilder, Error>) -> bool {
    match r {
        Ok(more) => {
            &&& !b.map.has(name)
            &&& more.map.has(name)
            &&& more.map.item(name) == iface
            &&& more.map.count() == b.map.count() + 1
            &&& forall|other: Seq<char>| other != name ==> (more.map.has(other) <==> b.map.has(other))
            &&& forall|other: Seq<char>| other != name && b.map.has(other) ==> more.map.item(other) == b.map.item(other)
        },
        Err(e) => b.map.has(name) && (e matches Error::InterfaceAlreadyRegistered(n) && n@ == name),
    }
}

/// An interface cannot be added twice under one name: once a name is added,
/// adding it again fails with `InterfaceAlreadyRegistered` for that name.
pub proof fn lemma_add_twice(
    b: InterfacesBuilder,
    name: Seq<char>,
    first: Interface,
    once: InterfacesBuilder,
    second: Interface,
    r: Result<InterfacesBuilder, Error>,
)
    requires
        added(b, name, first, Ok(once)),
        added(once, name, second, r),
    ensures
        r matches Err(Error::InterfaceAlreadyRegistered(n)) && n@ == name,
{
}

/// A set without interfaces finalizes to exactly the standard interfaces:
/// `Peer`, `Properties` and `Introspectable`, and `ObjectManager` as the fourth
/// where it is asked for.
pub proof fn lemma_finalize_empty(
    b: InterfacesBuilder,
    children: ChildrenList,
    manager: bool,
    r: Result<Interfaces, Error>,
)
    requires
        b.map.count() == 0,
        finalized(b, children, manager, r),
    ensures
        r matches Ok(done) && done.map.count() == (if manager { 4nat } else { 3nat }) && (forall|name: Seq<char>|
            done.map.has(name) <==> is_standard(name, manager)),
{
    assert(forall|name: Seq<char>| !b.map.has(name));
}

/// A reply that is a method return carries values of exactly the types that
/// the method declares for its results.
pub proof fn lemma_return_signature(
    method: Method,
    serial: u32,
    iface: Seq<char>,
    member: Seq<char>,
    res: MethodResult,
    reply: Message,
)
    requires
        concluded(method, serial, iface, member, res, Outcome::Reply(reply)),
        reply.kind == crate::message::MessageType::MethodReturn,
    ensures
        signature_of(reply.body@) == args_signature(method.out_args@),
{
    match res {
        Ok(vals) => {
            assert(reply@.body =~= vals@);
        },
        Err(e) => {},
    }
}

impl InterfacesBuilder {
    /// The set with one more interface. A name that the set has already is
    /// refused.
    pub fn add_interface(self, name: &str, iface: Interface) -> (r: Result<InterfacesBuilder, Error>)
        ensures
            added(self, name@, iface, r),
    {
        if self.map.contains(name) {
            return Err(Error::InterfaceAlreadyRegistered(name.to_owned()));
        }
        let mut b = self;
        let _ = b.map.insert(name, iface);
        Ok(b)
    }

    /// Finalizes the set: adds `Peer`, `Properties` and `Introspectable`, in
    /// that order, and takes the list of the object's children.
    pub fn finalize(self, children: ChildrenList) -> (r: Result<Interfaces, Error>)
        ensures
            finalized(self, children, false, r),
    {
        self.finalize_with(children, false)
    }

    /// Finalizes the set as `finalize` does and, where `manager` is set, adds
    /// `ObjectManager` after the other three.
    pub fn finalize_with(self, children: ChildrenList, manager: bool) -> (r: Result<Interfaces, Error>)
        ensures
            finalized(self, children, manager, r),
    {
        proof {
            lemma_standard_names();
        }
        let b = match self.add_interface(PEER, PeerInterface::new()) {
            Ok(b) => b,
            Err(e) => {
                return Err(e);
            },
        };
        let b = match b.add_interface(PROPERTIES, PropertyInterface::new()) {
            Ok(b) => b,
            Err(e) => {
                return Err(e);
            },
        };
        let b = match b.add_interface(INTROSPECTABLE, IntrospectableInterface::new()) {
            Ok(b) => b,
            Err(e) => {
                return Err(e);
            },
        };
        let b = if manager {
            match b.add_interface(OBJECT_MANAGER, ObjectManagerInterface::new()) {
                Ok(b) => b,
                Err(e) => {
                    return Err(e);
                },
            }
        } else {
            b
        };
        Ok(Interfaces { map: b.map, children })
    }
}

/// Whether `r` is what finalizing a set leads to. Where one of the standard
/// names is taken, it fails with the first of them. Otherwise the finalized
/// set holds the interfaces of the set as they were, the standard interfaces,
/// and the list of children.
pub open spec fn finalized(
    b: InterfacesBuilder,
    children: ChildrenList,
    manager: bool,
    r: Result<Interfaces, Error>,
) -> bool {
    match r {
        Err(e) => first_taken(b.map, manager) matches Some(name) && (e matches Error::InterfaceAlreadyRegistered(
            n,
        ) && n@ == name),
        Ok(done) => {
            &&& first_taken(b.map, manager) is None
            &&& done.children == children
            &&& done.map.count() == b.map.count() + (if manager { 4nat } else { 3nat })
            &&& forall|name: Seq<char>| done.map.has(name) <==> (b.map.has(name) || is_standard(name, manager))
            &&& forall|name: Seq<char>| b.map.has(name) ==> done.map.item(name) == b.map.item(name)
            &&& is_peer(done.map.item(PEER@))
            &&& is_properties(done.map.item(PROPERTIES@))
            &&& is_introspectable(done.map.item(INTROSPECTABLE@))
            &&& manager ==> is_object_manager(done.map.item(OBJECT_MANAGER@))
        },
    }
}

impl Interfaces {
    /// An empty set of interfaces, to be built up.
    pub fn new() -> (r: InterfacesBuilder)
        ensures
            r.map.count() == 0,
            forall|name: Seq<char>| !r.map.has(name),
    {
        InterfacesBuilder { map: NameMap::new() }
    }

    /// A finalized set takes no further interface.
    pub fn add_interface(self, name: &str, iface: Interface) -> (r: Result<Interfaces, Error>)
        ensures
            r == Err::<Interfaces, Error>(Error::InterfacesFinalized),
    {
        Err(Error::InterfacesFinalized)
    }

    /// A finalized set cannot be finalized again.
    pub fn finalize(self, children: ChildrenList) -> (r: Result<Interfaces, Error>)
        ensures
            r == Err::<Interfaces, Error>(Error::InterfacesFinalized),
    {
        Err(Error::InterfacesFinalized)
    }
}

/// The two headers that address a call.
pub struct CallHeaders {
    /// The interface of the method.
    pub interface: String,
    /// The name of the method.
    pub method: String,
}

impl CallHeaders {
    /// The headers of a message, where it has an interface and a member.
    pub fn new(msg: &Message) -> (r: Option<CallHeaders>)
        ensures
            match r {
                Some(h) => msg@.interface == Some(h.interface@) && msg@.member == Some(h.method@),
                None => msg@.interface is None || msg@.member is None,
            },
    {
        match msg.interface() {
            Some(interface) => match msg.member() {
                Some(method) => Some(CallHeaders { interface, method }),
                None => None,
            },
            None => None,
        }
    }
}

/// What answering a call ends in: a reply to send, or a defect of the
/// application's code, for which nothing is sent.
pub enum Outcome {
    /// The reply to send.
    Reply(Message),
    /// The defect to report.
    Defect(Defect),
}

/// The interface of that name, or the error for an interface that the object
/// does not have.
pub fn require_interface<'a>(map: &'a NameMap<Interface>, name: &str) -> (r: Result<&'a Interface, ErrorMessage>)
    ensures
        match r {
            Ok(i) => map.has(name@) && *i == map.item(name@),
            Err(e) => !map.has(name@) && e.says(UNKNOWN_INTERFACE@, "unknown interface: "@ + name@),
        },
{
    match map.get(name) {
        Some(i) => Ok(i),
        None => {
            let text = join("unknown interface: ", name);
            Err(ErrorMessage::new(UNKNOWN_INTERFACE, text.as_str()))
        },
    }
}

impl PeerInterface {
    /// The answer to `Ping`: no value.
    pub fn ping() -> (r: MethodResult)
        ensures
            r matches Ok(v) && v@.len() == 0,
    {
        Ok(Vec::new())
    }

    /// The answer to `GetMachineId` for a machine with the given identifier:
    /// the identifier as the one value.
    pub fn machine_id_reply(id: String) -> (r: MethodResult)
        ensures
            r matches Ok(v) && v@.len() == 1 && v@[0].text() == Some(id@),
    {
        let mut vals: Vec<Value> = Vec::new();
        vals.push(Value::string(id.as_str()));
        Ok(vals)
    }

    /// The answer to `GetMachineId`: one string.
    pub fn get_machine_id() -> (r: MethodResult)
        ensures
            r matches Ok(v) && v@.len() == 1 && v@[0].text() is Some,
    {
        Self::machine_id_reply(machine_id_text())
    }
}

/// The text of the value at a position of a body, where it is a string.
pub open spec fn text_at(body: Seq<Value>, i: int) -> Option<Seq<char>> {
    if 0 <= i < body.len() {
        body[i].text()
    } else {
        None
    }
}

/// What is wrong with a body whose first `n` values have to be strings: the
/// text of the error, or nothing where the body is in order.
pub open spec fn request_fault(body: Seq<Value>, n: nat) -> Option<Seq<char>> {
    if body.len() == 0 {
        Some("invalid arguments"@)
    } else if n >= 1 && text_at(body, 0) is None {
        Some(Arguments::complaint(0))
    } else if n >= 2 && text_at(body, 1) is None {
        Some(Arguments::complaint(1))
    } else {
        None
    }
}

/// The value that a request to set a property carries: what is inside a
/// variant, or the value itself.
pub open spec fn carried(value: Value) -> Value {
    match value {
        Value::Variant(w) => *w.object,
        _ => value,
    }
}

/// Whether `out` is what `Properties.Get` leads to once the property's handler
/// has given back `res`: an error is passed on, a value of the declared type
/// is sent as a variant, and a value of another type is a defect.
pub open spec fn answered(
    prop: Property,
    name: Seq<char>,
    res: PropertyGetResult,
    out: Result<MethodResult, Defect>,
) -> bool {
    match res {
        Err(e) => out == Ok::<MethodResult, Defect>(Err(e)),
        Ok(v) => if prop.fits(v) {
            out matches Ok(Ok(vals)) && vals@.len() == 1 && (vals@[0] matches Value::Variant(w) && *w.object
                == v && w.signature.0@ == v.signature())
        } else {
            out matches Err(d) && d.description@ == wrong_type_text(name, v.signature(), prop.signature.0@)
        },
    }
}

/// Whether `r` is what `Properties.Get` leads to on a body.
pub open spec fn got(map: NameMap<Interface>, body: Seq<Value>, r: Result<MethodResult, Defect>) -> bool {
    match request_fault(body, 2) {
        Some(text) => r matches Ok(Err(e)) && e.says(INVALID_ARGS@, text),
        None => {
            let iface = text_at(body, 0)->0;
            let name = text_at(body, 1)->0;
            if !map.has(iface) {
                r matches Ok(Err(e)) && e.says(UNKNOWN_INTERFACE@, "unknown interface: "@ + iface)
            } else if !map.item(iface).properties.has(name) {
                r matches Ok(Err(e)) && e.says(UNKNOWN_PROPERTY@, "unknown property: "@ + name)
            } else if map.item(iface).properties.item(name).access is WO {
                r matches Ok(Err(e)) && e.says(FAILED@, "property is write-only: "@ + name)
            } else {
                exists|res: PropertyGetResult| answered(map.item(iface).properties.item(name), name, res, r)
            }
        },
    }
}

/// Whether `r` is what `Properties.Set` leads to on a body.
pub open spec fn was_set(map: NameMap<Interface>, body: Seq<Value>, r: MethodResult) -> bool {
    match request_fault(body, 2) {
        Some(text) => r matches Err(e) && e.says(INVALID_ARGS@, text),
        None => {
            let iface = text_at(body, 0)->0;
            let name = text_at(body, 1)->0;
            if body.len() < 3 {
                r matches Err(e) && e.says(INVALID_ARGS@, Arguments::complaint(2))
            } else if !map.has(iface) {
                r matches Err(e) && e.says(UNKNOWN_INTERFACE@, "unknown interface: "@ + iface)
            } else if !map.item(iface).properties.has(name) {
                r matches Err(e) && e.says(UNKNOWN_PROPERTY@, "unknown property: "@ + name)
            } else if !map.item(iface).properties.item(name).fits(carried(body[2])) {
                r matches Err(e) && e.says(INVALID_ARGS@, "invalid arguments"@)
            } else if map.item(iface).properties.item(name).access is RO {
                r matches Err(e) && e.says(FAILED@, "property is read-only: "@ + name)
            } else {
                exists|res: PropertySetResult| written(res, r)
            }
        },
    }
}

/// Whether `r` is what `Properties.GetAll` leads to on a body.
pub open spec fn all_got(map: NameMap<Interface>, body: Seq<Value>, r: MethodResult) -> bool {
    match request_fault(body, 1) {
        Some(text) => r matches Err(e) && e.says(INVALID_ARGS@, text),
        None => {
            let iface = text_at(body, 0)->0;
            if !map.has(iface) {
                r matches Err(e) && e.says(UNKNOWN_INTERFACE@, "unknown interface: "@ + iface)
            } else {
                r matches Ok(vals) && vals@.len() == 1 && (vals@[0] matches Value::Dictionary(d)
                    && d.signature.0@ == "a{sv}"@ && forall|i: int|
                    0 <= i < d.entries@.len() ==> map.item(iface).lists(#[trigger] d.entries@[i]))
            }
        },
    }
}

/// The text of the defect for a reply whose values do not have the types that
/// the method declares.
pub open spec fn return_defect_text(
    iface: Seq<char>,
    member: Seq<char>,
    expected: Seq<char>,
    actual: Seq<char>,
) -> Seq<char> {
    "invalid return signature for: interface: '"@ + iface + "' method: '"@ + member + "' expected: '"@
        + expected + "' actual: '"@ + actual + "'"@
}

/// Whether `out` is what a call of a method ends in once the method's code has
/// given back `res`. An error becomes an error reply. Values of the types that
/// the method declares become a method return that carries them in order.
/// Values of other types are a defect.
pub open spec fn concluded(
    method: Method,
    serial: u32,
    iface: Seq<char>,
    member: Seq<char>,
    res: MethodResult,
    out: Outcome,
) -> bool {
    match res {
        Err(e) => out matches Outcome::Reply(m) && is_error_reply(m@, serial, e.name@, e.message@),
        Ok(vals) => if signature_of(vals@) == args_signature(method.out_args@) {
            out matches Outcome::Reply(m) && m@ == MessageView::method_return(serial).with_values(vals@)
        } else {
            out matches Outcome::Defect(d) && d.description@ == return_defect_text(
                iface,
                member,
                args_signature(method.out_args@),
                signature_of(vals@),
            )
        },
    }
}

impl Interfaces {
    /// Whether `res` is what running the code of a method can give.
    pub open spec fn ran(
        self,
        action: Action,
        body: Seq<Value>,
        managed: Option<Value>,
        res: Result<MethodResult, Defect>,
    ) -> bool {
        match action {
            Action::Ping => res matches Ok(Ok(v)) && v@.len() == 0,
            Action::GetMachineId => res matches Ok(Ok(v)) && v@.len() == 1 && v@[0].text() is Some,
            Action::GetProperty => got(self.map, body, res),
            Action::SetProperty => res matches Ok(r) && was_set(self.map, body, r),
            Action::GetAllProperties => res matches Ok(r) && all_got(self.map, body, r),
            Action::Introspect => res matches Ok(Ok(v)) && v@.len() == 1 && v@[0].text() == Some(
                document(self.map.names(), self.map.items(), self.children@),
            ),
            Action::GetManagedObjects => match managed {
                Some(m) => res matches Ok(Ok(v)) && v@ == seq![m],
                None => res matches Ok(Err(e)) && e.says(FAILED@, "not an object manager"@),
            },
            Action::Custom(_) => res is Ok,
        }
    }

    /// `Properties.Get`: the value of a property of an interface, as a
    /// variant.
    pub fn get_property(&self, msg: &Message) -> (r: Result<MethodResult, Defect>)
        ensures
            got(self.map, msg.body@, r),
    {
        let values = match Arguments::new(msg) {
            Ok(v) => v,
            Err(e) => {
                return Ok(Err(e));
            },
        };
        let iface = match values.extract_string(0) {
            Ok(s) => s,
            Err(e) => {
                return Ok(Err(e));
            },
        };
        let property = match values.extract_string(1) {
            Ok(s) => s,
            Err(e) => {
                return Ok(Err(e));
            },
        };
        let found = match require_interface(&self.map, iface.as_str()) {
            Ok(i) => i,
            Err(e) => {
                return Ok(Err(e));
            },
        };
        let first = found.get_property_value(property.as_str());
        let ghost prop = found.properties.item(property@);
        match first {
            Ok(Ok(vals)) => {
                let mut vals = vals;
                proof {
                    let res = choose|res: PropertyGetResult| judged(prop, property@, res, first);
                    assert(judged(prop, property@, res, first));
                    assert(vals@.len() == 1);
                }
                let ghost res = choose|res: PropertyGetResult| judged(prop, property@, res, first);
                let v = vals.pop().unwrap();
                let mut out: Vec<Value> = Vec::new();
                out.push(variant_of(v));
                let r = Ok(Ok(out));
                assert(answered(prop, property@, res, r));
                r
            },
            Ok(Err(e)) => {
                proof {
                    if found.properties.has(property@) && !(prop.access is WO) {
                        let res = choose|res: PropertyGetResult| judged(prop, property@, res, first);
                        assert(answered(prop, property@, res, first));
                    }
                }
                Ok(Err(e))
            },
            Err(d) => {
                proof {
                    let res = choose|res: PropertyGetResult| judged(prop, property@, res, first);
                    assert(answered(prop, property@, res, first));
                }
                Err(d)
            },
        }
    }

    /// `Properties.Set`: gives a property of an interface a new value.
    pub fn set_property(&self, msg: &Message) -> (r: MethodResult)
        ensures
            was_set(self.map, msg.body@, r),
    {
        let values = Arguments::new(msg)?;
        let iface = values.extract_string(0)?;
        let property = values.extract_string(1)?;
        let value = values.extract(2)?;
        let found = require_interface(&self.map, iface.as_str())?;
        let inner: &Value = match value {
            Value::Variant(w) => &*w.object,
            _ => value,
        };
        found.set_property_value(property.as_str(), inner)
    }

    /// `Properties.GetAll`: the values of the readable properties of an
    /// interface.
    pub fn get_all_properties(&self, msg: &Message) -> (r: MethodResult)
        ensures
            all_got(self.map, msg.body@, r),
    {
        let values = Arguments::new(msg)?;
        let iface = values.extract_string(0)?;
        let found = require_interface(&self.map, iface.as_str())?;
        let mut out: Vec<Value> = Vec::new();
        out.push(Value::Dictionary(found.get_property_map()));
        Ok(out)
    }

    /// `Introspectable.Introspect`: the description of the interfaces and the
    /// children as they are now.
    pub fn introspect(&self) -> (r: MethodResult)
        ensures
            r matches Ok(v) && v@.len() == 1 && v@[0].text() == Some(
                document(self.map.names(), self.map.items(), self.children@),
            ),
    {
        let xml = introspect(&self.map, &self.children);
        let mut out: Vec<Value> = Vec::new();
        out.push(Value::string(xml.as_str()));
        Ok(out)
    }

    /// Runs the code of a method on a call.
    pub fn run(&self, action: &Action, msg: &Message, managed: Option<Value>) -> (r: Result<MethodResult, Defect>)
        ensures
            self.ran(*action, msg.body@, managed, r),
    {
        match action {
            Action::Ping => Ok(PeerInterface::ping()),
            Action::GetMachineId => Ok(PeerInterface::get_machine_id()),
            Action::GetProperty => self.get_property(msg),
            Action::SetProperty => Ok(self.set_property(msg)),
            Action::GetAllProperties => Ok(self.get_all_properties(msg)),
            Action::Introspect => Ok(self.introspect()),
            Action::GetManagedObjects => match managed {
                Some(m) => {
                    let mut out: Vec<Value> = Vec::new();
                    out.push(m);
                    Ok(Ok(out))
                },
                None => Ok(Err(ErrorMessage::new(FAILED, "not an object manager"))),
            },
            Action::Custom(handler) => Ok(handler.call(msg)),
        }
    }

    /// What a call ends in, once the method's code has answered.
    pub fn conclude(method: &Method, msg: &Message, iface: &str, member: &str, res: MethodResult) -> (r: Outcome)
        ensures
            concluded(*method, msg.serial, iface@, member@, res, r),
    {
        match res {
            Err(e) => Outcome::Reply(e.into_message(msg)),
            Ok(vals) => {
                let expected = signature_text(&method.out_args);
                let actual = values_signature(&vals);
                if expected == actual {
                    Outcome::Reply(msg.return_message().add_arguments(vals))
                } else {
                    let mut text = join("invalid return signature for: interface: \'", iface);
                    text.append("\' method: \'");
                    text.append(member);
                    text.append("\' expected: \'");
                    text.append(expected.as_str());
                    text.append("\' actual: \'");
                    text.append(actual.as_str());
                    text.append("\'");
                    Outcome::Defect(Defect { description: text })
                }
            },
        }
    }

    /// Whether `r` is what a message leads to. A message without an interface
    /// or a member is no call and gets no answer. An interface that the object
    /// does not have, a method that the interface does not have and a body whose
    /// signature is not that of the method's arguments each get an error reply,
    /// and no code of the method runs. Otherwise the method's code runs, and
    /// what it gives back decides the outcome.
    pub open spec fn handled(self, msg: Message, managed: Option<Value>, r: Option<Outcome>) -> bool {
        if msg@.interface is None || msg@.member is None {
            r is None
        } else {
            let iface = msg@.interface->0;
            let member = msg@.member->0;
            r matches Some(out) && if !self.map.has(iface) {
                out matches Outcome::Reply(m) && is_error_reply(
                    m@,
                    msg.serial,
                    UNKNOWN_INTERFACE@,
                    "unknown interface: "@ + iface,
                )
            } else if !self.map.item(iface).methods.has(member) {
                out matches Outcome::Reply(m) && is_error_reply(
                    m@,
                    msg.serial,
                    UNKNOWN_METHOD@,
                    "unknown method: "@ + member,
                )
            } else {
                let method = self.map.item(iface).methods.item(member);
                if args_signature(method.in_args@) != signature_of(msg.body@) {
                    out matches Outcome::Reply(m) && is_error_reply(
                        m@,
                        msg.serial,
                        INVALID_ARGS@,
                        "invalid arguments"@,
                    )
                } else {
                    exists|res: Result<MethodResult, Defect>| #[trigger]
                        self.ran(method.cb, msg.body@, managed, res) && match res {
                            Err(d) => out == Outcome::Defect(d),
                            Ok(given) => concluded(method, msg.serial, iface, member, given, out),
                        }
                }
            }
        }
    }

    /// Answers a message for the object, with the objects that it manages at
    /// hand where it is an object manager.
    pub fn handle_call(&self, msg: &Message, managed: Option<Value>) -> (r: Option<Outcome>)
        ensures
            self.handled(*msg, managed, r),
    {
        let hdrs = match CallHeaders::new(msg) {
            Some(h) => h,
            None => {
                return None;
            },
        };
        let found = match require_interface(&self.map, hdrs.interface.as_str()) {
            Ok(i) => i,
            Err(e) => {
                return Some(Outcome::Reply(e.into_message(msg)));
            },
        };
        let method = match found.methods.get(hdrs.method.as_str()) {
            Some(m) => m,
            None => {
                let text = join("unknown method: ", hdrs.method.as_str());
                let e = ErrorMessage::new(UNKNOWN_METHOD, text.as_str());
                return Some(Outcome::Reply(e.into_message(msg)));
            },
        };
        let expected = signature_text(&method.in_args);
        let actual = values_signature(&msg.body);
        if expected != actual {
            return Some(Outcome::Reply(Arguments::invalid_arguments().into_message(msg)));
        }
        let res = self.run(&method.cb, msg, managed);
        let out = match res {
            Err(d) => Outcome::Defect(d),
            Ok(given) => Self::conclude(method, msg, hdrs.interface.as_str(), hdrs.method.as_str(), given),
        };
        assert(self.ran(method.cb, msg.body@, managed, res));
        Some(out)
    }

    /// Answers a message for the object.
    pub fn handle(&self, msg: &Message) -> (r: Option<Outcome>)
        ensures
            self.handled(*msg, None, r),
    {
        self.handle_call(msg, None)
    }
}

/// Whether a dictionary entry holds the readable properties of an interface
/// under the interface's name.
pub open spec fn files(name: Seq<char>, iface: Interface, entry: (BasicValue, Value)) -> bool {
    &&& entry.0 matches BasicValue::String(s)
    &&& s@ == name
    &&& entry.1 matches Value::Dictionary(d)
    &&& d.signature.0@ == "a{sv}"@
    &&& forall|i: int| 0 <= i < d.entries@.len() ==> iface.lists(#[trigger] d.entries@[i])
}

impl Interfaces {
    /// The readable properties of every interface: a dictionary from the names
    /// of the interfaces, in their order, to the dictionaries of their
    /// properties.
    pub fn get_interfaces_and_properties(&self) -> (r: Dictionary)
        ensures
            r.signature.0@ == "a{sa{sv}}"@,
            r.entries@.len() == self.map.count(),
            forall|i: int|
                0 <= i < r.entries@.len() ==> files(
                    self.map.names()[i],
                    self.map.items()[i],
                    #[trigger] r.entries@[i],
                ),
    {
        let mut entries: Vec<(BasicValue, Value)> = Vec::new();
        let n = self.map.len();
        let mut i: usize = 0;
        while i < n
            invariant
                i <= n,
                n == self.map.count(),
                self.map.items().len() == n,
                entries@.len() == i,
                forall|k: int|
                    0 <= k < i ==> files(self.map.names()[k], self.map.items()[k], #[trigger] entries@[k]),
            decreases n - i,
        {
            let name = self.map.name_at(i);
            let props = self.map.item_at(i).get_property_map();
            entries.push((BasicValue::String(name.clone()), Value::Dictionary(props)));
            i = i + 1;
        }
        Dictionary { entries, signature: Signature("a{sa{sv}}".to_owned()) }
    }
}

} // verus!
