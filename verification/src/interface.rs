//! The callable surface of one interface: its methods, properties and
//! signals.

use vstd::prelude::*;
use vstd::string::StringExecFns;
use crate::arguments::Arguments;
use crate::message::{ErrorMessage, Message, FAILED, INVALID_ARGS, UNKNOWN_PROPERTY};
use crate::names::NameMap;
use crate::text::join;
use crate::value::{BasicValue, Dictionary, Signature, Value, Variant};

verus! {

/// An argument of a method or of a signal.
#[derive(Clone, Debug, PartialEq, Eq)]
pub struct Argument {
    /// The name of the argument.
    pub name: String,
    /// The signature of its type.
    pub signature: String,
}

impl Argument {
    /// An argument of that name and type.
    pub fn new(name: &str, sig: &str) -> (r: Argument)
        ensures
            r.name@ == name@,
            r.signature@ == sig@,
    {
        Argument { name: name.to_owned(), signature: sig.to_owned() }
    }
}

/// A note attached to a method, a property, a signal or an interface. It
/// describes and has no effect on dispatch.
#[derive(Clone, Debug, PartialEq, Eq)]
pub struct Annotation {
    /// The name of the annotation.
    pub name: String,
    /// Its value.
    pub value: String,
}

impl Annotation {
    /// An annotation of that name and value.
    pub fn new(name: &str, value: &str) -> (r: Annotation)
        ensures
            r.name@ == name@,
            r.value@ == value@,
    {
        Annotation { name: name.to_owned(), value: value.to_owned() }
    }
}

/// The signatures of a list of arguments, one after the other.
pub open spec fn args_signature(args: Seq<Argument>) -> Seq<char>
    decreases args.len(),
{
    if args.len() == 0 {
        Seq::empty()
    } else {
        args_signature(args.drop_last()) + args.last().signature@
    }
}

/// The signatures of a list of arguments, one after the other.
pub fn signature_text(args: &Vec<Argument>) -> (r: String)
    ensures
        r@ == args_signature(args@),
{
    let mut out = String::new();
    let mut i: usize = 0;
    while i < args.len()
        invariant
            i <= args.len(),
            out@ == args_signature(args@.take(i as int)),
        decreases args.len() - i,
    {
        out.append(args[i].signature.as_str());
        proof {
            assert(args@.take(i as int + 1).drop_last() =~= args@.take(i as int));
        }
        i = i + 1;
    }
    assert(args@.take(i as int) =~= args@);
    out
}

/// What a method call gives back: the values of the reply, or an error.
pub type MethodResult = Result<Vec<Value>, ErrorMessage>;

/// What reading a property gives back.
pub type PropertyGetResult = Result<Value, ErrorMessage>;

/// What writing a property gives back.
pub type PropertySetResult = Result<(), ErrorMessage>;

/// The code behind a method that an application provides.
pub trait MethodHandler {
    /// Answers one call.
    fn call(&self, msg: &Message) -> MethodResult;
}

/// The code behind a property that can only be read.
pub trait PropertyReadHandler {
    /// The value of the property.
    fn get(&self) -> PropertyGetResult;
}

/// The code behind a property that can only be written.
pub trait PropertyWriteHandler {
    /// Sets the value of the property.
    fn set(&self, value: &Value) -> PropertySetResult;
}

/// The code behind a property that can be read and written.
pub trait PropertyReadWriteHandler {
    /// The value of the property.
    fn get(&self) -> PropertyGetResult;

    /// Sets the value of the property.
    fn set(&self, value: &Value) -> PropertySetResult;
}

/// What runs when a method is called: one of the standard methods, which the
/// set of interfaces answers itself, or code of the application.
pub enum Action {
    /// `Peer.Ping`.
    Ping,
    /// `Peer.GetMachineId`.
    GetMachineId,
    /// `Properties.Get`.
    GetProperty,
    /// `Properties.Set`.
    SetProperty,
    /// `Properties.GetAll`.
    GetAllProperties,
    /// `Introspectable.Introspect`.
    Introspect,
    /// `ObjectManager.GetManagedObjects`.
    GetManagedObjects,
    /// A method of the application.
    Custom(Box<dyn MethodHandler>),
}

/// A method of an interface.
pub struct Method {
    /// The arguments that a call has to bring, in order.
    pub in_args: Vec<Argument>,
    /// The values that a reply brings, in order.
    pub out_args: Vec<Argument>,
    /// What runs when the method is called.
    pub cb: Action,
    /// The annotations of the method.
    pub anns: Vec<Annotation>,
}

impl Method {
    /// A method without arguments that runs the given code.
    pub fn new(cb: Box<dyn MethodHandler>) -> (r: Method)
        ensures
            r.in_args@.len() == 0,
            r.out_args@.len() == 0,
            r.anns@.len() == 0,
            r.cb == Action::Custom(cb),
    {
        Method { in_args: Vec::new(), out_args: Vec::new(), cb: Action::Custom(cb), anns: Vec::new() }
    }

    /// A standard method without arguments.
    pub fn standard(cb: Action) -> (r: Method)
        ensures
            r.in_args@.len() == 0,
            r.out_args@.len() == 0,
            r.anns@.len() == 0,
            r.cb == cb,
    {
        Method { in_args: Vec::new(), out_args: Vec::new(), cb, anns: Vec::new() }
    }

    /// The method with one more input argument.
    pub fn add_argument(self, arg: Argument) -> (r: Method)
        ensures
            r.in_args@ == self.in_args@.push(arg),
            r.out_args@ == self.out_args@,
            r.anns@ == self.anns@,
            r.cb == self.cb,
    {
        let mut m = self;
        m.in_args.push(arg);
        m
    }

    /// The method with one more output.
    pub fn add_result(self, arg: Argument) -> (r: Method)
        ensures
            r.in_args@ == self.in_args@,
            r.out_args@ == self.out_args@.push(arg),
            r.anns@ == self.anns@,
            r.cb == self.cb,
    {
        let mut m = self;
        m.out_args.push(arg);
        m
    }

    /// The method with one more annotation.
    pub fn annotate(self, ann: Annotation) -> (r: Method)
        ensures
            r.in_args@ == self.in_args@,
            r.out_args@ == self.out_args@,
            r.anns@ == self.anns@.push(ann),
            r.cb == self.cb,
    {
        let mut m = self;
        m.anns.push(ann);
        m
    }
}

/// How a property may be used, with the code that does it.
pub enum PropertyAccess {
    /// Read only.
    RO(Box<dyn PropertyReadHandler>),
    /// Read and write.
    RW(Box<dyn PropertyReadWriteHandler>),
    /// Write only.
    WO(Box<dyn PropertyWriteHandler>),
}

/// A property of an interface.
pub struct Property {
    /// The signature of the property's type.
    pub signature: Signature,
    /// How the property may be used.
    pub access: PropertyAccess,
    /// The annotations of the property.
    pub anns: Vec<Annotation>,
}

impl Property {
    /// A property of that type and access.
    pub fn new(sig: Signature, access: PropertyAccess) -> (r: Property)
        ensures
            r.signature == sig,
            r.access == access,
            r.anns@.len() == 0,
    {
        Property { signature: sig, access, anns: Vec::new() }
    }

    /// A property that can only be read.
    pub fn new_ro(sig: Signature, access: Box<dyn PropertyReadHandler>) -> (r: Property)
        ensures
            r.signature == sig,
            r.access == PropertyAccess::RO(access),
            r.anns@.len() == 0,
    {
        Property::new(sig, PropertyAccess::RO(access))
    }

    /// A property that can be read and written.
    pub fn new_rw(sig: Signature, access: Box<dyn PropertyReadWriteHandler>) -> (r: Property)
        ensures
            r.signature == sig,
            r.access == PropertyAccess::RW(access),
            r.anns@.len() == 0,
    {
        Property::new(sig, PropertyAccess::RW(access))
    }

    /// A property that can only be written.
    pub fn new_wo(sig: Signature, access: Box<dyn PropertyWriteHandler>) -> (r: Property)
        ensures
            r.signature == sig,
            r.access == PropertyAccess::WO(access),
            r.anns@.len() == 0,
    {
        Property::new(sig, PropertyAccess::WO(access))
    }

    /// The property with one more annotation.
    pub fn annotate(self, ann: Annotation) -> (r: Property)
        ensures
            r.signature == self.signature,
            r.access == self.access,
            r.anns@ == self.anns@.push(ann),
    {
        let mut p = self;
        p.anns.push(ann);
        p
    }

    /// Whether a value has the type that the property declares.
    pub open spec fn fits(self, value: Value) -> bool {
        self.signature.0@ == value.signature()
    }

    /// Whether a value has the type that the property declares.
    pub fn check_signature(&self, value: &Value) -> (r: bool)
        ensures
            r == self.fits(*value),
    {
        let actual = value.get_signature();
        self.signature.0 == actual
    }
}

/// A signal of an interface: the shape of what is sent. Sending is up to the
/// application.
pub struct Signal {
    /// The values that the signal carries, in order.
    pub args: Vec<Argument>,
    /// The annotations of the signal.
    pub anns: Vec<Annotation>,
}

impl Signal {
    /// A signal that carries nothing.
    pub fn new() -> (r: Signal)
        ensures
            r.args@.len() == 0,
            r.anns@.len() == 0,
    {
        Signal { args: Vec::new(), anns: Vec::new() }
    }

    /// The signal with one more value.
    pub fn add_argument(self, arg: Argument) -> (r: Signal)
        ensures
            r.args@ == self.args@.push(arg),
            r.anns@ == self.anns@,
    {
        let mut s = self;
        s.args.push(arg);
        s
    }

    /// The signal with one more annotation.
    pub fn annotate(self, ann: Annotation) -> (r: Signal)
        ensures
            r.args@ == self.args@,
            r.anns@ == self.anns@.push(ann),
    {
        let mut s = self;
        s.anns.push(ann);
        s
    }
}

/// A fault of the application's own code: a handler gave back something that
/// does not have the type it declared. Such a result is never sent.
#[derive(Debug, PartialEq, Eq)]
pub struct Defect {
    /// What went wrong.
    pub description: String,
}

/// An interface: methods, properties and signals by name.
pub struct Interface {
    /// The methods of the interface.
    pub methods: NameMap<Method>,
    /// The properties of the interface.
    pub properties: NameMap<Property>,
    /// The signals of the interface.
    pub signals: NameMap<Signal>,
    /// The annotations of the interface.
    pub anns: Vec<Annotation>,
}

/// The text of the defect for a property whose value has the wrong type.
pub open spec fn wrong_type_text(name: Seq<char>, actual: Seq<char>, expected: Seq<char>) -> Seq<char> {
    "invalid property return type for: property: '"@ + name + "' expected: '"@ + expected
        + "' actual: '"@ + actual + "'"@
}

/// Whether `out` is what reading a property leads to, once its handler has
/// given back `res`: an error is passed on, a value of the declared type is the
/// one value of the result, and a value of another type is a defect.
pub open spec fn judged(
    prop: Property,
    name: Seq<char>,
    res: PropertyGetResult,
    out: Result<MethodResult, Defect>,
) -> bool {
    match res {
        Err(e) => out == Ok::<MethodResult, Defect>(Err(e)),
        Ok(v) => if prop.fits(v) {
            out matches Ok(Ok(vals)) && vals@ == seq![v]
        } else {
            out matches Err(d) && d.description@ == wrong_type_text(name, v.signature(), prop.signature.0@)
        },
    }
}

/// Whether `out` is what writing a property leads to, once its handler has
/// given back `res`.
pub open spec fn written(res: PropertySetResult, out: MethodResult) -> bool {
    match res {
        Err(e) => out == Err::<Vec<Value>, ErrorMessage>(e),
        Ok(_) => out matches Ok(vals) && vals@.len() == 0,
    }
}

/// The value wrapped as a variant that carries the value's own signature.
pub fn variant_of(value: Value) -> (r: Value)
    ensures
        r matches Value::Variant(v) && *v.object == value && v.signature.0@ == value.signature(),
{
    let sig = value.get_signature();
    Value::Variant(Variant { object: Box::new(value), signature: Signature(sig) })
}

impl Interface {
    /// An interface without members.
    pub fn new() -> (r: Interface)
        ensures
            r.methods.count() == 0,
            r.properties.count() == 0,
            r.signals.count() == 0,
            r.anns@.len() == 0,
    {
        Interface { methods: NameMap::new(), properties: NameMap::new(), signals: NameMap::new(), anns: Vec::new() }
    }

    /// The interface with a method of that name. A method that had the name is
    /// replaced.
    pub fn add_method(self, name: &str, method: Method) -> (r: Interface)
        ensures
            r.methods.has(name@),
            r.methods.item(name@) == method,
            forall|other: Seq<char>| other != name@ ==> (r.methods.has(other) <==> self.methods.has(other)),
            forall|other: Seq<char>| other != name@ && self.methods.has(other) ==> r.methods.item(other) == self.methods.item(other),
            r.methods.count() == self.methods.count() + (if self.methods.has(name@) { 0nat } else { 1nat }),
            r.properties == self.properties,
            r.signals == self.signals,
            r.anns == self.anns,
    {
        let mut i = self;
        let _ = i.methods.insert(name, method);
        i
    }

    /// The interface with a property of that name. A property that had the
    /// name is replaced.
    pub fn add_property(self, name: &str, property: Property) -> (r: Interface)
        ensures
            r.properties.has(name@),
            r.properties.item(name@) == property,
            forall|other: Seq<char>| other != name@ ==> (r.properties.has(other) <==> self.properties.has(other)),
            forall|other: Seq<char>| other != name@ && self.properties.has(other) ==> r.properties.item(other) == self.properties.item(other),
            r.properties.count() == self.properties.count() + (if self.properties.has(name@) { 0nat } else { 1nat }),
            r.methods == self.methods,
            r.signals == self.signals,
            r.anns == self.anns,
    {
        let mut i = self;
        let _ = i.properties.insert(name, property);
        i
    }

    /// The property of that name, if the interface has one.
    pub fn get_property(&self, name: &str) -> (r: Option<&Property>)
        ensures
            match r {
                Some(p) => self.properties.has(name@) && *p == self.properties.item(name@),
                None => !self.properties.has(name@),
            },
    {
        self.properties.get(name)
    }

    /// The interface with a signal of that name. A signal that had the name is
    /// replaced.
    pub fn add_signal(self, name: &str, signal: Signal) -> (r: Interface)
        ensures
            r.signals.has(name@),
            r.signals.item(name@) == signal,
            forall|other: Seq<char>| other != name@ ==> (r.signals.has(other) <==> self.signals.has(other)),
            forall|other: Seq<char>| other != name@ && self.signals.has(other) ==> r.signals.item(other) == self.signals.item(other),
            r.signals.count() == self.signals.count() + (if self.signals.has(name@) { 0nat } else { 1nat }),
            r.methods == self.methods,
            r.properties == self.properties,
            r.anns == self.anns,
    {
        let mut i = self;
        let _ = i.signals.insert(name, signal);
        i
    }

    /// The interface with one more annotation.
    pub fn annotate(self, ann: Annotation) -> (r: Interface)
        ensures
            r.anns@ == self.anns@.push(ann),
            r.methods == self.methods,
            r.properties == self.properties,
            r.signals == self.signals,
    {
        let mut i = self;
        i.anns.push(ann);
        i
    }

    /// The property of that name, or the error for a property that the
    /// interface does not have.
    pub fn require_property(&self, name: &str) -> (r: Result<&Property, ErrorMessage>)
        ensures
            match r {
                Ok(p) => self.properties.has(name@) && *p == self.properties.item(name@),
                Err(e) => !self.properties.has(name@) && e.says(
                    UNKNOWN_PROPERTY@,
                    "unknown property: "@ + name@,
                ),
            },
    {
        match self.properties.get(name) {
            Some(p) => Ok(p),
            None => {
                let text = join("unknown property: ", name);
                Err(ErrorMessage::new(UNKNOWN_PROPERTY, text.as_str()))
            },
        }
    }

    /// What reading a property leads to, once its handler has answered.
    pub fn judge(prop: &Property, name: &str, res: PropertyGetResult) -> (r: Result<MethodResult, Defect>)
        ensures
            judged(*prop, name@, res, r),
    {
        match res {
            Err(e) => Ok(Err(e)),
            Ok(v) => {
                if prop.check_signature(&v) {
                    let mut vals: Vec<Value> = Vec::new();
                    vals.push(v);
                    Ok(Ok(vals))
                } else {
                    let actual = v.get_signature();
                    let mut text = join("invalid property return type for: property: '", name);
                    text.append("' expected: '");
                    text.append(prop.signature.0.as_str());
                    text.append("' actual: '");
                    text.append(actual.as_str());
                    text.append("'");
                    Err(Defect { description: text })
                }
            },
        }
    }

    /// Reads a property. A property that the interface does not have gives the
    /// error `UnknownProperty`, one that can only be written gives `Failed`.
    /// Otherwise the handler is asked, and what it gives back is judged.
    pub fn get_property_value(&self, name: &str) -> (r: Result<MethodResult, Defect>)
        ensures
            !self.properties.has(name@) ==> (r matches Ok(Err(e)) && e.says(
                UNKNOWN_PROPERTY@,
                "unknown property: "@ + name@,
            )),
            self.properties.has(name@) && self.properties.item(name@).access is WO ==> (r matches Ok(
                Err(e),
            ) && e.says(FAILED@, "property is write-only: "@ + name@)),
            self.properties.has(name@) && !(self.properties.item(name@).access is WO) ==> exists|
                res: PropertyGetResult,
            | judged(self.properties.item(name@), name@, res, r),
    {
        match self.require_property(name) {
            Err(e) => Ok(Err(e)),
            Ok(prop) => {
                let res = match &prop.access {
                    PropertyAccess::RO(ro) => ro.get(),
                    PropertyAccess::RW(rw) => rw.get(),
                    PropertyAccess::WO(_) => {
                        let text = join("property is write-only: ", name);
                        return Ok(Err(ErrorMessage::new(FAILED, text.as_str())));
                    },
                };
                let r = Self::judge(prop, name, res);
                assert(judged(self.properties.item(name@), name@, res, r));
                r
            },
        }
    }

    /// What writing a property leads to, once its handler has answered.
    pub fn settle(res: PropertySetResult) -> (r: MethodResult)
        ensures
            written(res, r),
    {
        match res {
            Err(e) => Err(e),
            Ok(_) => Ok(Vec::new()),
        }
    }

    /// Writes a property. A property that the interface does not have gives
    /// `UnknownProperty`; a value of another type than the property declares
    /// gives `InvalidArgs`, and the handler is not asked; a property that can
    /// only be read gives `Failed`. Otherwise the handler is asked.
    pub fn set_property_value(&self, name: &str, value: &Value) -> (r: MethodResult)
        ensures
            !self.properties.has(name@) ==> (r matches Err(e) && e.says(
                UNKNOWN_PROPERTY@,
                "unknown property: "@ + name@,
            )),
            self.properties.has(name@) && !self.properties.item(name@).fits(*value) ==> (r matches Err(
                e,
            ) && e.says(INVALID_ARGS@, "invalid arguments"@)),
            self.properties.has(name@) && self.properties.item(name@).fits(*value)
                && self.properties.item(name@).access is RO ==> (r matches Err(e) && e.says(
                FAILED@,
                "property is read-only: "@ + name@,
            )),
            self.properties.has(name@) && self.properties.item(name@).fits(*value) && !(
            self.properties.item(name@).access is RO) ==> exists|res: PropertySetResult| written(res, r),
    {
        match self.require_property(name) {
            Err(e) => Err(e),
            Ok(prop) => {
                if !prop.check_signature(value) {
                    return Err(Arguments::invalid_arguments());
                }
                let res = match &prop.access {
                    PropertyAccess::WO(wo) => wo.set(value),
                    PropertyAccess::RW(rw) => rw.set(value),
                    PropertyAccess::RO(_) => {
                        let text = join("property is read-only: ", name);
                        return Err(ErrorMessage::new(FAILED, text.as_str()));
                    },
                };
                let r = Self::settle(res);
                assert(written(res, r));
                r
            },
        }
    }
}

/// The name that a dictionary entry is filed under, where its key is a string.
pub open spec fn entry_name(entry: (BasicValue, Value)) -> Option<Seq<char>> {
    match entry.0 {
        BasicValue::String(s) => Some(s@),
        _ => None,
    }
}

impl Interface {
    /// Whether the interface has a property of that name that can be read.
    pub open spec fn readable(self, name: Seq<char>) -> bool {
        self.properties.has(name) && !(self.properties.item(name).access is WO)
    }

    /// Whether a dictionary entry holds a readable property of the interface
    /// under its name, as a variant.
    pub open spec fn lists(self, entry: (BasicValue, Value)) -> bool {
        &&& entry_name(entry) matches Some(name)
        &&& self.readable(name)
        &&& entry.1 is Variant
    }

    /// Files what a property's handler gave back: a value is put at the end of
    /// the entries, as a variant under the property's name, and an error is
    /// dropped.
    pub fn keep(entries: &mut Vec<(BasicValue, Value)>, name: &str, res: PropertyGetResult)
        ensures
            res is Err ==> final(entries)@ == old(entries)@,
            res is Ok ==> final(entries)@.len() == old(entries)@.len() + 1,
            res is Ok ==> final(entries)@.drop_last() == old(entries)@,
            res is Ok ==> entry_name(final(entries)@.last()) == Some(name@),
            res matches Ok(v) ==> (final(entries)@.last().1 matches Value::Variant(w) && *w.object == v),
    {
        match res {
            Ok(v) => {
                let ghost before = entries@;
                entries.push((BasicValue::String(name.to_owned()), variant_of(v)));
                assert(entries@.drop_last() =~= before);
            },
            Err(_) => {},
        }
    }

    /// The values of the properties that can be read, as a dictionary from
    /// property names to variants, in the order of the names. A property whose
    /// handler fails is left out.
    pub fn get_property_map(&self) -> (r: Dictionary)
        ensures
            r.signature.0@ == "a{sv}"@,
            r.entries@.len() <= self.properties.count(),
            forall|i: int| 0 <= i < r.entries@.len() ==> self.lists(#[trigger] r.entries@[i]),
            forall|i: int, j: int|
                0 <= i < j < r.entries@.len() ==> crate::text::text_lt(
                    entry_name(#[trigger] r.entries@[i])->0,
                    entry_name(#[trigger] r.entries@[j])->0,
                ),
    {
        let mut entries: Vec<(BasicValue, Value)> = Vec::new();
        let n = self.properties.len();
        let mut i: usize = 0;
        while i < n
            invariant
                i <= n,
                n == self.properties.count(),
                self.properties.items().len() == n,
                crate::names::ascending(self.properties.names()),
                entries@.len() <= i,
                forall|k: int| 0 <= k < entries@.len() ==> self.lists(#[trigger] entries@[k]),
                forall|k: int|
                    0 <= k < entries@.len() ==> exists|j: int|
                        0 <= j < i && entry_name(#[trigger] entries@[k]) == Some(self.properties.names()[j]),
                forall|a: int, b: int|
                    0 <= a < b < entries@.len() ==> crate::text::text_lt(
                        entry_name(#[trigger] entries@[a])->0,
                        entry_name(#[trigger] entries@[b])->0,
                    ),
            decreases n - i,
        {
            let name = self.properties.name_at(i);
            let prop = self.properties.item_at(i);
            let ghost before = entries@;
            proof {
                NameMap::<Property>::lemma_place(self.properties.names(), i as int);
            }
            match &prop.access {
                PropertyAccess::RO(ro) => {
                    let res = ro.get();
                    Self::keep(&mut entries, name.as_str(), res);
                },
                PropertyAccess::RW(rw) => {
                    let res = rw.get();
                    Self::keep(&mut entries, name.as_str(), res);
                },
                PropertyAccess::WO(_) => {},
            }
            proof {
                if entries@.len() > before.len() {
                    assert(entries@.drop_last() == before);
                    assert forall|k: int| 0 <= k < entries@.len() implies exists|j: int|
                        0 <= j < i + 1 && entry_name(#[trigger] entries@[k]) == Some(
                            self.properties.names()[j],
                        ) by {
                        if k < before.len() {
                            assert(entries@[k] == before[k]);
                            let j = choose|j: int|
                                0 <= j < i && entry_name(before[k]) == Some(self.properties.names()[j]);
                            assert(0 <= j < i + 1);
                        } else {
                            assert(entry_name(entries@[k]) == Some(self.properties.names()[i as int]));
                        }
                    }
                    assert forall|a: int, b: int| 0 <= a < b < entries@.len() implies crate::text::text_lt(
                        entry_name(#[trigger] entries@[a])->0,
                        entry_name(#[trigger] entries@[b])->0,
                    ) by {
                        assert(entries@[a] == before[a]);
                        if b < before.len() {
                            assert(entries@[b] == before[b]);
                        } else {
                            let j = choose|j: int|
                                0 <= j < i && entry_name(before[a]) == Some(self.properties.names()[j]);
                            assert(crate::text::text_lt(
                                self.properties.names()[j],
                                self.properties.names()[i as int],
                            ));
                        }
                    }
                    assert forall|k: int| 0 <= k < entries@.len() implies self.lists(
                        #[trigger] entries@[k],
                    ) by {
                        if k < before.len() {
                            assert(entries@[k] == before[k]);
                        }
                    }
                }
            }
            i = i + 1;
        }
        Dictionary { entries, signature: Signature("a{sv}".to_owned()) }
    }
}

} // verus!
