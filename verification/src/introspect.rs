//! The description of an object's interfaces as introspection XML.

use vstd::prelude::*;
use vstd::string::StringExecFns;
use crate::interface::{Annotation, Argument, Interface, Method, Property, PropertyAccess, Signal};
use crate::names::NameMap;

verus! {

/// The two lines that open an introspection document.
pub open spec fn doctype() -> Seq<char> {
    "<!DOCTYPE node PUBLIC \"-//freedesktop//DTD D-BUS Object Introspection 1.0//EN\"\n \"http://www.freedesktop.org/standards/dbus/1.0/introspect.dtd\">\n"@
}

/// One `annotation` element.
pub open spec fn annotation_xml(indent: Seq<char>, ann: Annotation) -> Seq<char> {
    indent + "<annotation name=\""@ + ann.name@ + "\" value=\""@ + ann.value@ + "\" />\n"@
}

/// The `annotation` elements of a list of annotations, in order.
pub open spec fn annotations_xml(indent: Seq<char>, anns: Seq<Annotation>) -> Seq<char>
    decreases anns.len(),
{
    if anns.len() == 0 {
        Seq::empty()
    } else {
        annotations_xml(indent, anns.drop_last()) + annotation_xml(indent, anns.last())
    }
}

/// One `arg` element.
pub open spec fn arg_xml(indent: Seq<char>, direction: Seq<char>, arg: Argument) -> Seq<char> {
    indent + "<arg name=\""@ + arg.name@ + "\" type=\""@ + arg.signature@ + "\" direction=\""@ + direction
        + "\" />\n"@
}

/// The `arg` elements of a list of arguments, in order.
pub open spec fn args_xml(indent: Seq<char>, direction: Seq<char>, args: Seq<Argument>) -> Seq<char>
    decreases args.len(),
{
    if args.len() == 0 {
        Seq::empty()
    } else {
        args_xml(indent, direction, args.drop_last()) + arg_xml(indent, direction, args.last())
    }
}

/// The word for the access of a property.
pub open spec fn access_word(access: PropertyAccess) -> Seq<char> {
    match access {
        PropertyAccess::RO(_) => "read"@,
        PropertyAccess::RW(_) => "readwrite"@,
        PropertyAccess::WO(_) => "write"@,
    }
}

/// The `property` element of a property.
pub open spec fn property_xml(name: Seq<char>, prop: Property) -> Seq<char> {
    "  <property name=\""@ + name + "\" type=\""@ + prop.signature.0@ + "\" access=\""@ + access_word(
        prop.access,
    ) + "\">\n"@ + annotations_xml("   "@, prop.anns@) + "  </property>\n"@
}

/// The `method` element of a method: its inputs, its outputs, its annotations.
pub open spec fn method_xml(name: Seq<char>, method: Method) -> Seq<char> {
    "  <method name=\""@ + name + "\">\n"@ + args_xml("   "@, "in"@, method.in_args@) + args_xml(
        "   "@,
        "out"@,
        method.out_args@,
    ) + annotations_xml("   "@, method.anns@) + "  </method>\n"@
}

/// The `signal` element of a signal.
pub open spec fn signal_xml(name: Seq<char>, signal: Signal) -> Seq<char> {
    "  <signal name=\""@ + name + "\">\n"@ + args_xml("   "@, "out"@, signal.args@) + annotations_xml(
        "   "@,
        signal.anns@,
    ) + "  </signal>\n"@
}

/// The elements of the properties, in the order of their names.
pub open spec fn properties_xml(names: Seq<Seq<char>>, items: Seq<Property>) -> Seq<char>
    decreases names.len(),
{
    if names.len() == 0 || items.len() != names.len() {
        Seq::empty()
    } else {
        properties_xml(names.drop_last(), items.drop_last()) + property_xml(names.last(), items.last())
    }
}

/// The elements of the methods, in the order of their names.
pub open spec fn methods_xml(names: Seq<Seq<char>>, items: Seq<Method>) -> Seq<char>
    decreases names.len(),
{
    if names.len() == 0 || items.len() != names.len() {
        Seq::empty()
    } else {
        methods_xml(names.drop_last(), items.drop_last()) + method_xml(names.last(), items.last())
    }
}

/// The elements of the signals, in the order of their names.
pub open spec fn signals_xml(names: Seq<Seq<char>>, items: Seq<Signal>) -> Seq<char>
    decreases names.len(),
{
    if names.len() == 0 || items.len() != names.len() {
        Seq::empty()
    } else {
        signals_xml(names.drop_last(), items.drop_last()) + signal_xml(names.last(), items.last())
    }
}

/// The `interface` element of an interface: its properties, its methods, its
/// signals and its annotations.
pub open spec fn interface_xml(name: Seq<char>, iface: Interface) -> Seq<char> {
    " <interface name=\""@ + name + "\">\n"@ + properties_xml(
        iface.properties.names(),
        iface.properties.items(),
    ) + methods_xml(iface.methods.names(), iface.methods.items()) + signals_xml(
        iface.signals.names(),
        iface.signals.items(),
    ) + annotations_xml("  "@, iface.anns@) + " </interface>\n"@
}

/// The elements of the interfaces, in the order of their names.
pub open spec fn interfaces_xml(names: Seq<Seq<char>>, items: Seq<Interface>) -> Seq<char>
    decreases names.len(),
{
    if names.len() == 0 || items.len() != names.len() {
        Seq::empty()
    } else {
        interfaces_xml(names.drop_last(), items.drop_last()) + interface_xml(names.last(), items.last())
    }
}

/// The `node` elements of the child objects, in order.
pub open spec fn children_xml(children: Seq<String>) -> Seq<char>
    decreases children.len(),
{
    if children.len() == 0 {
        Seq::empty()
    } else {
        children_xml(children.drop_last()) + " <node name=\""@ + children.last()@ + "\" />\n"@
    }
}

/// The whole document for an object with these interfaces and children.
pub open spec fn document(names: Seq<Seq<char>>, items: Seq<Interface>, children: Seq<String>) -> Seq<char> {
    doctype() + "<node>\n"@ + interfaces_xml(names, items) + children_xml(children) + "</node>\n"@
}

/// The `annotation` elements of a list of annotations.
pub fn introspect_annotations(indent: &str, anns: &Vec<Annotation>) -> (r: String)
    ensures
        r@ == annotations_xml(indent@, anns@),
{
    let mut out = String::new();
    let mut i: usize = 0;
    while i < anns.len()
        invariant
            i <= anns.len(),
            out@ == annotations_xml(indent@, anns@.take(i as int)),
        decreases anns.len() - i,
    {
        let ghost before = out@;
        out.append(indent);
        out.append("<annotation name=\"");
        out.append(anns[i].name.as_str());
        out.append("\" value=\"");
        out.append(anns[i].value.as_str());
        out.append("\" />\n");
        proof {
            assert(anns@.take(i as int + 1).drop_last() =~= anns@.take(i as int));
            assert(out@ =~= before + annotation_xml(indent@, anns@[i as int]));
        }
        i = i + 1;
    }
    assert(anns@.take(i as int) =~= anns@);
    out
}

/// The `arg` elements of a list of arguments.
pub fn introspect_args(indent: &str, direction: &str, args: &Vec<Argument>) -> (r: String)
    ensures
        r@ == args_xml(indent@, direction@, args@),
{
    let mut out = String::new();
    let mut i: usize = 0;
    while i < args.len()
        invariant
            i <= args.len(),
            out@ == args_xml(indent@, direction@, args@.take(i as int)),
        decreases args.len() - i,
    {
        let ghost before = out@;
        out.append(indent);
        out.append("<arg name=\"");
        out.append(args[i].name.as_str());
        out.append("\" type=\"");
        out.append(args[i].signature.as_str());
        out.append("\" direction=\"");
        out.append(direction);
        out.append("\" />\n");
        proof {
            assert(args@.take(i as int + 1).drop_last() =~= args@.take(i as int));
            assert(out@ =~= before + arg_xml(indent@, direction@, args@[i as int]));
        }
        i = i + 1;
    }
    assert(args@.take(i as int) =~= args@);
    out
}

/// The `property` element of a property.
pub fn introspect_property(name: &str, prop: &Property) -> (r: String)
    ensures
        r@ == property_xml(name@, *prop),
{
    let access = match &prop.access {
        PropertyAccess::RO(_) => "read",
        PropertyAccess::RW(_) => "readwrite",
        PropertyAccess::WO(_) => "write",
    };
    let anns = introspect_annotations("   ", &prop.anns);
    let mut out = "  <property name=\"".to_owned();
    out.append(name);
    out.append("\" type=\"");
    out.append(prop.signature.0.as_str());
    out.append("\" access=\"");
    out.append(access);
    out.append("\">\n");
    out.append(anns.as_str());
    out.append("  </property>\n");
    out
}

/// The `method` element of a method.
pub fn introspect_method(name: &str, method: &Method) -> (r: String)
    ensures
        r@ == method_xml(name@, *method),
{
    let ins = introspect_args("   ", "in", &method.in_args);
    let outs = introspect_args("   ", "out", &method.out_args);
    let anns = introspect_annotations("   ", &method.anns);
    let mut out = "  <method name=\"".to_owned();
    out.append(name);
    out.append("\">\n");
    out.append(ins.as_str());
    out.append(outs.as_str());
    out.append(anns.as_str());
    out.append("  </method>\n");
    out
}

/// The `signal` element of a signal.
pub fn introspect_signal(name: &str, signal: &Signal) -> (r: String)
    ensures
        r@ == signal_xml(name@, *signal),
{
    let args = introspect_args("   ", "out", &signal.args);
    let anns = introspect_annotations("   ", &signal.anns);
    let mut out = "  <signal name=\"".to_owned();
    out.append(name);
    out.append("\">\n");
    out.append(args.as_str());
    out.append(anns.as_str());
    out.append("  </signal>\n");
    out
}

/// The elements of the properties of an interface.
fn introspect_properties(map: &NameMap<Property>) -> (r: String)
    ensures
        r@ == properties_xml(map.names(), map.items()),
{
    let mut out = String::new();
    let n = map.len();
    let mut i: usize = 0;
    while i < n
        invariant
            i <= n,
            n == map.count(),
            map.items().len() == n,
            out@ == properties_xml(map.names().take(i as int), map.items().take(i as int)),
        decreases n - i,
    {
        let one = introspect_property(map.name_at(i).as_str(), map.item_at(i));
        out.append(one.as_str());
        proof {
            assert(map.names().take(i as int + 1).drop_last() =~= map.names().take(i as int));
            assert(map.items().take(i as int + 1).drop_last() =~= map.items().take(i as int));
        }
        i = i + 1;
    }
    assert(map.names().take(i as int) =~= map.names());
    assert(map.items().take(i as int) =~= map.items());
    out
}

/// The elements of the methods of an interface.
fn introspect_methods(map: &NameMap<Method>) -> (r: String)
    ensures
        r@ == methods_xml(map.names(), map.items()),
{
    let mut out = String::new();
    let n = map.len();
    let mut i: usize = 0;
    while i < n
        invariant
            i <= n,
            n == map.count(),
            map.items().len() == n,
            out@ == methods_xml(map.names().take(i as int), map.items().take(i as int)),
        decreases n - i,
    {
        let one = introspect_method(map.name_at(i).as_str(), map.item_at(i));
        out.append(one.as_str());
        proof {
            assert(map.names().take(i as int + 1).drop_last() =~= map.names().take(i as int));
            assert(map.items().take(i as int + 1).drop_last() =~= map.items().take(i as int));
        }
        i = i + 1;
    }
    assert(map.names().take(i as int) =~= map.names());
    assert(map.items().take(i as int) =~= map.items());
    out
}

/// The elements of the signals of an interface.
fn introspect_signals(map: &NameMap<Signal>) -> (r: String)
    ensures
        r@ == signals_xml(map.names(), map.items()),
{
    let mut out = String::new();
    let n = map.len();
    let mut i: usize = 0;
    while i < n
        invariant
            i <= n,
            n == map.count(),
            map.items().len() == n,
            out@ == signals_xml(map.names().take(i as int), map.items().take(i as int)),
        decreases n - i,
    {
        let one = introspect_signal(map.name_at(i).as_str(), map.item_at(i));
        out.append(one.as_str());
        proof {
            assert(map.names().take(i as int + 1).drop_last() =~= map.names().take(i as int));
            assert(map.items().take(i as int + 1).drop_last() =~= map.items().take(i as int));
        }
        i = i + 1;
    }
    assert(map.names().take(i as int) =~= map.names());
    assert(map.items().take(i as int) =~= map.items());
    out
}

/// The `interface` element of an interface.
pub fn introspect_interface(name: &str, iface: &Interface) -> (r: String)
    ensures
        r@ == interface_xml(name@, *iface),
{
    let props = introspect_properties(&iface.properties);
    let methods = introspect_methods(&iface.methods);
    let signals = introspect_signals(&iface.signals);
    let anns = introspect_annotations("  ", &iface.anns);
    let mut out = " <interface name=\"".to_owned();
    out.append(name);
    out.append("\">\n");
    out.append(props.as_str());
    out.append(methods.as_str());
    out.append(signals.as_str());
    out.append(anns.as_str());
    out.append(" </interface>\n");
    out
}

/// The introspection document of an object with these interfaces and
/// children.
pub fn introspect(map: &NameMap<Interface>, children: &Vec<String>) -> (r: String)
    ensures
        r@ == document(map.names(), map.items(), children@),
{
    let mut out =
        "<!DOCTYPE node PUBLIC \"-//freedesktop//DTD D-BUS Object Introspection 1.0//EN\"\n \"http://www.freedesktop.org/standards/dbus/1.0/introspect.dtd\">\n".to_owned();
    out.append("<node>\n");
    let mut body = String::new();
    let n = map.len();
    let mut i: usize = 0;
    while i < n
        invariant
            i <= n,
            n == map.count(),
            map.items().len() == n,
            body@ == interfaces_xml(map.names().take(i as int), map.items().take(i as int)),
        decreases n - i,
    {
        let one = introspect_interface(map.name_at(i).as_str(), map.item_at(i));
        body.append(one.as_str());
        proof {
            assert(map.names().take(i as int + 1).drop_last() =~= map.names().take(i as int));
            assert(map.items().take(i as int + 1).drop_last() =~= map.items().take(i as int));
        }
        i = i + 1;
    }
    assert(map.names().take(i as int) =~= map.names());
    assert(map.items().take(i as int) =~= map.items());
    let mut kids = String::new();
    let mut k: usize = 0;
    while k < children.len()
        invariant
            k <= children.len(),
            kids@ == children_xml(children@.take(k as int)),
        decreases children.len() - k,
    {
        let ghost before = kids@;
        kids.append(" <node name=\"");
        kids.append(children[k].as_str());
        kids.append("\" />\n");
        proof {
            assert(children@.take(k as int + 1).drop_last() =~= children@.take(k as int));
            assert(kids@ =~= before + " <node name=\""@ + children@[k as int]@ + "\" />\n"@);
        }
        k = k + 1;
    }
    assert(children@.take(k as int) =~= children@);
    out.append(body.as_str());
    out.append(kids.as_str());
    out.append("</node>\n");
    out
}

} // verus!
