use std::cell::Cell;
use std::rc::Rc;

use bus::error::Error;
use bus::interface::{
    Argument, Interface, Method, MethodHandler, MethodResult, Property, PropertyGetResult,
    PropertyReadHandler, PropertyReadWriteHandler, PropertySetResult, PropertyWriteHandler,
};
use bus::message::{ErrorMessage, Message, MessageType};
use bus::registry::{Interfaces, Outcome, PeerInterface};
use bus::value::{BasicValue, Signature, Value, Variant};

struct Echo {
    calls: Rc<Cell<u32>>,
    answer: Vec<u32>,
}

impl MethodHandler for Echo {
    fn call(&self, _msg: &Message) -> MethodResult {
        self.calls.set(self.calls.get() + 1);
        Ok(self.answer.iter().map(|n| Value::BasicValue(BasicValue::Uint32(*n))).collect())
    }
}

struct Failing;

impl MethodHandler for Failing {
    fn call(&self, _msg: &Message) -> MethodResult {
        Err(ErrorMessage::new("com.example.Error.Broken", "it broke"))
    }
}

struct Fixed {
    reads: Rc<Cell<u32>>,
    writes: Rc<Cell<u32>>,
    value: u32,
}

impl PropertyReadHandler for Fixed {
    fn get(&self) -> PropertyGetResult {
        self.reads.set(self.reads.get() + 1);
        Ok(Value::BasicValue(BasicValue::Uint32(self.value)))
    }
}

impl PropertyWriteHandler for Fixed {
    fn set(&self, _value: &Value) -> PropertySetResult {
        self.writes.set(self.writes.get() + 1);
        Ok(())
    }
}

impl PropertyReadWriteHandler for Fixed {
    fn get(&self) -> PropertyGetResult {
        self.reads.set(self.reads.get() + 1);
        Ok(Value::BasicValue(BasicValue::Uint32(self.value)))
    }

    fn set(&self, _value: &Value) -> PropertySetResult {
        self.writes.set(self.writes.get() + 1);
        Ok(())
    }
}

struct Liar;

impl PropertyReadHandler for Liar {
    fn get(&self) -> PropertyGetResult {
        Ok(Value::string("not a number"))
    }
}

struct Broken;

impl PropertyReadHandler for Broken {
    fn get(&self) -> PropertyGetResult {
        Err(ErrorMessage::new("com.example.Error.Broken", "no value"))
    }
}

fn fixed(reads: &Rc<Cell<u32>>, writes: &Rc<Cell<u32>>, value: u32) -> Fixed {
    Fixed { reads: reads.clone(), writes: writes.clone(), value }
}

fn u32_sig() -> Signature {
    Signature("u".to_string())
}

fn counters() -> (Rc<Cell<u32>>, Rc<Cell<u32>>) {
    (Rc::new(Cell::new(0)), Rc::new(Cell::new(0)))
}

fn sample(reads: &Rc<Cell<u32>>, writes: &Rc<Cell<u32>>, calls: &Rc<Cell<u32>>) -> Interfaces {
    let iface = Interface::new()
        .add_property("Level", Property::new_ro(u32_sig(), Box::new(fixed(reads, writes, 7))))
        .add_property("Knob", Property::new_rw(u32_sig(), Box::new(fixed(reads, writes, 9))))
        .add_property("Sink", Property::new_wo(u32_sig(), Box::new(fixed(reads, writes, 0))))
        .add_property("Wrong", Property::new_ro(u32_sig(), Box::new(Liar)))
        .add_property("Dead", Property::new_ro(u32_sig(), Box::new(Broken)))
        .add_method(
            "Double",
            Method::new(Box::new(Echo { calls: calls.clone(), answer: vec![2, 4] }))
                .add_argument(Argument::new("n", "u"))
                .add_result(Argument::new("a", "u"))
                .add_result(Argument::new("b", "u")),
        )
        .add_method(
            "Lies",
            Method::new(Box::new(Echo { calls: calls.clone(), answer: vec![1] }))
                .add_result(Argument::new("text", "s")),
        )
        .add_method("Fails", Method::new(Box::new(Failing)));
    Interfaces::new().add_interface("com.example.Sample", iface).unwrap().finalize(vec![]).unwrap()
}

fn call(iface: &str, member: &str) -> Message {
    let mut m = Message::new_method_call("com.example", "/", iface, member);
    m.serial = 41;
    m
}

fn reply_of(out: Option<Outcome>) -> Message {
    match out {
        Some(Outcome::Reply(m)) => m,
        Some(Outcome::Defect(d)) => panic!("defect: {}", d.description),
        None => panic!("no outcome"),
    }
}

fn text_of(v: &Value) -> String {
    match v {
        Value::BasicValue(BasicValue::String(s)) => s.clone(),
        other => panic!("not a string: {:?}", other),
    }
}

fn assert_error(reply: &Message, name: &str, text: &str) {
    assert_eq!(reply.message_type(), MessageType::Error);
    assert_eq!(reply.error_name.as_deref(), Some(name));
    assert_eq!(reply.reply_serial, Some(41));
    assert_eq!(reply.body.len(), 1);
    assert_eq!(text_of(&reply.body[0]), text);
}

fn variant(v: Value) -> Value {
    let sig = v.get_signature();
    Value::Variant(Variant { object: Box::new(v), signature: Signature(sig) })
}

#[test]
fn empty_interface() {
    let ifaces = Interfaces::new();
    let children = vec![];

    let ifaces = ifaces.finalize(children).unwrap();

    {
        let map = &ifaces.map;
        assert_eq!(map.len(), 3);
        assert_eq!(map.contains("org.freedesktop.DBus.Peer"), true);
        assert_eq!(map.contains("org.freedesktop.DBus.Properties"), true);
        assert_eq!(map.contains("org.freedesktop.DBus.Introspectable"), true);
    }

    let name = "net.benboeckel.test.rustbus";

    let msg = Message::new_method_call(name, "/", "org.freedesktop.DBus.Introspectable", "Introspect");

    let reply = reply_of(ifaces.handle(&msg));
    assert_eq!(reply.message_type(), MessageType::MethodReturn);
    assert_eq!(reply.body.len(), 1);
    assert_eq!(reply.body[0].get_signature(), "s");
}

#[test]
fn same_interface_twice_is_refused() {
    let b = Interfaces::new().add_interface("com.example.A", Interface::new()).unwrap();
    match b.add_interface("com.example.A", Interface::new()) {
        Err(e) => assert_eq!(e, Error::InterfaceAlreadyRegistered("com.example.A".to_string())),
        Ok(_) => panic!("accepted"),
    }
}

#[test]
fn nothing_is_added_after_finalize() {
    let done = Interfaces::new().finalize(vec![]).unwrap();
    match done.add_interface("com.example.A", Interface::new()) {
        Err(e) => assert_eq!(e, Error::InterfacesFinalized),
        Ok(_) => panic!("accepted"),
    }
    let done = Interfaces::new().finalize(vec![]).unwrap();
    match done.finalize(vec![]) {
        Err(e) => assert_eq!(e, Error::InterfacesFinalized),
        Ok(_) => panic!("accepted"),
    }
}

#[test]
fn standard_name_taken_fails_finalize() {
    let b = Interfaces::new()
        .add_interface("org.freedesktop.DBus.Properties", Interface::new())
        .unwrap();
    match b.finalize(vec![]) {
        Err(e) => assert_eq!(
            e,
            Error::InterfaceAlreadyRegistered("org.freedesktop.DBus.Properties".to_string())
        ),
        Ok(_) => panic!("accepted"),
    }
}

#[test]
fn object_manager_is_the_fourth() {
    let done = Interfaces::new().finalize_with(vec![], true).unwrap();
    assert_eq!(done.map.len(), 4);
    assert!(done.map.contains("org.freedesktop.DBus.ObjectManager"));
    let plain = Interfaces::new().finalize_with(vec![], false).unwrap();
    assert_eq!(plain.map.len(), 3);
    assert!(!plain.map.contains("org.freedesktop.DBus.ObjectManager"));
}

#[test]
fn ping_returns_nothing() {
    let done = Interfaces::new().finalize(vec![]).unwrap();
    let reply = reply_of(done.handle(&call("org.freedesktop.DBus.Peer", "Ping")));
    assert_eq!(reply.message_type(), MessageType::MethodReturn);
    assert_eq!(reply.reply_serial, Some(41));
    assert_eq!(reply.body.len(), 0);
    assert_eq!(PeerInterface::ping().ok().unwrap().len(), 0);
}

#[test]
fn machine_id_is_one_string() {
    let done = Interfaces::new().finalize(vec![]).unwrap();
    let reply = reply_of(done.handle(&call("org.freedesktop.DBus.Peer", "GetMachineId")));
    assert_eq!(reply.message_type(), MessageType::MethodReturn);
    assert_eq!(reply.body.len(), 1);
    assert_eq!(reply.body[0].get_signature(), "s");
    let id = text_of(&reply.body[0]);
    assert!(!id.is_empty());
    let again = text_of(&PeerInterface::get_machine_id().ok().unwrap()[0]);
    assert_eq!(id, again);
    let made = PeerInterface::machine_id_reply("abc".to_string()).ok().unwrap();
    assert_eq!(made, vec![Value::string("abc")]);
}

#[test]
fn missing_headers_are_no_call() {
    let done = Interfaces::new().finalize(vec![]).unwrap();
    let mut m = call("org.freedesktop.DBus.Peer", "Ping");
    m.member = None;
    assert!(done.handle(&m).is_none());
    let mut m = call("org.freedesktop.DBus.Peer", "Ping");
    m.interface = None;
    assert!(done.handle(&m).is_none());
}

#[test]
fn unknown_interface_and_method() {
    let done = Interfaces::new().finalize(vec![]).unwrap();
    let reply = reply_of(done.handle(&call("com.example.Nope", "Ping")));
    assert_error(
        &reply,
        "org.freedesktop.DBus.Error.UnknownInterface",
        "unknown interface: com.example.Nope",
    );
    let reply = reply_of(done.handle(&call("org.freedesktop.DBus.Peer", "Pong")));
    assert_error(&reply, "org.freedesktop.DBus.Error.UnknownMethod", "unknown method: Pong");
}

#[test]
fn right_signature_gives_declared_return() {
    let (reads, writes) = counters();
    let calls = Rc::new(Cell::new(0));
    let done = sample(&reads, &writes, &calls);
    let m = call("com.example.Sample", "Double").add_argument(Value::BasicValue(BasicValue::Uint32(1)));
    let reply = reply_of(done.handle(&m));
    assert_eq!(reply.message_type(), MessageType::MethodReturn);
    assert_eq!(bus::value::values_signature(&reply.body), "uu");
    assert_eq!(
        reply.body,
        vec![Value::BasicValue(BasicValue::Uint32(2)), Value::BasicValue(BasicValue::Uint32(4))]
    );
    assert_eq!(calls.get(), 1);
}

#[test]
fn wrong_signature_never_reaches_the_handler() {
    let (reads, writes) = counters();
    let calls = Rc::new(Cell::new(0));
    let done = sample(&reads, &writes, &calls);
    let m = call("com.example.Sample", "Double").add_argument(Value::string("one"));
    let reply = reply_of(done.handle(&m));
    assert_error(&reply, "org.freedesktop.DBus.Error.InvalidArgs", "invalid arguments");
    let reply = reply_of(done.handle(&call("com.example.Sample", "Double")));
    assert_error(&reply, "org.freedesktop.DBus.Error.InvalidArgs", "invalid arguments");
    assert_eq!(calls.get(), 0);
}

#[test]
fn handler_error_becomes_error_reply() {
    let (reads, writes) = counters();
    let calls = Rc::new(Cell::new(0));
    let done = sample(&reads, &writes, &calls);
    let reply = reply_of(done.handle(&call("com.example.Sample", "Fails")));
    assert_error(&reply, "com.example.Error.Broken", "it broke");
}

#[test]
fn wrong_return_signature_is_a_defect() {
    let (reads, writes) = counters();
    let calls = Rc::new(Cell::new(0));
    let done = sample(&reads, &writes, &calls);
    match done.handle(&call("com.example.Sample", "Lies")) {
        Some(Outcome::Defect(d)) => assert_eq!(
            d.description,
            "invalid return signature for: interface: 'com.example.Sample' method: 'Lies' expected: 's' actual: 'u'"
        ),
        _ => panic!("the defect went unnoticed"),
    }
}

fn get(iface: &str, prop: &str) -> Message {
    call("org.freedesktop.DBus.Properties", "Get")
        .add_argument(Value::string(iface))
        .add_argument(Value::string(prop))
}

fn set(iface: &str, prop: &str, v: Value) -> Message {
    call("org.freedesktop.DBus.Properties", "Set")
        .add_argument(Value::string(iface))
        .add_argument(Value::string(prop))
        .add_argument(variant(v))
}

#[test]
fn properties_get() {
    let (reads, writes) = counters();
    let calls = Rc::new(Cell::new(0));
    let done = sample(&reads, &writes, &calls);
    let reply = reply_of(done.handle(&get("com.example.Sample", "Level")));
    assert_eq!(reply.message_type(), MessageType::MethodReturn);
    assert_eq!(reply.body, vec![variant(Value::BasicValue(BasicValue::Uint32(7)))]);
    assert_eq!(bus::value::values_signature(&reply.body), "v");
    let reply = reply_of(done.handle(&get("com.example.Sample", "Knob")));
    assert_eq!(reply.body, vec![variant(Value::BasicValue(BasicValue::Uint32(9)))]);
    assert_eq!(reads.get(), 2);
}

#[test]
fn properties_get_failures() {
    let (reads, writes) = counters();
    let calls = Rc::new(Cell::new(0));
    let done = sample(&reads, &writes, &calls);
    let reply = reply_of(done.handle(&get("com.example.Nope", "Level")));
    assert_error(
        &reply,
        "org.freedesktop.DBus.Error.UnknownInterface",
        "unknown interface: com.example.Nope",
    );
    let reply = reply_of(done.handle(&get("com.example.Sample", "Nope")));
    assert_error(&reply, "org.freedesktop.DBus.Error.UnknownProperty", "unknown property: Nope");
    let reply = reply_of(done.handle(&get("com.example.Sample", "Sink")));
    assert_error(&reply, "org.freedesktop.DBus.Error.Failed", "property is write-only: Sink");
    let reply = reply_of(done.handle(&get("com.example.Sample", "Dead")));
    assert_error(&reply, "com.example.Error.Broken", "no value");
    assert_eq!(reads.get(), 0);
}

#[test]
fn property_of_wrong_type_is_a_defect() {
    let (reads, writes) = counters();
    let calls = Rc::new(Cell::new(0));
    let done = sample(&reads, &writes, &calls);
    match done.handle(&get("com.example.Sample", "Wrong")) {
        Some(Outcome::Defect(d)) => assert_eq!(
            d.description,
            "invalid property return type for: property: 'Wrong' expected: 'u' actual: 's'"
        ),
        _ => panic!("the defect went unnoticed"),
    }
}

#[test]
fn properties_set() {
    let (reads, writes) = counters();
    let calls = Rc::new(Cell::new(0));
    let done = sample(&reads, &writes, &calls);
    let reply = reply_of(done.handle(&set("com.example.Sample", "Knob", Value::BasicValue(BasicValue::Uint32(3)))));
    assert_eq!(reply.message_type(), MessageType::MethodReturn);
    assert_eq!(reply.body.len(), 0);
    let reply = reply_of(done.handle(&set("com.example.Sample", "Sink", Value::BasicValue(BasicValue::Uint32(3)))));
    assert_eq!(reply.message_type(), MessageType::MethodReturn);
    assert_eq!(writes.get(), 2);
}

#[test]
fn properties_set_mismatch_never_reaches_the_handler() {
    let (reads, writes) = counters();
    let calls = Rc::new(Cell::new(0));
    let done = sample(&reads, &writes, &calls);
    let reply = reply_of(done.handle(&set("com.example.Sample", "Knob", Value::string("three"))));
    assert_error(&reply, "org.freedesktop.DBus.Error.InvalidArgs", "invalid arguments");
    let reply = reply_of(done.handle(&set("com.example.Sample", "Sink", Value::string("three"))));
    assert_error(&reply, "org.freedesktop.DBus.Error.InvalidArgs", "invalid arguments");
    assert_eq!(writes.get(), 0);
    let reply = reply_of(done.handle(&set("com.example.Sample", "Level", Value::BasicValue(BasicValue::Uint32(3)))));
    assert_error(&reply, "org.freedesktop.DBus.Error.Failed", "property is read-only: Level");
    let reply = reply_of(done.handle(&set("com.example.Sample", "Nope", Value::BasicValue(BasicValue::Uint32(3)))));
    assert_error(&reply, "org.freedesktop.DBus.Error.UnknownProperty", "unknown property: Nope");
    assert_eq!(writes.get(), 0);
}

#[test]
fn get_all_leaves_out_what_cannot_be_read() {
    let (reads, writes) = counters();
    let calls = Rc::new(Cell::new(0));
    let done = sample(&reads, &writes, &calls);
    let m = call("org.freedesktop.DBus.Properties", "GetAll").add_argument(Value::string("com.example.Sample"));
    let reply = reply_of(done.handle(&m));
    assert_eq!(reply.message_type(), MessageType::MethodReturn);
    assert_eq!(bus::value::values_signature(&reply.body), "a{sv}");
    match &reply.body[0] {
        Value::Dictionary(d) => {
            let keys: Vec<String> = d
                .entries
                .iter()
                .map(|e| match &e.0 {
                    BasicValue::String(s) => s.clone(),
                    other => panic!("{:?}", other),
                })
                .collect();
            assert_eq!(keys, vec!["Knob", "Level", "Wrong"]);
            assert_eq!(d.entries[0].1, variant(Value::BasicValue(BasicValue::Uint32(9))));
            assert_eq!(d.entries[1].1, variant(Value::BasicValue(BasicValue::Uint32(7))));
        }
        other => panic!("{:?}", other),
    }
    assert_eq!(writes.get(), 0);
}

#[test]
fn introspection_document() {
    let iface = Interface::new()
        .add_method(
            "Add",
            Method::new(Box::new(Failing))
                .add_argument(Argument::new("a", "u"))
                .add_result(Argument::new("sum", "u"))
                .annotate(bus::interface::Annotation::new("note", "yes")),
        )
        .add_signal("Changed", bus::interface::Signal::new().add_argument(Argument::new("to", "s")))
        .add_property("Level", Property::new_ro(u32_sig(), Box::new(Liar)));
    let text = bus::introspect::introspect_interface("com.example.I", &iface);
    let expected = concat_lines(&[
        " <interface name=\"com.example.I\">",
        "  <property name=\"Level\" type=\"u\" access=\"read\">",
        "  </property>",
        "  <method name=\"Add\">",
        "   <arg name=\"a\" type=\"u\" direction=\"in\" />",
        "   <arg name=\"sum\" type=\"u\" direction=\"out\" />",
        "   <annotation name=\"note\" value=\"yes\" />",
        "  </method>",
        "  <signal name=\"Changed\">",
        "   <arg name=\"to\" type=\"s\" direction=\"out\" />",
        "  </signal>",
        " </interface>",
    ]);
    assert_eq!(text, expected);

    let done = Interfaces::new().finalize(vec!["left".to_string(), "right".to_string()]).unwrap();
    let reply = reply_of(done.handle(&call("org.freedesktop.DBus.Introspectable", "Introspect")));
    let xml = text_of(&reply.body[0]);
    assert!(xml.starts_with("<!DOCTYPE node PUBLIC \"-//freedesktop//DTD D-BUS Object Introspection 1.0//EN\"\n"));
    assert!(xml.ends_with(" <node name=\"left\" />\n <node name=\"right\" />\n</node>\n"));
    let at = |needle: &str| xml.find(needle).unwrap();
    assert!(at("org.freedesktop.DBus.Introspectable") < at("org.freedesktop.DBus.Peer"));
    assert!(at("org.freedesktop.DBus.Peer") < at("org.freedesktop.DBus.Properties"));
}

fn concat_lines(lines: &[&str]) -> String {
    let mut out = String::new();
    for l in lines {
        out.push_str(l);
        out.push('\n');
    }
    out
}

#[test]
fn managed_objects_need_a_tree() {
    let done = Interfaces::new().finalize_with(vec![], true).unwrap();
    let reply = reply_of(done.handle(&call("org.freedesktop.DBus.ObjectManager", "GetManagedObjects")));
    assert_error(&reply, "org.freedesktop.DBus.Error.Failed", "not an object manager");
    let given = Value::Dictionary(bus::value::Dictionary {
        entries: vec![],
        signature: Signature("a{oa{sa{sv}}}".to_string()),
    });
    let reply = reply_of(
        done.handle_call(&call("org.freedesktop.DBus.ObjectManager", "GetManagedObjects"), Some(given.clone())),
    );
    assert_eq!(reply.body, vec![given]);
}
