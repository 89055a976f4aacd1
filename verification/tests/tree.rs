use bus::error::Error;
use bus::interface::{Interface, Property, PropertyGetResult, PropertyReadHandler};
use bus::message::{Message, MessageType};
use bus::object::Object;
use bus::registry::{Interfaces, Outcome};
use bus::tree::{is_beneath, split_last, ObjectTree};
use bus::value::{BasicValue, Signature, Value};

struct Seven;

impl PropertyReadHandler for Seven {
    fn get(&self) -> PropertyGetResult {
        Ok(Value::BasicValue(BasicValue::Uint32(7)))
    }
}

fn text_of(v: &Value) -> String {
    match v {
        Value::BasicValue(BasicValue::String(s)) => s.clone(),
        other => panic!("not a string: {:?}", other),
    }
}

fn reply_of(out: Option<Outcome>) -> Message {
    match out {
        Some(Outcome::Reply(m)) => m,
        _ => panic!("no reply"),
    }
}

fn introspect(tree: &ObjectTree, path: &str) -> String {
    let m = Message::new_method_call("n", path, "org.freedesktop.DBus.Introspectable", "Introspect");
    text_of(&reply_of(tree.dispatch(&m)).body[0])
}

#[test]
fn same_path_twice_is_refused() {
    let mut tree = ObjectTree::new();
    assert_eq!(tree.insert("/a/b", Interfaces::new(), false), Ok(()));
    assert_eq!(
        tree.insert("/a/b", Interfaces::new(), false),
        Err(Error::PathAlreadyRegistered("/a/b".to_string()))
    );
    assert!(tree.resolves("/a/b"));
    assert!(!tree.resolves("/a"));
    assert_eq!(tree.lookup("/a/b").unwrap().path(), "/a/b");
    assert!(tree.lookup("/a").is_none());
}

#[test]
fn path_has_to_start_with_a_slash() {
    let mut tree = ObjectTree::new();
    assert_eq!(tree.insert("a/b", Interfaces::new(), false), Err(Error::InvalidPath("a/b".to_string())));
    assert_eq!(tree.insert("", Interfaces::new(), false), Err(Error::InvalidPath("".to_string())));
    assert!(!tree.resolves("a/b"));
    assert_eq!(tree.insert("/", Interfaces::new(), false), Ok(()));
    assert!(tree.resolves("/"));
}

#[test]
fn taken_standard_name_leaves_the_tree_alone() {
    let mut tree = ObjectTree::new();
    let b = Interfaces::new().add_interface("org.freedesktop.DBus.Peer", Interface::new()).unwrap();
    assert_eq!(
        tree.insert("/a", b, false),
        Err(Error::InterfaceAlreadyRegistered("org.freedesktop.DBus.Peer".to_string()))
    );
    assert!(!tree.resolves("/a"));
    assert_eq!(tree.insert("/a", Interfaces::new(), false), Ok(()));
}

#[test]
fn children_show_in_introspection() {
    let mut tree = ObjectTree::new();
    assert_eq!(tree.insert("/a", Interfaces::new(), false), Ok(()));
    assert!(!introspect(&tree, "/a").contains("<node name="));
    assert_eq!(tree.insert("/a/x/deep", Interfaces::new(), false), Ok(()));
    assert_eq!(tree.insert("/a/b", Interfaces::new(), false), Ok(()));
    let xml = introspect(&tree, "/a");
    assert!(xml.ends_with(" <node name=\"x\" />\n <node name=\"b\" />\n</node>\n"), "{}", xml);
    assert_eq!(tree.insert("/a/x", Interfaces::new(), false), Ok(()));
    let xml = introspect(&tree, "/a/x");
    assert!(xml.ends_with(" <node name=\"deep\" />\n</node>\n"), "{}", xml);
    assert_eq!(tree.insert("/", Interfaces::new(), false), Ok(()));
    let xml = introspect(&tree, "/");
    assert!(xml.ends_with(" <node name=\"a\" />\n</node>\n"), "{}", xml);
}

#[test]
fn removal() {
    let mut tree = ObjectTree::new();
    assert_eq!(tree.remove("/a"), Err(Error::NoSuchPath("/a".to_string())));
    assert_eq!(tree.insert("/a", Interfaces::new(), false), Ok(()));
    assert_eq!(tree.insert("/a/b", Interfaces::new(), false), Ok(()));
    assert_eq!(tree.insert("/a/c", Interfaces::new(), false), Ok(()));
    assert_eq!(tree.remove("/a/b"), Ok(()));
    assert!(!tree.resolves("/a/b"));
    assert!(tree.resolves("/a/c"));
    let xml = introspect(&tree, "/a");
    assert!(xml.ends_with("</interface>\n <node name=\"c\" />\n</node>\n"), "{}", xml);
    assert_eq!(tree.remove("/a/b"), Err(Error::NoSuchPath("/a/b".to_string())));
    assert_eq!(tree.remove("/a"), Ok(()));
    assert!(!tree.resolves("/a"));
    assert!(tree.resolves("/a/c"));
    assert_eq!(tree.remove("/a"), Err(Error::NoSuchPath("/a".to_string())));
    assert_eq!(tree.insert("/a", Interfaces::new(), false), Ok(()));
    let xml = introspect(&tree, "/a");
    assert!(xml.ends_with("</interface>\n <node name=\"c\" />\n</node>\n"), "{}", xml);
    assert_eq!(tree.remove("/a/c"), Ok(()));
    let xml = introspect(&tree, "/a");
    assert!(xml.ends_with("</interface>\n</node>\n"), "{}", xml);
}

#[test]
fn unknown_object() {
    let mut tree = ObjectTree::new();
    assert_eq!(tree.insert("/a/b", Interfaces::new(), false), Ok(()));
    let mut m = Message::new_method_call("n", "/a", "org.freedesktop.DBus.Peer", "Ping");
    m.serial = 9;
    let reply = reply_of(tree.dispatch(&m));
    assert_eq!(reply.message_type(), MessageType::Error);
    assert_eq!(reply.error_name.as_deref(), Some("org.freedesktop.DBus.Error.UnknownObject"));
    assert_eq!(reply.reply_serial, Some(9));
    assert_eq!(text_of(&reply.body[0]), "unknown object: /a");
    m.path = None;
    let reply = reply_of(tree.dispatch(&m));
    assert_eq!(text_of(&reply.body[0]), "unknown object: ");
    let m = Message::new_method_call("n", "/a/b", "org.freedesktop.DBus.Peer", "Ping");
    assert_eq!(reply_of(tree.dispatch(&m)).message_type(), MessageType::MethodReturn);
}

fn with_level() -> bus::registry::InterfacesBuilder {
    let iface =
        Interface::new().add_property("Level", Property::new_ro(Signature("u".to_string()), Box::new(Seven)));
    Interfaces::new().add_interface("com.example.I", iface).unwrap()
}

#[test]
fn object_manager_lists_what_is_below() {
    let mut tree = ObjectTree::new();
    assert_eq!(tree.insert("/m", Interfaces::new(), true), Ok(()));
    assert_eq!(tree.insert("/m/one", with_level(), false), Ok(()));
    assert_eq!(tree.insert("/m/two/deep", Interfaces::new(), false), Ok(()));
    assert_eq!(tree.insert("/mm", Interfaces::new(), false), Ok(()));
    assert_eq!(tree.insert("/other", Interfaces::new(), false), Ok(()));
    assert_eq!(tree.lookup("/m").unwrap().interfaces.map.len(), 4);
    assert_eq!(tree.lookup("/mm").unwrap().interfaces.map.len(), 3);
    let m = Message::new_method_call("n", "/m", "org.freedesktop.DBus.ObjectManager", "GetManagedObjects");
    let reply = reply_of(tree.dispatch(&m));
    assert_eq!(reply.message_type(), MessageType::MethodReturn);
    assert_eq!(reply.body.len(), 1);
    assert_eq!(reply.body[0].get_signature(), "a{oa{sa{sv}}}");
    match &reply.body[0] {
        Value::Dictionary(d) => {
            let paths: Vec<String> = d
                .entries
                .iter()
                .map(|e| match &e.0 {
                    BasicValue::ObjectPath(p) => p.0.clone(),
                    other => panic!("{:?}", other),
                })
                .collect();
            assert_eq!(paths, vec!["/m/one", "/m/two/deep"]);
            match &d.entries[0].1 {
                Value::Dictionary(ifaces) => {
                    assert_eq!(ifaces.signature.0, "a{sa{sv}}");
                    assert_eq!(ifaces.entries.len(), 4);
                    assert_eq!(ifaces.entries[0].0, BasicValue::String("com.example.I".to_string()));
                    match &ifaces.entries[0].1 {
                        Value::Dictionary(props) => {
                            assert_eq!(props.entries.len(), 1);
                            assert_eq!(props.entries[0].0, BasicValue::String("Level".to_string()));
                        }
                        other => panic!("{:?}", other),
                    }
                }
                other => panic!("{:?}", other),
            }
        }
        other => panic!("{:?}", other),
    }
    match tree.managed_objects("/") {
        Value::Dictionary(d) => assert_eq!(d.entries.len(), 5),
        other => panic!("{:?}", other),
    }
}

#[test]
fn path_helpers() {
    assert!(is_beneath("/", "/a"));
    assert!(!is_beneath("/", "/"));
    assert!(is_beneath("/a", "/a/b"));
    assert!(!is_beneath("/a", "/ab"));
    assert!(!is_beneath("/a", "/a"));
    let p = split_last("/a/b").unwrap();
    assert_eq!((p.above.as_str(), p.name.as_str(), p.slash), ("/a", "b", 2));
    let p = split_last("/a").unwrap();
    assert_eq!((p.above.as_str(), p.name.as_str(), p.slash), ("/", "a", 0));
    assert!(split_last("/").is_none());
    assert!(split_last("ab").is_none());
}

#[test]
fn object_binds_path_and_interfaces() {
    let o = Object::new("/a", Interfaces::new().finalize(vec![]).unwrap()).ok().unwrap();
    assert_eq!(o.path(), "/a");
    let m = Message::new_method_call("n", "/a", "org.freedesktop.DBus.Peer", "Ping");
    assert_eq!(reply_of(o.handle_message(&m)).message_type(), MessageType::MethodReturn);
}

#[test]
fn empty_nodes_are_pruned() {
    let mut tree = ObjectTree::new();
    assert_eq!(tree.insert("/a", Interfaces::new(), false), Ok(()));
    assert_eq!(tree.insert("/a/b/c", Interfaces::new(), false), Ok(()));
    assert_eq!(tree.insert("/a/x", Interfaces::new(), false), Ok(()));
    let xml = introspect(&tree, "/a");
    assert!(xml.ends_with(" <node name=\"b\" />\n <node name=\"x\" />\n</node>\n"), "{}", xml);
    assert_eq!(tree.remove("/a/b/c"), Ok(()));
    let xml = introspect(&tree, "/a");
    assert!(xml.ends_with("</interface>\n <node name=\"x\" />\n</node>\n"), "{}", xml);
    assert_eq!(tree.remove("/a/x"), Ok(()));
    let xml = introspect(&tree, "/a");
    assert!(xml.ends_with("</interface>\n</node>\n"), "{}", xml);
    assert_eq!(tree.remove("/a"), Ok(()));
    assert_eq!(tree.insert("/a/b", Interfaces::new(), false), Ok(()));
    assert!(tree.resolves("/a/b"));
    assert!(!tree.resolves("/a"));
}
