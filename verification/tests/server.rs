use std::cell::Cell;
use std::rc::Rc;

use bus::connection::{ReleaseNameReply, RequestNameReply};
use bus::error::Error;
use bus::message::{Message, MessageType};
use bus::registry::{Interfaces, Outcome};
use bus::runner::{Runner, Step};
use bus::server::{Delivery, Released, Server, SignalHandler};
use bus::target::Target;
use bus::value::{BasicValue, Value};

struct Count(Rc<Cell<u32>>);

impl SignalHandler for Count {
    fn notify(&self, _target: &Target) {
        self.0.set(self.0.get() + 1);
    }
}

struct Tell(Rc<std::cell::RefCell<Vec<String>>>, &'static str);

impl SignalHandler for Tell {
    fn notify(&self, target: &Target) {
        self.0.borrow_mut().push(format!("{}:{}", self.1, target.object));
    }
}

fn counter() -> Rc<Cell<u32>> {
    Rc::new(Cell::new(0))
}

fn named(name: &str) -> Server {
    Server::new(name, RequestNameReply::PrimaryOwner).ok().unwrap()
}

fn text_of(v: &Value) -> String {
    match v {
        Value::BasicValue(BasicValue::String(s)) => s.clone(),
        other => panic!("not a string: {:?}", other),
    }
}

#[test]
fn two_listeners_for_one_signal_both_fire_once() {
    let mut listener = Server::new_listener("watch").ok().unwrap();
    let (a, b, c) = (counter(), counter(), counter());
    listener.connect(Target::new("i", "/o", "Changed"), Box::new(Count(a.clone())));
    listener.connect(Target::new("i", "/o", "Changed"), Box::new(Count(b.clone())));
    listener.connect(Target::new("i", "/o", "Moved"), Box::new(Count(c.clone())));
    let m = Message::new_signal("/o", "i", "Changed");
    match listener.handle_message(&m) {
        Delivery::Notified(exact, namespace) => assert_eq!((exact, namespace), (2, 0)),
        _ => panic!("the signal was not matched"),
    }
    assert_eq!((a.get(), b.get(), c.get()), (1, 1, 0));
}

#[test]
fn handlers_run_in_registration_order() {
    let log = Rc::new(std::cell::RefCell::new(Vec::new()));
    let mut listener = Server::new_listener("watch").ok().unwrap();
    listener.connect_namespace(Target::new("i", "/a", "S"), Box::new(Tell(log.clone(), "n1")));
    listener.connect(Target::new("i", "/a/b", "S"), Box::new(Tell(log.clone(), "e1")));
    listener.connect_namespace(Target::new("i", "/a/b", "S"), Box::new(Tell(log.clone(), "n2")));
    listener.connect(Target::new("i", "/a/b", "S"), Box::new(Tell(log.clone(), "e2")));
    listener.connect_namespace(Target::new("i", "", "S"), Box::new(Tell(log.clone(), "n3")));
    assert_eq!(listener.match_signal(&Message::new_signal("/a/b", "i", "S")), (2, 2));
    assert_eq!(*log.borrow(), vec!["e1:/a/b", "e2:/a/b", "n1:/a/b", "n3:/a/b"]);
    log.borrow_mut().clear();
    assert_eq!(listener.match_signal(&Message::new_signal("/a/b/c", "i", "S")), (0, 3));
    assert_eq!(*log.borrow(), vec!["n1:/a/b/c", "n2:/a/b/c", "n3:/a/b/c"]);
    let mut m = Message::new_signal("/a/b", "i", "S");
    m.member = None;
    assert_eq!(listener.match_signal(&m), (0, 0));
}

#[test]
fn match_rules() {
    let t = Target::new("com.example.I", "/a/b", "Changed");
    assert_eq!(
        Server::match_rule(&t),
        "type='signal',interface='com.example.I',path='/a/b',member='Changed'"
    );
    assert_eq!(
        Server::namespace_match_rule(&t),
        "type='signal',interface='com.example.I',path_namespace='/a/b',member='Changed'"
    );
}

#[test]
fn a_listener_takes_no_objects() {
    let mut listener = Server::new_listener("watch").ok().unwrap();
    assert_eq!(listener.name(), "watch");
    assert_eq!(listener.add_object("/a", Interfaces::new()), Err(Error::NoServerName));
    assert_eq!(listener.add_object_manager("/a", Interfaces::new()), Err(Error::NoServerName));
    assert_eq!(listener.remove_object("/a"), Err(Error::NoServerName));
    let m = Message::new_method_call("watch", "/a", "org.freedesktop.DBus.Peer", "Ping");
    assert!(matches!(listener.handle_message(&m), Delivery::Passed));
    assert!(!listener.resolves(&m));
    assert!(listener.release_call().is_none());
}

#[test]
fn a_name_that_the_bus_did_not_give() {
    assert!(Server::new("com.example.A", RequestNameReply::PrimaryOwner).is_ok());
    assert!(Server::new("com.example.A", RequestNameReply::AlreadyOwner).is_ok());
    assert_eq!(
        Server::new("com.example.A", RequestNameReply::Exists).err(),
        Some(Error::NameUnavailable("com.example.A".to_string()))
    );
    assert_eq!(
        Server::new("com.example.A", RequestNameReply::InQueue).err(),
        Some(Error::NameUnavailable("com.example.A".to_string()))
    );
    let ask = Server::name_request("com.example.A");
    assert_eq!(ask.member.as_deref(), Some("RequestName"));
    assert_eq!(ask.body, vec![Value::string("com.example.A"), Value::BasicValue(BasicValue::Uint32(4))]);
}

#[test]
fn calls_are_routed_by_path() {
    let mut server = named("com.example.A");
    assert_eq!(server.add_object("/a/b", Interfaces::new()), Ok(()));
    assert_eq!(
        server.add_object("/a/b", Interfaces::new()),
        Err(Error::PathAlreadyRegistered("/a/b".to_string()))
    );
    assert_eq!(server.add_object("b", Interfaces::new()), Err(Error::InvalidPath("b".to_string())));
    assert_eq!(server.add_object_manager("/m", Interfaces::new()), Ok(()));
    let m = Message::new_method_call("com.example.A", "/a/b", "org.freedesktop.DBus.Peer", "Ping");
    assert!(server.resolves(&m));
    match server.handle_message(&m) {
        Delivery::Answered(Outcome::Reply(r)) => assert_eq!(r.message_type(), MessageType::MethodReturn),
        _ => panic!("no answer"),
    }
    let m = Message::new_method_call("com.example.A", "/nowhere", "org.freedesktop.DBus.Peer", "Ping");
    assert!(!server.resolves(&m));
    match server.handle_message(&m) {
        Delivery::Answered(Outcome::Reply(r)) => {
            assert_eq!(r.error_name.as_deref(), Some("org.freedesktop.DBus.Error.UnknownObject"));
            assert_eq!(text_of(&r.body[0]), "unknown object: /nowhere");
        }
        _ => panic!("no answer"),
    }
    assert!(matches!(server.handle_message(&Message::new(MessageType::MethodReturn, 1)), Delivery::Passed));
    assert!(matches!(server.handle_message(&Message::new(MessageType::Error, 1)), Delivery::Passed));
    assert_eq!(server.remove_object("/a/b"), Ok(()));
    assert_eq!(server.remove_object("/a/b"), Err(Error::NoSuchPath("/a/b".to_string())));
}

#[test]
fn release_of_the_name() {
    let server = named("com.example.A");
    let ask = server.release_call().unwrap();
    assert_eq!(ask.member.as_deref(), Some("ReleaseName"));
    assert_eq!(ask.body, vec![Value::string("com.example.A")]);
    assert_eq!(server.released(Ok(ReleaseNameReply::Released)), Released::Done);
    assert_eq!(
        server.released(Ok(ReleaseNameReply::NonExistent)),
        Released::Fatal("internal error: non-existent name com.example.A?!".to_string())
    );
    assert_eq!(
        server.released(Ok(ReleaseNameReply::NotOwner)),
        Released::Fatal("internal error: not the owner of com.example.A?!".to_string())
    );
    assert_eq!(
        server.released(Err(Error::InvalidReply("ReleaseName: no response".to_string()))),
        Released::Failed("failed to release com.example.A: invalid reply: ReleaseName: no response".to_string())
    );
}

#[test]
fn runner_servers() {
    let mut runner = Runner::new().ok().unwrap();
    assert_eq!(runner.add_listener("watch"), Ok(0));
    assert_eq!(runner.add_listener("watch"), Ok(1));
    assert_eq!(runner.add_server("com.example.A", RequestNameReply::PrimaryOwner), Ok(0));
    assert_eq!(runner.add_server("com.example.B", RequestNameReply::AlreadyOwner), Ok(1));
    assert_eq!(
        runner.add_server("com.example.A", RequestNameReply::PrimaryOwner),
        Err(Error::ServerAlreadyRegistered("com.example.A".to_string()))
    );
    assert_eq!(
        runner.add_server("com.example.C", RequestNameReply::Exists),
        Err(Error::NameUnavailable("com.example.C".to_string()))
    );
    assert!(runner.has_server("com.example.B"));
    assert!(!runner.has_server("com.example.C"));
    assert_eq!(runner.find_server("com.example.B"), Some(1));
    assert_eq!(runner.remove_server("com.example.A").ok().unwrap().name(), "com.example.A");
    assert_eq!(
        runner.remove_server("com.example.A").err(),
        Some(Error::NoSuchServer("com.example.A".to_string()))
    );
    assert_eq!(runner.find_server("com.example.B"), Some(0));
}

#[test]
fn runner_steps() {
    let mut runner = Runner::new().ok().unwrap();
    let (a, b, c) = (counter(), counter(), counter());
    let at = runner.add_listener("watch").ok().unwrap();
    runner.listeners[at].connect(Target::new("i", "/o", "S"), Box::new(Count(a.clone())));
    let at = runner.add_listener("watch too").ok().unwrap();
    runner.listeners[at].connect_namespace(Target::new("i", "", "S"), Box::new(Count(b.clone())));
    let first = runner.add_server("com.example.A", RequestNameReply::PrimaryOwner).ok().unwrap();
    runner.servers[first].connect(Target::new("i", "/o", "S"), Box::new(Count(c.clone())));
    assert_eq!(runner.servers[first].add_object("/shared", Interfaces::new()), Ok(()));
    let second = runner.add_server("com.example.B", RequestNameReply::PrimaryOwner).ok().unwrap();
    assert_eq!(runner.servers[second].add_object("/shared", Interfaces::new()), Ok(()));
    assert_eq!(runner.servers[second].add_object("/b", Interfaces::new()), Ok(()));

    match runner.step(&Message::new_signal("/o", "i", "S")) {
        Step::Signal(counts) => assert_eq!(counts, vec![(1, 0), (0, 1), (1, 0), (0, 0)]),
        _ => panic!("not taken as a signal"),
    }
    assert_eq!((a.get(), b.get(), c.get()), (1, 1, 1));

    let mut m = Message::new_method_call("com.example.B", "/b", "org.freedesktop.DBus.Peer", "Ping");
    m.serial = 5;
    match runner.step(&m) {
        Step::Call(Some(Outcome::Reply(r))) => {
            assert_eq!(r.message_type(), MessageType::MethodReturn);
            assert_eq!(r.reply_serial, Some(5));
        }
        _ => panic!("no answer"),
    }
    let m = Message::new_method_call("x", "/shared", "org.freedesktop.DBus.Peer", "Nope");
    match runner.step(&m) {
        Step::Call(Some(Outcome::Reply(r))) => {
            assert_eq!(r.error_name.as_deref(), Some("org.freedesktop.DBus.Error.UnknownMethod"))
        }
        _ => panic!("no answer"),
    }
    let m = Message::new_method_call("x", "/nowhere", "org.freedesktop.DBus.Peer", "Ping");
    assert!(matches!(runner.step(&m), Step::Call(None)));
    assert!(matches!(runner.step(&Message::new(MessageType::MethodReturn, 1)), Step::Ignored));
    assert_eq!((a.get(), b.get(), c.get()), (1, 1, 1));
}
