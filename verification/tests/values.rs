use bus::arguments::Arguments;
use bus::connection::{
    add_match_call, next_message, release_name_call, release_name_reply, request_name_call,
    request_name_reply, should_handle, ReleaseNameReply, RequestNameFlags, RequestNameReply,
    ALLOW_REPLACEMENT, DO_NOT_QUEUE, REPLACE_EXISTING,
};
use bus::error::Error;
use bus::interface::{signature_text, variant_of, Argument};
use bus::message::{ErrorMessage, Message, MessageType};
use bus::value::{values_signature, Array, BasicValue, Dictionary, Path, Signature, Struct, Value, Variant};

fn u(n: u32) -> Value {
    Value::BasicValue(BasicValue::Uint32(n))
}

#[test]
fn signatures_of_values() {
    let sig = |v: Value| v.get_signature();
    assert_eq!(sig(Value::BasicValue(BasicValue::Byte(1))), "y");
    assert_eq!(sig(Value::BasicValue(BasicValue::Boolean(true))), "b");
    assert_eq!(sig(Value::BasicValue(BasicValue::Int16(-1))), "n");
    assert_eq!(sig(Value::BasicValue(BasicValue::Uint16(1))), "q");
    assert_eq!(sig(Value::BasicValue(BasicValue::Int32(-1))), "i");
    assert_eq!(sig(u(1)), "u");
    assert_eq!(sig(Value::BasicValue(BasicValue::Int64(-1))), "x");
    assert_eq!(sig(Value::BasicValue(BasicValue::Uint64(1))), "t");
    assert_eq!(sig(Value::string("s")), "s");
    assert_eq!(sig(Value::BasicValue(BasicValue::ObjectPath(Path("/".to_string())))), "o");
    assert_eq!(sig(Value::BasicValue(BasicValue::Signature(Signature("u".to_string())))), "g");
    assert_eq!(sig(Value::Double(1.5f64.to_bits())), "d");
    assert_eq!(sig(Value::Array(Array { objects: vec![], signature: Signature("au".to_string()) })), "au");
    assert_eq!(
        sig(Value::Struct(Struct { objects: vec![u(1)], signature: Signature("(u)".to_string()) })),
        "(u)"
    );
    assert_eq!(
        sig(Value::Dictionary(Dictionary { entries: vec![], signature: Signature("a{su}".to_string()) })),
        "a{su}"
    );
    assert_eq!(
        sig(Value::Variant(Variant { object: Box::new(u(1)), signature: Signature("u".to_string()) })),
        "v"
    );
    assert_eq!(variant_of(u(1)), Value::Variant(Variant { object: Box::new(u(1)), signature: Signature("u".to_string()) }));
    assert_eq!(values_signature(&vec![u(1), Value::string("x"), Value::Double(0)]), "usd");
    assert_eq!(values_signature(&vec![]), "");
    assert_eq!(signature_text(&vec![Argument::new("a", "s"), Argument::new("b", "a{sv}")]), "sa{sv}");
}

#[test]
fn messages() {
    let call = Message::new_method_call("dest", "/p", "i.f", "M");
    assert_eq!(call.message_type(), MessageType::MethodCall);
    assert_eq!(call.destination.as_deref(), Some("dest"));
    assert_eq!(call.path().as_deref(), Some("/p"));
    assert_eq!(call.interface().as_deref(), Some("i.f"));
    assert_eq!(call.member().as_deref(), Some("M"));
    assert_eq!(call.values(), None);
    let call = call.add_argument(u(1)).add_arguments(vec![u(2), u(3)]);
    assert_eq!(call.values(), Some(&vec![u(1), u(2), u(3)]));

    let mut asked = Message::new(MessageType::MethodCall, 17);
    asked.path = Some("/".to_string());
    let back = asked.return_message();
    assert_eq!(back.message_type(), MessageType::MethodReturn);
    assert_eq!(back.reply_serial, Some(17));
    assert_eq!(back.error_name, None);
    let err = asked.error_message("com.example.Error.X");
    assert_eq!(err.message_type(), MessageType::Error);
    assert_eq!(err.reply_serial, Some(17));
    assert_eq!(err.error_name.as_deref(), Some("com.example.Error.X"));
    let full = ErrorMessage::new("com.example.Error.X", "why").into_message(&asked);
    assert_eq!(full.error_name.as_deref(), Some("com.example.Error.X"));
    assert_eq!(full.body, vec![Value::string("why")]);

    let sig = Message::new_signal("/p", "i.f", "S");
    assert_eq!(sig.message_type(), MessageType::Signal);
    assert_eq!(sig.destination, None);
    assert_eq!(sig.path().as_deref(), Some("/p"));
}

#[test]
fn arguments() {
    let empty = Message::new_method_call("d", "/", "i", "m");
    match Arguments::new(&empty) {
        Err(e) => assert_eq!(e, ErrorMessage::new("org.freedesktop.DBus.Error.InvalidArgs", "invalid arguments")),
        Ok(_) => panic!("arguments of an empty body"),
    }
    assert_eq!(
        Arguments::invalid_arguments(),
        ErrorMessage::new("org.freedesktop.DBus.Error.InvalidArgs", "invalid arguments")
    );
    let m = Message::new_method_call("d", "/", "i", "m").add_argument(Value::string("a")).add_argument(u(5));
    let args = Arguments::new(&m).ok().unwrap();
    assert_eq!(args.extract(1).ok(), Some(&u(5)));
    assert_eq!(args.extract_string(0).ok(), Some(&"a".to_string()));
    assert_eq!(
        args.extract_string(1).err(),
        Some(ErrorMessage::new("org.freedesktop.DBus.Error.InvalidArgs", "invalid argument at 1"))
    );
    assert_eq!(
        args.extract(12).err(),
        Some(ErrorMessage::new("org.freedesktop.DBus.Error.InvalidArgs", "invalid argument at 12"))
    );
    assert_eq!(
        Arguments::invalid_argument(305),
        ErrorMessage::new("org.freedesktop.DBus.Error.InvalidArgs", "invalid argument at 305")
    );
}

#[test]
fn bus_requests() {
    let m = request_name_call("com.example.App", RequestNameFlags::do_not_queue());
    assert_eq!(m.destination.as_deref(), Some("org.freedesktop.DBus"));
    assert_eq!(m.path.as_deref(), Some("/org/freedesktop/DBus"));
    assert_eq!(m.interface.as_deref(), Some("org.freedesktop.DBus"));
    assert_eq!(m.member.as_deref(), Some("RequestName"));
    assert_eq!(m.body, vec![Value::string("com.example.App"), u(4)]);
    let m = release_name_call("com.example.App");
    assert_eq!(m.member.as_deref(), Some("ReleaseName"));
    assert_eq!(m.body, vec![Value::string("com.example.App")]);
    let m = add_match_call("type='signal'");
    assert_eq!(m.member.as_deref(), Some("AddMatch"));
    assert_eq!(m.body, vec![Value::string("type='signal'")]);
}

#[test]
fn request_name_replies() {
    assert_eq!(request_name_reply(Some(vec![u(1)])), Ok(RequestNameReply::PrimaryOwner));
    assert_eq!(request_name_reply(Some(vec![u(2)])), Ok(RequestNameReply::InQueue));
    assert_eq!(request_name_reply(Some(vec![u(3)])), Ok(RequestNameReply::Exists));
    assert_eq!(request_name_reply(Some(vec![Value::string("x"), u(4)])), Ok(RequestNameReply::AlreadyOwner));
    assert_eq!(
        request_name_reply(Some(vec![u(5)])),
        Err(Error::InvalidReply("RequestName: invalid response 5".to_string()))
    );
    assert_eq!(
        request_name_reply(Some(vec![u(0)])),
        Err(Error::InvalidReply("RequestName: invalid response 0".to_string()))
    );
    assert_eq!(
        request_name_reply(Some(vec![Value::string("1")])),
        Err(Error::InvalidReply("RequestName: invalid response".to_string()))
    );
    assert_eq!(
        request_name_reply(Some(vec![])),
        Err(Error::InvalidReply("RequestName: invalid response".to_string()))
    );
    assert_eq!(request_name_reply(None), Err(Error::InvalidReply("RequestName: no response".to_string())));
}

#[test]
fn release_name_replies() {
    assert_eq!(release_name_reply(Some(vec![u(1)])), Ok(ReleaseNameReply::Released));
    assert_eq!(release_name_reply(Some(vec![u(2)])), Ok(ReleaseNameReply::NonExistent));
    assert_eq!(release_name_reply(Some(vec![u(3)])), Ok(ReleaseNameReply::NotOwner));
    assert_eq!(
        release_name_reply(Some(vec![u(4)])),
        Err(Error::InvalidReply("ReleaseName: invalid response 4".to_string()))
    );
    assert_eq!(release_name_reply(None), Err(Error::InvalidReply("ReleaseName: no response".to_string())));
}

#[test]
fn flags() {
    assert_eq!((ALLOW_REPLACEMENT, REPLACE_EXISTING, DO_NOT_QUEUE), (1, 2, 4));
    assert_eq!(RequestNameFlags::empty().bits(), 0);
    assert_eq!(RequestNameFlags::from_bits(8), None);
    let both = RequestNameFlags::from_bits(ALLOW_REPLACEMENT).unwrap().union(RequestNameFlags::do_not_queue());
    assert_eq!(both.bits(), 5);
    assert!(both.contains(RequestNameFlags::do_not_queue()));
    assert!(!both.contains(RequestNameFlags::from_bits(REPLACE_EXISTING).unwrap()));
}

#[test]
fn only_calls_and_signals_are_handled() {
    let kinds = [
        (MessageType::MethodCall, true),
        (MessageType::Signal, true),
        (MessageType::MethodReturn, false),
        (MessageType::Error, false),
        (MessageType::Invalid, false),
    ];
    for (kind, wanted) in kinds.iter() {
        let m = Message::new(*kind, 3);
        assert_eq!(should_handle(&m), *wanted);
        assert_eq!(next_message(Some(Message::new(*kind, 3))).is_some(), *wanted);
    }
    assert_eq!(next_message(None), None);
}

#[test]
fn error_texts() {
    assert_eq!(Error::NoServerName.message(), "listening server cannot handle methods");
    assert_eq!(Error::InterfacesFinalized.message(), "interfaces finalized");
    assert_eq!(Error::InvalidReply("x".to_string()).message(), "invalid reply: x");
    assert_eq!(Error::ServerAlreadyRegistered("n".to_string()).message(), "server already registered: n");
    assert_eq!(Error::NoSuchServer("n".to_string()).message(), "no such server: n");
    assert_eq!(Error::NameUnavailable("n".to_string()).message(), "name unavailable: n");
    assert_eq!(Error::PathAlreadyRegistered("/p".to_string()).message(), "path already registered: /p");
    assert_eq!(Error::NoSuchPath("/p".to_string()).message(), "no such path: /p");
    assert_eq!(Error::InvalidPath("p".to_string()).message(), "invalid path: p");
    assert_eq!(Error::InterfaceAlreadyRegistered("i".to_string()).message(), "interface already registered: i");
    assert_eq!(Error::NoSuchPath("/p".to_string()).description(), "no such path");
}
