//! Messages as the dispatch logic sees them: a kind, the header fields that
//! address a message, and the values of its body.

use vstd::prelude::*;
use crate::value::Value;

verus! {

/// The kind of a message.
#[derive(Clone, Copy, Debug, PartialEq, Eq, Structural)]
pub enum MessageType {
    /// An error reply.
    Error,
    /// A malformed message.
    Invalid,
    /// A call of a method.
    MethodCall,
    /// The reply to a call of a method.
    MethodReturn,
    /// A signal.
    Signal,
}

/// A message on the bus.
#[derive(Clone, Debug, PartialEq)]
pub struct Message {
    /// The kind of the message.
    pub kind: MessageType,
    /// The serial number that the sender gave the message.
    pub serial: u32,
    /// The serial number of the call that a reply answers.
    pub reply_serial: Option<u32>,
    /// The bus name that the message is sent to.
    pub destination: Option<String>,
    /// The path of the object that the message is for or from.
    pub path: Option<String>,
    /// The interface of the member.
    pub interface: Option<String>,
    /// The method or signal.
    pub member: Option<String>,
    /// The name of the error that an error reply reports.
    pub error_name: Option<String>,
    /// The values of the body, in order.
    pub body: Vec<Value>,
}

/// A header field that holds text, seen as text.
pub open spec fn text_of(field: Option<String>) -> Option<Seq<char>> {
    match field {
        Some(s) => Some(s@),
        None => None,
    }
}

/// A message as a mathematical value.
pub struct MessageView {
    pub kind: MessageType,
    pub serial: u32,
    pub reply_serial: Option<u32>,
    pub destination: Option<Seq<char>>,
    pub path: Option<Seq<char>>,
    pub interface: Option<Seq<char>>,
    pub member: Option<Seq<char>>,
    pub error_name: Option<Seq<char>>,
    pub body: Seq<Value>,
}

impl View for Message {
    type V = MessageView;

    open spec fn view(&self) -> MessageView {
        MessageView {
            kind: self.kind,
            serial: self.serial,
            reply_serial: self.reply_serial,
            destination: text_of(self.destination),
            path: text_of(self.path),
            interface: text_of(self.interface),
            member: text_of(self.member),
            error_name: text_of(self.error_name),
            body: self.body@,
        }
    }
}

impl MessageView {
    /// A message of a kind with no header field and an empty body.
    pub open spec fn bare(kind: MessageType, serial: u32) -> MessageView {
        MessageView {
            kind,
            serial,
            reply_serial: None,
            destination: None,
            path: None,
            interface: None,
            member: None,
            error_name: None,
            body: Seq::empty(),
        }
    }

    /// A call of a method of an interface on the object at a path, sent to a
    /// bus name.
    pub open spec fn method_call(
        dest: Seq<char>,
        path: Seq<char>,
        iface: Seq<char>,
        method: Seq<char>,
    ) -> MessageView {
        MessageView {
            destination: Some(dest),
            path: Some(path),
            interface: Some(iface),
            member: Some(method),
            ..Self::bare(MessageType::MethodCall, 0)
        }
    }

    /// A signal of an interface from the object at a path.
    pub open spec fn signal(path: Seq<char>, iface: Seq<char>, member: Seq<char>) -> MessageView {
        MessageView {
            path: Some(path),
            interface: Some(iface),
            member: Some(member),
            ..Self::bare(MessageType::Signal, 0)
        }
    }

    /// The error reply of that name to the message with the given serial.
    pub open spec fn error(name: Seq<char>, serial: u32) -> MessageView {
        MessageView {
            reply_serial: Some(serial),
            error_name: Some(name),
            ..Self::bare(MessageType::Error, 0)
        }
    }

    /// The method return for the message with the given serial.
    pub open spec fn method_return(serial: u32) -> MessageView {
        MessageView { reply_serial: Some(serial), ..Self::bare(MessageType::MethodReturn, 0) }
    }

    /// The message with further values at the end of its body.
    pub open spec fn with_values(self, values: Seq<Value>) -> MessageView {
        MessageView { body: self.body + values, ..self }
    }
}

/// A copy of a header field that holds text.
fn copy_text(field: &Option<String>) -> (r: Option<String>)
    ensures
        text_of(r) == text_of(*field),
{
    match field {
        Some(s) => Some(s.clone()),
        None => None,
    }
}

impl Message {
    /// A message of a kind with no header field and an empty body.
    pub fn new(kind: MessageType, serial: u32) -> (r: Message)
        ensures
            r@ == MessageView::bare(kind, serial),
    {
        Message {
            kind,
            serial,
            reply_serial: None,
            destination: None,
            path: None,
            interface: None,
            member: None,
            error_name: None,
            body: Vec::new(),
        }
    }

    /// A call of a method.
    pub fn new_method_call(dest: &str, path: &str, iface: &str, method: &str) -> (r: Message)
        ensures
            r@ == MessageView::method_call(dest@, path@, iface@, method@),
    {
        Message {
            kind: MessageType::MethodCall,
            serial: 0,
            reply_serial: None,
            destination: Some(dest.to_owned()),
            path: Some(path.to_owned()),
            interface: Some(iface.to_owned()),
            member: Some(method.to_owned()),
            error_name: None,
            body: Vec::new(),
        }
    }

    /// A signal.
    pub fn new_signal(path: &str, iface: &str, method: &str) -> (r: Message)
        ensures
            r@ == MessageView::signal(path@, iface@, method@),
    {
        Message {
            kind: MessageType::Signal,
            serial: 0,
            reply_serial: None,
            destination: None,
            path: Some(path.to_owned()),
            interface: Some(iface.to_owned()),
            member: Some(method.to_owned()),
            error_name: None,
            body: Vec::new(),
        }
    }

    /// The error reply of that name to this message.
    pub fn error_message(&self, name: &str) -> (r: Message)
        ensures
            r@ == MessageView::error(name@, self.serial),
    {
        Message {
            kind: MessageType::Error,
            serial: 0,
            reply_serial: Some(self.serial),
            destination: None,
            path: None,
            interface: None,
            member: None,
            error_name: Some(name.to_owned()),
            body: Vec::new(),
        }
    }

    /// The method return that answers this message.
    pub fn return_message(&self) -> (r: Message)
        ensures
            r@ == MessageView::method_return(self.serial),
    {
        Message {
            kind: MessageType::MethodReturn,
            serial: 0,
            reply_serial: Some(self.serial),
            destination: None,
            path: None,
            interface: None,
            member: None,
            error_name: None,
            body: Vec::new(),
        }
    }

    /// The message with one more value at the end of its body.
    pub fn add_argument(self, arg: Value) -> (r: Message)
        ensures
            r@ == self@.with_values(seq![arg]),
    {
        let ghost before = self@;
        let mut m = self;
        m.body.push(arg);
        assert(m.body@ =~= before.body + seq![arg]);
        m
    }

    /// The message with further values at the end of its body, in their order.
    pub fn add_arguments(self, args: Vec<Value>) -> (r: Message)
        ensures
            r@ == self@.with_values(args@),
    {
        let ghost before = self@;
        let mut m = self;
        let mut args = args;
        let ghost more = args@;
        m.body.append(&mut args);
        assert(m.body@ =~= before.body + more);
        m
    }

    /// The kind of the message.
    pub fn message_type(&self) -> (r: MessageType)
        ensures
            r == self.kind,
    {
        self.kind
    }

    /// The interface that the message is for.
    pub fn interface(&self) -> (r: Option<String>)
        ensures
            text_of(r) == self@.interface,
    {
        copy_text(&self.interface)
    }

    /// The path of the object that the message is for.
    pub fn path(&self) -> (r: Option<String>)
        ensures
            text_of(r) == self@.path,
    {
        copy_text(&self.path)
    }

    /// The method or signal that the message is about.
    pub fn member(&self) -> (r: Option<String>)
        ensures
            text_of(r) == self@.member,
    {
        copy_text(&self.member)
    }

    /// The values of the body, or nothing where the body is empty.
    pub fn values(&self) -> (r: Option<&Vec<Value>>)
        ensures
            self.body@.len() == 0 ==> r is None,
            self.body@.len() > 0 ==> r == Some(&self.body),
    {
        if self.body.len() == 0 {
            None
        } else {
            Some(&self.body)
        }
    }
}

/// The name and the text of an error that is reported to a caller.
#[derive(Clone, Debug, PartialEq, Eq)]
pub struct ErrorMessage {
    /// The name of the error.
    pub name: String,
    /// The text that explains it.
    pub message: String,
}

/// The name of the error for arguments that do not fit.
pub const INVALID_ARGS: &'static str = "org.freedesktop.DBus.Error.InvalidArgs";

/// The name of the error for an interface that the object does not have.
pub const UNKNOWN_INTERFACE: &'static str = "org.freedesktop.DBus.Error.UnknownInterface";

/// The name of the error for a method that the interface does not have.
pub const UNKNOWN_METHOD: &'static str = "org.freedesktop.DBus.Error.UnknownMethod";

/// The name of the error for a property that the interface does not have.
pub const UNKNOWN_PROPERTY: &'static str = "org.freedesktop.DBus.Error.UnknownProperty";

/// The name of the error for a path at which no object is registered.
pub const UNKNOWN_OBJECT: &'static str = "org.freedesktop.DBus.Error.UnknownObject";

/// The name of the error for a request that the object cannot carry out.
pub const FAILED: &'static str = "org.freedesktop.DBus.Error.Failed";

/// Whether a message is the error reply of that name to the message with the
/// given serial, with the explaining text as the one value of its body.
pub open spec fn is_error_reply(reply: MessageView, serial: u32, name: Seq<char>, text: Seq<char>) -> bool {
    &&& reply == MessageView::error(name, serial).with_values(reply.body)
    &&& reply.body.len() == 1
    &&& reply.body[0].text() == Some(text)
}

impl ErrorMessage {
    /// Whether the error has that name and that text.
    pub open spec fn says(self, name: Seq<char>, text: Seq<char>) -> bool {
        self.name@ == name && self.message@ == text
    }

    /// An error of that name with that text.
    pub fn new(name: &str, message: &str) -> (r: ErrorMessage)
        ensures
            r.says(name@, message@),
    {
        ErrorMessage { name: name.to_owned(), message: message.to_owned() }
    }

    /// The error reply to a message that reports this error.
    pub fn into_message(self, msg: &Message) -> (r: Message)
        ensures
            is_error_reply(r@, msg.serial, self.name@, self.message@),
    {
        let reply = msg.error_message(self.name.as_str());
        let r = reply.add_argument(Value::string(self.message.as_str()));
        assert(r@.body =~= seq![r@.body[0]]);
        assert(r@ == MessageView::error(self.name@, msg.serial).with_values(r@.body));
        r
    }
}

} // verus!
