//! The requests that a service makes of the bus itself, and the replies that
//! the bus gives: what is sent and what an answer means. The transport that
//! carries them is not part of this library.

use vstd::prelude::*;
use crate::error::Error;
use crate::message::{Message, MessageType, MessageView};
use crate::text::{decimal, decimal_text, join};
use crate::value::{BasicValue, Value};

verus! {

/// The bit that allows another service to take the name over later.
pub const ALLOW_REPLACEMENT: u32 = 0x1;

/// The bit that asks to take the name over from its present owner.
pub const REPLACE_EXISTING: u32 = 0x2;

/// The bit that makes the request fail where the name is taken, in place of
/// waiting for it in the queue.
pub const DO_NOT_QUEUE: u32 = 0x4;

/// The flags of a request for a name: a set of the three bits.
#[derive(Clone, Copy, Debug, PartialEq, Eq, Structural)]
pub struct RequestNameFlags {
    /// The bits that are set.
    pub bits: u32,
}

impl RequestNameFlags {
    /// No flag.
    pub fn empty() -> (r: RequestNameFlags)
        ensures
            r.bits == 0,
    {
        RequestNameFlags { bits: 0 }
    }

    /// The flags that the given bits stand for, where they are all known.
    pub fn from_bits(bits: u32) -> (r: Option<RequestNameFlags>)
        ensures
            r == (if bits <= 7 { Some(RequestNameFlags { bits }) } else { None }),
    {
        if bits <= 7 {
            Some(RequestNameFlags { bits })
        } else {
            None
        }
    }

    /// The flag `DO_NOT_QUEUE` alone.
    pub fn do_not_queue() -> (r: RequestNameFlags)
        ensures
            r.bits == DO_NOT_QUEUE,
    {
        RequestNameFlags { bits: DO_NOT_QUEUE }
    }

    /// The bits that are set.
    pub fn bits(&self) -> (r: u32)
        ensures
            r == self.bits,
    {
        self.bits
    }

    /// Whether every flag of `other` is set.
    pub fn contains(&self, other: RequestNameFlags) -> (r: bool)
        ensures
            r == (self.bits & other.bits == other.bits),
    {
        self.bits & other.bits == other.bits
    }

    /// The flags of both.
    pub fn union(self, other: RequestNameFlags) -> (r: RequestNameFlags)
        ensures
            r.bits == self.bits | other.bits,
    {
        RequestNameFlags { bits: self.bits | other.bits }
    }
}

/// What the bus answers to a request for a name.
#[derive(Clone, Copy, Debug, PartialEq, Eq, Structural)]
pub enum RequestNameReply {
    /// The service is now the owner of the name.
    PrimaryOwner,
    /// The request waits in the queue for the name.
    InQueue,
    /// The name has an owner and cannot be taken over.
    Exists,
    /// The service owns the name already.
    AlreadyOwner,
}

/// What the bus answers to the release of a name.
#[derive(Clone, Copy, Debug, PartialEq, Eq, Structural)]
pub enum ReleaseNameReply {
    /// The name is released.
    Released,
    /// No service has the name.
    NonExistent,
    /// The service does not own the name.
    NotOwner,
}

/// The call of a method of the bus itself.
pub open spec fn bus_call(method: Seq<char>) -> MessageView {
    MessageView::method_call(
        "org.freedesktop.DBus"@,
        "/org/freedesktop/DBus"@,
        "org.freedesktop.DBus"@,
        method,
    )
}

/// The number that ends a reply, where its last value is an unsigned 32-bit
/// integer.
pub open spec fn reply_code(results: Option<Vec<Value>>) -> Option<u32> {
    match results {
        Some(vals) => if vals@.len() > 0 {
            match vals@.last() {
                Value::BasicValue(BasicValue::Uint32(r)) => Some(r),
                _ => None,
            }
        } else {
            None
        },
        None => None,
    }
}

/// The description of a reply that cannot be understood.
pub open spec fn bad_reply(method: Seq<char>, results: Option<Vec<Value>>) -> Seq<char> {
    if results is None {
        method + ": no response"@
    } else {
        match reply_code(results) {
            Some(r) => method + ": invalid response "@ + decimal(r as nat),
            None => method + ": invalid response"@,
        }
    }
}

/// The number that ends a reply.
fn last_code(results: &Option<Vec<Value>>) -> (r: Option<u32>)
    ensures
        r == reply_code(*results),
{
    match results {
        Some(vals) => {
            if vals.len() > 0 {
                match &vals[vals.len() - 1] {
                    Value::BasicValue(BasicValue::Uint32(r)) => Some(*r),
                    _ => None,
                }
            } else {
                None
            }
        },
        None => None,
    }
}

/// The failure for a reply that cannot be understood.
fn invalid_reply(method: &str, results: &Option<Vec<Value>>) -> (r: Error)
    ensures
        r matches Error::InvalidReply(d) && d@ == bad_reply(method@, *results),
{
    if results.is_none() {
        Error::InvalidReply(join(method, ": no response"))
    } else {
        match last_code(results) {
            Some(code) => {
                let start = join(method, ": invalid response ");
                let number = decimal_text(code as usize);
                Error::InvalidReply(join(start.as_str(), number.as_str()))
            },
            None => Error::InvalidReply(join(method, ": invalid response")),
        }
    }
}

/// The call that asks the bus for a name.
pub fn request_name_call(name: &str, flags: RequestNameFlags) -> (r: Message)
    ensures
        r@.body.len() == 2,
        r@.body[0].text() == Some(name@),
        r@.body[1] == Value::BasicValue(BasicValue::Uint32(flags.bits)),
        r@ == bus_call("RequestName"@).with_values(r@.body),
{
    let m = Message::new_method_call(
        "org.freedesktop.DBus",
        "/org/freedesktop/DBus",
        "org.freedesktop.DBus",
        "RequestName",
    );
    let m = m.add_argument(Value::string(name));
    let r = m.add_argument(Value::BasicValue(BasicValue::Uint32(flags.bits)));
    assert(r@.body =~= bus_call("RequestName"@).with_values(r@.body).body);
    r
}

/// What the reply to a request for a name means: the numbers 1 to 4 stand for
/// the four answers, and anything else is no valid reply.
pub fn request_name_reply(results: Option<Vec<Value>>) -> (r: Result<RequestNameReply, Error>)
    ensures
        match reply_code(results) {
            Some(1) => r == Ok::<RequestNameReply, Error>(RequestNameReply::PrimaryOwner),
            Some(2) => r == Ok::<RequestNameReply, Error>(RequestNameReply::InQueue),
            Some(3) => r == Ok::<RequestNameReply, Error>(RequestNameReply::Exists),
            Some(4) => r == Ok::<RequestNameReply, Error>(RequestNameReply::AlreadyOwner),
            _ => r matches Err(Error::InvalidReply(d)) && d@ == bad_reply("RequestName"@, results),
        },
{
    match last_code(&results) {
        Some(1) => Ok(RequestNameReply::PrimaryOwner),
        Some(2) => Ok(RequestNameReply::InQueue),
        Some(3) => Ok(RequestNameReply::Exists),
        Some(4) => Ok(RequestNameReply::AlreadyOwner),
        _ => Err(invalid_reply("RequestName", &results)),
    }
}

/// The call that gives a name back to the bus.
pub fn release_name_call(name: &str) -> (r: Message)
    ensures
        r@.body.len() == 1,
        r@.body[0].text() == Some(name@),
        r@ == bus_call("ReleaseName"@).with_values(r@.body),
{
    let m = Message::new_method_call(
        "org.freedesktop.DBus",
        "/org/freedesktop/DBus",
        "org.freedesktop.DBus",
        "ReleaseName",
    );
    let r = m.add_argument(Value::string(name));
    assert(r@.body =~= bus_call("ReleaseName"@).with_values(r@.body).body);
    r
}

/// What the reply to the release of a name means: the numbers 1 to 3 stand for
/// the three answers, and anything else is no valid reply.
pub fn release_name_reply(results: Option<Vec<Value>>) -> (r: Result<ReleaseNameReply, Error>)
    ensures
        match reply_code(results) {
            Some(1) => r == Ok::<ReleaseNameReply, Error>(ReleaseNameReply::Released),
            Some(2) => r == Ok::<ReleaseNameReply, Error>(ReleaseNameReply::NonExistent),
            Some(3) => r == Ok::<ReleaseNameReply, Error>(ReleaseNameReply::NotOwner),
            _ => r matches Err(Error::InvalidReply(d)) && d@ == bad_reply("ReleaseName"@, results),
        },
{
    match last_code(&results) {
        Some(1) => Ok(ReleaseNameReply::Released),
        Some(2) => Ok(ReleaseNameReply::NonExistent),
        Some(3) => Ok(ReleaseNameReply::NotOwner),
        _ => Err(invalid_reply("ReleaseName", &results)),
    }
}

/// The call that asks the bus to route the messages that a rule matches to
/// this service.
pub fn add_match_call(match_rule: &str) -> (r: Message)
    ensures
        r@.body.len() == 1,
        r@.body[0].text() == Some(match_rule@),
        r@ == bus_call("AddMatch"@).with_values(r@.body),
{
    let m = Message::new_method_call(
        "org.freedesktop.DBus",
        "/org/freedesktop/DBus",
        "org.freedesktop.DBus",
        "AddMatch",
    );
    let r = m.add_argument(Value::string(match_rule));
    assert(r@.body =~= bus_call("AddMatch"@).with_values(r@.body).body);
    r
}

/// Whether a message that came in is given to the servers: calls and signals
/// are, everything else is not.
pub fn should_handle(message: &Message) -> (r: bool)
    ensures
        r == (message.kind == MessageType::MethodCall || message.kind == MessageType::Signal),
{
    match message.message_type() {
        MessageType::MethodCall | MessageType::Signal => true,
        _ => false,
    }
}

/// The next message for the servers, given what reading from the bus brought:
/// a call or a signal is handed on, and any other message or a failed read
/// ends the stream of messages.
pub fn next_message(read: Option<Message>) -> (r: Option<Message>)
    ensures
        r == (match read {
            Some(m) => if m.kind == MessageType::MethodCall || m.kind == MessageType::Signal {
                Some(m)
            } else {
                None
            },
            None => None,
        }),
{
    match read {
        Some(m) => {
            if should_handle(&m) {
                Some(m)
            } else {
                None
            }
        },
        None => None,
    }
}

} // verus!
