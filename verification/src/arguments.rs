//! The arguments of a call, taken from the body of its message.

use vstd::prelude::*;
use crate::message::{ErrorMessage, Message, INVALID_ARGS};
use crate::text::{decimal, decimal_text, join};
use crate::value::{BasicValue, Value};

verus! {

/// The arguments of a call.
pub struct Arguments<'a> {
    values: &'a Vec<Value>,
}

impl<'a> Arguments<'a> {
    /// The values that the arguments hold, in order.
    pub closed spec fn items(&self) -> Seq<Value> {
        self.values@
    }

    /// The text of the error for the argument at a position.
    pub open spec fn complaint(index: nat) -> Seq<char> {
        "invalid argument at "@ + decimal(index)
    }

    /// The arguments of a message. A message with an empty body has none to
    /// take, which is an error.
    pub fn new(msg: &'a Message) -> (r: Result<Arguments<'a>, ErrorMessage>)
        ensures
            match r {
                Ok(args) => msg.body@.len() > 0 && args.items() == msg.body@,
                Err(e) => msg.body@.len() == 0 && e.says(INVALID_ARGS@, "invalid arguments"@),
            },
    {
        match msg.values() {
            Some(values) => Ok(Arguments { values }),
            None => Err(Self::invalid_arguments()),
        }
    }

    /// The argument at a position.
    pub fn extract(&self, index: usize) -> (r: Result<&Value, ErrorMessage>)
        ensures
            match r {
                Ok(v) => index < self.items().len() && *v == self.items()[index as int],
                Err(e) => index >= self.items().len() && e.says(
                    INVALID_ARGS@,
                    Self::complaint(index as nat),
                ),
            },
    {
        if index < self.values.len() {
            Ok(&self.values[index])
        } else {
            Err(Self::invalid_argument(index))
        }
    }

    /// The argument at a position, which has to be a string.
    pub fn extract_string(&self, index: usize) -> (r: Result<&String, ErrorMessage>)
        ensures
            match r {
                Ok(s) => index < self.items().len() && self.items()[index as int].text() == Some(s@),
                Err(e) => !(index < self.items().len() && self.items()[index as int].text() is Some)
                    && e.says(INVALID_ARGS@, Self::complaint(index as nat)),
            },
    {
        match self.extract(index) {
            Ok(value) => match value {
                Value::BasicValue(BasicValue::String(s)) => Ok(s),
                _ => Err(Self::invalid_argument(index)),
            },
            Err(e) => Err(e),
        }
    }

    /// The error for a body that does not hold the arguments of the call.
    pub fn invalid_arguments() -> (r: ErrorMessage)
        ensures
            r.says(INVALID_ARGS@, "invalid arguments"@),
    {
        ErrorMessage::new(INVALID_ARGS, "invalid arguments")
    }

    /// The error for an argument that is missing or of the wrong type.
    pub fn invalid_argument(index: usize) -> (r: ErrorMessage)
        ensures
            r.says(INVALID_ARGS@, Self::complaint(index as nat)),
    {
        let number = decimal_text(index);
        let text = join("invalid argument at ", number.as_str());
        ErrorMessage::new(INVALID_ARGS, text.as_str())
    }
}

} // verus!
