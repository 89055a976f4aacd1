//! An object: a path bound to a finalized set of interfaces.

use vstd::prelude::*;
use crate::error::Error;
use crate::message::Message;
use crate::registry::{Interfaces, Outcome};
use crate::value::Value;

verus! {

/// An object that answers calls.
pub struct Object {
    /// The path of the object.
    pub path: String,
    /// The interfaces of the object.
    pub interfaces: Interfaces,
}

impl Object {
    /// The object at a path with the given interfaces.
    pub fn new(path: &str, interfaces: Interfaces) -> (r: Result<Object, Error>)
        ensures
            r matches Ok(o) && o.path@ == path@ && o.interfaces == interfaces,
    {
        Ok(Object { path: path.to_owned(), interfaces })
    }

    /// The path of the object.
    pub fn path(&self) -> (r: &str)
        ensures
            r@ == self.path@,
    {
        self.path.as_str()
    }

    /// Gives a message to the object to answer.
    pub fn handle_message(&self, msg: &Message) -> (r: Option<Outcome>)
        ensures
            self.interfaces.handled(*msg, None, r),
    {
        self.interfaces.handle(msg)
    }

    /// Gives a message to the object to answer, with the objects that it
    /// manages at hand.
    pub fn handle_managed(&self, msg: &Message, managed: Option<Value>) -> (r: Option<Outcome>)
        ensures
            self.interfaces.handled(*msg, managed, r),
    {
        self.interfaces.handle_call(msg, managed)
    }
}

} // verus!
