//! The failures that building and running a server can end in.

use vstd::prelude::*;
use crate::text::join;

verus! {

/// A failure at build or control time.
#[derive(Clone, Debug, PartialEq, Eq)]
pub enum Error {
    /// The bus answered a request with something that is no valid reply.
    InvalidReply(String),
    /// An object was added to or removed from a server that only listens.
    NoServerName,
    /// A server of that name is registered already.
    ServerAlreadyRegistered(String),
    /// No server of that name is registered.
    NoSuchServer(String),
    /// The bus did not make the server the owner of the name.
    NameUnavailable(String),
    /// An object is registered at that path already.
    PathAlreadyRegistered(String),
    /// No object is registered at that path.
    NoSuchPath(String),
    /// The path does not start with `/`.
    InvalidPath(String),
    /// The set of interfaces has an interface of that name already.
    InterfaceAlreadyRegistered(String),
    /// The set of interfaces is finalized and takes no further interface.
    InterfacesFinalized,
}

impl Error {
    /// The fixed words that describe the kind of failure.
    pub open spec fn headline(self) -> Seq<char> {
        match self {
            Error::InvalidReply(_) => "invalid reply"@,
            Error::NoServerName => "listening server cannot handle methods"@,
            Error::ServerAlreadyRegistered(_) => "server already registered"@,
            Error::NoSuchServer(_) => "no such server"@,
            Error::NameUnavailable(_) => "name unavailable"@,
            Error::PathAlreadyRegistered(_) => "path already registered"@,
            Error::NoSuchPath(_) => "no such path"@,
            Error::InvalidPath(_) => "invalid path"@,
            Error::InterfaceAlreadyRegistered(_) => "interface already registered"@,
            Error::InterfacesFinalized => "interfaces finalized"@,
        }
    }

    /// What the failure is about: a name, a path or a description.
    pub open spec fn subject(self) -> Option<Seq<char>> {
        match self {
            Error::InvalidReply(s) => Some(s@),
            Error::NoServerName => None,
            Error::ServerAlreadyRegistered(s) => Some(s@),
            Error::NoSuchServer(s) => Some(s@),
            Error::NameUnavailable(s) => Some(s@),
            Error::PathAlreadyRegistered(s) => Some(s@),
            Error::NoSuchPath(s) => Some(s@),
            Error::InvalidPath(s) => Some(s@),
            Error::InterfaceAlreadyRegistered(s) => Some(s@),
            Error::InterfacesFinalized => None,
        }
    }

    /// The text shown for a failure: the headline, then a colon and the subject
    /// where there is one.
    pub open spec fn text(self) -> Seq<char> {
        match self.subject() {
            Some(s) => self.headline() + ": "@ + s,
            None => self.headline(),
        }
    }

    /// The fixed words that describe the kind of failure.
    pub fn description(&self) -> (r: &'static str)
        ensures
            r@ == self.headline(),
    {
        match self {
            Error::InvalidReply(_) => "invalid reply",
            Error::NoServerName => "listening server cannot handle methods",
            Error::ServerAlreadyRegistered(_) => "server already registered",
            Error::NoSuchServer(_) => "no such server",
            Error::NameUnavailable(_) => "name unavailable",
            Error::PathAlreadyRegistered(_) => "path already registered",
            Error::NoSuchPath(_) => "no such path",
            Error::InvalidPath(_) => "invalid path",
            Error::InterfaceAlreadyRegistered(_) => "interface already registered",
            Error::InterfacesFinalized => "interfaces finalized",
        }
    }

    /// The text shown for a failure.
    pub fn message(&self) -> (r: String)
        ensures
            r@ == self.text(),
    {
        let head = self.description();
        let subject: Option<&String> = match self {
            Error::InvalidReply(s) => Some(s),
            Error::NoServerName => None,
            Error::ServerAlreadyRegistered(s) => Some(s),
            Error::NoSuchServer(s) => Some(s),
            Error::NameUnavailable(s) => Some(s),
            Error::PathAlreadyRegistered(s) => Some(s),
            Error::NoSuchPath(s) => Some(s),
            Error::InvalidPath(s) => Some(s),
            Error::InterfaceAlreadyRegistered(s) => Some(s),
            Error::InterfacesFinalized => None,
        };
        match subject {
            Some(s) => {
                let start = join(head, ": ");
                join(start.as_str(), s.as_str())
            },
            None => head.to_owned(),
        }
    }
}

} // verus!
