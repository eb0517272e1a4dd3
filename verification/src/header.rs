//! The header that precedes every encoded message tree.
use vstd::prelude::*;
use crate::consts;

verus! {

/// Identifies the sender of a message tree and the tree itself.
pub struct Header<'h> {
    domain: &'h str,
    hostname: &'h str,
    ip: &'h str,
    message_id: String,
    parent_message_id: &'static str,
    root_message_id: &'static str,
}

impl<'h> Header<'h> {
    pub closed spec fn domain(&self) -> &'h str {
        self.domain
    }

    pub closed spec fn hostname(&self) -> &'h str {
        self.hostname
    }

    pub closed spec fn ip(&self) -> &'h str {
        self.ip
    }

    pub closed spec fn message_id(&self) -> String {
        self.message_id
    }

    pub closed spec fn parent_message_id(&self) -> &'static str {
        self.parent_message_id
    }

    pub closed spec fn root_message_id(&self) -> &'static str {
        self.root_message_id
    }

    /// A header for a tree without parent or root message.
    pub fn new(domain: &'h str, hostname: &'h str, ip: &'h str, message_id: String) -> (h: Self)
        ensures
            h.domain() == domain,
            h.hostname() == hostname,
            h.ip() == ip,
            h.message_id() == message_id,
            h.parent_message_id() == consts::EMPTY_DATA,
            h.root_message_id() == consts::EMPTY_DATA,
    {
        Header {
            domain,
            hostname,
            ip,
            message_id,
            parent_message_id: consts::EMPTY_DATA,
            root_message_id: consts::EMPTY_DATA,
        }
    }

    pub fn get_domain(&'h self) -> (r: &'h str)
        ensures
            r == self.domain(),
    {
        self.domain
    }

    pub fn get_hostname(&'h self) -> (r: &'h str)
        ensures
            r == self.hostname(),
    {
        self.hostname
    }

    pub fn get_ip(&'h self) -> (r: &'h str)
        ensures
            r == self.ip(),
    {
        self.ip
    }

    pub fn get_message_id(&self) -> (r: &str)
        ensures
            r@ == self.message_id()@,
    {
        self.message_id.as_str()
    }

    pub fn get_parent_message_id(&self) -> (r: &'static str)
        ensures
            r == self.parent_message_id(),
    {
        self.parent_message_id
    }

    pub fn get_root_message_id(&self) -> (r: &'static str)
        ensures
            r == self.root_message_id(),
    {
        self.root_message_id
    }
}

} // verus!
