//! What is known of a request from its start on.
use crate::response::Headers;
use crate::text::str_eq;
use vstd::prelude::*;
use vstd::string::*;

verus! {

/// Who sent a request.
pub struct Peer {
    pub address: String,
    pub port: u16,
}

/// What is read from a request once, and shared by those who handle it.
pub struct RequestContext {
    peer: Peer,
    head_request: bool,
    access_log: Headers,
}

impl RequestContext {
    pub closed spec fn sender(self) -> Peer {
        self.peer
    }

    pub closed spec fn wants_head(self) -> bool {
        self.head_request
    }

    pub closed spec fn log_values(self) -> Map<Seq<char>, Seq<char>> {
        self.access_log@
    }

    /// Keeps what the access log has from the request, with the address of the
    /// sender where the log asks for it.
    pub fn new(
        method: &str,
        peer: Peer,
        access_log: Headers,
        logs_address: bool,
    ) -> (context: RequestContext)
        ensures
            context.sender() == peer,
            context.wants_head() == (method@ == "HEAD"@),
            context.log_values() == (if logs_address {
                access_log@.insert("remote_addr"@, peer.address@)
            } else {
                access_log@
            }),
    {
        let mut values = access_log;
        if logs_address {
            values.insert("remote_addr", String::from_str(peer.address.as_str()));
        }
        RequestContext { peer, head_request: str_eq(method, "HEAD"), access_log: values }
    }

    pub fn peer(&self) -> (peer: &Peer)
        ensures
            *peer == self.sender(),
    {
        &self.peer
    }

    pub fn is_head_request(&self) -> (head: bool)
        ensures
            head == self.wants_head(),
    {
        self.head_request
    }

    pub fn access_log(&self) -> (log: &Headers)
        ensures
            log@ == self.log_values(),
    {
        &self.access_log
    }

    pub fn access_log_mut(&mut self) -> (log: &mut Headers)
        ensures
            log@ == old(self).log_values(),
            final(self).log_values() == final(log)@,
            final(self).sender() == old(self).sender(),
            final(self).wants_head() == old(self).wants_head(),
    {
        &mut self.access_log
    }
}

} // verus!
