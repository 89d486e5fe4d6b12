//! Replies and notices that the servers and tools send.

use vstd::prelude::*;
use crate::text::{decimal, push_decimal, push_str, string_from};

verus! {

/// Counts the lines received on one telemetry connection.
pub struct AckCounter {
    received: i32,
}

impl View for AckCounter {
    type V = nat;

    closed spec fn view(&self) -> nat {
        self.received as nat
    }
}

/// The acknowledgement after the `n`-th line of a connection.
pub open spec fn ack_text(n: nat) -> Seq<char> {
    "ACK: Server recieved "@ + decimal(n) + " messages."@
}

impl AckCounter {
    /// The count never goes below zero.
    #[verifier::type_invariant]
    spec fn count_is_natural(&self) -> bool {
        self.received >= 0
    }

    /// A counter for a new connection.
    pub fn new() -> (c: AckCounter)
        ensures
            c@ == 0,
    {
        AckCounter { received: 0 }
    }

    /// How many lines were received so far.
    pub fn received(&self) -> (r: i32)
        ensures
            r == self@,
    {
        proof {
            use_type_invariant(self);
        }
        self.received
    }

    /// Counts one more line and returns the acknowledgement to send back.
    pub fn acknowledge(&mut self) -> (reply: String)
        requires
            old(self)@ < i32::MAX,
        ensures
            final(self)@ == old(self)@ + 1,
            reply@ == ack_text((old(self)@ + 1) as nat),
    {
        proof {
            use_type_invariant(&*self);
        }
        self.received = self.received + 1;
        let mut reply = string_from("ACK: Server recieved ");
        push_decimal(&mut reply, self.received as u64);
        push_str(&mut reply, " messages.");
        reply
    }
}

/// The reply to an added purchase-list item.
pub open spec fn purchase_text(name: Seq<char>, is_purchased: bool) -> Seq<char> {
    "Added "@ + name + " with status if purchased on "@ + (if is_purchased {
        "true"@
    } else {
        "false"@
    }) + "."@
}

/// Builds the reply to an added purchase-list item.
pub fn purchase_message(name: &str, is_purchased: bool) -> (r: String)
    ensures
        r@ == purchase_text(name@, is_purchased),
{
    let mut r = string_from("Added ");
    push_str(&mut r, name);
    push_str(&mut r, " with status if purchased on ");
    if is_purchased {
        push_str(&mut r, "true");
    } else {
        push_str(&mut r, "false");
    }
    push_str(&mut r, ".");
    r
}

/// The notice for a log file that cannot be read.
pub fn missing_file_message(path: &str) -> (r: String)
    ensures
        r@ == "File <"@ + path@ + "> does not exists, or is in different directory"@,
{
    let mut r = string_from("File <");
    push_str(&mut r, path);
    push_str(&mut r, "> does not exists, or is in different directory");
    r
}

} // verus!
