//! What the HTTP interface shows and how it fans messages out. The HTTP
//! server itself is not part of this library.

pub mod endpoints;

use vstd::prelude::*;

verus! {

/// The WebSocket clients to which a message sent by the client `sender`
/// goes: all clients but the sender, in order.
pub open spec fn recipients_of(clients: Seq<u128>, sender: u128) -> Seq<u128>
    decreases clients.len(),
{
    if clients.len() == 0 {
        Seq::empty()
    } else if clients.last() == sender {
        recipients_of(clients.drop_last(), sender)
    } else {
        recipients_of(clients.drop_last(), sender).push(clients.last())
    }
}

/// The clients, by their identifiers, that get a message which the client
/// `sender` sent: everyone but the sender.
pub fn broadcast_recipients(clients: &Vec<u128>, sender: u128) -> (recipients: Vec<u128>)
    ensures
        recipients@ == recipients_of(clients@, sender),
        forall|i: int| 0 <= i < recipients@.len() ==> recipients@[i] != sender,
{
    let mut recipients: Vec<u128> = Vec::new();
    let mut i: usize = 0;
    while i < clients.len()
        invariant
            i <= clients.len(),
            recipients@ == recipients_of(clients@.subrange(0, i as int), sender),
            forall|k: int| 0 <= k < recipients@.len() ==> recipients@[k] != sender,
        decreases clients.len() - i,
    {
        proof {
            let upto = clients@.subrange(0, i + 1);
            assert(upto.drop_last() =~= clients@.subrange(0, i as int));
            assert(upto.last() == clients@[i as int]);
        }
        if clients[i] != sender {
            recipients.push(clients[i]);
        }
        i = i + 1;
    }
    assert(clients@.subrange(0, i as int) =~= clients@);
    recipients
}

} // verus!
