//! The texts pushed to a subscriber's stream: the initial acknowledgement,
//! the per-client broadcast payload, and the keepalive comment.

use vstd::prelude::*;

verus! {

use vstd::string::StringExecFns;

/// The broadcast payload delivered to a client: its own identifier, a
/// separator, then the message text.
pub open spec fn payload_spec(name: Seq<char>, msg: Seq<char>) -> Seq<char> {
    name + ": "@ + msg
}

/// The keepalive comment probed at a client, carrying its identifier for
/// diagnostics.
pub open spec fn keepalive_spec(name: Seq<char>) -> Seq<char> {
    "ping from: "@ + name
}

/// Text of the acknowledgement pushed to a subscriber as its first event.
pub fn connected_message() -> (r: String)
    ensures
        r@ == "connected"@,
{
    String::from_str("connected")
}

/// Formats the broadcast payload for one client.
pub fn payload_for(name: &str, msg: &str) -> (r: String)
    ensures
        r@ == payload_spec(name@, msg@),
{
    let mut r = String::from_str(name);
    r.append(": ");
    r.append(msg);
    r
}

/// Formats the keepalive comment for one client.
pub fn keepalive_for(name: &str) -> (r: String)
    ensures
        r@ == keepalive_spec(name@),
{
    let mut r = String::from_str("ping from: ");
    r.append(name);
    r
}

/// Formats one broadcast's payloads, one per snapshotted client in snapshot
/// order: each client is addressed with its own identifier, whatever happens
/// to the deliveries of the others.
pub fn broadcast_payloads(clients: &Vec<crate::registry::SseClient>, msg: &str) -> (r: Vec<
    String,
>)
    ensures
        r@.len() == clients@.len(),
        forall|i: int| 0 <= i < r@.len() ==> #[trigger] r@[i]@ == payload_spec(
            clients@[i].name@,
            msg@,
        ),
{
    let mut r: Vec<String> = Vec::new();
    let mut i: usize = 0;
    while i < clients.len()
        invariant
            i <= clients.len(),
            r@.len() == i,
            forall|j: int| 0 <= j < i ==> #[trigger] r@[j]@ == payload_spec(
                clients@[j].name@,
                msg@,
            ),
        decreases clients@.len() - i,
    {
        r.push(payload_for(clients[i].name.as_str(), msg));
        i = i + 1;
    }
    r
}

/// Two clients with different identifiers never receive the same payload
/// text for one broadcast: the payload identifies its addressee.
pub proof fn lemma_payload_identifies_client(n1: Seq<char>, n2: Seq<char>, msg: Seq<char>)
    requires
        n1 != n2,
    ensures
        payload_spec(n1, msg) != payload_spec(n2, msg),
{
    if payload_spec(n1, msg) == payload_spec(n2, msg) {
        assert(payload_spec(n1, msg).len() == n1.len() + ": "@.len() + msg.len());
        assert(payload_spec(n2, msg).len() == n2.len() + ": "@.len() + msg.len());
        assert(n1.len() == n2.len());
        assert forall|i: int| 0 <= i < n1.len() implies n1[i] == n2[i] by {
            assert(payload_spec(n1, msg)[i] == n1[i]);
            assert(payload_spec(n2, msg)[i] == n2[i]);
        }
        assert(n1 =~= n2);
    }
}

} // verus!
