//! The registry of connected clients: registration, removal by identifier,
//! snapshots for lock-free delivery, and the rebuild step of the liveness
//! sweep that keeps only the clients whose keepalive delivery succeeded.

use vstd::prelude::*;

verus! {

use actix_web_lab::sse;

/// Declares actix_web_lab::sse::Sender, the delivery handle of an open
/// event stream, as an opaque type: the registry stores and hands out such
/// handles but never looks inside one.
#[verifier::external_type_specification]
#[verifier::external_body]
pub struct ExSseSender(sse::Sender);

/// Relies on actix_web_lab::sse::Sender::clone (derived over
/// tokio::sync::mpsc::Sender): the clone delivers into the same channel as
/// the original handle.
#[verifier::external_body]
fn clone_sender(s: &sse::Sender) -> (r: sse::Sender) {
    s.clone()
}

/// One connected subscriber: its delivery handle and its identifier.
pub struct SseClient {
    /// Handle that delivers events onto this subscriber's open stream.
    pub client: sse::Sender,
    /// Display identifier; not checked for uniqueness across clients.
    pub name: String,
}

/// The entries of `s` whose identifier differs from `name`, in order.
pub open spec fn keep_others(s: Seq<SseClient>, name: Seq<char>) -> Seq<SseClient>
    decreases s.len(),
{
    if s.len() == 0 {
        Seq::empty()
    } else {
        let rest = keep_others(s.drop_last(), name);
        if s.last().name@ == name {
            rest
        } else {
            rest.push(s.last())
        }
    }
}

/// The entries of `s` whose delivery outcome flag is true, in order.
pub open spec fn live_of(s: Seq<SseClient>, flags: Seq<bool>) -> Seq<SseClient>
    recommends
        s.len() == flags.len(),
    decreases s.len(),
{
    if s.len() == 0 {
        Seq::empty()
    } else {
        let rest = live_of(s.drop_last(), flags.drop_last());
        if flags.last() {
            rest.push(s.last())
        } else {
            rest
        }
    }
}

/// The set of currently connected clients. The surrounding service guards a
/// `Registry` with one exclusive lock, held only while one of these
/// operations runs — never across an awaited delivery.
pub struct Registry {
    clients: Vec<SseClient>,
}

impl View for Registry {
    type V = Seq<SseClient>;

    closed spec fn view(&self) -> Seq<SseClient> {
        self.clients@
    }
}

impl Registry {
    /// An empty registry.
    pub fn new() -> (r: Registry)
        ensures
            r@ == Seq::<SseClient>::empty(),
    {
        Registry { clients: Vec::new() }
    }

    /// Number of registered clients.
    pub fn len(&self) -> (r: usize)
        ensures
            r == self@.len(),
    {
        self.clients.len()
    }

    /// Appends a newly subscribed client.
    pub fn register(&mut self, client: SseClient)
        ensures
            final(self)@ == old(self)@.push(client),
    {
        self.clients.push(client);
    }

    /// Removes every entry whose identifier equals `name`; a no-op when
    /// nothing matches.
    pub fn stop_client(&mut self, name: String)
        ensures
            final(self)@ == keep_others(old(self)@, name@),
    {
        let ghost orig: Seq<SseClient> = self.clients@;
        let mut kept: Vec<SseClient> = Vec::new();
        while self.clients.len() > 0
            invariant
                self.clients@.len() <= orig.len(),
                self.clients@ == orig.skip(orig.len() - self.clients@.len()),
                kept@ == keep_others(orig.take(orig.len() - self.clients@.len()), name@),
            decreases self.clients@.len(),
        {
            let ghost n = orig.len() - self.clients@.len();
            let c = self.clients.remove(0);
            proof {
                assert(orig.skip(n).remove(0) =~= orig.skip(n + 1));
                assert(c == orig.skip(n)[0]);
                assert(c == orig[n]);
                assert(orig.take(n + 1).drop_last() =~= orig.take(n));
                assert(orig.take(n + 1).last() == orig[n]);
            }
            if !(c.name == name) {
                kept.push(c);
            }
        }
        proof {
            assert(orig.take(orig.len() as int) =~= orig);
        }
        self.clients = kept;
    }

    /// A point-in-time copy of the client list, taken under the lock so that
    /// delivery can run against it after the lock is released. The copies
    /// carry the same identifiers; each copied handle delivers to the same
    /// stream as the original.
    pub fn snapshot(&self) -> (r: Vec<SseClient>)
        ensures
            r@.len() == self@.len(),
            forall|i: int| 0 <= i < r@.len() ==> #[trigger] r@[i].name@ == self@[i].name@,
    {
        let mut r: Vec<SseClient> = Vec::new();
        let mut i: usize = 0;
        while i < self.clients.len()
            invariant
                i <= self.clients.len(),
                r@.len() == i,
                forall|j: int| 0 <= j < i ==> #[trigger] r@[j].name@ == self.clients@[j].name@,
            decreases self.clients@.len() - i,
        {
            let entry = SseClient {
                client: clone_sender(&self.clients[i].client),
                name: self.clients[i].name.clone(),
            };
            r.push(entry);
            i = i + 1;
        }
        r
    }

    /// Installs a rebuilt client list wholesale (the liveness sweep's final
    /// step).
    pub fn replace(&mut self, clients: Vec<SseClient>)
        ensures
            final(self)@ == clients@,
    {
        self.clients = clients;
    }

    /// The identifiers of all registered clients, in registration order.
    pub fn names(&self) -> (r: Vec<String>)
        ensures
            r@.len() == self@.len(),
            forall|i: int| 0 <= i < r@.len() ==> #[trigger] r@[i]@ == self@[i].name@,
    {
        let mut r: Vec<String> = Vec::new();
        let mut i: usize = 0;
        while i < self.clients.len()
            invariant
                i <= self.clients.len(),
                r@.len() == i,
                forall|j: int| 0 <= j < i ==> #[trigger] r@[j]@ == self.clients@[j].name@,
            decreases self.clients@.len() - i,
        {
            r.push(self.clients[i].name.clone());
            i = i + 1;
        }
        r
    }
}

/// Keeps exactly the snapshotted clients whose keepalive delivery succeeded:
/// `ok[i]` is the outcome of the delivery to `clients[i]`.
pub fn retain_live(clients: Vec<SseClient>, ok: &Vec<bool>) -> (r: Vec<SseClient>)
    requires
        clients@.len() == ok@.len(),
    ensures
        r@ == live_of(clients@, ok@),
{
    let ghost orig: Seq<SseClient> = clients@;
    let mut rest = clients;
    let mut kept: Vec<SseClient> = Vec::new();
    let total: usize = ok.len();
    let mut i: usize = 0;
    while i < total
        invariant
            total == orig.len(),
            orig.len() == ok@.len(),
            i + rest@.len() == orig.len(),
            rest@ == orig.skip(i as int),
            kept@ == live_of(orig.take(i as int), ok@.take(i as int)),
        decreases rest@.len(),
    {
        let ghost n = i as int;
        let c = rest.remove(0);
        let live = ok[i];
        i = i + 1;
        proof {
            assert(orig.skip(n).remove(0) =~= orig.skip(n + 1));
            assert(c == orig.skip(n)[0]);
            assert(c == orig[n]);
            assert(live == ok@[n]);
            assert(orig.take(n + 1).drop_last() =~= orig.take(n));
            assert(ok@.take(n + 1).drop_last() =~= ok@.take(n));
            assert(orig.take(n + 1).last() == orig[n]);
            assert(ok@.take(n + 1).last() == ok@[n]);
        }
        if live {
            kept.push(c);
        }
    }
    proof {
        assert(orig.take(orig.len() as int) =~= orig);
        assert(ok@.take(orig.len() as int) =~= ok@);
    }
    kept
}

/// Removal by identifier is exact: no entry carrying the removed identifier
/// survives, every entry carrying another identifier survives, and nothing
/// is added.
pub proof fn lemma_keep_others_exact(s: Seq<SseClient>, name: Seq<char>)
    ensures
        forall|i: int|
            0 <= i < keep_others(s, name).len() ==> (#[trigger] keep_others(s, name)[i]).name@
                != name,
        forall|i: int| 0 <= i < s.len() && (#[trigger] s[i]).name@ != name ==> keep_others(
            s,
            name,
        ).contains(s[i]),
        keep_others(s, name).len() <= s.len(),
    decreases s.len(),
{
    if s.len() > 0 {
        lemma_keep_others_exact(s.drop_last(), name);
        assert forall|i: int| 0 <= i < s.len() && (#[trigger] s[i]).name@ != name implies
            keep_others(s, name).contains(s[i]) by {
            if i < s.len() - 1 {
                assert(s.drop_last()[i] == s[i]);
                let j = choose|j: int|
                    0 <= j < keep_others(s.drop_last(), name).len() && keep_others(
                        s.drop_last(),
                        name,
                    )[j] == s[i];
                assert(keep_others(s, name)[j] == s[i]);
            } else {
                assert(s[i] == s.last());
                assert(keep_others(s, name).last() == s.last());
            }
        }
    }
}

/// `c` is one of the entries of `s` whose delivery outcome flag is true.
pub open spec fn live_entry_of(s: Seq<SseClient>, flags: Seq<bool>, c: SseClient) -> bool {
    exists|i: int| 0 <= i < s.len() && flags[i] && s[i] == c
}

/// The sweep's rebuild is exact: every client whose keepalive delivery
/// succeeded survives — whatever happened to the others — and every
/// surviving entry is one of the snapshotted clients whose delivery
/// succeeded.
pub proof fn lemma_live_of_exact(s: Seq<SseClient>, flags: Seq<bool>)
    requires
        s.len() == flags.len(),
    ensures
        forall|i: int| 0 <= i < s.len() && flags[i] ==> live_of(s, flags).contains(#[trigger] s[i]),
        forall|j: int|
            0 <= j < live_of(s, flags).len() ==> live_entry_of(
                s,
                flags,
                #[trigger] live_of(s, flags)[j],
            ),
        live_of(s, flags).len() <= s.len(),
    decreases s.len(),
{
    if s.len() > 0 {
        lemma_live_of_exact(s.drop_last(), flags.drop_last());
        assert forall|i: int| 0 <= i < s.len() && flags[i] implies live_of(s, flags).contains(
            #[trigger] s[i],
        ) by {
            if i < s.len() - 1 {
                assert(s.drop_last()[i] == s[i]);
                assert(flags.drop_last()[i] == flags[i]);
                let j = choose|j: int|
                    0 <= j < live_of(s.drop_last(), flags.drop_last()).len() && live_of(
                        s.drop_last(),
                        flags.drop_last(),
                    )[j] == s[i];
                assert(live_of(s, flags)[j] == s[i]);
            } else {
                assert(s[i] == s.last());
                assert(flags.last());
                assert(live_of(s, flags).last() == s.last());
            }
        }
        assert forall|j: int| 0 <= j < live_of(s, flags).len() implies live_entry_of(
            s,
            flags,
            #[trigger] live_of(s, flags)[j],
        ) by {
            let rest = live_of(s.drop_last(), flags.drop_last());
            if j < rest.len() {
                assert(live_of(s, flags)[j] == rest[j]);
                assert(live_entry_of(s.drop_last(), flags.drop_last(), rest[j]));
                let i = choose|i: int|
                    0 <= i < s.drop_last().len() && flags.drop_last()[i] && s.drop_last()[i]
                        == rest[j];
                assert(s.drop_last()[i] == s[i]);
                assert(flags.drop_last()[i] == flags[i]);
                assert(0 <= i < s.len() && flags[i] && s[i] == live_of(s, flags)[j]);
                assert(live_entry_of(s, flags, live_of(s, flags)[j]));
            } else {
                assert(flags.last());
                assert(live_of(s, flags)[j] == s.last());
                assert(0 <= s.len() - 1 < s.len() && flags[s.len() - 1] && s[s.len() - 1]
                    == live_of(s, flags)[j]);
                assert(live_entry_of(s, flags, live_of(s, flags)[j]));
            }
        }
    }
}

} // verus!
