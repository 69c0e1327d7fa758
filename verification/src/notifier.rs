//! The change notifier: which file-system events cause a reload, and which
//! clients of the push channel are told.
//!
//! The notifier keeps the connected clients by the numbers that its caller
//! gave them. It queues nothing: whoever is connected when a file is written
//! is a recipient, and nobody else.

use vstd::prelude::*;

verus! {

/// What the watcher saw happen below the served directory.
#[derive(Clone, Copy, Debug, PartialEq, Eq, Structural)]
pub enum ChangeKind {
    /// The content of a file was written.
    Write,
    /// Only the metadata of a file changed.
    Metadata,
    /// A file or directory was created.
    Create,
    /// A file or directory was removed.
    Remove,
    /// A file or directory was renamed.
    Rename,
    /// Anything else that the watcher reports.
    Other,
}

/// Whether an event causes a reload: content writes do, and nothing else.
pub open spec fn causes_reload(kind: ChangeKind) -> bool {
    kind == ChangeKind::Write
}

/// Whether an event causes a reload.
pub fn triggers_reload(kind: ChangeKind) -> (r: bool)
    ensures
        r == causes_reload(kind),
{
    match kind {
        ChangeKind::Write => true,
        _ => false,
    }
}

/// The clients of `clients` other than `client`, in their order.
pub open spec fn without(clients: Seq<u64>, client: u64) -> Seq<u64>
    decreases clients.len(),
{
    if clients.len() == 0 {
        clients
    } else if clients.last() == client {
        without(clients.drop_last(), client)
    } else {
        without(clients.drop_last(), client).push(clients.last())
    }
}

/// The clients after `client` has connected: it joins at the end unless it
/// is already there.
pub open spec fn with_client(clients: Seq<u64>, client: u64) -> Seq<u64> {
    if clients.contains(client) {
        clients
    } else {
        clients.push(client)
    }
}

/// The clients that are sent the reload message for an event: all of them
/// for a content write, none for anything else.
pub open spec fn recipients_of(clients: Seq<u64>, kind: ChangeKind) -> Seq<u64> {
    if causes_reload(kind) {
        clients
    } else {
        Seq::empty()
    }
}

/// What happens on the push channel and below the served directory.
#[derive(Clone, Copy, Debug, PartialEq, Eq, Structural)]
pub enum ChannelEvent {
    /// A client connected.
    Connected(u64),
    /// A client closed its connection.
    Closed(u64),
    /// Sending to a client failed.
    SendFailed(u64),
    /// An event came from the watcher.
    Changed(ChangeKind),
}

/// What the owner of the sockets and of the watcher does in answer.
#[derive(Clone, Copy, Debug, PartialEq, Eq, Structural)]
pub enum Action {
    /// Watch the served directory, in place of any earlier watch of it.
    Watch,
    /// Send the reload message to a client.
    SendReload(u64),
}

/// The connected clients after an event.
pub open spec fn clients_after(clients: Seq<u64>, event: ChannelEvent) -> Seq<u64> {
    match event {
        ChannelEvent::Connected(client) => with_client(clients, client),
        ChannelEvent::Closed(client) => without(clients, client),
        ChannelEvent::SendFailed(client) => without(clients, client),
        ChannelEvent::Changed(_) => clients,
    }
}

/// What is done in answer to an event: every connection renews the watch,
/// every content write sends one reload message to each connected client, in
/// their order, and nothing else is answered.
pub open spec fn actions_for(clients: Seq<u64>, event: ChannelEvent) -> Seq<Action> {
    match event {
        ChannelEvent::Connected(_) => seq![Action::Watch],
        ChannelEvent::Closed(_) => Seq::empty(),
        ChannelEvent::SendFailed(_) => Seq::empty(),
        ChannelEvent::Changed(kind) => Seq::new(
            recipients_of(clients, kind).len(),
            |i: int| Action::SendReload(recipients_of(clients, kind)[i]),
        ),
    }
}

/// Removing a client removes it and nobody else.
pub proof fn lemma_without_contains(clients: Seq<u64>, client: u64, other: u64)
    ensures
        without(clients, client).contains(other) <==> clients.contains(other) && other != client,
    decreases clients.len(),
{
    if clients.len() > 0 {
        let front = clients.drop_last();
        let last = clients.last();
        lemma_without_contains(front, client, other);
        assert(clients =~= front.push(last));
        assert(clients.contains(other) <==> front.contains(other) || last == other) by {
            if front.contains(other) {
                let i = choose|i: int| 0 <= i < front.len() && front[i] == other;
                assert(clients[i] == other);
            }
            if last == other {
                assert(clients[clients.len() - 1] == other);
            }
            if clients.contains(other) {
                let i = choose|i: int| 0 <= i < clients.len() && clients[i] == other;
                if i < front.len() {
                    assert(front[i] == other);
                }
            }
        }
        if last != client {
            let kept = without(front, client);
            let result = kept.push(last);
            assert(result.contains(other) <==> kept.contains(other) || last == other) by {
                if kept.contains(other) {
                    let i = choose|i: int| 0 <= i < kept.len() && kept[i] == other;
                    assert(result[i] == other);
                }
                if last == other {
                    assert(result[result.len() - 1] == other);
                }
                if result.contains(other) {
                    let i = choose|i: int| 0 <= i < result.len() && result[i] == other;
                    if i < kept.len() {
                        assert(kept[i] == other);
                    }
                }
            }
        }
    }
}

/// Removing a client from clients that occur once each leaves clients that
/// occur once each.
pub proof fn lemma_without_no_duplicates(clients: Seq<u64>, client: u64)
    requires
        clients.no_duplicates(),
    ensures
        without(clients, client).no_duplicates(),
    decreases clients.len(),
{
    if clients.len() > 0 {
        let front = clients.drop_last();
        let last = clients.last();
        assert(front.no_duplicates());
        lemma_without_no_duplicates(front, client);
        if last != client {
            let kept = without(front, client);
            lemma_without_contains(front, client, last);
            assert(!front.contains(last)) by {
                if front.contains(last) {
                    let i = choose|i: int| 0 <= i < front.len() && front[i] == last;
                    assert(clients[i] == clients[clients.len() - 1]);
                }
            }
            assert(!kept.contains(last));
            assert(kept.push(last).no_duplicates());
        }
    }
}

/// The clients that are connected to the push channel.
pub struct Notifier {
    clients: Vec<u64>,
}

impl View for Notifier {
    type V = Seq<u64>;

    /// The connected clients, in the order in which they connected.
    closed spec fn view(&self) -> Seq<u64> {
        self.clients@
    }
}

impl Notifier {
    #[verifier::type_invariant]
    spec fn once_each(&self) -> bool {
        self.clients@.no_duplicates()
    }

    /// A notifier with nobody connected.
    pub fn new() -> (notifier: Notifier)
        ensures
            notifier@ == Seq::<u64>::empty(),
    {
        Notifier { clients: Vec::new() }
    }

    /// The number of connected clients.
    pub fn len(&self) -> (n: usize)
        ensures
            n == self@.len(),
    {
        self.clients.len()
    }

    /// Whether `client` is connected.
    pub fn is_connected(&self, client: u64) -> (r: bool)
        ensures
            r == self@.contains(client),
    {
        let mut i: usize = 0;
        while i < self.clients.len()
            invariant
                i <= self.clients.len(),
                forall|k: int| 0 <= k < i ==> self.clients@[k] != client,
            decreases self.clients.len() - i,
        {
            if self.clients[i] == client {
                return true;
            }
            i += 1;
        }
        false
    }

    /// Takes note that `client` has connected. A client that is already
    /// connected stays where it is.
    pub fn connect(&mut self, client: u64)
        ensures
            final(self)@ == with_client(old(self)@, client),
            final(self)@.no_duplicates(),
    {
        proof {
            use_type_invariant(&*self);
        }
        if !self.is_connected(client) {
            let mut clients = self.clients.clone();
            clients.push(client);
            self.clients = clients;
        }
    }

    /// Takes note that `client` is gone: it disconnected, or sending to it
    /// failed. The others stay, in their order.
    pub fn disconnect(&mut self, client: u64)
        ensures
            final(self)@ == without(old(self)@, client),
            final(self)@.no_duplicates(),
    {
        proof {
            use_type_invariant(&*self);
        }
        let ghost before = self.clients@;
        let mut kept: Vec<u64> = Vec::new();
        let mut i: usize = 0;
        while i < self.clients.len()
            invariant
                i <= self.clients.len(),
                self.clients@ == before,
                kept@ == without(before.subrange(0, i as int), client),
            decreases self.clients.len() - i,
        {
            proof {
                let upto = before.subrange(0, i + 1);
                assert(upto.drop_last() =~= before.subrange(0, i as int));
                assert(upto.last() == before[i as int]);
            }
            let c = self.clients[i];
            if c != client {
                kept.push(c);
            }
            i += 1;
        }
        proof {
            assert(before.subrange(0, i as int) =~= before);
            lemma_without_no_duplicates(before, client);
        }
        self.clients = kept;
    }

    /// The clients that are sent the reload message for an event.
    pub fn recipients(&self, kind: ChangeKind) -> (to: Vec<u64>)
        ensures
            to@ == recipients_of(self@, kind),
            to@.no_duplicates(),
    {
        proof {
            use_type_invariant(self);
        }
        if triggers_reload(kind) {
            self.clients.clone()
        } else {
            Vec::new()
        }
    }

    /// Takes an event in and says what to do in answer.
    pub fn handle(&mut self, event: ChannelEvent) -> (actions: Vec<Action>)
        ensures
            final(self)@ == clients_after(old(self)@, event),
            final(self)@.no_duplicates(),
            actions@ == actions_for(old(self)@, event),
    {
        proof {
            use_type_invariant(&*self);
        }
        let mut actions: Vec<Action> = Vec::new();
        match event {
            ChannelEvent::Connected(client) => {
                self.connect(client);
                actions.push(Action::Watch);
                assert(actions@ =~= seq![Action::Watch]);
            },
            ChannelEvent::Closed(client) => {
                self.disconnect(client);
            },
            ChannelEvent::SendFailed(client) => {
                self.disconnect(client);
            },
            ChannelEvent::Changed(kind) => {
                let to = self.recipients(kind);
                let mut i: usize = 0;
                while i < to.len()
                    invariant
                        i <= to.len(),
                        actions@.len() == i,
                        forall|k: int| 0 <= k < i ==> actions@[k] == Action::SendReload(to@[k]),
                    decreases to.len() - i,
                {
                    actions.push(Action::SendReload(to[i]));
                    i += 1;
                }
                assert(actions@ =~= actions_for(self@, event));
            },
        }
        actions
    }
}

/// After one client is gone, a content write still reaches every other
/// client that was connected, and no longer the one that is gone.
pub proof fn write_reaches_the_remaining(clients: Seq<u64>, gone: u64, other: u64)
    ensures
        recipients_of(without(clients, gone), ChangeKind::Write).contains(other) <==> (
        clients.contains(other) && other != gone),
{
    lemma_without_contains(clients, gone, other);
}

/// A content write sends each connected client the reload message once:
/// there is one message per client, and no two go to the same client.
pub proof fn each_client_is_told_once(clients: Seq<u64>)
    requires
        clients.no_duplicates(),
    ensures
        actions_for(clients, ChannelEvent::Changed(ChangeKind::Write)).len() == clients.len(),
        forall|i: int|
            0 <= i < clients.len() ==> #[trigger] actions_for(
                clients,
                ChannelEvent::Changed(ChangeKind::Write),
            )[i] == Action::SendReload(clients[i]),
        actions_for(clients, ChannelEvent::Changed(ChangeKind::Write)).no_duplicates(),
{
}

/// A client that was not connected when an event happened is sent nothing
/// for it: nothing is kept for those who connect later.
pub proof fn late_client_missed_the_write(clients: Seq<u64>, kind: ChangeKind, late: u64)
    requires
        !clients.contains(late),
    ensures
        !actions_for(clients, ChannelEvent::Changed(kind)).contains(Action::SendReload(late)),
{
    let actions = actions_for(clients, ChannelEvent::Changed(kind));
    if actions.contains(Action::SendReload(late)) {
        let i = choose|i: int| 0 <= i < actions.len() && actions[i] == Action::SendReload(late);
        assert(recipients_of(clients, kind)[i] == late);
        assert(clients[i] == late);
    }
}

/// A content write reaches exactly the clients that are connected when it
/// happens; any other event reaches nobody.
pub proof fn only_writes_notify(clients: Seq<u64>, kind: ChangeKind)
    ensures
        kind == ChangeKind::Write ==> recipients_of(clients, kind) == clients,
        kind != ChangeKind::Write ==> recipients_of(clients, kind).len() == 0,
{
}

} // verus!
