//! Connections that are kept open, and how an operation comes by one.
use crate::registry::{as_map, names_differ, Registry};
use crate::ssh::{is_retryable_connection_error, may_retry, OPERATION_CANCELLED};
use crate::text::{copy, same};
use vstd::prelude::*;

verus! {

broadcast use vstd::string::group_string_axioms;

/// A connection that is kept open. `client` names it; `profile_key` says for which
/// settings it was made.
#[derive(Debug, PartialEq, Eq)]
pub struct CachedClient {
    pub profile_key: String,
    pub client: u64,
}

/// What the cache has for a server.
#[derive(Clone, Copy, Debug, PartialEq, Eq, Structural)]
pub enum Lookup {
    /// A connection for the settings.
    Reuse(u64),
    /// None; one for other settings is given up, to be closed.
    Connect { given_up: Option<u64> },
}

/// The open connections by server.
pub struct Connections {
    pub clients: Registry<CachedClient>,
}

/// Whether the cache holds a connection of the server for these settings.
pub open spec fn reusable(
    clients: Map<Seq<char>, CachedClient>,
    server_id: Seq<char>,
    key: Seq<char>,
) -> bool {
    clients.dom().contains(server_id) && clients[server_id].profile_key@ == key
}

/// The connection that the cache holds of the server.
pub open spec fn held(clients: Map<Seq<char>, CachedClient>, server_id: Seq<char>) -> Option<u64> {
    if clients.dom().contains(server_id) {
        Some(clients[server_id].client)
    } else {
        None
    }
}

impl Connections {
    pub fn new() -> (res: Self)
        ensures
            res.clients@ == Map::<Seq<char>, CachedClient>::empty(),
    {
        Connections { clients: Registry::new() }
    }

    /// The connection of the server for these settings. One that was made for other
    /// settings is given up and handed back.
    pub fn cached_client(&mut self, server_id: &str, key: &str) -> (res: Lookup)
        ensures
            if reusable(old(self).clients@, server_id@, key@) {
                res == Lookup::Reuse(old(self).clients@[server_id@].client)
                    && final(self).clients@ == old(self).clients@
            } else {
                res == (Lookup::Connect { given_up: held(old(self).clients@, server_id@) })
                    && final(self).clients@ == old(self).clients@.remove(server_id@)
            },
    {
        let found = match self.clients.get(server_id) {
            Some(cached) => if same(cached.profile_key.as_str(), key) {
                Some(cached.client)
            } else {
                None
            },
            None => None,
        };
        match found {
            Some(client) => Lookup::Reuse(client),
            None => Lookup::Connect { given_up: self.disconnect_server(server_id) },
        }
    }

    /// Keeps a new connection. One that it takes the place of is handed back.
    pub fn keep(&mut self, server_id: &str, key: &str, client: u64) -> (res: Option<u64>)
        ensures
            res == held(old(self).clients@, server_id@),
            final(self).clients@.dom() == old(self).clients@.dom().insert(server_id@),
            final(self).clients@[server_id@].profile_key@ == key@,
            final(self).clients@[server_id@].client == client,
            forall|id: Seq<char>|
                id != server_id@ && old(self).clients@.dom().contains(id)
                    ==> #[trigger] final(self).clients@[id] == old(self).clients@[id],
    {
        let before = self.disconnect_server(server_id);
        self.clients.insert(server_id, CachedClient { profile_key: copy(key), client });
        assert(self.clients@.dom() =~= old(self).clients@.dom().insert(server_id@));
        before
    }

    /// Gives up a connection that is no longer usable, unless another one has taken its
    /// place.
    pub fn invalidate_cached(&mut self, server_id: &str, key: &str, client: u64)
        ensures
            final(self).clients@ == (if reusable(old(self).clients@, server_id@, key@) && old(self).clients@[server_id@].client == client {
                old(self).clients@.remove(server_id@)
            } else {
                old(self).clients@
            }),
    {
        let same_client = match self.clients.get(server_id) {
            Some(cached) => same(cached.profile_key.as_str(), key) && cached.client == client,
            None => false,
        };
        if same_client {
            let _ = self.clients.remove(server_id);
        }
    }

    /// Takes the connection of a server out, to be closed.
    pub fn disconnect_server(&mut self, server_id: &str) -> (res: Option<u64>)
        ensures
            final(self).clients@ == old(self).clients@.remove(server_id@),
            res == held(old(self).clients@, server_id@),
    {
        match self.clients.remove(server_id) {
            Some(cached) => Some(cached.client),
            None => None,
        }
    }

    /// Takes all connections out, to be closed.
    pub fn disconnect_all(&mut self) -> (res: Vec<(String, CachedClient)>)
        ensures
            final(self).clients@ == Map::<Seq<char>, CachedClient>::empty(),
            names_differ(res@),
            as_map(res@) == old(self).clients@,
    {
        let ghost all = |cached: CachedClient| true;
        let ghost before = self.clients@;
        let every = |cached: &CachedClient| -> (b: bool)
            ensures
                b,
            {
                true
            };
        let taken = self.clients.take_where(every, Ghost(all));
        assert forall|name: Seq<char>| !(#[trigger] self.clients@.dom().contains(name)) by {}
        assert(self.clients@ =~= Map::<Seq<char>, CachedClient>::empty());
        assert forall|name: Seq<char>| #[trigger]
            as_map(taken@).dom().contains(name) <==> before.dom().contains(name) by {}
        assert(as_map(taken@) =~= before);
        taken
    }
}

/// A connection made for other settings is never used.
pub proof fn edited_profiles_reconnect(
    clients: Map<Seq<char>, CachedClient>,
    server_id: Seq<char>,
    old_key: Seq<char>,
    new_key: Seq<char>,
)
    requires
        reusable(clients, server_id, old_key),
        old_key != new_key,
    ensures
        !reusable(clients, server_id, new_key),
{
}

// ---------------------------------------------------------------------------
// Coming by a connection
// ---------------------------------------------------------------------------

pub const CACHED_UNUSABLE: &'static str = "The cached SSH connection is no longer usable";

/// How long the second attempt waits after an error, in milliseconds.
pub const RETRY_PAUSE: u64 = 220;

/// What happened on the way to a connection.
#[derive(Debug, PartialEq, Eq)]
pub enum ClientEvent {
    /// An attempt begins, and the operation is cancelled or not.
    Attempt { cancelled: bool },
    /// The cache had a connection.
    Reused,
    /// A new connection was made.
    Connected,
    /// No connection could be made.
    ConnectFailed(String),
    /// The connection could not be locked.
    LockFailed(String),
    /// The cached connection answered its probe, or not.
    Probed { usable: bool },
}

/// What is to be done next.
#[derive(Debug, PartialEq, Eq)]
pub enum ClientAction {
    /// Take a connection from the cache, or make one.
    Acquire,
    /// Ask the cached connection whether it still works.
    Probe,
    /// Run the operation on the connection.
    Operate,
    /// Try once more after a pause; `invalidate` says to give up the cached connection
    /// first.
    Retry { pause: u64, invalidate: bool },
    /// Report the error; `invalidate` says to give up the cached connection first.
    Fail { error: String, invalidate: bool },
}

#[verifier::ext_equal]
pub enum ClientActionView {
    Acquire,
    Probe,
    Operate,
    Retry { pause: u64, invalidate: bool },
    Fail { error: Seq<char>, invalidate: bool },
}

impl View for ClientAction {
    type V = ClientActionView;

    open spec fn view(&self) -> ClientActionView {
        match *self {
            ClientAction::Acquire => ClientActionView::Acquire,
            ClientAction::Probe => ClientActionView::Probe,
            ClientAction::Operate => ClientActionView::Operate,
            ClientAction::Retry { pause, invalidate } => ClientActionView::Retry {
                pause,
                invalidate,
            },
            ClientAction::Fail { error, invalidate } => ClientActionView::Fail {
                error: error@,
                invalidate,
            },
        }
    }
}

/// The next action in the attempt `attempt`, the first one being 0.
pub open spec fn client_step(attempt: u32, event: ClientEvent) -> ClientActionView {
    match event {
        ClientEvent::Attempt { cancelled } => if cancelled {
            ClientActionView::Fail { error: OPERATION_CANCELLED@, invalidate: false }
        } else {
            ClientActionView::Acquire
        },
        ClientEvent::Reused => ClientActionView::Probe,
        ClientEvent::Connected => ClientActionView::Operate,
        ClientEvent::ConnectFailed(error) => if attempt == 0 && may_retry(error@) {
            ClientActionView::Retry { pause: RETRY_PAUSE, invalidate: false }
        } else {
            ClientActionView::Fail { error: error@, invalidate: false }
        },
        ClientEvent::LockFailed(error) => ClientActionView::Fail {
            error: error@,
            invalidate: false,
        },
        ClientEvent::Probed { usable } => if usable {
            ClientActionView::Operate
        } else if attempt == 0 {
            ClientActionView::Retry { pause: 0, invalidate: true }
        } else {
            ClientActionView::Fail { error: CACHED_UNUSABLE@, invalidate: true }
        },
    }
}

/// The next action on the way to a connection.
pub fn with_client_step(attempt: u32, event: ClientEvent) -> (res: ClientAction)
    ensures
        res@ == client_step(attempt, event),
{
    match event {
        ClientEvent::Attempt { cancelled } => if cancelled {
            ClientAction::Fail { error: copy(OPERATION_CANCELLED), invalidate: false }
        } else {
            ClientAction::Acquire
        },
        ClientEvent::Reused => ClientAction::Probe,
        ClientEvent::Connected => ClientAction::Operate,
        ClientEvent::ConnectFailed(error) => {
            if attempt == 0 && is_retryable_connection_error(error.as_str()) {
                ClientAction::Retry { pause: RETRY_PAUSE, invalidate: false }
            } else {
                ClientAction::Fail { error, invalidate: false }
            }
        },
        ClientEvent::LockFailed(error) => ClientAction::Fail { error, invalidate: false },
        ClientEvent::Probed { usable } => if usable {
            ClientAction::Operate
        } else if attempt == 0 {
            ClientAction::Retry { pause: 0, invalidate: true }
        } else {
            ClientAction::Fail { error: copy(CACHED_UNUSABLE), invalidate: true }
        },
    }
}

/// There is no third attempt: whatever happens in the second one, it is not followed by
/// another.
pub proof fn two_attempts_at_most(attempt: u32, event: ClientEvent)
    requires
        attempt > 0,
    ensures
        !(client_step(attempt, event) is Retry),
{
}

/// An error that another attempt cannot mend is reported as it is.
pub proof fn lasting_errors_are_not_retried(attempt: u32, error: String)
    requires
        !may_retry(error@),
    ensures
        client_step(attempt, ClientEvent::ConnectFailed(error)) == (ClientActionView::Fail {
            error: error@,
            invalidate: false,
        }),
{
}

/// How an operation ended.
#[derive(Clone, Copy, Debug, PartialEq, Eq, Structural)]
pub enum OperationOutcome {
    Succeeded,
    Cancelled,
    Failed,
}

/// What is done with the connection after an operation.
#[derive(Clone, Copy, Debug, PartialEq, Eq, Structural)]
pub enum Settlement {
    /// Note that the server was connected.
    MarkConnected,
    /// Give up the connection.
    Invalidate,
    /// Keep the connection.
    Keep,
}

/// How an operation ended: a success that was cancelled meanwhile counts as cancelled.
pub open spec fn outcome(error: Option<Seq<char>>, cancelled: bool) -> OperationOutcome {
    match error {
        None => if cancelled {
            OperationOutcome::Cancelled
        } else {
            OperationOutcome::Succeeded
        },
        Some(text) => if text == OPERATION_CANCELLED@ {
            OperationOutcome::Cancelled
        } else {
            OperationOutcome::Failed
        },
    }
}

/// How an operation ended, from its error, where it had one, and whether it was
/// cancelled.
pub fn operation_outcome(error: Option<&str>, cancelled: bool) -> (res: OperationOutcome)
    ensures
        res == outcome(
            match error {
                Some(text) => Some(text@),
                None => None,
            },
            cancelled,
        ),
{
    match error {
        None => if cancelled {
            OperationOutcome::Cancelled
        } else {
            OperationOutcome::Succeeded
        },
        Some(text) => if same(text, OPERATION_CANCELLED) {
            OperationOutcome::Cancelled
        } else {
            OperationOutcome::Failed
        },
    }
}

/// What becomes of a connection after an operation.
pub open spec fn settlement(outcome: OperationOutcome, usable: bool) -> Settlement {
    match outcome {
        OperationOutcome::Succeeded => Settlement::MarkConnected,
        OperationOutcome::Cancelled => Settlement::Keep,
        OperationOutcome::Failed => if usable {
            Settlement::Keep
        } else {
            Settlement::Invalidate
        },
    }
}

/// What is done with the connection. After a failure alone, `usable` says whether it
/// still answers: only one that does not is given up.
pub fn settle(outcome: OperationOutcome, usable: bool) -> (res: Settlement)
    ensures
        res == settlement(outcome, usable),
{
    match outcome {
        OperationOutcome::Succeeded => Settlement::MarkConnected,
        OperationOutcome::Cancelled => Settlement::Keep,
        OperationOutcome::Failed => if usable {
            Settlement::Keep
        } else {
            Settlement::Invalidate
        },
    }
}

/// Whether a connection that was kept can be used.
pub open spec fn is_usable(authenticated: bool, keepalive_sent: bool, would_block: bool) -> bool {
    authenticated && (keepalive_sent || would_block)
}

/// Whether a session still works: it is authenticated, and the keep-alive message went
/// out or would have blocked.
pub fn connection_is_usable(authenticated: bool, keepalive_sent: bool, would_block: bool) -> (res:
    bool)
    ensures
        res == is_usable(authenticated, keepalive_sent, would_block),
{
    authenticated && (keepalive_sent || would_block)
}

/// A connection is kept as long as it can be used: it is given up only where an operation
/// failed and it no longer answers, and a server counts as connected only where one
/// succeeded.
pub proof fn connections_are_kept_while_usable(outcome: OperationOutcome, usable: bool)
    ensures
        settlement(outcome, usable) == Settlement::MarkConnected <==> outcome
            == OperationOutcome::Succeeded,
        settlement(outcome, usable) == Settlement::Invalidate <==> outcome
            == OperationOutcome::Failed && !usable,
        is_usable(true, true, false) && is_usable(true, false, true),
        !is_usable(false, true, true),
        !is_usable(true, false, false),
{
}

/// An operation goes on until it has a connection: a cached one is probed first, one that
/// cannot be used is given up and replaced once, a failed attempt is made once more where
/// that may help, and then the operation runs. A cancelled one does not begin.
pub proof fn operations_get_a_connection(attempt: u32, error: String)
    ensures
        client_step(attempt, ClientEvent::Attempt { cancelled: false }) is Acquire,
        client_step(attempt, ClientEvent::Attempt { cancelled: true }) == (ClientActionView::Fail {
            error: "Operation cancelled"@,
            invalidate: false,
        }),
        client_step(attempt, ClientEvent::Reused) is Probe,
        client_step(attempt, ClientEvent::Connected) is Operate,
        client_step(attempt, ClientEvent::Probed { usable: true }) is Operate,
        client_step(0, ClientEvent::Probed { usable: false }) == (ClientActionView::Retry {
            pause: 0,
            invalidate: true,
        }),
        attempt > 0 ==> (client_step(attempt, ClientEvent::Probed { usable: false }) matches
            ClientActionView::Fail { invalidate, .. } && invalidate),
        may_retry(error@) ==> client_step(0, ClientEvent::ConnectFailed(error)) == (
        ClientActionView::Retry { pause: 220, invalidate: false }),
        attempt > 0 ==> client_step(attempt, ClientEvent::ConnectFailed(error)) == (
        ClientActionView::Fail { error: error@, invalidate: false }),
        client_step(attempt, ClientEvent::LockFailed(error)) == (ClientActionView::Fail {
            error: error@,
            invalidate: false,
        }),
{
}

/// An operation counts as cancelled where it was, or says so; as failed where it has another
/// error; and as done otherwise.
pub proof fn operations_end_as_they_did(error: Seq<char>, cancelled: bool)
    ensures
        outcome(None, false) == OperationOutcome::Succeeded,
        outcome(None, true) == OperationOutcome::Cancelled,
        outcome(Some("Operation cancelled"@), cancelled) == OperationOutcome::Cancelled,
        error != "Operation cancelled"@ ==> outcome(Some(error), cancelled)
            == OperationOutcome::Failed,
{
}

/// A connection is used again for the same server and the same settings, and for no others.
pub proof fn connections_are_used_again(
    clients: Map<Seq<char>, CachedClient>,
    server_id: Seq<char>,
    client: CachedClient,
    other: Seq<char>,
)
    ensures
        reusable(clients.insert(server_id, client), server_id, client.profile_key@),
        held(clients.insert(server_id, client), server_id) == Some(client.client),
        !reusable(clients.remove(server_id), server_id, other),
        held(clients.remove(server_id), server_id) is None,
        other != server_id ==> held(clients.insert(server_id, client), other) == held(
            clients,
            other,
        ),
{
}

} // verus!
