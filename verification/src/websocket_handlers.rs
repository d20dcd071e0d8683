//! What arrives over a socket, and the session check of a connection
//! upgrade.

use crate::auth::{session_answer, AuthError, Claims, SessionCheck};
use crate::canvas_manager::{
    canvases_well_formed, is_not_connection, lemma_unsubscribed, unsubscribed, CanvasManager,
    CanvasStateView,
};
use crate::identifiable_web_socket::IdentifiableWebSocket;
use crate::json::texts;
use crate::permission_refresh_list::PermissionRefreshList;
use crate::sequences::{lemma_filter_again, lemma_filter_push};
use crate::socket_claims_manager::{
    attached, detached, is_other_connection, sessions_well_formed, SessionView, SocketClaimsManager,
};
use vstd::prelude::*;

verus! {

/// A batch of drawing events submitted for a canvas.
#[derive(Debug)]
pub struct WebSocketEvents {
    pub canvas_id: String,
    /// The batch as it arrived; only a JSON array is a batch.
    pub events_for_canvas: serde_json::Value,
}

/// A command about a canvas.
#[derive(Debug)]
pub struct WebSocketCommand {
    pub command: String,
    pub canvas_id: String,
}

/// The commands that a client can give.
#[derive(Clone, Copy, Debug, PartialEq, Eq, Structural)]
pub enum CommandKind {
    RegisterForCanvas,
    UnregisterForCanvas,
    ToggleModerated,
    Unknown,
}

/// The command that a command word stands for.
pub open spec fn command_kind(word: Seq<char>) -> CommandKind {
    if word == "registerForCanvas"@ {
        CommandKind::RegisterForCanvas
    } else if word == "unregisterForCanvas"@ {
        CommandKind::UnregisterForCanvas
    } else if word == "toggleModerated"@ {
        CommandKind::ToggleModerated
    } else {
        CommandKind::Unknown
    }
}

impl WebSocketCommand {
    /// Which command this is.
    pub fn kind(&self) -> (kind: CommandKind)
        ensures
            kind == command_kind(self.command@),
    {
        let register = "registerForCanvas".to_owned();
        let unregister = "unregisterForCanvas".to_owned();
        let toggle = "toggleModerated".to_owned();
        if self.command == register {
            CommandKind::RegisterForCanvas
        } else if self.command == unregister {
            CommandKind::UnregisterForCanvas
        } else if self.command == toggle {
            CommandKind::ToggleModerated
        } else {
            CommandKind::Unknown
        }
    }
}

/// The session check of a connection upgrade. It decides as the check of a
/// request does, but only looks at the ledger: the user's mark stays for
/// the first request to consume.
pub fn ws_handler(
    claims: &Claims,
    now: usize,
    refresh_list: &PermissionRefreshList,
) -> (check: SessionCheck)
    ensures
        session_answer(claims@, now, refresh_list@.contains_key(claims.user_id), check),
{
    if claims.exp <= now {
        return SessionCheck::Reject(AuthError::MissingCredentials);
    }
    let soft_expired = claims.reissue_time <= now;
    let marked = refresh_list.has_pending_refresh(claims.user_id);
    if soft_expired || marked {
        SessionCheck::Refresh(claims.refresh_request())
    } else {
        SessionCheck::Pass
    }
}

/// Opens a connection for the user of `claims`: draws its id and attaches
/// it to the registry. A user who is connected already keeps the cached
/// claims.
pub fn open_connection(
    claims_manager: &mut SocketClaimsManager,
    claims: Claims,
) -> (socket: IdentifiableWebSocket)
    ensures
        final(claims_manager)@ == attached(old(claims_manager)@, claims.user_id, claims@, socket),
        sessions_well_formed(final(claims_manager)@),
{
    let socket = IdentifiableWebSocket::new();
    claims_manager.add_connection_and_claims(claims.user_id, claims, socket);
    socket
}

/// Tells the canvas ids other than `canvas_id` apart.
pub open spec fn is_other_canvas(canvas_id: Seq<char>) -> spec_fn(Seq<char>) -> bool {
    |other: Seq<char>| other != canvas_id
}

/// The canvases that a connection has asked for, after it gave a command of
/// the given kind for `canvas_id`: a registration adds the canvas, whether
/// or not the hub granted it; an unregistration takes it out.
pub open spec fn subscriptions_after(
    canvases: Seq<Seq<char>>,
    kind: CommandKind,
    canvas_id: Seq<char>,
) -> Seq<Seq<char>> {
    match kind {
        CommandKind::RegisterForCanvas => if canvases.contains(canvas_id) {
            canvases
        } else {
            canvases.push(canvas_id)
        },
        CommandKind::UnregisterForCanvas => canvases.filter(is_other_canvas(canvas_id)),
        _ => canvases,
    }
}

/// Reads a command and keeps the books of the connection that gave it:
/// `subscribed_canvases` lists the canvases that the connection has to be
/// unsubscribed from when it closes. The command itself is left to the
/// caller to carry out.
pub fn process_command(
    command: &WebSocketCommand,
    subscribed_canvases: &mut Vec<String>,
) -> (kind: CommandKind)
    ensures
        kind == command_kind(command.command@),
        texts(final(subscribed_canvases)@) == subscriptions_after(
            texts(old(subscribed_canvases)@),
            kind,
            command.canvas_id@,
        ),
{
    let kind = command.kind();
    let ghost before = texts(subscribed_canvases@);
    let ghost canvas_id = command.canvas_id@;
    match kind {
        CommandKind::RegisterForCanvas => {
            let mut found = false;
            let mut i: usize = 0;
            while i < subscribed_canvases.len()
                invariant
                    i <= subscribed_canvases.len(),
                    texts(subscribed_canvases@) == before,
                    found == exists|j: int| 0 <= j < i && #[trigger] before[j] == canvas_id,
                    canvas_id == command.canvas_id@,
                decreases subscribed_canvases.len() - i,
            {
                if subscribed_canvases[i] == command.canvas_id {
                    assert(before[i as int] == canvas_id);
                    found = true;
                }
                i = i + 1;
            }
            if !found {
                subscribed_canvases.push(command.canvas_id.clone());
                assert(texts(subscribed_canvases@) =~= before.push(canvas_id));
            }
        },
        CommandKind::UnregisterForCanvas => {
            let mut rest: Vec<String> = Vec::new();
            let mut i: usize = 0;
            proof {
                reveal(Seq::filter);
            }
            assert(before.take(0).filter(is_other_canvas(canvas_id)) =~= Seq::empty());
            assert(texts(rest@) =~= Seq::empty());
            while i < subscribed_canvases.len()
                invariant
                    i <= subscribed_canvases.len(),
                    texts(subscribed_canvases@) == before,
                    texts(rest@) == before.take(i as int).filter(is_other_canvas(canvas_id)),
                    canvas_id == command.canvas_id@,
                decreases subscribed_canvases.len() - i,
            {
                proof {
                    lemma_filter_push(
                        before.take(i as int),
                        before[i as int],
                        is_other_canvas(canvas_id),
                    );
                    assert(before.take(i as int).push(before[i as int]) =~= before.take(i + 1));
                }
                let ghost earlier = texts(rest@);
                if !(subscribed_canvases[i] == command.canvas_id) {
                    rest.push(subscribed_canvases[i].clone());
                    assert(texts(rest@) =~= earlier.push(before[i as int]));
                }
                i = i + 1;
            }
            assert(before.take(before.len() as int) =~= before);
            *subscribed_canvases = rest;
        },
        _ => {},
    }
    kind
}

/// The hub after a connection is unsubscribed from each of the listed
/// canvases in turn.
pub open spec fn unsubscribed_from_all(
    canvases: Map<Seq<char>, CanvasStateView>,
    listed: Seq<Seq<char>>,
    connection_id: u128,
) -> Map<Seq<char>, CanvasStateView>
    decreases listed.len(),
{
    if listed.len() == 0 {
        canvases
    } else {
        unsubscribed(
            unsubscribed_from_all(canvases, listed.drop_last(), connection_id),
            listed.last(),
            is_not_connection(connection_id),
        )
    }
}

/// Cleans up after a connection that has closed: ends its subscription to
/// every canvas it asked for and detaches it from the registry. Says
/// whether the user's entry went with it.
pub fn close_connection(
    canvas_manager: &mut CanvasManager,
    claims_manager: &mut SocketClaimsManager,
    user_id: i64,
    socket: &IdentifiableWebSocket,
    subscribed_canvases: &Vec<String>,
) -> (evicted: bool)
    ensures
        final(canvas_manager)@ == unsubscribed_from_all(
            old(canvas_manager)@,
            texts(subscribed_canvases@),
            socket.id,
        ),
        canvases_well_formed(final(canvas_manager)@),
        final(claims_manager)@ == detached(old(claims_manager)@, user_id, *socket),
        sessions_well_formed(final(claims_manager)@),
        evicted == (old(claims_manager)@.contains_key(user_id)
            && !final(claims_manager)@.contains_key(user_id)),
{
    let ghost listed = texts(subscribed_canvases@);
    let ghost start = canvas_manager@;
    proof {
        use_type_invariant(&*canvas_manager);
        canvas_manager.lemma_wf();
    }
    let mut i: usize = 0;
    while i < subscribed_canvases.len()
        invariant
            i <= subscribed_canvases.len(),
            listed == texts(subscribed_canvases@),
            canvases_well_formed(canvas_manager@),
            canvas_manager@ == unsubscribed_from_all(start, listed.take(i as int), socket.id),
        decreases subscribed_canvases.len() - i,
    {
        proof {
            assert(listed.take(i + 1).drop_last() =~= listed.take(i as int));
            assert(listed.take(i + 1).last() == subscribed_canvases@[i as int]@);
        }
        canvas_manager.unregister_connection(subscribed_canvases[i].as_str(), socket.id);
        i = i + 1;
    }
    assert(listed.take(listed.len() as int) =~= listed);
    claims_manager.remove_connection(user_id, socket)
}

/// Cleaning up leaves a closed connection without a subscription to any
/// canvas that was listed for it.
pub proof fn lemma_closed_connection_is_unsubscribed(
    canvases: Map<Seq<char>, CanvasStateView>,
    listed: Seq<Seq<char>>,
    connection_id: u128,
    canvas_id: Seq<char>,
)
    requires
        listed.contains(canvas_id),
    ensures
        ({
            let after = unsubscribed_from_all(canvases, listed, connection_id);
            after.contains_key(canvas_id) ==> forall|i: int|
                0 <= i < after[canvas_id].subscribers.len() ==> (
                #[trigger] after[canvas_id].subscribers[i]).connection.id != connection_id
        }),
    decreases listed.len(),
{
    let keep = is_not_connection(connection_id);
    let front = listed.drop_last();
    let earlier = unsubscribed_from_all(canvases, front, connection_id);
    let after = unsubscribed_from_all(canvases, listed, connection_id);
    lemma_unsubscribed(earlier, listed.last(), keep);
    if after.contains_key(canvas_id) {
        if listed.last() == canvas_id {
            assert forall|i: int| 0 <= i < after[canvas_id].subscribers.len() implies (
            #[trigger] after[canvas_id].subscribers[i]).connection.id != connection_id by {
                assert(after[canvas_id].subscribers.contains(after[canvas_id].subscribers[i]));
            }
        } else {
            let at = listed.index_of(canvas_id);
            assert(front[at] == canvas_id);
            lemma_closed_connection_is_unsubscribed(canvases, front, connection_id, canvas_id);
        }
    }
}

/// Cleaning up twice is cleaning up once: the second run finds nothing
/// left to do, in the hub as in the registry.
pub proof fn lemma_cleanup_is_idempotent(
    canvases: Map<Seq<char>, CanvasStateView>,
    sessions: Map<i64, SessionView>,
    canvas_id: Seq<char>,
    user_id: i64,
    socket: IdentifiableWebSocket,
)
    ensures
        ({
            let once = unsubscribed(canvases, canvas_id, is_not_connection(socket.id));
            unsubscribed(once, canvas_id, is_not_connection(socket.id)) == once
        }),
        detached(detached(sessions, user_id, socket), user_id, socket) == detached(
            sessions,
            user_id,
            socket,
        ),
{
    lemma_unsubscribed(canvases, canvas_id, is_not_connection(socket.id));
    if sessions.contains_key(user_id) {
        let held = sessions[user_id].connections;
        lemma_filter_again(held, is_other_connection(socket));
        let once = detached(sessions, user_id, socket);
        assert(detached(once, user_id, socket) =~= once);
    }
}

} // verus!
