//! The hub: for every canvas that somebody is subscribed to, its
//! subscribers, the place of its event log and its moderation flag.
//!
//! A canvas is loaded with its first subscriber and evicted with its last;
//! the log itself is never touched from here. Every operation answers with
//! what is to be sent or persisted and leaves sending and persisting to the
//! caller.

use crate::assoc::{
    has_key, lemma_map_of_dom, lemma_map_of_index, lemma_map_of_remove, lemma_map_of_update, map_of,
    unique_keys,
};
use crate::event_log::{event_lines, lines_of, log_lines, read_events, replayed};
use crate::identifiable_web_socket::{message_views, IdentifiableWebSocket, OutboundMessage};
use crate::json::{
    events_message, events_text, json_elements, moderated_message, moderated_text, notify_text,
    permission_message, permission_text, texts,
};
use crate::permission::{can_draw, can_moderate, may_draw, may_moderate};
use crate::sequences::{
    lemma_filter_again, lemma_filter_keeps, lemma_filter_push, lemma_push_contains,
    lemma_push_no_duplicates,
};
use crate::socket_claims_manager::{permission_level, SessionView, SocketClaimsManager};
use crate::websocket_handlers::WebSocketEvents;
use vstd::prelude::*;
use vstd::string::StringExecFns;

verus! {

/// One subscription: a connection, and the user it belongs to.
#[derive(Clone, Copy, Debug, PartialEq, Eq, Hash, Structural)]
pub struct ConnectionInfo {
    pub user_id: i64,
    pub connection: IdentifiableWebSocket,
}

/// What the metadata store holds for a canvas.
#[derive(Debug)]
pub struct CanvasDBInfo {
    /// Where the event log of the canvas lies.
    pub file_path: String,
    pub is_moderated: bool,
}

/// Why the metadata store gave no answer for a canvas.
#[derive(Debug)]
pub enum CanvasRegistrationError {
    NotFound,
    DatabaseError(String),
}

/// The in-memory state of a loaded canvas.
#[derive(Debug)]
pub struct CanvasState {
    /// The subscriptions, oldest first, none twice.
    pub subscribers: Vec<ConnectionInfo>,
    pub is_moderated: bool,
    pub file_path: String,
}

/// What a canvas state says.
pub struct CanvasStateView {
    pub subscribers: Seq<ConnectionInfo>,
    pub is_moderated: bool,
    pub file_path: Seq<char>,
}

impl View for CanvasState {
    type V = CanvasStateView;

    open spec fn view(&self) -> CanvasStateView {
        CanvasStateView {
            subscribers: self.subscribers@,
            is_moderated: self.is_moderated,
            file_path: self.file_path@,
        }
    }
}

/// The state in which a canvas is loaded: as the metadata store describes
/// it, without a subscriber.
pub open spec fn loaded_state(info: CanvasDBInfo) -> CanvasStateView {
    CanvasStateView {
        subscribers: Seq::empty(),
        is_moderated: info.is_moderated,
        file_path: info.file_path@,
    }
}

impl CanvasState {
    /// The state of a canvas that has just been loaded.
    pub fn new(info: CanvasDBInfo) -> (state: Self)
        ensures
            state@ == loaded_state(info),
    {
        CanvasState {
            subscribers: Vec::new(),
            file_path: info.file_path,
            is_moderated: info.is_moderated,
        }
    }
}

/// A state with one more subscription; one that is there already is not
/// added again.
pub open spec fn with_subscriber(
    state: CanvasStateView,
    subscriber: ConnectionInfo,
) -> CanvasStateView {
    CanvasStateView {
        subscribers: if state.subscribers.contains(subscriber) {
            state.subscribers
        } else {
            state.subscribers.push(subscriber)
        },
        is_moderated: state.is_moderated,
        file_path: state.file_path,
    }
}

/// The hub after a subscription to `canvas_id`. A loaded canvas keeps its
/// state; an unloaded one starts from `loaded_as`.
pub open spec fn subscribed(
    canvases: Map<Seq<char>, CanvasStateView>,
    canvas_id: Seq<char>,
    loaded_as: CanvasStateView,
    subscriber: ConnectionInfo,
) -> Map<Seq<char>, CanvasStateView> {
    let state = if canvases.contains_key(canvas_id) {
        canvases[canvas_id]
    } else {
        loaded_as
    };
    canvases.insert(canvas_id, with_subscriber(state, subscriber))
}

/// Tells the subscriptions of other connections apart.
pub open spec fn is_not_connection(connection_id: u128) -> spec_fn(ConnectionInfo) -> bool {
    |subscriber: ConnectionInfo| subscriber.connection.id != connection_id
}

/// Tells the subscriptions of other users apart.
pub open spec fn is_not_user(user_id: i64) -> spec_fn(ConnectionInfo) -> bool {
    |subscriber: ConnectionInfo| subscriber.user_id != user_id
}

/// The hub after the subscriptions to `canvas_id` that fail `keep` are
/// removed. A canvas left without a subscription is evicted.
pub open spec fn unsubscribed(
    canvases: Map<Seq<char>, CanvasStateView>,
    canvas_id: Seq<char>,
    keep: spec_fn(ConnectionInfo) -> bool,
) -> Map<Seq<char>, CanvasStateView> {
    if canvases.contains_key(canvas_id) {
        let state = canvases[canvas_id];
        let rest = state.subscribers.filter(keep);
        if rest.len() == 0 {
            canvases.remove(canvas_id)
        } else {
            canvases.insert(
                canvas_id,
                CanvasStateView {
                    subscribers: rest,
                    is_moderated: state.is_moderated,
                    file_path: state.file_path,
                },
            )
        }
    } else {
        canvases
    }
}

/// Whether a subscription to `canvas_id` fails `keep`.
pub open spec fn has_subscription_to_drop(
    canvases: Map<Seq<char>, CanvasStateView>,
    canvas_id: Seq<char>,
    keep: spec_fn(ConnectionInfo) -> bool,
) -> bool {
    canvases.contains_key(canvas_id) && exists|i: int|
        0 <= i < canvases[canvas_id].subscribers.len() && !keep(
            #[trigger] canvases[canvas_id].subscribers[i],
        )
}

/// The hub after the moderation flag of a loaded canvas is flipped.
pub open spec fn toggled(canvases: Map<Seq<char>, CanvasStateView>, canvas_id: Seq<char>) -> Map<
    Seq<char>,
    CanvasStateView,
> {
    let state = canvases[canvas_id];
    canvases.insert(
        canvas_id,
        CanvasStateView {
            subscribers: state.subscribers,
            is_moderated: !state.is_moderated,
            file_path: state.file_path,
        },
    )
}

/// One copy of `text` for each subscription, in order.
pub open spec fn deliveries(
    subscribers: Seq<ConnectionInfo>,
    text: Seq<char>,
) -> Seq<(u128, Seq<char>)> {
    Seq::new(subscribers.len(), |i: int| (subscribers[i].connection.id, text))
}

/// What a broadcast to `canvas_id` sends: a copy to every subscription of a
/// loaded canvas, nothing for an unloaded one.
pub open spec fn broadcast_of(
    canvases: Map<Seq<char>, CanvasStateView>,
    canvas_id: Seq<char>,
    text: Seq<char>,
) -> Seq<(u128, Seq<char>)> {
    if canvases.contains_key(canvas_id) {
        deliveries(canvases[canvas_id].subscribers, text)
    } else {
        Seq::empty()
    }
}

/// Every loaded canvas has a subscription, and none twice.
pub open spec fn canvases_well_formed(canvases: Map<Seq<char>, CanvasStateView>) -> bool {
    forall|canvas_id: Seq<char>| #[trigger]
        canvases.contains_key(canvas_id) ==> canvases[canvas_id].subscribers.len() > 0
            && canvases[canvas_id].subscribers.no_duplicates()
}

/// How a registration ends.
#[derive(Clone, Copy, Debug, PartialEq, Eq, Structural)]
pub enum RegistrationVerdict {
    /// The user holds no permission on the canvas.
    NoPermission,
    /// The canvas is not loaded and the metadata store has not been asked.
    NeedsCanvasInfo,
    /// The metadata store does not know the canvas.
    UnknownCanvas,
    /// The metadata store failed.
    StorageFailure,
    /// The connection is subscribed.
    Subscribes,
}

/// Decides a registration from the user's permission code, whether the
/// canvas is loaded, and the answer of the metadata store if it was asked.
/// The answer is looked at for an unloaded canvas only.
pub open spec fn registration_verdict(
    permission: Seq<char>,
    loaded: bool,
    db_info: Option<Result<CanvasDBInfo, CanvasRegistrationError>>,
) -> RegistrationVerdict {
    if permission.len() == 0 {
        RegistrationVerdict::NoPermission
    } else if loaded {
        RegistrationVerdict::Subscribes
    } else {
        match db_info {
            None => RegistrationVerdict::NeedsCanvasInfo,
            Some(Ok(_)) => RegistrationVerdict::Subscribes,
            Some(Err(CanvasRegistrationError::NotFound)) => RegistrationVerdict::UnknownCanvas,
            Some(Err(CanvasRegistrationError::DatabaseError(_))) => RegistrationVerdict::StorageFailure,
        }
    }
}

/// The sentence that tells a client why its registration was turned away.
pub open spec fn rejection_sentence(
    verdict: RegistrationVerdict,
    canvas_id: Seq<char>,
) -> Seq<char> {
    match verdict {
        RegistrationVerdict::UnknownCanvas => "Canvas ID '"@ + canvas_id
            + "' is invalid or does not exist."@,
        RegistrationVerdict::StorageFailure => "A database error occurred. Cannot subscribe to canvas."@,
        _ => "You do not have permission to access this canvas."@,
    }
}

/// The answer to a registration.
#[derive(Debug)]
pub enum Registration {
    /// Turned away; the notice tells the client why.
    Rejected { notice: OutboundMessage },
    /// Nothing was done: the canvas is not loaded. Ask the metadata store
    /// and register again with its answer.
    NeedsCanvasInfo,
    /// Subscribed. The state of the canvas is to be replayed to the client.
    Subscribed { file_path: String, is_moderated: bool, permission: String },
}

/// Why a batch of events was dropped.
#[derive(Clone, Copy, Debug, PartialEq, Eq, Structural)]
pub enum DropReason {
    CanvasNotLoaded,
    PermissionDenied,
    NotAnArray,
}

/// Decides a batch of events: the reason to drop it, or `None` to accept
/// it. The sender needs a permission that lets them draw on the canvas as
/// it is moderated or not, and the batch must be a JSON array.
pub open spec fn event_verdict(
    canvases: Map<Seq<char>, CanvasStateView>,
    sessions: Map<i64, SessionView>,
    sender_id: i64,
    canvas_id: Seq<char>,
    batch: serde_json::Value,
) -> Option<DropReason> {
    if !canvases.contains_key(canvas_id) {
        Some(DropReason::CanvasNotLoaded)
    } else if !may_draw(
        permission_level(sessions, sender_id, canvas_id),
        canvases[canvas_id].is_moderated,
    ) {
        Some(DropReason::PermissionDenied)
    } else if json_elements(batch) is None {
        Some(DropReason::NotAnArray)
    } else {
        None
    }
}

/// The answer to a batch of events.
#[derive(Debug)]
pub enum EventOutcome {
    /// Nothing is to be written and nothing to be sent.
    Dropped(DropReason),
    /// The lines are to be appended to the log at `file_path`, in order and
    /// under the canvas's write lock; after that `message` is to be
    /// broadcast to the canvas.
    Accepted { file_path: String, lines: Vec<String>, message: String },
}

/// The answer to a request to toggle moderation.
#[derive(Debug)]
pub enum ModerationToggle {
    /// The user may not moderate the canvas.
    Denied,
    /// The canvas is not loaded.
    NotLoaded,
    /// The flag is flipped. The new value is to be persisted, and once it
    /// is, `message` is to be broadcast to the canvas.
    Toggled { is_moderated: bool, message: String },
}

/// The canvases in memory, by canvas id.
pub struct CanvasManager {
    canvases: Vec<(String, CanvasState)>,
}

/// Canvas ids and states of a list of entries.
pub open spec fn entry_views(
    entries: Seq<(String, CanvasState)>,
) -> Seq<(Seq<char>, CanvasStateView)> {
    Seq::new(entries.len(), |i: int| (entries[i].0@, entries[i].1@))
}

/// Each entry has a subscription, and none twice.
pub open spec fn entries_well_formed(pairs: Seq<(Seq<char>, CanvasStateView)>) -> bool {
    &&& unique_keys(pairs)
    &&& forall|i: int|
        0 <= i < pairs.len() ==> (#[trigger] pairs[i]).1.subscribers.len() > 0
            && pairs[i].1.subscribers.no_duplicates()
}

/// Well-formed entries make a well-formed hub.
pub proof fn lemma_entries_make_canvases(pairs: Seq<(Seq<char>, CanvasStateView)>)
    requires
        entries_well_formed(pairs),
    ensures
        canvases_well_formed(map_of(pairs)),
{
    assert forall|canvas_id: Seq<char>| #[trigger]
        map_of(pairs).contains_key(canvas_id) implies map_of(pairs)[canvas_id].subscribers.len() > 0
        && map_of(pairs)[canvas_id].subscribers.no_duplicates() by {
        lemma_map_of_dom(pairs, canvas_id);
        let i = choose|i: int| 0 <= i < pairs.len() && (#[trigger] pairs[i]).0 == canvas_id;
        lemma_map_of_index(pairs, i);
    }
}

impl View for CanvasManager {
    type V = Map<Seq<char>, CanvasStateView>;

    closed spec fn view(&self) -> Map<Seq<char>, CanvasStateView> {
        map_of(entry_views(self.canvases@))
    }
}

/// Where `canvas_id` is among the entries, if it is.
fn find_canvas(entries: &Vec<(String, CanvasState)>, canvas_id: &str) -> (at: Option<usize>)
    ensures
        match at {
            Some(i) => i < entries@.len() && entries@[i as int].0@ == canvas_id@,
            None => !has_key(entry_views(entries@), canvas_id@),
        },
{
    let key = canvas_id.to_owned();
    let mut i: usize = 0;
    while i < entries.len()
        invariant
            i <= entries.len(),
            key@ == canvas_id@,
            forall|j: int| 0 <= j < i ==> (#[trigger] entry_views(entries@)[j]).0 != canvas_id@,
        decreases entries.len() - i,
    {
        if entries[i].0 == key {
            return Some(i);
        }
        i = i + 1;
    }
    None
}

/// Whether `subscriber` is among `subscribers`.
fn is_subscribed(subscribers: &Vec<ConnectionInfo>, subscriber: ConnectionInfo) -> (found: bool)
    ensures
        found == subscribers@.contains(subscriber),
{
    let mut i: usize = 0;
    while i < subscribers.len()
        invariant
            i <= subscribers.len(),
            forall|j: int| 0 <= j < i ==> subscribers@[j] != subscriber,
        decreases subscribers.len() - i,
    {
        if subscribers[i].user_id == subscriber.user_id && subscribers[i].connection.id
            == subscriber.connection.id {
            return true;
        }
        i = i + 1;
    }
    false
}

/// The subscriptions of connections other than `connection_id`, in order.
fn without_connection(
    subscribers: &Vec<ConnectionInfo>,
    connection_id: u128,
) -> (rest: Vec<ConnectionInfo>)
    ensures
        rest@ == subscribers@.filter(is_not_connection(connection_id)),
{
    let mut rest: Vec<ConnectionInfo> = Vec::new();
    let mut i: usize = 0;
    proof {
        reveal(Seq::filter);
    }
    assert(subscribers@.take(0).filter(is_not_connection(connection_id)) =~= Seq::empty());
    while i < subscribers.len()
        invariant
            i <= subscribers.len(),
            rest@ == subscribers@.take(i as int).filter(is_not_connection(connection_id)),
        decreases subscribers.len() - i,
    {
        proof {
            lemma_filter_push(
                subscribers@.take(i as int),
                subscribers@[i as int],
                is_not_connection(connection_id),
            );
            assert(subscribers@.take(i as int).push(subscribers@[i as int]) =~= subscribers@.take(
                i + 1,
            ));
        }
        if subscribers[i].connection.id != connection_id {
            rest.push(subscribers[i]);
        }
        i = i + 1;
    }
    assert(subscribers@.take(subscribers.len() as int) =~= subscribers@);
    rest
}

/// The subscriptions of users other than `user_id`, in order.
fn without_user(subscribers: &Vec<ConnectionInfo>, user_id: i64) -> (rest: Vec<ConnectionInfo>)
    ensures
        rest@ == subscribers@.filter(is_not_user(user_id)),
{
    let mut rest: Vec<ConnectionInfo> = Vec::new();
    let mut i: usize = 0;
    proof {
        reveal(Seq::filter);
    }
    assert(subscribers@.take(0).filter(is_not_user(user_id)) =~= Seq::empty());
    while i < subscribers.len()
        invariant
            i <= subscribers.len(),
            rest@ == subscribers@.take(i as int).filter(is_not_user(user_id)),
        decreases subscribers.len() - i,
    {
        proof {
            lemma_filter_push(
                subscribers@.take(i as int),
                subscribers@[i as int],
                is_not_user(user_id),
            );
            assert(subscribers@.take(i as int).push(subscribers@[i as int]) =~= subscribers@.take(
                i + 1,
            ));
        }
        if subscribers[i].user_id != user_id {
            rest.push(subscribers[i]);
        }
        i = i + 1;
    }
    assert(subscribers@.take(subscribers.len() as int) =~= subscribers@);
    rest
}

impl CanvasManager {
    /// What holds of every hub: no canvas is held twice, and each has a
    /// subscription, none twice.
    #[verifier::type_invariant]
    pub closed spec fn wf(&self) -> bool {
        entries_well_formed(entry_views(self.canvases@))
    }

    /// In a hub every loaded canvas has a subscription, and none twice.
    pub proof fn lemma_wf(&self)
        requires
            self.wf(),
        ensures
            canvases_well_formed(self@),
    {
        lemma_entries_make_canvases(entry_views(self.canvases@));
    }

    /// A hub without a loaded canvas.
    pub fn new() -> (manager: Self)
        ensures
            manager@ == Map::<Seq<char>, CanvasStateView>::empty(),
            canvases_well_formed(manager@),
    {
        let manager = CanvasManager { canvases: Vec::new() };
        assert(entry_views(manager.canvases@) =~= Seq::empty());
        manager
    }

    /// The state of `canvas_uuid`, if the canvas is loaded.
    pub fn canvas(&self, canvas_uuid: &str) -> (state: Option<&CanvasState>)
        ensures
            canvases_well_formed(self@),
            match state {
                Some(state) => self@.contains_key(canvas_uuid@) && state@ == self@[canvas_uuid@],
                None => !self@.contains_key(canvas_uuid@),
            },
    {
        proof {
            use_type_invariant(self);
            lemma_entries_make_canvases(entry_views(self.canvases@));
            lemma_map_of_dom(entry_views(self.canvases@), canvas_uuid@);
        }
        match find_canvas(&self.canvases, canvas_uuid) {
            Some(i) => {
                proof {
                    lemma_map_of_index(entry_views(self.canvases@), i as int);
                }
                Some(&self.canvases[i].1)
            },
            None => None,
        }
    }

    /// Whether `canvas_uuid` is loaded.
    pub fn is_loaded(&self, canvas_uuid: &str) -> (loaded: bool)
        ensures
            loaded == self@.contains_key(canvas_uuid@),
    {
        self.canvas(canvas_uuid).is_some()
    }

    /// Subscribes a connection of `user_id` to a canvas.
    ///
    /// The user's permission is read from the registry. `db_info` is the
    /// answer of the metadata store where it has been asked; it is used
    /// only to load a canvas that is not in memory, so a canvas that is
    /// loaded is never loaded again. The hub changes only when the
    /// connection is subscribed.
    pub fn register(
        &mut self,
        claims_manager: &SocketClaimsManager,
        canvas_uuid: String,
        user_id: i64,
        connection: IdentifiableWebSocket,
        db_info: Option<Result<CanvasDBInfo, CanvasRegistrationError>>,
    ) -> (outcome: Registration)
        ensures
            canvases_well_formed(final(self)@),
            ({
                let canvas_id = canvas_uuid@;
                let permission = permission_level(claims_manager@, user_id, canvas_id);
                let loaded = old(self)@.contains_key(canvas_id);
                let verdict = registration_verdict(permission, loaded, db_info);
                match verdict {
                    RegistrationVerdict::Subscribes => {
                        let loaded_as = if loaded {
                            old(self)@[canvas_id]
                        } else {
                            loaded_state(db_info->0->Ok_0)
                        };
                        &&& final(self)@ == subscribed(
                            old(self)@,
                            canvas_id,
                            loaded_as,
                            ConnectionInfo { user_id, connection },
                        )
                        &&& outcome matches Registration::Subscribed {
                            file_path,
                            is_moderated,
                            permission: code,
                        }
                        &&& file_path@ == loaded_as.file_path
                        &&& is_moderated == loaded_as.is_moderated
                        &&& code@ == permission
                    },
                    RegistrationVerdict::NeedsCanvasInfo => {
                        &&& final(self)@ == old(self)@
                        &&& outcome is NeedsCanvasInfo
                    },
                    _ => {
                        &&& final(self)@ == old(self)@
                        &&& outcome matches Registration::Rejected { notice }
                        &&& notice@ == (
                            connection.id,
                            notify_text(rejection_sentence(verdict, canvas_id)),
                        )
                    },
                }
            }),
    {
        proof {
            use_type_invariant(&*self);
            lemma_entries_make_canvases(entry_views(self.canvases@));
            lemma_map_of_dom(entry_views(self.canvases@), canvas_uuid@);
        }
        let ghost before = entry_views(self.canvases@);
        let ghost canvas_id = canvas_uuid@;
        let permission = claims_manager.get_permission_level(user_id, canvas_uuid.as_str());
        if permission.as_str().is_empty() {
            return Registration::Rejected {
                notice: connection.notify_client(
                    "You do not have permission to access this canvas.",
                ),
            };
        }
        let subscriber = ConnectionInfo { user_id, connection };
        let mut canvases = Vec::new();
        std::mem::swap(&mut canvases, &mut self.canvases);
        let outcome = match find_canvas(&canvases, canvas_uuid.as_str()) {
            Some(i) => {
                proof {
                    lemma_map_of_index(before, i as int);
                    lemma_map_of_update(
                        before,
                        i as int,
                        with_subscriber(before[i as int].1, subscriber),
                    );
                }
                if !is_subscribed(&canvases[i].1.subscribers, subscriber) {
                    proof {
                        lemma_push_no_duplicates(before[i as int].1.subscribers, subscriber);
                    }
                    canvases[i].1.subscribers.push(subscriber);
                }
                assert(entry_views(canvases@) =~= before.update(
                    i as int,
                    (before[i as int].0, with_subscriber(before[i as int].1, subscriber)),
                ));
                Registration::Subscribed {
                    file_path: canvases[i].1.file_path.clone(),
                    is_moderated: canvases[i].1.is_moderated,
                    permission,
                }
            },
            None => {
                match db_info {
                    None => Registration::NeedsCanvasInfo,
                    Some(Ok(info)) => {
                        let file_path = info.file_path.clone();
                        let is_moderated = info.is_moderated;
                        let mut state = CanvasState::new(info);
                        state.subscribers.push(subscriber);
                        let ghost entry = (canvas_id, with_subscriber(loaded_state(info), subscriber));
                        assert(state@.subscribers =~= seq![subscriber]);
                        assert(state@ == entry.1);
                        canvases.push((canvas_uuid, state));
                        proof {
                            let after = before.push(entry);
                            assert(entry_views(canvases@) =~= after);
                            assert(after.drop_last() =~= before);
                            assert(unique_keys(after)) by {
                                assert forall|a: int, b: int|
                                    0 <= a < b < after.len() implies (#[trigger] after[a]).0 != (
                                #[trigger] after[b]).0 by {
                                    if b == before.len() {
                                        assert(before[a].0 != canvas_id);
                                    } else {
                                        assert(before[a].0 != before[b].0);
                                    }
                                }
                            }
                            assert(seq![subscriber].no_duplicates());
                        }
                        Registration::Subscribed { file_path, is_moderated, permission }
                    },
                    Some(Err(CanvasRegistrationError::NotFound)) => {
                        let mut sentence = String::from_str("Canvas ID '");
                        sentence.append(canvas_uuid.as_str());
                        sentence.append("' is invalid or does not exist.");
                        Registration::Rejected { notice: connection.notify_client(sentence.as_str()) }
                    },
                    Some(Err(CanvasRegistrationError::DatabaseError(_))) => Registration::Rejected {
                        notice: connection.notify_client(
                            "A database error occurred. Cannot subscribe to canvas.",
                        ),
                    },
                }
            },
        };
        proof {
            lemma_entries_make_canvases(entry_views(canvases@));
        }
        self.canvases = canvases;
        outcome
    }

    /// Removes the subscriptions of one connection to a canvas and says
    /// whether there was one. A canvas left without a subscription is
    /// evicted.
    pub fn unregister_connection(&mut self, canvas_uuid: &str, conn_id: u128) -> (was_removed: bool)
        ensures
            final(self)@ == unsubscribed(old(self)@, canvas_uuid@, is_not_connection(conn_id)),
            was_removed == has_subscription_to_drop(
                old(self)@,
                canvas_uuid@,
                is_not_connection(conn_id),
            ),
            canvases_well_formed(final(self)@),
    {
        proof {
            use_type_invariant(&*self);
            lemma_map_of_dom(entry_views(self.canvases@), canvas_uuid@);
        }
        let ghost before = entry_views(self.canvases@);
        let mut canvases = Vec::new();
        std::mem::swap(&mut canvases, &mut self.canvases);
        let was_removed = match find_canvas(&canvases, canvas_uuid) {
            Some(i) => {
                let rest = without_connection(&canvases[i].1.subscribers, conn_id);
                let was_removed = rest.len() < canvases[i].1.subscribers.len();
                proof {
                    let held = before[i as int].1.subscribers;
                    let keep = is_not_connection(conn_id);
                    lemma_filter_keeps(held, keep);
                    lemma_map_of_index(before, i as int);
                    assert(map_of(before)[canvas_uuid@].subscribers == held);
                    if was_removed {
                        let j = choose|j: int| 0 <= j < held.len() && !keep(#[trigger] held[j]);
                        assert(!keep(map_of(before)[canvas_uuid@].subscribers[j]));
                    }
                }
                keep_subscribers(&mut canvases, i, rest);
                was_removed
            },
            None => {
                assert(map_of(before) =~= unsubscribed(
                    map_of(before),
                    canvas_uuid@,
                    is_not_connection(conn_id),
                ));
                false
            },
        };
        proof {
            lemma_entries_make_canvases(entry_views(canvases@));
        }
        self.canvases = canvases;
        was_removed
    }

    /// Removes every subscription of one user to a canvas and says whether
    /// there was one. A canvas left without a subscription is evicted.
    pub fn unregister_user(&mut self, canvas_uuid: &str, user_id: i64) -> (was_removed: bool)
        ensures
            final(self)@ == unsubscribed(old(self)@, canvas_uuid@, is_not_user(user_id)),
            was_removed == has_subscription_to_drop(old(self)@, canvas_uuid@, is_not_user(user_id)),
            canvases_well_formed(final(self)@),
    {
        proof {
            use_type_invariant(&*self);
            lemma_map_of_dom(entry_views(self.canvases@), canvas_uuid@);
        }
        let ghost before = entry_views(self.canvases@);
        let mut canvases = Vec::new();
        std::mem::swap(&mut canvases, &mut self.canvases);
        let was_removed = match find_canvas(&canvases, canvas_uuid) {
            Some(i) => {
                let rest = without_user(&canvases[i].1.subscribers, user_id);
                let was_removed = rest.len() < canvases[i].1.subscribers.len();
                proof {
                    let held = before[i as int].1.subscribers;
                    let keep = is_not_user(user_id);
                    lemma_filter_keeps(held, keep);
                    lemma_map_of_index(before, i as int);
                    assert(map_of(before)[canvas_uuid@].subscribers == held);
                    if was_removed {
                        let j = choose|j: int| 0 <= j < held.len() && !keep(#[trigger] held[j]);
                        assert(!keep(map_of(before)[canvas_uuid@].subscribers[j]));
                    }
                }
                keep_subscribers(&mut canvases, i, rest);
                was_removed
            },
            None => {
                assert(map_of(before) =~= unsubscribed(
                    map_of(before),
                    canvas_uuid@,
                    is_not_user(user_id),
                ));
                false
            },
        };
        proof {
            lemma_entries_make_canvases(entry_views(canvases@));
        }
        self.canvases = canvases;
        was_removed
    }

    /// Decides a batch of events from `sender_id`.
    ///
    /// The batch is accepted only for a loaded canvas, from a sender whose
    /// cached permission lets them draw on it, and only if it is a JSON
    /// array. An accepted batch comes back as the lines to append, one per
    /// event in submission order, and the message to broadcast afterwards,
    /// which is the text that arrived. The hub itself does not change.
    pub fn handle_event(
        &self,
        claims_manager: &SocketClaimsManager,
        sender_id: i64,
        events: WebSocketEvents,
        original_message_text: String,
    ) -> (outcome: EventOutcome)
        ensures
            match event_verdict(
                self@,
                claims_manager@,
                sender_id,
                events.canvas_id@,
                events.events_for_canvas,
            ) {
                Some(reason) => outcome == EventOutcome::Dropped(reason),
                None => {
                    &&& outcome matches EventOutcome::Accepted { file_path, lines, message }
                    &&& file_path@ == self@[events.canvas_id@].file_path
                    &&& texts(lines@) == log_lines(json_elements(events.events_for_canvas)->0)
                    &&& message == original_message_text
                },
            },
    {
        let state = match self.canvas(events.canvas_id.as_str()) {
            Some(state) => state,
            None => {
                return EventOutcome::Dropped(DropReason::CanvasNotLoaded);
            },
        };
        let permission = claims_manager.get_permission_level(sender_id, events.canvas_id.as_str());
        if !can_draw(permission.as_str(), state.is_moderated) {
            return EventOutcome::Dropped(DropReason::PermissionDenied);
        }
        match event_lines(&events.events_for_canvas) {
            Some(lines) => EventOutcome::Accepted {
                file_path: state.file_path.clone(),
                lines,
                message: original_message_text,
            },
            None => EventOutcome::Dropped(DropReason::NotAnArray),
        }
    }

    /// Addresses `message` to every subscription of a canvas, in order of
    /// subscription. Nothing is addressed for a canvas that is not loaded.
    pub fn broadcast(&self, canvas_uuid: &str, message: &str) -> (deliveries: Vec<OutboundMessage>)
        ensures
            message_views(deliveries@) == broadcast_of(self@, canvas_uuid@, message@),
    {
        let mut out: Vec<OutboundMessage> = Vec::new();
        match self.canvas(canvas_uuid) {
            Some(state) => {
                let mut i: usize = 0;
                while i < state.subscribers.len()
                    invariant
                        i <= state.subscribers.len(),
                        out@.len() == i,
                        forall|j: int|
                            0 <= j < i ==> (#[trigger] out@[j])@ == (
                                state.subscribers@[j].connection.id,
                                message@,
                            ),
                    decreases state.subscribers.len() - i,
                {
                    out.push(state.subscribers[i].connection.send(message.to_owned()));
                    i = i + 1;
                }
                assert(message_views(out@) =~= broadcast_of(self@, canvas_uuid@, message@));
            },
            None => {
                assert(message_views(out@) =~= broadcast_of(self@, canvas_uuid@, message@));
            },
        }
        out
    }

    /// Flips the moderation flag of a canvas on behalf of `user_id`.
    ///
    /// Only a user whose cached permission is moderator or higher may do
    /// so, and only on a loaded canvas; otherwise nothing changes.
    pub fn toggle_moderated_state(
        &mut self,
        claims_manager: &SocketClaimsManager,
        user_id: i64,
        canvas_uuid: &str,
    ) -> (outcome: ModerationToggle)
        ensures
            canvases_well_formed(final(self)@),
            ({
                let canvas_id = canvas_uuid@;
                if !may_moderate(permission_level(claims_manager@, user_id, canvas_id)) {
                    &&& final(self)@ == old(self)@
                    &&& outcome is Denied
                } else if !old(self)@.contains_key(canvas_id) {
                    &&& final(self)@ == old(self)@
                    &&& outcome is NotLoaded
                } else {
                    &&& final(self)@ == toggled(old(self)@, canvas_id)
                    &&& outcome matches ModerationToggle::Toggled { is_moderated, message }
                    &&& is_moderated == !old(self)@[canvas_id].is_moderated
                    &&& message@ == moderated_text(canvas_id, is_moderated)
                }
            }),
    {
        proof {
            use_type_invariant(&*self);
            lemma_entries_make_canvases(entry_views(self.canvases@));
            lemma_map_of_dom(entry_views(self.canvases@), canvas_uuid@);
        }
        let ghost before = entry_views(self.canvases@);
        let permission = claims_manager.get_permission_level(user_id, canvas_uuid);
        if !can_moderate(permission.as_str()) {
            return ModerationToggle::Denied;
        }
        let mut canvases = Vec::new();
        std::mem::swap(&mut canvases, &mut self.canvases);
        let outcome = match find_canvas(&canvases, canvas_uuid) {
            Some(i) => {
                let is_moderated = !canvases[i].1.is_moderated;
                canvases[i].1.is_moderated = is_moderated;
                proof {
                    let state = before[i as int].1;
                    let flipped = CanvasStateView {
                        subscribers: state.subscribers,
                        is_moderated: !state.is_moderated,
                        file_path: state.file_path,
                    };
                    lemma_map_of_index(before, i as int);
                    lemma_map_of_update(before, i as int, flipped);
                    assert(entry_views(canvases@) =~= before.update(
                        i as int,
                        (before[i as int].0, flipped),
                    ));
                }
                ModerationToggle::Toggled {
                    is_moderated,
                    message: moderated_message(canvas_uuid, is_moderated),
                }
            },
            None => ModerationToggle::NotLoaded,
        };
        proof {
            lemma_entries_make_canvases(entry_views(canvases@));
        }
        self.canvases = canvases;
        outcome
    }
}

/// Leaves entry `i` with the subscriptions `rest`, or takes the entry out
/// if `rest` is empty.
fn keep_subscribers(entries: &mut Vec<(String, CanvasState)>, i: usize, rest: Vec<ConnectionInfo>)
    requires
        entries_well_formed(entry_views(old(entries)@)),
        i < old(entries)@.len(),
        rest@.no_duplicates(),
    ensures
        entries_well_formed(entry_views(final(entries)@)),
        map_of(entry_views(final(entries)@)) == if rest@.len() == 0 {
            map_of(entry_views(old(entries)@)).remove(old(entries)@[i as int].0@)
        } else {
            map_of(entry_views(old(entries)@)).insert(
                old(entries)@[i as int].0@,
                CanvasStateView {
                    subscribers: rest@,
                    is_moderated: old(entries)@[i as int].1.is_moderated,
                    file_path: old(entries)@[i as int].1.file_path@,
                },
            )
        },
{
    let ghost before = entry_views(entries@);
    if rest.len() == 0 {
        proof {
            lemma_map_of_remove(before, i as int);
        }
        entries.remove(i);
        assert(entry_views(entries@) =~= before.remove(i as int));
    } else {
        let ghost state = CanvasStateView {
            subscribers: rest@,
            is_moderated: before[i as int].1.is_moderated,
            file_path: before[i as int].1.file_path,
        };
        proof {
            lemma_map_of_update(before, i as int, state);
        }
        entries[i].1.subscribers = rest;
        assert(entry_views(entries@) =~= before.update(i as int, (before[i as int].0, state)));
    }
}

/// The three messages that bring a new subscriber up to date, in the order
/// in which they are to be sent: the moderation flag, the event history,
/// the subscriber's own permission. `history` is the text of the event log,
/// or `None` if the log could not be read, in which case an advisory takes
/// the place of the history.
pub fn send_canvas_history(
    connection: &IdentifiableWebSocket,
    history: Option<&str>,
    canvas_uuid: &str,
    is_moderated: bool,
    your_permission: &str,
) -> (messages: Vec<OutboundMessage>)
    ensures
        message_views(messages@) == seq![
            (connection.id, moderated_text(canvas_uuid@, is_moderated)),
            (
                connection.id,
                match history {
                    Some(content) => events_text(canvas_uuid@, replayed(lines_of(content@))),
                    None => notify_text("Failed to load canvas history. Try refreshing."@),
                },
            ),
            (connection.id, permission_text(canvas_uuid@, your_permission@)),
        ],
{
    let mut messages: Vec<OutboundMessage> = Vec::new();
    messages.push(connection.send(moderated_message(canvas_uuid, is_moderated)));
    match history {
        Some(content) => {
            let events = read_events(content);
            messages.push(connection.send(events_message(canvas_uuid, &events)));
        },
        None => {
            messages.push(connection.notify_client("Failed to load canvas history. Try refreshing."));
        },
    }
    messages.push(connection.send(permission_message(canvas_uuid, your_permission)));
    assert(message_views(messages@) =~= seq![
        (connection.id, moderated_text(canvas_uuid@, is_moderated)),
        (
            connection.id,
            match history {
                Some(content) => events_text(canvas_uuid@, replayed(lines_of(content@))),
                None => notify_text("Failed to load canvas history. Try refreshing."@),
            },
        ),
        (connection.id, permission_text(canvas_uuid@, your_permission@)),
    ]);
    messages
}

/// Without a permission on a canvas no batch is accepted: whoever the
/// registry holds no code for gets every batch dropped, so that nothing is
/// appended and nothing broadcast.
pub proof fn lemma_event_needs_permission(
    canvases: Map<Seq<char>, CanvasStateView>,
    sessions: Map<i64, SessionView>,
    sender_id: i64,
    canvas_id: Seq<char>,
    batch: serde_json::Value,
)
    requires
        permission_level(sessions, sender_id, canvas_id).len() == 0,
    ensures
        event_verdict(canvases, sessions, sender_id, canvas_id, batch) is Some,
        event_verdict(canvases, sessions, sender_id, canvas_id, batch) != Some(
            DropReason::NotAnArray,
        ),
{
}

/// A batch is accepted only from a sender who may draw: with at least the
/// writer code, and with more than that while the canvas is moderated.
pub proof fn lemma_accepted_event_was_permitted(
    canvases: Map<Seq<char>, CanvasStateView>,
    sessions: Map<i64, SessionView>,
    sender_id: i64,
    canvas_id: Seq<char>,
    batch: serde_json::Value,
)
    requires
        event_verdict(canvases, sessions, sender_id, canvas_id, batch) is None,
    ensures
        canvases.contains_key(canvas_id),
        sessions.contains_key(sender_id),
        may_draw(permission_level(sessions, sender_id, canvas_id), canvases[canvas_id].is_moderated),
        canvases[canvas_id].is_moderated ==> may_moderate(
            permission_level(sessions, sender_id, canvas_id),
        ),
{
}

/// Moderation holds back the writer and nobody above: a writer may draw
/// exactly while the canvas is not moderated, and flipping the flag twice
/// leaves the hub as it was.
pub proof fn lemma_moderation_holds_back_writers(
    canvases: Map<Seq<char>, CanvasStateView>,
    canvas_id: Seq<char>,
)
    requires
        canvases.contains_key(canvas_id),
    ensures
        may_draw(seq!['W'], canvases[canvas_id].is_moderated) == !canvases[canvas_id].is_moderated,
        may_draw(seq!['W'], toggled(canvases, canvas_id)[canvas_id].is_moderated)
            == canvases[canvas_id].is_moderated,
        toggled(toggled(canvases, canvas_id), canvas_id) == canvases,
        toggled(canvases, canvas_id)[canvas_id].subscribers == canvases[canvas_id].subscribers,
{
    assert(toggled(toggled(canvases, canvas_id), canvas_id) =~= canvases);
}

/// A registration on a loaded canvas does not load it again: whatever the
/// metadata store answered, the canvas keeps its log, its flag and its
/// subscribers, and all that is added is the subscription.
pub proof fn lemma_loaded_canvas_is_not_reloaded(
    canvases: Map<Seq<char>, CanvasStateView>,
    canvas_id: Seq<char>,
    loaded_as: CanvasStateView,
    subscriber: ConnectionInfo,
)
    requires
        canvases.contains_key(canvas_id),
    ensures
        subscribed(canvases, canvas_id, loaded_as, subscriber) == subscribed(
            canvases,
            canvas_id,
            canvases[canvas_id],
            subscriber,
        ),
        subscribed(canvases, canvas_id, loaded_as, subscriber).dom() == canvases.dom(),
        subscribed(canvases, canvas_id, loaded_as, subscriber)[canvas_id].file_path
            == canvases[canvas_id].file_path,
        subscribed(canvases, canvas_id, loaded_as, subscriber)[canvas_id].is_moderated
            == canvases[canvas_id].is_moderated,
        canvases[canvas_id].subscribers.is_prefix_of(
            subscribed(canvases, canvas_id, loaded_as, subscriber)[canvas_id].subscribers,
        ),
        subscribed(canvases, canvas_id, loaded_as, subscriber)[canvas_id].subscribers.contains(
            subscriber,
        ),
{
    let after = subscribed(canvases, canvas_id, loaded_as, subscriber);
    assert(after.dom() =~= canvases.dom());
    lemma_push_contains(canvases[canvas_id].subscribers, subscriber, subscriber);
}

/// Of two registrations for a canvas that is not loaded, the first loads
/// it and the second joins what the first loaded, even if it comes with
/// another answer of the metadata store.
pub proof fn lemma_second_registration_joins(
    canvases: Map<Seq<char>, CanvasStateView>,
    canvas_id: Seq<char>,
    first_info: CanvasDBInfo,
    second_info: CanvasDBInfo,
    first: ConnectionInfo,
    second: ConnectionInfo,
)
    requires
        !canvases.contains_key(canvas_id),
        first != second,
    ensures
        ({
            let once = subscribed(canvases, canvas_id, loaded_state(first_info), first);
            let twice = subscribed(once, canvas_id, loaded_state(second_info), second);
            &&& twice[canvas_id].file_path == first_info.file_path@
            &&& twice[canvas_id].is_moderated == first_info.is_moderated
            &&& twice[canvas_id].subscribers == seq![first, second]
        }),
{
    let once = subscribed(canvases, canvas_id, loaded_state(first_info), first);
    let twice = subscribed(once, canvas_id, loaded_state(second_info), second);
    assert(once[canvas_id].subscribers =~= seq![first]);
    assert(!seq![first].contains(second));
    assert(twice[canvas_id].subscribers =~= seq![first, second]);
}

/// Subscribing, unsubscribing and toggling each lead from a well-formed
/// hub to a well-formed one: a canvas stays loaded exactly as long as it
/// has a subscription.
pub proof fn lemma_hub_stays_well_formed(
    canvases: Map<Seq<char>, CanvasStateView>,
    canvas_id: Seq<char>,
    info: CanvasDBInfo,
    subscriber: ConnectionInfo,
    keep: spec_fn(ConnectionInfo) -> bool,
)
    requires
        canvases_well_formed(canvases),
    ensures
        canvases_well_formed(subscribed(canvases, canvas_id, loaded_state(info), subscriber)),
        canvases_well_formed(unsubscribed(canvases, canvas_id, keep)),
        canvases.contains_key(canvas_id) ==> canvases_well_formed(toggled(canvases, canvas_id)),
{
    let state = if canvases.contains_key(canvas_id) {
        canvases[canvas_id]
    } else {
        loaded_state(info)
    };
    if !state.subscribers.contains(subscriber) {
        lemma_push_no_duplicates(state.subscribers, subscriber);
    }
    let s = subscribed(canvases, canvas_id, loaded_state(info), subscriber);
    assert forall|id: Seq<char>| #[trigger] s.contains_key(id) implies s[id].subscribers.len() > 0
        && s[id].subscribers.no_duplicates() by {
        if id != canvas_id {
            assert(canvases.contains_key(id));
        }
    }
    let u = unsubscribed(canvases, canvas_id, keep);
    if canvases.contains_key(canvas_id) {
        lemma_filter_keeps(canvases[canvas_id].subscribers, keep);
    }
    assert forall|id: Seq<char>| #[trigger] u.contains_key(id) implies u[id].subscribers.len() > 0
        && u[id].subscribers.no_duplicates() by {
        assert(canvases.contains_key(id));
    }
    if canvases.contains_key(canvas_id) {
        let t = toggled(canvases, canvas_id);
        assert forall|id: Seq<char>| #[trigger] t.contains_key(id) implies t[id].subscribers.len()
            > 0 && t[id].subscribers.no_duplicates() by {
            assert(canvases.contains_key(id));
        }
    }
}

/// After an unsubscription no subscription to the canvas is left that was
/// to go, every other one is still there, and the canvas is evicted exactly
/// if none is left. Unsubscribing again changes nothing.
pub proof fn lemma_unsubscribed(
    canvases: Map<Seq<char>, CanvasStateView>,
    canvas_id: Seq<char>,
    keep: spec_fn(ConnectionInfo) -> bool,
)
    ensures
        ({
            let after = unsubscribed(canvases, canvas_id, keep);
            &&& after.contains_key(canvas_id) <==> canvases.contains_key(canvas_id) && exists|
                subscriber: ConnectionInfo,
            |
                canvases[canvas_id].subscribers.contains(subscriber) && keep(subscriber)
            &&& forall|subscriber: ConnectionInfo|
                after.contains_key(canvas_id) ==> (after[canvas_id].subscribers.contains(subscriber)
                    <==> canvases[canvas_id].subscribers.contains(subscriber) && keep(subscriber))
            &&& forall|other: Seq<char>|
                other != canvas_id ==> after.contains_key(other) == canvases.contains_key(other)
                    && after[other] == canvases[other]
            &&& unsubscribed(after, canvas_id, keep) == after
        }),
{
    let after = unsubscribed(canvases, canvas_id, keep);
    if canvases.contains_key(canvas_id) {
        let held = canvases[canvas_id].subscribers;
        let rest = held.filter(keep);
        lemma_filter_keeps(held, keep);
        lemma_filter_again(held, keep);
        if rest.len() > 0 {
            assert(rest.contains(rest[0]));
            assert(unsubscribed(after, canvas_id, keep) =~= after);
        } else {
            assert forall|subscriber: ConnectionInfo|
                !(held.contains(subscriber) && keep(subscriber)) by {
                if held.contains(subscriber) && keep(subscriber) {
                    assert(rest.contains(subscriber));
                    let i = rest.index_of(subscriber);
                }
            }
        }
    }
}

} // verus!
