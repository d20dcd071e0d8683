//! The registry of live sessions: for each connected user the current
//! claims and the connections that user holds.
//!
//! Permission checks on the hot path read this registry and never the
//! database. An entry lives exactly as long as the user has a connection.

use crate::auth::{
    get_claims, is_refresh_request, issued, AuthError, Claims, ClaimsView, PartialClaims,
    REISSUE_AFTER_SECONDS,
};
use crate::identifiable_web_socket::{message_views, IdentifiableWebSocket, OutboundMessage};
use crate::json::{permission_message, permission_text};
use crate::sequences::{lemma_filter_keeps, lemma_filter_push, lemma_push_no_duplicates};
use std::collections::HashMap;
use vstd::prelude::*;

verus! {

/// The claims of a connected user together with that user's connections,
/// oldest first.
#[derive(Debug)]
pub struct ClaimsConnections {
    pub claims: Claims,
    pub connections: Vec<IdentifiableWebSocket>,
}

/// What a registry entry says.
pub struct SessionView {
    pub claims: ClaimsView,
    pub connections: Seq<IdentifiableWebSocket>,
}

impl View for ClaimsConnections {
    type V = SessionView;

    open spec fn view(&self) -> SessionView {
        SessionView { claims: self.claims@, connections: self.connections@ }
    }
}

/// The sessions of the connected users, by user id.
pub struct SocketClaimsManager {
    inner: HashMap<i64, ClaimsConnections>,
}

impl View for SocketClaimsManager {
    type V = Map<i64, SessionView>;

    closed spec fn view(&self) -> Map<i64, SessionView> {
        sessions_of(self.inner@)
    }
}

/// The entries of a registry, each by what it says.
pub open spec fn sessions_of(entries: Map<i64, ClaimsConnections>) -> Map<i64, SessionView> {
    Map::new(|user_id: i64| entries.contains_key(user_id), |user_id: i64| entries[user_id]@)
}

/// Every entry has a connection, and none twice.
pub open spec fn sessions_well_formed(sessions: Map<i64, SessionView>) -> bool {
    forall|user_id: i64| #[trigger]
        sessions.contains_key(user_id) ==> sessions[user_id].connections.len() > 0
            && sessions[user_id].connections.no_duplicates()
}

/// The registry after `connection` of `user_id` is attached with `claims`.
/// A user already present keeps the claims that are cached, and a
/// connection already attached is not attached again.
pub open spec fn attached(
    sessions: Map<i64, SessionView>,
    user_id: i64,
    claims: ClaimsView,
    connection: IdentifiableWebSocket,
) -> Map<i64, SessionView> {
    if sessions.contains_key(user_id) {
        let session = sessions[user_id];
        if session.connections.contains(connection) {
            sessions
        } else {
            sessions.insert(
                user_id,
                SessionView { claims: session.claims, connections: session.connections.push(connection) },
            )
        }
    } else {
        sessions.insert(user_id, SessionView { claims, connections: seq![connection] })
    }
}

/// The registry after the claims of `user_id` are replaced; a user without
/// an entry gets none.
pub open spec fn with_claims(
    sessions: Map<i64, SessionView>,
    user_id: i64,
    claims: ClaimsView,
) -> Map<
    i64,
    SessionView,
> {
    if sessions.contains_key(user_id) {
        sessions.insert(
            user_id,
            SessionView { claims, connections: sessions[user_id].connections },
        )
    } else {
        sessions
    }
}

/// Tells the connections other than `connection` apart.
pub open spec fn is_other_connection(connection: IdentifiableWebSocket) -> spec_fn(
    IdentifiableWebSocket,
) -> bool {
    |other: IdentifiableWebSocket| other != connection
}

/// The registry after `connection` of `user_id` is detached. The entry goes
/// with its last connection.
pub open spec fn detached(
    sessions: Map<i64, SessionView>,
    user_id: i64,
    connection: IdentifiableWebSocket,
) -> Map<i64, SessionView> {
    if sessions.contains_key(user_id) {
        let session = sessions[user_id];
        let rest = session.connections.filter(is_other_connection(connection));
        if rest.len() == 0 {
            sessions.remove(user_id)
        } else {
            sessions.insert(user_id, SessionView { claims: session.claims, connections: rest })
        }
    } else {
        sessions
    }
}

/// The permission code that the registry holds for a user on a canvas;
/// empty for an unknown user as for an unlisted canvas.
pub open spec fn permission_level(
    sessions: Map<i64, SessionView>,
    user_id: i64,
    canvas_id: Seq<char>,
) -> Seq<
    char,
> {
    if sessions.contains_key(user_id) {
        sessions[user_id].claims.permission_on(canvas_id)
    } else {
        Seq::empty()
    }
}

/// The permission announcements for one connection: one per listed canvas,
/// in listing order.
pub open spec fn notices_for(
    connection: IdentifiableWebSocket,
    pairs: Seq<(Seq<char>, Seq<char>)>,
) -> Seq<
    (u128, Seq<char>),
> {
    Seq::new(pairs.len(), |j: int| (connection.id, permission_text(pairs[j].0, pairs[j].1)))
}

/// The permission announcements for all connections of a user, connection
/// by connection.
pub open spec fn permission_notices(
    connections: Seq<IdentifiableWebSocket>,
    pairs: Seq<(Seq<char>, Seq<char>)>,
) -> Seq<(u128, Seq<char>)>
    decreases connections.len(),
{
    if connections.len() == 0 {
        Seq::empty()
    } else {
        permission_notices(connections.drop_last(), pairs) + notices_for(connections.last(), pairs)
    }
}

impl SocketClaimsManager {
    /// What holds of every registry: each entry has a connection, and none
    /// twice.
    #[verifier::type_invariant]
    pub closed spec fn wf(&self) -> bool {
        sessions_well_formed(self@)
    }

    /// In a registry each entry has a connection, and none twice.
    pub proof fn lemma_wf(&self)
        requires
            self.wf(),
        ensures
            sessions_well_formed(self@),
    {
    }

    /// An empty registry.
    pub fn new() -> (manager: Self)
        ensures
            manager@ == Map::<i64, SessionView>::empty(),
            sessions_well_formed(manager@),
    {
        let manager = SocketClaimsManager { inner: HashMap::new() };
        assert(manager@ =~= Map::<i64, SessionView>::empty());
        manager
    }

    /// Attaches a connection of `user_id`. The first connection of a user
    /// stores `claims`; a later one joins the entry and leaves the cached
    /// claims as they are.
    pub fn add_connection_and_claims(
        &mut self,
        user_id: i64,
        claims: Claims,
        ws: IdentifiableWebSocket,
    )
        ensures
            final(self)@ == attached(old(self)@, user_id, claims@, ws),
            sessions_well_formed(final(self)@),
    {
        proof {
            use_type_invariant(&*self);
        }
        let ghost before = self@;
        let mut inner = HashMap::new();
        std::mem::swap(&mut inner, &mut self.inner);
        match inner.remove(&user_id) {
            Some(session) => {
                assert(before.contains_key(user_id));
                assert(session@ == before[user_id]);
                let mut session = session;
                if !holds(&session.connections, ws) {
                    session.connections.push(ws);
                    proof {
                        lemma_push_no_duplicates(before[user_id].connections, ws);
                    }
                }
                inner.insert(user_id, session);
            },
            None => {
                let mut connections = Vec::new();
                connections.push(ws);
                assert(connections@ =~= seq![ws]);
                inner.insert(user_id, ClaimsConnections { claims, connections });
            },
        }
        assert(sessions_of(inner@) =~= attached(before, user_id, claims@, ws));
        self.inner = inner;
    }

    /// Replaces the claims of `user_id` and says whether the user has an
    /// entry. Without one nothing changes.
    pub fn update_claims(&mut self, user_id: i64, updated_claims: Claims) -> (was_live: bool)
        ensures
            was_live == old(self)@.contains_key(user_id),
            final(self)@ == with_claims(old(self)@, user_id, updated_claims@),
            sessions_well_formed(final(self)@),
    {
        proof {
            use_type_invariant(&*self);
        }
        let ghost before = self@;
        let mut inner = HashMap::new();
        std::mem::swap(&mut inner, &mut self.inner);
        match inner.remove(&user_id) {
            Some(session) => {
                assert(session@ == before[user_id]);
                inner.insert(
                    user_id,
                    ClaimsConnections { claims: updated_claims, connections: session.connections },
                );
                assert(sessions_of(inner@) =~= with_claims(before, user_id, updated_claims@));
                self.inner = inner;
                true
            },
            None => {
                assert(sessions_of(inner@) =~= before);
                self.inner = inner;
                false
            },
        }
    }

    /// The data from which the claims of a connected user are refreshed;
    /// `None` for a user without an entry.
    pub fn refresh_request(&self, user_id: i64) -> (request: Option<PartialClaims>)
        ensures
            match request {
                Some(request) => self@.contains_key(user_id) && is_refresh_request(
                    self@[user_id].claims,
                    request,
                ),
                None => !self@.contains_key(user_id),
            },
    {
        match self.inner.get(&user_id) {
            Some(session) => Some(session.claims.refresh_request()),
            None => None,
        }
    }

    /// Stores the refreshed claims of `user_id` and returns the
    /// announcements that follow: to every connection of the user one
    /// message per canvas of the new claims, stating the new code. For a
    /// user without an entry nothing changes and nothing is announced.
    pub fn update_permissions(
        &mut self,
        user_id: i64,
        updated_claims: Claims,
    ) -> (notices: Vec<OutboundMessage>)
        ensures
            final(self)@ == with_claims(old(self)@, user_id, updated_claims@),
            sessions_well_formed(final(self)@),
            message_views(notices@) == if old(self)@.contains_key(user_id) {
                permission_notices(
                    old(self)@[user_id].connections,
                    updated_claims.canvas_permissions.pairs(),
                )
            } else {
                Seq::empty()
            },
    {
        proof {
            use_type_invariant(&*self);
        }
        let ghost before = self@;
        let mut notices: Vec<OutboundMessage> = Vec::new();
        let mut inner = HashMap::new();
        std::mem::swap(&mut inner, &mut self.inner);
        match inner.remove(&user_id) {
            Some(session) => {
                assert(session@ == before[user_id]);
                let ghost pairs = updated_claims.canvas_permissions.pairs();
                let entries = updated_claims.canvas_permissions.len();
                let mut i: usize = 0;
                assert(message_views(notices@) =~= Seq::empty());
                while i < session.connections.len()
                    invariant
                        i <= session.connections.len(),
                        entries == pairs.len(),
                        pairs == updated_claims.canvas_permissions.pairs(),
                        message_views(notices@) == permission_notices(
                            session.connections@.take(i as int),
                            pairs,
                        ),
                    decreases session.connections.len() - i,
                {
                    let connection = session.connections[i];
                    let ghost done = message_views(notices@);
                    let mut j: usize = 0;
                    while j < entries
                        invariant
                            j <= entries,
                            entries == pairs.len(),
                            pairs == updated_claims.canvas_permissions.pairs(),
                            message_views(notices@) == done + notices_for(connection, pairs).take(
                                j as int,
                            ),
                        decreases entries - j,
                    {
                        let (canvas_id, code) = updated_claims.canvas_permissions.entry(j);
                        let text = permission_message(canvas_id.as_str(), code.as_str());
                        let ghost earlier = message_views(notices@);
                        let ghost notice = (connection.id, text@);
                        notices.push(connection.send(text));
                        proof {
                            let row = notices_for(connection, pairs);
                            assert(message_views(notices@) =~= earlier.push(notice));
                            assert(row.take(j + 1) =~= row.take(j as int).push(notice));
                            assert(earlier.push(notice) =~= done + row.take(j + 1));
                        }
                        j = j + 1;
                    }
                    proof {
                        let all = session.connections@;
                        assert(notices_for(connection, pairs).take(entries as int) =~= notices_for(
                            connection,
                            pairs,
                        ));
                        assert(all.take(i + 1).drop_last() =~= all.take(i as int));
                        assert(all.take(i + 1).last() == connection);
                    }
                    i = i + 1;
                }
                assert(session.connections@.take(session.connections.len() as int)
                    =~= session.connections@);
                inner.insert(
                    user_id,
                    ClaimsConnections { claims: updated_claims, connections: session.connections },
                );
                assert(sessions_of(inner@) =~= with_claims(before, user_id, updated_claims@));
            },
            None => {
                assert(sessions_of(inner@) =~= before);
                assert(message_views(notices@) =~= Seq::empty());
            },
        }
        self.inner = inner;
        notices
    }

    /// Detaches a connection of `user_id`. Says whether that was the user's
    /// last one, with which the entry and its claims are gone.
    pub fn remove_connection(
        &mut self,
        user_id: i64,
        ws_to_remove: &IdentifiableWebSocket,
    ) -> (evicted: bool)
        ensures
            final(self)@ == detached(old(self)@, user_id, *ws_to_remove),
            evicted == (old(self)@.contains_key(user_id) && !final(self)@.contains_key(user_id)),
            sessions_well_formed(final(self)@),
    {
        proof {
            use_type_invariant(&*self);
        }
        let ghost before = self@;
        let mut inner = HashMap::new();
        std::mem::swap(&mut inner, &mut self.inner);
        match inner.remove(&user_id) {
            Some(session) => {
                assert(before.contains_key(user_id));
                assert(session@ == before[user_id]);
                let rest = without(&session.connections, *ws_to_remove);
                proof {
                    lemma_filter_keeps(session.connections@, is_other_connection(*ws_to_remove));
                }
                if rest.len() == 0 {
                    assert(sessions_of(inner@) =~= detached(before, user_id, *ws_to_remove));
                    self.inner = inner;
                    true
                } else {
                    inner.insert(
                        user_id,
                        ClaimsConnections { claims: session.claims, connections: rest },
                    );
                    assert(sessions_of(inner@) =~= detached(before, user_id, *ws_to_remove));
                    self.inner = inner;
                    false
                }
            },
            None => {
                assert(sessions_of(inner@) =~= before);
                self.inner = inner;
                false
            },
        }
    }

    /// Finishes the refresh of a session: issues the claims that the completed
    /// data give at `now` and, where the user is connected, makes them the
    /// cached claims, so that the next permission check sees them. Data
    /// with a gap gives `UserInfoNotFound` and changes nothing.
    pub fn complete_refresh(
        &mut self,
        claims_data: PartialClaims,
        now: usize,
    ) -> (refreshed: Result<Claims, AuthError>)
        requires
            now + REISSUE_AFTER_SECONDS <= usize::MAX,
        ensures
            claims_data.is_complete() ==> ({
                &&& refreshed matches Ok(claims)
                &&& claims@ == issued(claims_data, now)
                &&& final(self)@ == with_claims(old(self)@, claims.user_id, claims@)
            }),
            !claims_data.is_complete() ==> refreshed == Err::<Claims, AuthError>(
                AuthError::UserInfoNotFound,
            ) && final(self)@ == old(self)@,
            sessions_well_formed(final(self)@),
    {
        proof {
            use_type_invariant(&*self);
        }
        match get_claims(claims_data, now) {
            Ok(claims) => {
                self.update_claims(claims.user_id, claims.clone());
                Ok(claims)
            },
            Err(e) => Err(e),
        }
    }

    /// The permission code of `user_id` on `canvas_id`. An unknown user and
    /// an unlisted canvas both give the empty string.
    pub fn get_permission_level(&self, user_id: i64, canvas_id: &str) -> (code: String)
        ensures
            code@ == permission_level(self@, user_id, canvas_id@),
    {
        match self.inner.get(&user_id) {
            Some(session) => session.claims.permission_on(canvas_id),
            None => String::new(),
        }
    }
}

/// Whether `connection` is among `connections`.
fn holds(
    connections: &Vec<IdentifiableWebSocket>,
    connection: IdentifiableWebSocket,
) -> (found: bool)
    ensures
        found == connections@.contains(connection),
{
    let mut i: usize = 0;
    while i < connections.len()
        invariant
            i <= connections.len(),
            forall|j: int| 0 <= j < i ==> connections@[j] != connection,
        decreases connections.len() - i,
    {
        if connections[i].id == connection.id {
            return true;
        }
        i = i + 1;
    }
    false
}

/// The connections other than `connection`, in order.
fn without(
    connections: &Vec<IdentifiableWebSocket>,
    connection: IdentifiableWebSocket,
) -> (rest: Vec<IdentifiableWebSocket>)
    ensures
        rest@ == connections@.filter(is_other_connection(connection)),
{
    let mut rest: Vec<IdentifiableWebSocket> = Vec::new();
    let mut i: usize = 0;
    proof {
        reveal(Seq::filter);
    }
    assert(connections@.take(0).filter(is_other_connection(connection)) =~= Seq::empty());
    while i < connections.len()
        invariant
            i <= connections.len(),
            rest@ == connections@.take(i as int).filter(is_other_connection(connection)),
        decreases connections.len() - i,
    {
        proof {
            lemma_filter_push(
                connections@.take(i as int),
                connections@[i as int],
                is_other_connection(connection),
            );
            assert(connections@.take(i as int).push(connections@[i as int]) =~= connections@.take(
                i + 1,
            ));
        }
        if connections[i].id != connection.id {
            rest.push(connections[i]);
        }
        i = i + 1;
    }
    assert(connections@.take(connections.len() as int) =~= connections@);
    rest
}

/// A second connection of a user who has an entry neither adds an entry
/// nor touches the cached claims, whatever claims come with it; all it
/// adds is the connection.
pub proof fn lemma_second_connection_keeps_claims(
    sessions: Map<i64, SessionView>,
    user_id: i64,
    claims: ClaimsView,
    connection: IdentifiableWebSocket,
)
    requires
        sessions.contains_key(user_id),
    ensures
        attached(sessions, user_id, claims, connection).dom() == sessions.dom(),
        attached(sessions, user_id, claims, connection)[user_id].claims == sessions[user_id].claims,
        attached(sessions, user_id, claims, connection)[user_id].connections.contains(connection),
        forall|other: i64|
            other != user_id && sessions.contains_key(other) ==> attached(
                sessions,
                user_id,
                claims,
                connection,
            )[other] == sessions[other],
{
    let after = attached(sessions, user_id, claims, connection);
    assert(after.dom() =~= sessions.dom());
    if !sessions[user_id].connections.contains(connection) {
        let pushed = sessions[user_id].connections.push(connection);
        assert(pushed[pushed.len() - 1] == connection);
    }
}

/// Attaching, replacing claims and detaching each lead from a well-formed
/// registry to a well-formed one.
pub proof fn lemma_registry_stays_well_formed(
    sessions: Map<i64, SessionView>,
    user_id: i64,
    claims: ClaimsView,
    connection: IdentifiableWebSocket,
)
    requires
        sessions_well_formed(sessions),
    ensures
        sessions_well_formed(attached(sessions, user_id, claims, connection)),
        sessions_well_formed(with_claims(sessions, user_id, claims)),
        sessions_well_formed(detached(sessions, user_id, connection)),
{
    if sessions.contains_key(user_id) {
        let held = sessions[user_id].connections;
        lemma_filter_keeps(held, is_other_connection(connection));
        if !held.contains(connection) {
            lemma_push_no_duplicates(held, connection);
        }
    } else {
        assert(seq![connection].no_duplicates());
    }
    let a = attached(sessions, user_id, claims, connection);
    assert forall|u: i64| #[trigger] a.contains_key(u) implies a[u].connections.len() > 0
        && a[u].connections.no_duplicates() by {
        if u != user_id {
            assert(sessions.contains_key(u));
        }
    }
    let w = with_claims(sessions, user_id, claims);
    assert forall|u: i64| #[trigger] w.contains_key(u) implies w[u].connections.len() > 0
        && w[u].connections.no_duplicates() by {
        assert(sessions.contains_key(u));
    }
    let d = detached(sessions, user_id, connection);
    assert forall|u: i64| #[trigger] d.contains_key(u) implies d[u].connections.len() > 0
        && d[u].connections.no_duplicates() by {
        assert(sessions.contains_key(u));
    }
}

/// Once its only connection is detached, a user has no entry and so no
/// permission on any canvas.
pub proof fn lemma_detached_user_has_no_permission(
    sessions: Map<i64, SessionView>,
    user_id: i64,
    connection: IdentifiableWebSocket,
    canvas_id: Seq<char>,
)
    requires
        sessions.contains_key(user_id),
        sessions[user_id].connections == seq![connection],
    ensures
        !detached(sessions, user_id, connection).contains_key(user_id),
        permission_level(detached(sessions, user_id, connection), user_id, canvas_id)
            == Seq::<char>::empty(),
{
    reveal_with_fuel(Seq::filter, 2);
    let held = seq![connection];
    assert(held.drop_last() =~= Seq::<IdentifiableWebSocket>::empty());
    assert(held.filter(is_other_connection(connection)) =~= Seq::<IdentifiableWebSocket>::empty());
}

} // verus!
