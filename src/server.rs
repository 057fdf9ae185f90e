//! The homeserver's state: tokens, rooms, aliases, room state and membership,
//! with the request handlers that change it.
use crate::error::ApiError;
use crate::password::{argon2_matches, hash_password, hashable, password_matches, well_formed_hash};
use crate::membership::{current_spec, Ledger, Membership, MembershipEvent};
use crate::room::{
    federate_spec, is_public, preset_spec, visibility_valid, CreateRoomRequest, HistoryVisibility, JoinRule,
};
use crate::token::{verified_row, revoked_rows, Identity, TokenStore};
use vstd::prelude::*;

verus! {

/// A user account. Accounts are deactivated, never deleted.
#[derive(Clone, Debug)]
pub struct User {
    pub id: String,
    pub password_hash: Vec<u8>,
    pub active: bool,
}

/// A room as stored.
#[derive(Clone, Debug)]
pub struct Room {
    pub id: String,
    /// The creator.
    pub user_id: String,
    pub public: bool,
}

/// A reserved alias and the room it names.
#[derive(Clone, Debug)]
pub struct RoomAlias {
    pub alias: String,
    pub room_id: String,
    pub user_id: String,
}

/// The content of a room state event.
#[derive(Clone, Debug)]
pub enum StateContent {
    Create { federate: bool },
    JoinRules(JoinRule),
    HistoryVisibility(HistoryVisibility),
    Name(String),
    Topic(String),
}

/// A room state event. Its event id is its place in the log.
#[derive(Clone, Debug)]
pub struct StateEvent {
    pub ordering: u64,
    pub room_id: String,
    pub sender: String,
    pub content: StateContent,
}

/// Everything the server stores.
pub struct Homeserver {
    /// The DNS name that ids are namespaced by.
    pub domain: String,
    /// The key that access tokens are signed with.
    pub secret_key: Vec<u8>,
    pub users: Vec<User>,
    pub tokens: TokenStore,
    pub rooms: Vec<Room>,
    pub aliases: Vec<RoomAlias>,
    pub state_events: Vec<StateEvent>,
    pub ledger: Ledger,
}

pub open spec fn room_exists(rooms: Seq<Room>, room_id: Seq<char>) -> bool {
    exists|i: int| 0 <= i < rooms.len() && #[trigger] rooms[i].id@ == room_id
}

pub open spec fn user_index(users: Seq<User>, user_id: Seq<char>) -> Option<int> {
    if exists|i: int| 0 <= i < users.len() && #[trigger] users[i].id@ == user_id {
        Some(choose|i: int| 0 <= i < users.len() && #[trigger] users[i].id@ == user_id)
    } else {
        None
    }
}

pub open spec fn alias_taken(aliases: Seq<RoomAlias>, alias: Seq<char>) -> bool {
    exists|i: int| 0 <= i < aliases.len() && #[trigger] aliases[i].alias@ == alias
}

pub open spec fn has_create(events: Seq<StateEvent>, room_id: Seq<char>) -> bool {
    exists|j: int| 0 <= j < events.len() && #[trigger] events[j].room_id@ == room_id
        && events[j].content is Create
}

/// The creator joined the room of their own accord.
pub open spec fn has_founding_join(events: Seq<MembershipEvent>, room_id: Seq<char>, user_id: Seq<char>) -> bool {
    exists|k: int| 0 <= k < events.len() && #[trigger] events[k].room_id@ == room_id
        && events[k].user_id@ == user_id && events[k].sender@ == user_id
        && events[k].membership == Membership::Join
}

/// The alias that a requested alias name stands for on this server.
pub open spec fn full_alias(name: Seq<char>, domain: Seq<char>) -> Seq<char> {
    "#"@ + name + ":"@ + domain
}

/// What a successful creation of room `room_id` for `creator` leaves: the room
/// row appended; its creation event, preset join rule and history visibility
/// appended after the earlier state events, which stay, then a name event and
/// a topic event exactly when a name and a topic were given; the creator's join
/// appended after the earlier membership events, which stay; the alias reserved
/// for the room if one was asked for; accounts, tokens, domain and key as they were.
pub open spec fn room_created(old: Homeserver, new: Homeserver, creator: Seq<char>, request: CreateRoomRequest, room_id: Seq<char>) -> bool {
    let n = old.state_events@.len() as int;
    let public = is_public(request.visibility);
    let named: int = if request.name is Some { 1 } else { 0 };
    let topics: int = if request.topic is Some { 1 } else { 0 };
    &&& !room_exists(old.rooms@, room_id)
    &&& new.rooms@.len() == old.rooms@.len() + 1
    &&& new.rooms@.drop_last() == old.rooms@
    &&& new.rooms@.last().id@ == room_id
    &&& new.rooms@.last().user_id@ == creator
    &&& new.rooms@.last().public == public
    &&& new.state_events@.len() == n + 3 + named + topics
    &&& new.state_events@.subrange(0, n) == old.state_events@
    &&& forall|j: int| n <= j < new.state_events@.len() ==> #[trigger] new.state_events@[j].room_id@ == room_id
        && new.state_events@[j].sender@ == creator
    &&& new.state_events@[n].content == StateContent::Create { federate: federate_spec(request.creation_content) }
    &&& new.state_events@[n + 1].content
        == StateContent::JoinRules(preset_spec(request.preset, public).join_rule_spec())
    &&& new.state_events@[n + 2].content == StateContent::HistoryVisibility(HistoryVisibility::Shared)
    &&& request.name is Some ==> new.state_events@[n + 3].content is Name
        && new.state_events@[n + 3].content->Name_0@ == request.name->Some_0@
    &&& request.topic is Some ==> new.state_events@[n + 3 + named].content is Topic
        && new.state_events@[n + 3 + named].content->Topic_0@ == request.topic->Some_0@
    &&& new.ledger.events@.drop_last() == old.ledger.events@
    &&& new.ledger.events@.len() == old.ledger.events@.len() + 1
    &&& new.ledger.events@.last().room_id@ == room_id
    &&& new.ledger.events@.last().user_id@ == creator
    &&& new.ledger.events@.last().sender@ == creator
    &&& new.ledger.events@.last().membership == Membership::Join
    &&& current_spec(new.ledger.events@, room_id, creator) == Some(Membership::Join)
    &&& (match request.room_alias_name {
        Some(name) => new.aliases@.drop_last() == old.aliases@
            && new.aliases@.len() == old.aliases@.len() + 1
            && new.aliases@.last().alias@ == full_alias(name@, old.domain@)
            && new.aliases@.last().room_id@ == room_id,
        None => new.aliases == old.aliases,
    })
    &&& new.tokens == old.tokens
    &&& new.users == old.users
    &&& new.domain == old.domain
    &&& new.secret_key == old.secret_key
}

/// A room exists exactly when its creation event and founding join exist.
pub open spec fn rooms_consistent(
    rooms: Seq<Room>,
    aliases: Seq<RoomAlias>,
    state: Seq<StateEvent>,
    members: Seq<MembershipEvent>,
) -> bool {
    &&& forall|i: int| 0 <= i < rooms.len() ==> has_create(state, #[trigger] rooms[i].id@)
        && has_founding_join(members, rooms[i].id@, rooms[i].user_id@)
    &&& forall|j: int| 0 <= j < state.len() ==> room_exists(rooms, #[trigger] state[j].room_id@)
    &&& forall|k: int| 0 <= k < members.len() ==> room_exists(rooms, #[trigger] members[k].room_id@)
    &&& forall|a: int| 0 <= a < aliases.len() ==> room_exists(rooms, #[trigger] aliases[a].room_id@)
}

impl Homeserver {
    pub open spec fn wf(&self) -> bool {
        &&& self.tokens.wf()
        &&& self.ledger.wf()
        &&& forall|i: int, j: int| 0 <= i < self.users@.len() && 0 <= j < self.users@.len() && i != j
            ==> #[trigger] self.users@[i].id@ != #[trigger] self.users@[j].id@
        &&& forall|i: int| 0 <= i < self.users@.len() ==> well_formed_hash(#[trigger] self.users@[i].password_hash@)
        &&& forall|j: int| 0 <= j < self.state_events@.len() ==> #[trigger] self.state_events@[j].ordering == j
        &&& forall|i: int, j: int| 0 <= i < self.rooms@.len() && 0 <= j < self.rooms@.len() && i != j
            ==> #[trigger] self.rooms@[i].id@ != #[trigger] self.rooms@[j].id@
        &&& forall|i: int, j: int| 0 <= i < self.aliases@.len() && 0 <= j < self.aliases@.len() && i != j
            ==> #[trigger] self.aliases@[i].alias@ != #[trigger] self.aliases@[j].alias@
        &&& rooms_consistent(self.rooms@, self.aliases@, self.state_events@, self.ledger.events@)
    }

    /// A server with nothing stored yet.
    pub fn new(domain: String, secret_key: Vec<u8>) -> (r: Homeserver)
        ensures
            r.wf(),
            r.domain@ == domain@,
            r.secret_key@ == secret_key@,
            r.tokens.rows@.len() == 0,
            r.rooms@.len() == 0,
    {
        Homeserver {
            domain,
            secret_key,
            users: Vec::new(),
            tokens: TokenStore::new(),
            rooms: Vec::new(),
            aliases: Vec::new(),
            state_events: Vec::new(),
            ledger: Ledger::new(),
        }
    }
}

/// Adding one room, together with events and aliases of that room alone,
/// keeps the rooms consistent once its creation event and founding join are in.
proof fn lemma_consistent_after_room(
    rooms: Seq<Room>, aliases: Seq<RoomAlias>, state: Seq<StateEvent>, members: Seq<MembershipEvent>,
    room: Room, aliases2: Seq<RoomAlias>, state2: Seq<StateEvent>, members2: Seq<MembershipEvent>,
)
    requires
        rooms_consistent(rooms, aliases, state, members),
        aliases.len() <= aliases2.len() && aliases2.subrange(0, aliases.len() as int) == aliases,
        state.len() <= state2.len() && state2.subrange(0, state.len() as int) == state,
        members.len() <= members2.len() && members2.subrange(0, members.len() as int) == members,
        forall|a: int| aliases.len() <= a < aliases2.len() ==> #[trigger] aliases2[a].room_id@ == room.id@,
        forall|j: int| state.len() <= j < state2.len() ==> #[trigger] state2[j].room_id@ == room.id@,
        forall|k: int| members.len() <= k < members2.len() ==> #[trigger] members2[k].room_id@ == room.id@,
        has_create(state2, room.id@),
        has_founding_join(members2, room.id@, room.user_id@),
    ensures
        rooms_consistent(rooms.push(room), aliases2, state2, members2),
{
    let rooms2 = rooms.push(room);
    let n = rooms.len() as int;
    assert(rooms2[n] == room);
    assert forall|i: int| 0 <= i < rooms2.len() implies has_create(state2, #[trigger] rooms2[i].id@)
        && has_founding_join(members2, rooms2[i].id@, rooms2[i].user_id@) by {
        if i < n {
            assert(rooms2[i] == rooms[i]);
            assert(has_create(state, rooms[i].id@));
            let j = choose|j: int| 0 <= j < state.len() && #[trigger] state[j].room_id@ == rooms[i].id@
                && state[j].content is Create;
            assert(state2[j] == state2.subrange(0, state.len() as int)[j]);
            assert(has_founding_join(members, rooms[i].id@, rooms[i].user_id@));
            let k = choose|k: int| 0 <= k < members.len() && #[trigger] members[k].room_id@ == rooms[i].id@
                && members[k].user_id@ == rooms[i].user_id@ && members[k].sender@ == rooms[i].user_id@
                && members[k].membership == Membership::Join;
            assert(members2[k] == members2.subrange(0, members.len() as int)[k]);
        }
    }
    assert forall|j: int| 0 <= j < state2.len() implies room_exists(rooms2, #[trigger] state2[j].room_id@) by {
        if j < state.len() {
            assert(state2[j] == state2.subrange(0, state.len() as int)[j]);
            let i = choose|i: int| 0 <= i < rooms.len() && #[trigger] rooms[i].id@ == state[j].room_id@;
            assert(rooms2[i] == rooms[i]);
        } else {
            assert(rooms2[n].id@ == state2[j].room_id@);
        }
    }
    assert forall|k: int| 0 <= k < members2.len() implies room_exists(rooms2, #[trigger] members2[k].room_id@) by {
        if k < members.len() {
            assert(members2[k] == members2.subrange(0, members.len() as int)[k]);
            let i = choose|i: int| 0 <= i < rooms.len() && #[trigger] rooms[i].id@ == members[k].room_id@;
            assert(rooms2[i] == rooms[i]);
        } else {
            assert(rooms2[n].id@ == members2[k].room_id@);
        }
    }
    assert forall|a: int| 0 <= a < aliases2.len() implies room_exists(rooms2, #[trigger] aliases2[a].room_id@) by {
        if a < aliases.len() {
            assert(aliases2[a] == aliases2.subrange(0, aliases.len() as int)[a]);
            let i = choose|i: int| 0 <= i < rooms.len() && #[trigger] rooms[i].id@ == aliases[a].room_id@;
            assert(rooms2[i] == rooms[i]);
        } else {
            assert(rooms2[n].id@ == aliases2[a].room_id@);
        }
    }
}

/// Appends a state event numbered by its place in the log. Every event from
/// `from` on belongs to the room, before and after.
fn push_state(events: &mut Vec<StateEvent>, room_id: &String, sender: &String, content: StateContent, Ghost(from): Ghost<int>)
    requires
        0 <= from <= old(events)@.len(),
        old(events)@.len() < u64::MAX,
        forall|j: int| 0 <= j < old(events)@.len() ==> #[trigger] old(events)@[j].ordering == j,
        forall|j: int| from <= j < old(events)@.len() ==> #[trigger] old(events)@[j].room_id@ == room_id@
            && old(events)@[j].sender@ == sender@,
    ensures
        final(events)@.len() == old(events)@.len() + 1,
        forall|j: int| 0 <= j < old(events)@.len() ==> #[trigger] final(events)@[j] == old(events)@[j],
        forall|j: int| 0 <= j < final(events)@.len() ==> #[trigger] final(events)@[j].ordering == j,
        forall|j: int| from <= j < final(events)@.len() ==> #[trigger] final(events)@[j].room_id@ == room_id@
            && final(events)@[j].sender@ == sender@,
        final(events)@.last().sender@ == sender@,
        final(events)@.last().content == content,
{
    let n = events.len();
    events.push(StateEvent { ordering: n as u64, room_id: room_id.clone(), sender: sender.clone(), content });
    assert(final(events)@[n as int].room_id@ == room_id@ && final(events)@[n as int].sender@ == sender@);
}

/// The alias that a requested alias name stands for on the domain.
pub fn make_alias(name: &String, domain: &String) -> (r: String)
    ensures
        r@ == full_alias(name@, domain@),
{
    let mut r = "#".to_owned();
    r.append(name.as_str());
    r.append(":");
    r.append(domain.as_str());
    r
}

impl Homeserver {
    /// Whether a room with the id is stored.
    pub fn room_exists(&self, room_id: &String) -> (r: bool)
        ensures
            r == room_exists(self.rooms@, room_id@),
    {
        let mut i: usize = 0;
        while i < self.rooms.len()
            invariant
                i <= self.rooms@.len(),
                forall|j: int| 0 <= j < i ==> #[trigger] self.rooms@[j].id@ != room_id@,
            decreases self.rooms@.len() - i,
        {
            if self.rooms[i].id == *room_id {
                return true;
            }
            i = i + 1;
        }
        false
    }

    /// Whether the alias is reserved.
    pub fn alias_taken(&self, alias: &String) -> (r: bool)
        ensures
            r == alias_taken(self.aliases@, alias@),
    {
        let mut i: usize = 0;
        while i < self.aliases.len()
            invariant
                i <= self.aliases@.len(),
                forall|j: int| 0 <= j < i ==> #[trigger] self.aliases@[j].alias@ != alias@,
            decreases self.aliases@.len() - i,
        {
            if self.aliases[i].alias == *alias {
                return true;
            }
            i = i + 1;
        }
        false
    }

    /// The room creation will succeed unless the alias is taken.
    pub open spec fn room_ok(&self, request: CreateRoomRequest, room_id: Seq<char>) -> bool {
        &&& visibility_valid(request.visibility)
        &&& !self.alias_conflict(request)
        &&& !room_exists(self.rooms@, room_id)
        &&& self.state_events@.len() + 5 < u64::MAX
        &&& self.ledger.events@.len() + 1 < u64::MAX
    }

    pub open spec fn alias_conflict(&self, request: CreateRoomRequest) -> bool {
        request.room_alias_name is Some
            && alias_taken(self.aliases@, full_alias(request.room_alias_name->Some_0@, self.domain@))
    }

    /// Creates a room with the given fresh id for the creator, all at once:
    /// the room, its creation event, its preset's initial state, the creator's
    /// join and the alias, if one was asked for. On any error nothing changes.
    pub fn create_room(&mut self, creator: &String, request: CreateRoomRequest, room_id: String) -> (r: Result<String, ApiError>)
        requires
            old(self).wf(),
        ensures
            final(self).wf(),
            r is Ok <==> old(self).room_ok(request, room_id@),
            r is Err ==> *final(self) == *old(self),
            !visibility_valid(request.visibility) ==> r == Err::<String, ApiError>(ApiError::BadJson),
            visibility_valid(request.visibility) && old(self).alias_conflict(request)
                ==> r == Err::<String, ApiError>(ApiError::AliasTaken),
            visibility_valid(request.visibility) && !old(self).alias_conflict(request) && r is Err
                ==> r->Err_0 == ApiError::Storage,
            r is Ok ==> r->Ok_0@ == room_id@ && room_created(*old(self), *final(self), creator@, request, room_id@),
    {
        let request = match request.validate() {
            Ok(req) => req,
            Err(e) => return Err(e),
        };
        let alias = match &request.room_alias_name {
            Some(name) => {
                let alias = make_alias(name, &self.domain);
                if self.alias_taken(&alias) {
                    return Err(ApiError::AliasTaken);
                }
                Some(alias)
            },
            None => None,
        };
        if self.room_exists(&room_id) {
            return Err(ApiError::Storage);
        }
        if self.state_events.len() as u64 >= u64::MAX - 5 || self.ledger.events.len() as u64 >= u64::MAX - 1 {
            return Err(ApiError::Storage);
        }
        let ghost before = *self;
        let options = request.creation_options();
        let room = Room { id: room_id.clone(), user_id: creator.clone(), public: options.public };
        self.rooms.push(room);
        let ghost s0 = self.state_events@;
        push_state(&mut self.state_events, &room_id, creator, StateContent::Create { federate: options.federate }, Ghost(s0.len() as int));
        let ghost created = self.state_events@;
        push_state(&mut self.state_events, &room_id, creator, StateContent::JoinRules(options.preset.join_rule()), Ghost(s0.len() as int));
        let ghost ruled = self.state_events@;
        push_state(&mut self.state_events, &room_id, creator,
            StateContent::HistoryVisibility(options.preset.history_visibility()), Ghost(s0.len() as int));
        assert(self.state_events@[s0.len() as int] == created[s0.len() as int]);
        assert(self.state_events@[(s0.len() + 1) as int] == ruled[(s0.len() + 1) as int]);
        let ghost three = self.state_events@;
        if let Some(name) = options.name {
            push_state(&mut self.state_events, &room_id, creator, StateContent::Name(name), Ghost(s0.len() as int));
        }
        assert(self.state_events@[s0.len() as int] == three[s0.len() as int]);
        assert(self.state_events@[(s0.len() + 1) as int] == three[(s0.len() + 1) as int]);
        assert(self.state_events@[(s0.len() + 2) as int] == three[(s0.len() + 2) as int]);
        let ghost after_name = self.state_events@;
        if let Some(topic) = options.topic {
            push_state(&mut self.state_events, &room_id, creator, StateContent::Topic(topic), Ghost(s0.len() as int));
        }
        assert(self.state_events@[s0.len() as int] == three[s0.len() as int]);
        assert(self.state_events@[(s0.len() + 1) as int] == three[(s0.len() + 1) as int]);
        assert(self.state_events@[(s0.len() + 2) as int] == three[(s0.len() + 2) as int]);
        assert(self.state_events@.len() > s0.len() + 3 && after_name.len() > s0.len() + 3
            ==> self.state_events@[(s0.len() + 3) as int] == after_name[(s0.len() + 3) as int]);
        let ghost m0 = self.ledger.events@;
        let _ = self.ledger.record(&room_id, creator, creator, Membership::Join);
        let ghost a0 = self.aliases@;
        if let Some(alias) = alias {
            self.aliases.push(RoomAlias { alias, room_id: room_id.clone(), user_id: creator.clone() });
            assert(self.aliases@.last().alias@ == full_alias(request.room_alias_name->Some_0@, self.domain@));
        }
        proof {
            let state = self.state_events@;
            let members = self.ledger.events@;
            let n = s0.len() as int;
            assert(state[n].content is Create && state[n].room_id@ == room_id@);
            assert(has_create(state, room_id@));
            assert(members.drop_last() == m0);
            assert(members =~= m0.push(members.last()));
            assert(members[m0.len() as int] == members.last());
            assert(has_founding_join(members, room_id@, creator@));
            crate::membership::lemma_latest_event_decides(m0, members.last(), room_id@, creator@);
            assert(state.subrange(0, n) =~= s0);
            assert(members.subrange(0, m0.len() as int) =~= m0);
            assert(self.aliases@.subrange(0, a0.len() as int) =~= a0);
            assert(self.rooms@ =~= before.rooms@.push(self.rooms@.last()));
            lemma_consistent_after_room(before.rooms@, before.aliases@, s0, m0, self.rooms@.last(),
                self.aliases@, state, members);
            assert forall|i: int, j: int| 0 <= i < self.rooms@.len() && 0 <= j < self.rooms@.len() && i != j
                implies #[trigger] self.rooms@[i].id@ != #[trigger] self.rooms@[j].id@ by {
                if i < before.rooms@.len() && j < before.rooms@.len() {
                    assert(self.rooms@[i] == before.rooms@[i] && self.rooms@[j] == before.rooms@[j]);
                } else if i < before.rooms@.len() {
                    assert(self.rooms@[i] == before.rooms@[i]);
                } else {
                    assert(self.rooms@[j] == before.rooms@[j]);
                }
            }
            assert forall|i: int, j: int| 0 <= i < self.aliases@.len() && 0 <= j < self.aliases@.len() && i != j
                implies #[trigger] self.aliases@[i].alias@ != #[trigger] self.aliases@[j].alias@ by {
                if i < a0.len() && j < a0.len() {
                    assert(self.aliases@[i] == a0[i] && self.aliases@[j] == a0[j]);
                } else if i < a0.len() {
                    assert(self.aliases@[i] == a0[i]);
                } else {
                    assert(self.aliases@[j] == a0[j]);
                }
            }
        }
        proof {
            let old_s = before;
            let n = s0.len() as int;
            let st = self.state_events@;
            assert(self.rooms@.drop_last() =~= old_s.rooms@);
            assert(st.subrange(0, n) == s0);
            assert(st[n].content == StateContent::Create { federate: federate_spec(request.creation_content) });
            assert(st[n + 1].content == StateContent::JoinRules(preset_spec(request.preset, is_public(request.visibility)).join_rule_spec()));
            assert(st[n + 2].content == StateContent::HistoryVisibility(HistoryVisibility::Shared));
            assert(self.ledger.events@.drop_last() == m0);
            assert(self.ledger.events@.last().membership == Membership::Join);
        }
        Ok(room_id)
    }
}

impl Homeserver {
    /// The place of the user's account, if there is one.
    pub fn find_user(&self, user_id: &String) -> (r: Option<usize>)
        requires
            self.wf(),
        ensures
            r is Some <==> user_index(self.users@, user_id@) is Some,
            r is Some ==> r->Some_0 as int == user_index(self.users@, user_id@)->Some_0,
    {
        let mut i: usize = 0;
        while i < self.users.len()
            invariant
                self.wf(),
                i <= self.users@.len(),
                forall|j: int| 0 <= j < i ==> #[trigger] self.users@[j].id@ != user_id@,
            decreases self.users@.len() - i,
        {
            if self.users[i].id == *user_id {
                proof {
                    let c = choose|j: int| 0 <= j < self.users@.len() && #[trigger] self.users@[j].id@ == user_id@;
                    assert(self.users@[c].id@ == self.users@[i as int].id@);
                    assert(c == i as int);
                }
                return Some(i);
            }
            i = i + 1;
        }
        None
    }

    /// Registers an active account whose password is stored as a salted hash.
    pub fn register(&mut self, user_id: String, password: &String, salt: &Vec<u8>) -> (r: Result<(), ApiError>)
        requires
            old(self).wf(),
        ensures
            final(self).wf(),
            r is Ok <==> hashable(password@, salt@) && user_index(old(self).users@, user_id@) is None,
            r is Err ==> *final(self) == *old(self),
            !hashable(password@, salt@) ==> r == Err::<(), ApiError>(ApiError::BadJson),
            hashable(password@, salt@) && r is Err ==> r->Err_0 == ApiError::Storage,
            r is Ok ==> {
                &&& final(self).users@.drop_last() == old(self).users@
                &&& final(self).users@.last().id@ == user_id@
                &&& final(self).users@.last().active
                &&& final(self).users@.last().password_hash@ == crate::password::argon2_encoded(password@, salt@)
                &&& final(self).tokens == old(self).tokens
                &&& final(self).rooms == old(self).rooms
            },
    {
        if salt.len() < 8 || salt.len() > 0xffff_ffff || password.as_str().unicode_len() > 0x3fff_ffff {
            return Err(ApiError::BadJson);
        }
        if self.find_user(&user_id).is_some() {
            return Err(ApiError::Storage);
        }
        let ghost old_users = self.users@;
        let password_hash = hash_password(password, salt);
        self.users.push(User { id: user_id, password_hash, active: true });
        proof {
            assert(self.users@.drop_last() =~= old_users);
            assert(well_formed_hash(self.users@.last().password_hash@));
            assert forall|i: int, j: int| 0 <= i < self.users@.len() && 0 <= j < self.users@.len() && i != j
                implies #[trigger] self.users@[i].id@ != #[trigger] self.users@[j].id@ by {
                if i < old_users.len() && j < old_users.len() {
                    assert(self.users@[i] == old_users[i] && self.users@[j] == old_users[j]);
                } else if i < old_users.len() {
                    assert(self.users@[i] == old_users[i]);
                } else {
                    assert(self.users@[j] == old_users[j]);
                }
            }
            assert forall|i: int| 0 <= i < self.users@.len() implies well_formed_hash(#[trigger] self.users@[i].password_hash@) by {
                if i < old_users.len() {
                    assert(self.users@[i] == old_users[i]);
                }
            }
        }
        Ok(())
    }

    /// The user may log in: the account exists, is active, and the password
    /// matches its stored hash.
    pub open spec fn credentials_valid(&self, user_id: Seq<char>, password: Seq<char>) -> bool {
        &&& user_index(self.users@, user_id) is Some
        &&& self.users@[user_index(self.users@, user_id)->Some_0].active
        &&& argon2_matches(self.users@[user_index(self.users@, user_id)->Some_0].password_hash@, password)
    }

    /// Checks the user's password and issues an access token under the fresh
    /// identifier.
    pub fn login(&mut self, user_id: &String, password: &String, identifier: String) -> (r: Result<String, ApiError>)
        requires
            old(self).wf(),
        ensures
            final(self).wf(),
            r is Err ==> *final(self) == *old(self),
            password@.len() <= 0x3fff_ffff && !old(self).credentials_valid(user_id@, password@)
                ==> r == Err::<String, ApiError>(ApiError::Unauthenticated),
            r is Ok ==> old(self).credentials_valid(user_id@, password@),
            password@.len() <= 0x3fff_ffff && old(self).credentials_valid(user_id@, password@)
                && crate::token::identifier_taken(old(self).tokens.rows@, identifier@)
                ==> r == Err::<String, ApiError>(ApiError::Storage),
            password@.len() <= 0x3fff_ffff && old(self).credentials_valid(user_id@, password@)
                && !crate::token::identifier_taken(old(self).tokens.rows@, identifier@)
                && old(self).tokens.rows@.len() < u64::MAX
                && 4 * identifier@.len() + 16 <= 65535
                && 4 * crate::token::user_caveat(user_id@).len() + 9 <= 65535
                ==> r is Ok,
            r is Ok ==> {
                &&& final(self).tokens.rows@.drop_last() == old(self).tokens.rows@
                &&& final(self).tokens.rows@.last().user_id@ == user_id@
                &&& final(self).tokens.rows@.last().identifier@ == identifier@
                &&& !final(self).tokens.rows@.last().revoked
                &&& final(self).tokens.rows@.last().value@ == r->Ok_0@
                &&& verified_row(final(self).tokens.rows@, final(self).secret_key@, r->Ok_0@)
                    == Some(old(self).tokens.rows@.len() as int)
            },
            final(self).secret_key == old(self).secret_key,
            final(self).domain == old(self).domain,
            final(self).users == old(self).users,
            final(self).rooms == old(self).rooms,
    {
        if password.as_str().unicode_len() > 0x3fff_ffff {
            return Err(ApiError::Unauthenticated);
        }
        let i = match self.find_user(user_id) {
            Some(i) => i,
            None => return Err(ApiError::Unauthenticated),
        };
        if !self.users[i].active {
            return Err(ApiError::Unauthenticated);
        }
        if !password_matches(&self.users[i].password_hash, password) {
            return Err(ApiError::Unauthenticated);
        }
        let ghost rows = self.tokens.rows@;
        let r = self.tokens.issue(&self.secret_key, user_id, identifier);
        proof {
            if r is Ok {
                crate::token::lemma_issued_token_verifies_until_revoked(rows, self.tokens.rows@.last(),
                    self.secret_key@, r->Ok_0@);
                assert(rows.push(self.tokens.rows@.last()) =~= self.tokens.rows@);
            }
        }
        r
    }

    /// Closes the account: it stays, but can no longer log in.
    pub fn deactivate(&mut self, user_id: &String) -> (r: Result<(), ApiError>)
        requires
            old(self).wf(),
        ensures
            final(self).wf(),
            r is Ok <==> user_index(old(self).users@, user_id@) is Some,
            r is Err ==> r->Err_0 == ApiError::Unauthenticated && *final(self) == *old(self),
            r is Ok ==> final(self).users@.len() == old(self).users@.len()
                && !final(self).users@[user_index(old(self).users@, user_id@)->Some_0].active
                && forall|j: int| 0 <= j < old(self).users@.len() && j != user_index(old(self).users@, user_id@)->Some_0
                    ==> #[trigger] final(self).users@[j] == old(self).users@[j],
    {
        let i = match self.find_user(user_id) {
            Some(i) => i,
            None => return Err(ApiError::Unauthenticated),
        };
        let ghost old_users = self.users@;
        let user = User {
            id: self.users[i].id.clone(),
            password_hash: self.users[i].password_hash.clone(),
            active: false,
        };
        self.users.set(i, user);
        proof {
            assert forall|a: int, b: int| 0 <= a < self.users@.len() && 0 <= b < self.users@.len() && a != b
                implies #[trigger] self.users@[a].id@ != #[trigger] self.users@[b].id@ by {
                assert(self.users@[a].id@ == old_users[a].id@ && self.users@[b].id@ == old_users[b].id@);
            }
            assert forall|a: int| 0 <= a < self.users@.len() implies well_formed_hash(#[trigger] self.users@[a].password_hash@) by {
                assert(self.users@[a].password_hash@ == old_users[a].password_hash@);
            }
        }
        Ok(())
    }

    /// Appends a membership change for a stored room; past events stay as
    /// they were, and the pair's current state becomes the new one.
    pub fn record_membership(&mut self, room_id: &String, user_id: &String, sender: &String, membership: Membership) -> (r: Result<u64, ApiError>)
        requires
            old(self).wf(),
        ensures
            final(self).wf(),
            r is Ok <==> room_exists(old(self).rooms@, room_id@) && old(self).ledger.events@.len() < u64::MAX,
            r is Err ==> r->Err_0 == ApiError::Storage && *final(self) == *old(self),
            r is Ok ==> {
                &&& r->Ok_0 == old(self).ledger.events@.len()
                &&& final(self).ledger.events@.drop_last() == old(self).ledger.events@
                &&& final(self).ledger.events@.last().sender@ == sender@
                &&& current_spec(final(self).ledger.events@, room_id@, user_id@) == Some(membership)
                &&& final(self).rooms == old(self).rooms
                &&& final(self).tokens == old(self).tokens
            },
    {
        if !self.room_exists(room_id) {
            return Err(ApiError::Storage);
        }
        if self.ledger.events.len() as u64 >= u64::MAX {
            return Err(ApiError::Storage);
        }
        let ghost m0 = self.ledger.events@;
        let recorded = self.ledger.record(room_id, user_id, sender, membership);
        proof {
            let members = self.ledger.events@;
            assert(members =~= m0.push(members.last()));
            crate::membership::lemma_latest_event_decides(m0, members.last(), room_id@, user_id@);
            assert forall|k: int| 0 <= k < members.len() implies room_exists(self.rooms@, #[trigger] members[k].room_id@) by {
                if k < m0.len() {
                    assert(members[k] == m0[k]);
                }
            }
            assert forall|i: int| 0 <= i < self.rooms@.len() implies
                has_founding_join(members, #[trigger] self.rooms@[i].id@, self.rooms@[i].user_id@) by {
                assert(has_create(self.state_events@, self.rooms@[i].id@));
                let k = choose|k: int| 0 <= k < m0.len() && #[trigger] m0[k].room_id@ == self.rooms@[i].id@
                    && m0[k].user_id@ == self.rooms@[i].user_id@ && m0[k].sender@ == self.rooms@[i].user_id@
                    && m0[k].membership == Membership::Join;
                assert(members[k] == m0[k]);
            }
        }
        match recorded {
            Some(ordering) => Ok(ordering),
            None => Err(ApiError::Storage),
        }
    }

    /// Resolves a presented token into the identity it was issued to.
    pub fn authenticate(&self, token: &str) -> (r: Result<Identity, ApiError>)
        requires
            self.wf(),
        ensures
            (r is Ok) == (verified_row(self.tokens.rows@, self.secret_key@, token@) is Some),
            r is Ok ==> r->Ok_0.token_id as int == verified_row(self.tokens.rows@, self.secret_key@, token@)->Some_0
                && r->Ok_0.user_id@ == self.tokens.rows@[r->Ok_0.token_id as int].user_id@,
            r is Err ==> r->Err_0 == ApiError::Unauthenticated,
    {
        self.tokens.verify(&self.secret_key, token)
    }

    /// The `/logout` endpoint: revokes the presented token.
    pub fn logout(&mut self, token: &str) -> (r: Result<(), ApiError>)
        requires
            old(self).wf(),
        ensures
            final(self).wf(),
            (r is Ok) == (verified_row(old(self).tokens.rows@, old(self).secret_key@, token@) is Some),
            r is Err ==> r->Err_0 == ApiError::Unauthenticated && *final(self) == *old(self),
            r is Ok ==> final(self).tokens.rows@ == revoked_rows(old(self).tokens.rows@,
                verified_row(old(self).tokens.rows@, old(self).secret_key@, token@)->Some_0),
            final(self).secret_key == old(self).secret_key,
            final(self).domain == old(self).domain,
            final(self).users == old(self).users,
            final(self).rooms == old(self).rooms,
            final(self).aliases == old(self).aliases,
            final(self).state_events == old(self).state_events,
            final(self).ledger == old(self).ledger,
    {
        let identity = match self.authenticate(token) {
            Ok(identity) => identity,
            Err(e) => return Err(e),
        };
        self.tokens.revoke(identity.token_id);
        Ok(())
    }

    /// The `/createRoom` endpoint: authenticates the presented token, then
    /// creates the room for its user.
    pub fn handle_create_room(&mut self, token: &str, request: CreateRoomRequest, room_id: String) -> (r: Result<String, ApiError>)
        requires
            old(self).wf(),
        ensures
            final(self).wf(),
            r is Err ==> *final(self) == *old(self),
            verified_row(old(self).tokens.rows@, old(self).secret_key@, token@) is None
                ==> r == Err::<String, ApiError>(ApiError::Unauthenticated),
            verified_row(old(self).tokens.rows@, old(self).secret_key@, token@) is Some ==> {
                let user = old(self).tokens.rows@[verified_row(old(self).tokens.rows@, old(self).secret_key@, token@)->Some_0].user_id@;
                &&& (r is Ok <==> old(self).room_ok(request, room_id@))
                &&& !visibility_valid(request.visibility) ==> r == Err::<String, ApiError>(ApiError::BadJson)
                &&& visibility_valid(request.visibility) && old(self).alias_conflict(request)
                    ==> r == Err::<String, ApiError>(ApiError::AliasTaken)
                &&& visibility_valid(request.visibility) && !old(self).alias_conflict(request) && r is Err
                    ==> r->Err_0 == ApiError::Storage
                &&& r is Ok ==> r->Ok_0@ == room_id@ && room_created(*old(self), *final(self), user, request, room_id@)
            },
    {
        let identity = match self.authenticate(token) {
            Ok(identity) => identity,
            Err(e) => return Err(e),
        };
        self.create_room(&identity.user_id, request, room_id)
    }
}

/// Once an alias is reserved, every later request for the same alias name
/// conflicts with it.
pub proof fn lemma_alias_reserved_once(server: Homeserver, request: CreateRoomRequest)
    requires
        request.room_alias_name is Some,
        alias_taken(server.aliases@, full_alias(request.room_alias_name->Some_0@, server.domain@)),
    ensures
        server.alias_conflict(request),
        !server.room_ok(request, request.room_alias_name->Some_0@),
{
}

} // verus!
