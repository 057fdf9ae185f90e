//! The membership ledger: an append-only record of membership changes.
use vstd::prelude::*;

verus! {

/// A user's relationship to a room at one point in time.
#[derive(Clone, Copy, Debug, PartialEq, Eq, Structural)]
pub enum Membership {
    Invite,
    Join,
    Leave,
    Ban,
    Knock,
}

impl Membership {
    /// The protocol's name of the state.
    pub fn as_str(&self) -> (r: &'static str)
        ensures
            r@ == self.name(),
    {
        match self {
            Membership::Invite => "invite",
            Membership::Join => "join",
            Membership::Leave => "leave",
            Membership::Ban => "ban",
            Membership::Knock => "knock",
        }
    }

    pub open spec fn name(&self) -> Seq<char> {
        match self {
            Membership::Invite => "invite"@,
            Membership::Join => "join"@,
            Membership::Leave => "leave"@,
            Membership::Ban => "ban"@,
            Membership::Knock => "knock"@,
        }
    }
}

/// One recorded membership change. Its event id is its place in the ledger.
#[derive(Clone, Debug)]
pub struct MembershipEvent {
    pub ordering: u64,
    pub room_id: String,
    /// The user whose membership changes.
    pub user_id: String,
    /// The user who made the change.
    pub sender: String,
    pub membership: Membership,
}

/// The append-only record of membership changes, in the order they were made.
pub struct Ledger {
    pub events: Vec<MembershipEvent>,
}

/// Every event's ordering is its place in the ledger.
pub open spec fn events_wf(events: Seq<MembershipEvent>) -> bool {
    forall|i: int| 0 <= i < events.len() ==> #[trigger] events[i].ordering == i
}

/// The state given by the latest event for the pair, if there is one.
pub open spec fn current_spec(events: Seq<MembershipEvent>, room_id: Seq<char>, user_id: Seq<char>) -> Option<Membership>
    decreases events.len(),
{
    if events.len() == 0 {
        None
    } else if events.last().room_id@ == room_id && events.last().user_id@ == user_id {
        Some(events.last().membership)
    } else {
        current_spec(events.drop_last(), room_id, user_id)
    }
}

impl Ledger {
    pub open spec fn wf(&self) -> bool {
        events_wf(self.events@)
    }

    pub fn new() -> (r: Ledger)
        ensures
            r.wf(),
            r.events@.len() == 0,
    {
        Ledger { events: Vec::new() }
    }

    /// Appends a membership change; past events are left as they were.
    pub fn record(&mut self, room_id: &String, user_id: &String, sender: &String, membership: Membership) -> (r: Option<u64>)
        requires
            old(self).wf(),
        ensures
            final(self).wf(),
            r is None <==> old(self).events@.len() >= u64::MAX,
            r is None ==> final(self).events@ == old(self).events@,
            r is Some ==> {
                &&& r->Some_0 == old(self).events@.len()
                &&& final(self).events@.len() == old(self).events@.len() + 1
                &&& final(self).events@.drop_last() == old(self).events@
                &&& final(self).events@.last().ordering == r->Some_0
                &&& final(self).events@.last().room_id@ == room_id@
                &&& final(self).events@.last().user_id@ == user_id@
                &&& final(self).events@.last().sender@ == sender@
                &&& final(self).events@.last().membership == membership
            },
    {
        let n = self.events.len();
        if n as u64 >= u64::MAX {
            return None;
        }
        let event = MembershipEvent {
            ordering: n as u64,
            room_id: room_id.clone(),
            user_id: user_id.clone(),
            sender: sender.clone(),
            membership,
        };
        self.events.push(event);
        proof {
            assert(self.events@.drop_last() =~= old(self).events@);
        }
        Some(n as u64)
    }

    /// The membership state that the latest event for the pair gives.
    pub fn current_state(&self, room_id: &String, user_id: &String) -> (r: Option<Membership>)
        ensures
            r == current_spec(self.events@, room_id@, user_id@),
    {
        let mut i: usize = self.events.len();
        proof {
            assert(self.events@.subrange(0, i as int) =~= self.events@);
        }
        while i > 0
            invariant
                i <= self.events@.len(),
                current_spec(self.events@, room_id@, user_id@)
                    == current_spec(self.events@.subrange(0, i as int), room_id@, user_id@),
            decreases i,
        {
            let e = &self.events[i - 1];
            proof {
                assert(self.events@.subrange(0, i as int).drop_last() =~= self.events@.subrange(0, i - 1));
            }
            if e.room_id == *room_id && e.user_id == *user_id {
                return Some(e.membership);
            }
            i = i - 1;
        }
        None
    }
}

/// The latest event for a pair decides its state, whatever came before it,
/// and leaves the state of every other pair as it was.
pub proof fn lemma_latest_event_decides(events: Seq<MembershipEvent>, e: MembershipEvent, room_id: Seq<char>, user_id: Seq<char>)
    ensures
        current_spec(events.push(e), e.room_id@, e.user_id@) == Some(e.membership),
        !(room_id == e.room_id@ && user_id == e.user_id@) ==>
            current_spec(events.push(e), room_id, user_id) == current_spec(events, room_id, user_id),
{
    assert(events.push(e).drop_last() =~= events);
}

} // verus!
