//! The `/createRoom` request, its validation and the options it resolves to.
use crate::error::ApiError;
use vstd::prelude::*;

verus! {

/// A named bundle of initial room configuration.
#[derive(Clone, Copy, Debug, PartialEq, Eq, Structural)]
pub enum RoomPreset {
    PrivateChat,
    PublicChat,
    TrustedPrivateChat,
}

/// Who may join a room without an invitation.
#[derive(Clone, Copy, Debug, PartialEq, Eq, Structural)]
pub enum JoinRule {
    Public,
    Invite,
}

/// Who may read a room's history.
#[derive(Clone, Copy, Debug, PartialEq, Eq, Structural)]
pub enum HistoryVisibility {
    Shared,
}

impl RoomPreset {
    pub open spec fn join_rule_spec(&self) -> JoinRule {
        match self {
            RoomPreset::PublicChat => JoinRule::Public,
            _ => JoinRule::Invite,
        }
    }

    /// The join rule of the preset's initial state.
    pub fn join_rule(&self) -> (r: JoinRule)
        ensures
            r == self.join_rule_spec(),
    {
        match self {
            RoomPreset::PublicChat => JoinRule::Public,
            _ => JoinRule::Invite,
        }
    }

    /// The history visibility of the preset's initial state.
    pub fn history_visibility(&self) -> (r: HistoryVisibility)
        ensures
            r == HistoryVisibility::Shared,
    {
        HistoryVisibility::Shared
    }
}

/// The `creation_content` of the request.
#[derive(Clone, Debug)]
pub struct CreationContent {
    /// `m.federate`: whether users of other servers may join.
    pub federate: Option<bool>,
}

/// The body of a `/createRoom` request.
#[derive(Clone, Debug)]
pub struct CreateRoomRequest {
    pub creation_content: Option<CreationContent>,
    pub invite: Option<Vec<String>>,
    pub name: Option<String>,
    pub preset: Option<RoomPreset>,
    pub room_alias_name: Option<String>,
    pub topic: Option<String>,
    pub visibility: Option<String>,
}

/// What a room is created with; not stored as such.
#[derive(Clone, Debug)]
pub struct CreationOptions {
    pub alias: Option<String>,
    pub federate: bool,
    pub invite_list: Option<Vec<String>>,
    pub name: Option<String>,
    pub preset: RoomPreset,
    pub public: bool,
    pub topic: Option<String>,
}

/// A visibility is either absent or one of the two the protocol knows.
pub open spec fn visibility_valid(visibility: Option<String>) -> bool {
    match visibility {
        Some(v) => v@ == "public"@ || v@ == "private"@,
        None => true,
    }
}

pub open spec fn is_public(visibility: Option<String>) -> bool {
    match visibility {
        Some(v) => v@ == "public"@,
        None => false,
    }
}

pub open spec fn federate_spec(content: Option<CreationContent>) -> bool {
    match content {
        Some(c) => match c.federate {
            Some(f) => f,
            None => true,
        },
        None => true,
    }
}

pub open spec fn preset_spec(preset: Option<RoomPreset>, public: bool) -> RoomPreset {
    match preset {
        Some(p) => p,
        None => if public { RoomPreset::PublicChat } else { RoomPreset::PrivateChat },
    }
}

pub open spec fn opt_view(s: Option<String>) -> Option<Seq<char>> {
    match s {
        Some(v) => Some(v@),
        None => None,
    }
}

pub open spec fn opt_list_view(s: Option<Vec<String>>) -> Option<Seq<Seq<char>>> {
    match s {
        Some(v) => Some(v.deep_view()),
        None => None,
    }
}

fn is_literal(s: &String, lit: &str) -> (r: bool)
    ensures
        r == (s@ == lit@),
{
    *s == lit.to_owned()
}

impl CreateRoomRequest {
    /// Accepts the request unless its visibility is neither "public" nor "private".
    pub fn validate(self) -> (r: Result<CreateRoomRequest, ApiError>)
        ensures
            visibility_valid(self.visibility) ==> r == Ok::<CreateRoomRequest, ApiError>(self),
            !visibility_valid(self.visibility) ==> r == Err::<CreateRoomRequest, ApiError>(ApiError::BadJson),
    {
        let bad = match &self.visibility {
            Some(v) => !is_literal(v, "public") && !is_literal(v, "private"),
            None => false,
        };
        if bad {
            Err(ApiError::BadJson)
        } else {
            Ok(self)
        }
    }

    /// The options a room is created with: private unless the visibility is
    /// "public", federated unless the content says otherwise, and the preset
    /// that matches the visibility unless one is given.
    pub fn creation_options(self) -> (r: CreationOptions)
        ensures
            r.public == is_public(self.visibility),
            r.federate == federate_spec(self.creation_content),
            r.preset == preset_spec(self.preset, is_public(self.visibility)),
            opt_view(r.alias) == opt_view(self.room_alias_name),
            opt_view(r.name) == opt_view(self.name),
            opt_view(r.topic) == opt_view(self.topic),
            opt_list_view(r.invite_list) == opt_list_view(self.invite),
    {
        let public = match &self.visibility {
            Some(v) => is_literal(v, "public"),
            None => false,
        };
        let federate = match &self.creation_content {
            Some(c) => match c.federate {
                Some(f) => f,
                None => true,
            },
            None => true,
        };
        let preset = match self.preset {
            Some(p) => p,
            None => if public { RoomPreset::PublicChat } else { RoomPreset::PrivateChat },
        };
        CreationOptions {
            alias: self.room_alias_name,
            federate,
            invite_list: self.invite,
            name: self.name,
            preset,
            public,
            topic: self.topic,
        }
    }
}

} // verus!
