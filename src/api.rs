//! The client API endpoints, as handlers over the server's state.
use crate::error::ApiError;
use crate::ids::{generate_room_id, room_id_host};
use crate::membership::{current_spec, Membership};
use crate::room::{is_public, visibility_valid, CreateRoomRequest};
use crate::server::{make_alias, room_created, Homeserver};
use crate::token::{verified_row, revoked_rows};
use vstd::prelude::*;

verus! {

/// The `/logout` endpoint.
pub struct Logout;

/// The `/createRoom` endpoint.
pub struct CreateRoom;

impl Logout {
    /// Revokes the presented token; a token that does not verify is refused.
    pub fn handle(&self, server: &mut Homeserver, access_token: &str) -> (r: Result<(), ApiError>)
        requires
            old(server).wf(),
        ensures
            final(server).wf(),
            (r is Ok) == (verified_row(old(server).tokens.rows@, old(server).secret_key@, access_token@) is Some),
            r is Err ==> r->Err_0 == ApiError::Unauthenticated && *final(server) == *old(server),
            r is Ok ==> final(server).tokens.rows@ == revoked_rows(old(server).tokens.rows@,
                verified_row(old(server).tokens.rows@, old(server).secret_key@, access_token@)->Some_0),
            final(server).secret_key == old(server).secret_key,
            final(server).domain == old(server).domain,
            final(server).users == old(server).users,
            final(server).rooms == old(server).rooms,
            final(server).aliases == old(server).aliases,
            final(server).state_events == old(server).state_events,
            final(server).ledger == old(server).ledger,
    {
        server.logout(access_token)
    }
}

impl CreateRoom {
    /// Creates a room under a freshly drawn id for the user the token belongs
    /// to. The token is checked first, then the request, then the alias; only
    /// then is the id drawn, namespaced by the server's domain. An id that cannot be drawn or is taken is a
    /// storage error.
    pub fn handle(&self, server: &mut Homeserver, access_token: &str, request: CreateRoomRequest) -> (r: Result<String, ApiError>)
        requires
            old(server).wf(),
        ensures
            final(server).wf(),
            r is Err ==> *final(server) == *old(server),
            (verified_row(old(server).tokens.rows@, old(server).secret_key@, access_token@) is None)
                == (r == Err::<String, ApiError>(ApiError::Unauthenticated)),
            verified_row(old(server).tokens.rows@, old(server).secret_key@, access_token@) is Some ==> {
                let user = old(server).tokens.rows@[verified_row(old(server).tokens.rows@,
                    old(server).secret_key@, access_token@)->Some_0].user_id@;
                &&& (!visibility_valid(request.visibility)) == (r == Err::<String, ApiError>(ApiError::BadJson))
                &&& (visibility_valid(request.visibility) && old(server).alias_conflict(request))
                    == (r == Err::<String, ApiError>(ApiError::AliasTaken))
                &&& visibility_valid(request.visibility) && !old(server).alias_conflict(request)
                    && room_id_host(old(server).domain@) is None ==> r == Err::<String, ApiError>(ApiError::Storage)
                &&& r is Ok ==> old(server).room_ok(request, r->Ok_0@)
                    && r->Ok_0@.len() > 20 && r->Ok_0@[0] == '!' && r->Ok_0@[19] == ':'
                    && Some(r->Ok_0@.subrange(20, r->Ok_0@.len() as int)) == room_id_host(old(server).domain@)
                    && room_created(*old(server), *final(server), user, request, r->Ok_0@)
            },
    {
        if let Err(e) = server.authenticate(access_token) {
            return Err(e);
        }
        let request = match request.validate() {
            Ok(req) => req,
            Err(e) => return Err(e),
        };
        if let Some(name) = &request.room_alias_name {
            if server.alias_taken(&make_alias(name, &server.domain)) {
                return Err(ApiError::AliasTaken);
            }
        }
        let room_id = match generate_room_id(&server.domain) {
            Some(id) => id,
            None => return Err(ApiError::Storage),
        };
        server.handle_create_room(access_token, request, room_id)
    }
}

} // verus!
