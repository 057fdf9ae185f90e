//! Fresh room ids, drawn with ruma_identifiers.
use ruma_identifiers::RoomId;
use vstd::prelude::*;

verus! {

pub open spec fn is_alphanumeric(c: char) -> bool {
    ('a' <= c <= 'z') || ('A' <= c <= 'Z') || ('0' <= c <= '9')
}

/// What `RoomId::new` writes after `!`, the 18 drawn characters and `:` for a
/// server name: the host as the url crate normalises it, with `:` and the port
/// unless it is 443; none where the id would not parse or be too long. Both
/// depend on the server name alone.
pub uninterp spec fn room_id_host(domain: Seq<char>) -> Option<Seq<char>>;

/// Relies on `ruma_identifiers::RoomId::new` and its `Display`: a random id
/// written as `!`, 18 ASCII alphanumeric characters, `:` and the host as the
/// url crate normalises it (with its port unless 443), or nothing where the
/// host does not parse. Two calls may give different ids.
#[verifier::external_body]
pub(crate) fn generate_room_id(domain: &String) -> (r: Option<String>)
    ensures
        (r is Some) == (room_id_host(domain@) is Some),
        r is Some ==> r->Some_0@.len() > 20 && r->Some_0@[0] == '!' && r->Some_0@[19] == ':',
        r is Some ==> r->Some_0@.subrange(20, r->Some_0@.len() as int) == room_id_host(domain@)->Some_0,
        r is Some ==> forall|k: int| 1 <= k < 19 ==> is_alphanumeric(#[trigger] r->Some_0@[k]),
{
    RoomId::new(domain).ok().map(|id| id.to_string())
}

} // verus!
