use ruma::error::ApiError;
use ruma::room::{CreateRoomRequest, CreationContent};
use ruma::server::Homeserver;
use serde_json::Value;

fn secret_key() -> Vec<u8> {
    (0u8..32).collect()
}

struct Test {
    server: Homeserver,
}

impl Test {
    fn new() -> Test {
        Test { server: Homeserver::new("ruma.test".to_string(), secret_key()) }
    }

    fn create_access_token(&mut self) -> String {
        let password = "secret".to_string();
        let salt = b"saltsaltsalt".to_vec();
        self.server.register("@carl:ruma.test".to_string(), &password, &salt).unwrap();
        self.server.login(&"@carl:ruma.test".to_string(), &password, "token-1".to_string()).unwrap()
    }

    /// Posts a JSON body to `/createRoom` and returns the JSON response.
    fn create_room(&mut self, access_token: &str, body: &str) -> Value {
        let result = match request_from_json(body) {
            Some(request) => ruma::api::CreateRoom.handle(&mut self.server, access_token, request),
            None => Err(ApiError::BadJson),
        };
        let mut map = serde_json::Map::new();
        match result {
            Ok(room_id) => {
                map.insert("room_id".to_string(), Value::String(room_id));
            }
            Err(error) => {
                map.insert("errcode".to_string(), Value::String(error.errcode().to_string()));
            }
        }
        Value::Object(map)
    }
}

fn opt_string(value: &Value, key: &str) -> Option<String> {
    value.get(key).and_then(|v| v.as_str()).map(|s| s.to_string())
}

fn request_from_json(body: &str) -> Option<CreateRoomRequest> {
    let value: Value = serde_json::from_str(body).ok()?;
    let creation_content = value.get("creation_content").map(|c| CreationContent {
        federate: c.get("m.federate").and_then(|f| f.as_bool()),
    });
    Some(CreateRoomRequest {
        creation_content,
        invite: None,
        name: opt_string(&value, "name"),
        preset: None,
        room_alias_name: opt_string(&value, "room_alias_name"),
        topic: opt_string(&value, "topic"),
        visibility: opt_string(&value, "visibility"),
    })
}

#[test]
fn no_parameters() {
    let mut test = Test::new();
    let access_token = test.create_access_token();

    let response = test.create_room(&access_token, "{}");

    assert!(response.get("room_id").unwrap().as_str().is_some());
}

#[test]
fn with_room_alias() {
    let mut test = Test::new();
    let access_token = test.create_access_token();

    let response = test.create_room(&access_token, r#"{"room_alias_name": "my_room"}"#);

    assert!(response.get("room_id").unwrap().as_str().is_some());
}

#[test]
fn with_public_visibility() {
    let mut test = Test::new();
    let access_token = test.create_access_token();

    let response = test.create_room(&access_token, r#"{"visibility": "public"}"#);

    assert!(response.get("room_id").unwrap().as_str().is_some());
}

#[test]
fn with_private_visibility() {
    let mut test = Test::new();
    let access_token = test.create_access_token();

    let response = test.create_room(&access_token, r#"{"visibility": "private"}"#);

    assert!(response.get("room_id").unwrap().as_str().is_some());
}

#[test]
fn with_invalid_visibility() {
    let mut test = Test::new();
    let access_token = test.create_access_token();

    let response = test.create_room(&access_token, r#"{"visibility": "bogus"}"#);

    assert_eq!(
        response.get("errcode").unwrap().as_str().unwrap(),
        "M_BAD_JSON"
    );
}

#[test]
fn invalid_visibility_creates_no_room() {
    let mut test = Test::new();
    let access_token = test.create_access_token();

    test.create_room(&access_token, r#"{"visibility": "bogus"}"#);

    assert_eq!(test.server.rooms.len(), 0);
    assert_eq!(test.server.ledger.events.len(), 0);
}

#[test]
fn default_visibility_is_private() {
    let mut test = Test::new();
    let access_token = test.create_access_token();

    test.create_room(&access_token, "{}");
    test.create_room(&access_token, r#"{"visibility": "public"}"#);
    test.create_room(&access_token, r#"{"visibility": "private"}"#);

    assert!(!test.server.rooms[0].public);
    assert!(test.server.rooms[1].public);
    assert!(!test.server.rooms[2].public);
}

#[test]
fn second_alias_claim_conflicts_and_first_room_stays() {
    let mut test = Test::new();
    let access_token = test.create_access_token();

    let first = test.create_room(&access_token, r#"{"room_alias_name": "foo"}"#);
    let first_id = first.get("room_id").unwrap().as_str().unwrap().to_string();
    let rooms_before = test.server.rooms.len();
    let events_before = test.server.state_events.len();
    let members_before = test.server.ledger.events.len();

    let second = test.create_room(&access_token, r#"{"room_alias_name": "foo"}"#);

    assert_eq!(second.get("errcode").unwrap().as_str().unwrap(), "M_ROOM_IN_USE");
    assert_eq!(test.server.rooms.len(), rooms_before);
    assert_eq!(test.server.state_events.len(), events_before);
    assert_eq!(test.server.ledger.events.len(), members_before);
    assert!(test.server.room_exists(&first_id));
    assert_eq!(test.server.aliases[0].alias, "#foo:ruma.test");
    assert_eq!(test.server.aliases[0].room_id, first_id);
}

#[test]
fn creator_joins_created_room() {
    let mut test = Test::new();
    let access_token = test.create_access_token();

    let response = test.create_room(&access_token, r#"{"name": "Lounge", "topic": "chat"}"#);
    let room_id = response.get("room_id").unwrap().as_str().unwrap().to_string();

    let state = test.server.ledger.current_state(&room_id, &"@carl:ruma.test".to_string());
    assert_eq!(state, Some(ruma::membership::Membership::Join));
    assert_eq!(test.server.rooms[0].user_id, "@carl:ruma.test");
    assert_eq!(test.server.state_events.len(), 5);
}

#[test]
fn taken_room_id_is_a_storage_error() {
    let mut test = Test::new();
    let access_token = test.create_access_token();
    let request = request_from_json("{}").unwrap();
    let again = request_from_json("{}").unwrap();

    let first = test.server.handle_create_room(&access_token, request, "!same:ruma.test".to_string());
    let second = test.server.handle_create_room(&access_token, again, "!same:ruma.test".to_string());

    assert_eq!(first, Ok("!same:ruma.test".to_string()));
    assert_eq!(second, Err(ApiError::Storage));
    assert_eq!(test.server.rooms.len(), 1);
}

#[test]
fn create_room_needs_a_valid_token() {
    let mut test = Test::new();
    test.create_access_token();
    let request = request_from_json("{}").unwrap();

    let result = test.server.handle_create_room("not a token", request, "!r:ruma.test".to_string());

    assert_eq!(result, Err(ApiError::Unauthenticated));
    assert_eq!(test.server.rooms.len(), 0);
}

#[test]
fn endpoint_draws_a_fresh_room_id() {
    let mut test = Test::new();
    let access_token = test.create_access_token();

    let first = ruma::api::CreateRoom.handle(&mut test.server, &access_token, request_from_json("{}").unwrap()).unwrap();
    let second = ruma::api::CreateRoom.handle(&mut test.server, &access_token, request_from_json("{}").unwrap()).unwrap();

    assert!(first.starts_with('!'));
    assert!(first.ends_with(":ruma.test"));
    assert_eq!(&first[19..], ":ruma.test");
    assert_eq!(first.len(), "!:ruma.test".len() + 18);
    assert_ne!(first, second);
    assert_eq!(test.server.rooms.len(), 2);
}

#[test]
fn endpoint_rejects_bad_visibility_before_drawing() {
    let mut test = Test::new();
    let access_token = test.create_access_token();

    let result = ruma::api::CreateRoom.handle(&mut test.server, &access_token, request_from_json(r#"{"visibility": "bogus"}"#).unwrap());

    assert_eq!(result, Err(ApiError::BadJson));
    assert_eq!(test.server.rooms.len(), 0);
}

#[test]
fn logout_endpoint_revokes() {
    let mut test = Test::new();
    let access_token = test.create_access_token();

    assert_eq!(ruma::api::Logout.handle(&mut test.server, &access_token), Ok(()));
    assert_eq!(ruma::api::Logout.handle(&mut test.server, &access_token), Err(ApiError::Unauthenticated));
    assert!(test.server.tokens.rows[0].revoked);
}

#[test]
fn membership_changes_in_a_row_keep_the_latest() {
    let mut test = Test::new();
    let access_token = test.create_access_token();
    let response = test.create_room(&access_token, "{}");
    let room_id = response.get("room_id").unwrap().as_str().unwrap().to_string();
    let carl = "@carl:ruma.test".to_string();
    let dana = "@dana:ruma.test".to_string();

    assert_eq!(test.server.record_membership(&room_id, &dana, &carl, ruma::membership::Membership::Invite), Ok(1));
    assert_eq!(test.server.record_membership(&room_id, &dana, &dana, ruma::membership::Membership::Join), Ok(2));
    assert_eq!(test.server.record_membership(&room_id, &dana, &dana, ruma::membership::Membership::Leave), Ok(3));

    assert_eq!(test.server.ledger.current_state(&room_id, &dana), Some(ruma::membership::Membership::Leave));
    assert_eq!(test.server.ledger.current_state(&room_id, &carl), Some(ruma::membership::Membership::Join));
}

#[test]
fn membership_needs_a_stored_room() {
    let mut test = Test::new();
    let carl = "@carl:ruma.test".to_string();

    let result = test.server.record_membership(&"!nowhere:ruma.test".to_string(), &carl, &carl, ruma::membership::Membership::Join);

    assert_eq!(result, Err(ApiError::Storage));
    assert_eq!(test.server.ledger.events.len(), 0);
}

#[test]
fn name_and_topic_events_follow_the_preset_state() {
    let mut test = Test::new();
    let access_token = test.create_access_token();

    test.create_room(&access_token, r#"{"name": "Lounge"}"#);
    test.create_room(&access_token, r#"{"topic": "chat"}"#);
    test.create_room(&access_token, "{}");

    let events = &test.server.state_events;
    assert_eq!(events.len(), 4 + 4 + 3);
    assert!(matches!(&events[3].content, ruma::server::StateContent::Name(n) if n == "Lounge"));
    assert!(matches!(events[4].content, ruma::server::StateContent::Create { federate: true }));
    assert!(matches!(&events[7].content, ruma::server::StateContent::Topic(t) if t == "chat"));
    assert!(matches!(events[8].content, ruma::server::StateContent::Create { .. }));
}

#[test]
fn federate_flag_and_join_rule_are_recorded() {
    let mut test = Test::new();
    let access_token = test.create_access_token();

    test.create_room(&access_token, r#"{"visibility": "public", "creation_content": {"m.federate": false}}"#);

    let events = &test.server.state_events;
    assert!(matches!(events[0].content, ruma::server::StateContent::Create { federate: false }));
    assert!(matches!(events[1].content, ruma::server::StateContent::JoinRules(ruma::room::JoinRule::Public)));
}
