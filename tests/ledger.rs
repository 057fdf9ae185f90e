use ruma::membership::{Ledger, Membership};
use ruma::room::{CreateRoomRequest, CreationContent, RoomPreset, JoinRule};

#[test]
fn latest_event_decides_membership() {
    let mut ledger = Ledger::new();
    let room = "!r:ruma.test".to_string();
    let alice = "@alice:ruma.test".to_string();
    let bob = "@bob:ruma.test".to_string();

    ledger.record(&room, &alice, &bob, Membership::Invite).unwrap();
    ledger.record(&room, &alice, &alice, Membership::Join).unwrap();
    ledger.record(&room, &bob, &bob, Membership::Knock).unwrap();
    ledger.record(&room, &alice, &alice, Membership::Leave).unwrap();

    assert_eq!(ledger.current_state(&room, &alice), Some(Membership::Leave));
    assert_eq!(ledger.current_state(&room, &bob), Some(Membership::Knock));
    assert_eq!(ledger.current_state(&"!other:ruma.test".to_string(), &alice), None);
    assert_eq!(ledger.events.len(), 4);
    assert_eq!(ledger.events[0].membership, Membership::Invite);
}

#[test]
fn orderings_follow_appends() {
    let mut ledger = Ledger::new();
    let room = "!r:ruma.test".to_string();
    let carol = "@carol:ruma.test".to_string();

    assert_eq!(ledger.record(&room, &carol, &carol, Membership::Join), Some(0));
    assert_eq!(ledger.record(&room, &carol, &carol, Membership::Ban), Some(1));
    assert_eq!(ledger.current_state(&room, &carol), Some(Membership::Ban));
}

#[test]
fn membership_names() {
    assert_eq!(Membership::Invite.as_str(), "invite");
    assert_eq!(Membership::Join.as_str(), "join");
    assert_eq!(Membership::Leave.as_str(), "leave");
    assert_eq!(Membership::Ban.as_str(), "ban");
    assert_eq!(Membership::Knock.as_str(), "knock");
}

fn request(visibility: Option<&str>) -> CreateRoomRequest {
    CreateRoomRequest {
        creation_content: None,
        invite: None,
        name: None,
        preset: None,
        room_alias_name: None,
        topic: None,
        visibility: visibility.map(|v| v.to_string()),
    }
}

#[test]
fn validate_accepts_known_visibilities() {
    assert!(request(None).validate().is_ok());
    assert!(request(Some("public")).validate().is_ok());
    assert!(request(Some("private")).validate().is_ok());
    assert!(request(Some("Public")).validate().is_err());
    assert!(request(Some("")).validate().is_err());
}

#[test]
fn creation_options_defaults() {
    let options = request(None).creation_options();
    assert!(!options.public);
    assert!(options.federate);
    assert_eq!(options.preset, RoomPreset::PrivateChat);

    let options = request(Some("public")).creation_options();
    assert!(options.public);
    assert_eq!(options.preset, RoomPreset::PublicChat);
}

#[test]
fn creation_options_keep_explicit_values() {
    let mut req = request(Some("public"));
    req.creation_content = Some(CreationContent { federate: Some(false) });
    req.preset = Some(RoomPreset::TrustedPrivateChat);
    req.room_alias_name = Some("lobby".to_string());

    let options = req.creation_options();
    assert!(!options.federate);
    assert_eq!(options.preset, RoomPreset::TrustedPrivateChat);
    assert_eq!(options.alias, Some("lobby".to_string()));
    assert_eq!(options.preset.join_rule(), JoinRule::Invite);
    assert_eq!(RoomPreset::PublicChat.join_rule(), JoinRule::Public);
}
