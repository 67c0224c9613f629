use login_flow::codec::decode_session;
use login_flow::codec::encode_session;
use login_flow::errors::LoginError;
use login_flow::persister::prepare_session_record;
use login_flow::persister::session_saved_message;
use login_flow::session::build_persisted_session;
use login_flow::session::ClientSession;
use login_flow::session::PersistedSession;
use login_flow::session::UserSession;

fn client_session() -> ClientSession {
    ClientSession {
        homeserver: "https://example.org".to_owned(),
        db_path: "/home/user/.local/share/client/db".to_owned(),
        passphrase: "SECRET-REDACTED".to_owned(),
    }
}

fn user_session() -> UserSession {
    UserSession {
        user_id: "@alice:example.org".to_owned(),
        device_id: "DEVICEID".to_owned(),
        access_token: "SECRET-REDACTED".to_owned(),
        refresh_token: None,
    }
}

fn assert_sessions_equal(a: &PersistedSession, b: &PersistedSession) {
    assert_eq!(a.client_session.homeserver, b.client_session.homeserver);
    assert_eq!(a.client_session.db_path, b.client_session.db_path);
    assert_eq!(a.client_session.passphrase, b.client_session.passphrase);
    assert_eq!(a.user_session.user_id, b.user_session.user_id);
    assert_eq!(a.user_session.device_id, b.user_session.device_id);
    assert_eq!(a.user_session.access_token, b.user_session.access_token);
    assert_eq!(a.user_session.refresh_token, b.user_session.refresh_token);
    assert_eq!(a.sync_token, b.sync_token);
}

#[test]
fn session_round_trips_through_the_codec() {
    let original = PersistedSession {
        client_session: client_session(),
        user_session: user_session(),
        sync_token: None,
    };
    let text = encode_session(&original);
    let back = decode_session(&text).unwrap();
    assert_sessions_equal(&original, &back);
}

#[test]
fn session_with_refresh_and_sync_tokens_round_trips() {
    let mut user = user_session();
    user.refresh_token = Some("SECRET-REDACTED".to_owned());
    let original = PersistedSession {
        client_session: client_session(),
        user_session: user,
        sync_token: Some("s72594_4483_1934".to_owned()),
    };
    let text = encode_session(&original);
    let back = decode_session(&text).unwrap();
    assert_sessions_equal(&original, &back);
}

#[test]
fn session_with_empty_fields_round_trips() {
    let original = PersistedSession {
        client_session: ClientSession {
            homeserver: String::new(),
            db_path: String::new(),
            passphrase: String::new(),
        },
        user_session: UserSession {
            user_id: String::new(),
            device_id: String::new(),
            access_token: String::new(),
            refresh_token: Some(String::new()),
        },
        sync_token: None,
    };
    let text = encode_session(&original);
    let back = decode_session(&text).unwrap();
    assert_sessions_equal(&original, &back);
}

#[test]
fn decoder_rejects_malformed_input() {
    assert!(decode_session("").is_none());
    assert!(decode_session("S1").is_none());
    assert!(decode_session("not a session").is_none());
    assert!(decode_session("S1x").is_none());
    assert!(decode_session("S15:abc").is_none());
}

#[test]
fn decoder_rejects_trailing_input() {
    let original = PersistedSession {
        client_session: client_session(),
        user_session: user_session(),
        sync_token: None,
    };
    let mut text = encode_session(&original);
    text.push('x');
    assert!(decode_session(&text).is_none());
}

#[test]
fn persistence_before_authentication_fails_loudly() {
    let r = build_persisted_session(client_session(), None);
    assert!(matches!(r, Err(LoginError::NotAuthenticated)));
    let r2 = prepare_session_record(client_session(), None);
    assert!(matches!(r2, Err(LoginError::NotAuthenticated)));
}

#[test]
fn fresh_records_have_no_sync_cursor() {
    let p = build_persisted_session(client_session(), Some(user_session())).unwrap();
    assert_eq!(p.sync_token, None);
}

#[test]
fn prepared_record_matches_the_codec() {
    let record = prepare_session_record(client_session(), Some(user_session())).unwrap();
    let direct = encode_session(&PersistedSession {
        client_session: client_session(),
        user_session: user_session(),
        sync_token: None,
    });
    assert_eq!(record, direct);
}

#[test]
fn saved_message_names_the_path() {
    assert_eq!(
        session_saved_message("/tmp/session.dat"),
        "Session persisted in /tmp/session.dat"
    );
}

#[test]
fn error_messages_are_stable() {
    assert_eq!(
        LoginError::NoCompatibleLoginMethod.message(),
        "Homeserver login types incompatible with this client"
    );
    assert_eq!(LoginError::InvalidUserSelection.message(), "This is not a valid choice");
    assert_eq!(
        LoginError::NotAuthenticated.message(),
        "A logged-in client should have a session"
    );
    assert_eq!(
        LoginError::PersistenceFailure.message(),
        "The session could not be persisted"
    );
    assert_eq!(
        LoginError::TransportOrProtocolFailure.message(),
        "A network or protocol error occurred"
    );
    assert_eq!(
        LoginError::CredentialRejected.message(),
        "Error logging in: the credentials were rejected"
    );
}
