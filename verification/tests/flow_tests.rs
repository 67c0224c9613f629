//! End-to-end runs of the negotiation flow against stubbed collaborators.

use login_flow::auth::dispatch_method;
use login_flow::auth::password_step;
use login_flow::auth::sso_url_prompt;
use login_flow::auth::AuthMethod;
use login_flow::auth::PasswordAction;
use login_flow::auth::PasswordOutcome;
use login_flow::choices::LoginChoice;
use login_flow::choices::LoginFlow;
use login_flow::codec::decode_session;
use login_flow::discovery::discover_choices;
use login_flow::persister::prepare_session_record;
use login_flow::resolver::auto_selection;
use login_flow::resolver::parse_selection;
use login_flow::session::ClientSession;
use login_flow::session::UserSession;
use login_flow::text::trim_line;

fn client_session() -> ClientSession {
    ClientSession {
        homeserver: "https://example.org".to_owned(),
        db_path: "/data/store".to_owned(),
        passphrase: "SECRET-REDACTED".to_owned(),
    }
}

#[test]
fn password_only_server_logs_in_on_second_attempt() {
    // The server reports a single password flow.
    let flows = vec![LoginFlow::Password];
    let choices = discover_choices(&flows).unwrap();
    assert_eq!(choices.len(), 1);
    assert!(matches!(choices[0], LoginChoice::Password));

    // One candidate: the resolver auto-selects without consuming input.
    let selected = auto_selection(choices.len()).unwrap();
    assert_eq!(selected, 0);
    assert!(matches!(dispatch_method(&choices[selected]), AuthMethod::Password));

    // The user types wrong credentials, then correct ones.
    let attempts = vec![
        ("alice\n", "wrong", PasswordOutcome::CredentialRejected),
        ("alice\n", "correct", PasswordOutcome::Accepted),
    ];
    let mut prompts = 0;
    let mut logged_in: Option<String> = None;
    for (user_line, _password, outcome) in &attempts {
        prompts += 1;
        let username = trim_line(user_line);
        match password_step(outcome) {
            PasswordAction::Finish => {
                logged_in = Some(username);
                break;
            }
            PasswordAction::PromptAgain => continue,
            PasswordAction::Abort(e) => panic!("unexpected abort: {:?}", e),
        }
    }
    assert_eq!(prompts, 2);
    assert_eq!(logged_in.as_deref(), Some("alice"));

    // The authenticated connection yields a user session; persist it.
    let user = UserSession {
        user_id: "@alice:example.org".to_owned(),
        device_id: "DEVICEID".to_owned(),
        access_token: "SECRET-REDACTED".to_owned(),
        refresh_token: None,
    };
    let record = prepare_session_record(client_session(), Some(user)).unwrap();
    let stored = decode_session(&record).unwrap();
    assert_eq!(stored.user_session.user_id, "@alice:example.org");
    assert_eq!(stored.sync_token, None);
}

#[test]
fn sso_and_password_server_prompts_and_surfaces_url_once() {
    // The server reports SSO and password flows.
    let flows = vec![LoginFlow::Sso(Vec::new()), LoginFlow::Password];
    let choices = discover_choices(&flows).unwrap();
    assert_eq!(choices.len(), 2);
    assert!(matches!(choices[0], LoginChoice::Sso));
    assert!(matches!(choices[1], LoginChoice::Password));

    // Two candidates: no auto-selection, the resolver must prompt.
    assert_eq!(auto_selection(choices.len()), None);

    // Input "0" selects the SSO choice.
    let selected = parse_selection("0", choices.len()).unwrap();
    assert_eq!(selected, 0);
    assert!(matches!(dispatch_method(&choices[selected]), AuthMethod::Sso(None)));

    // The SSO operation invokes the URL callback exactly once before it
    // suspends for the out-of-band completion.
    let mut callback_runs = 0;
    let mut surfaced: Option<String> = None;
    let url = "https://example.org/_matrix/client/v3/login/sso/redirect?redirectUrl=http%3A%2F%2Flocalhost%3A1234";
    let mut callback = |u: &str| {
        callback_runs += 1;
        surfaced = Some(sso_url_prompt(u));
    };
    callback(url);
    assert_eq!(callback_runs, 1);
    let line = surfaced.unwrap();
    assert!(line.starts_with("Open this URL in your browser: https://"));
    assert!(line.ends_with(url));
}
