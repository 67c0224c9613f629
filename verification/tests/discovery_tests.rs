use login_flow::choices::IdentityProvider;
use login_flow::choices::LoginChoice;
use login_flow::choices::LoginFlow;
use login_flow::discovery::discover_choices;
use login_flow::errors::LoginError;

fn provider(id: &str, name: &str) -> IdentityProvider {
    IdentityProvider { id: id.to_owned(), name: name.to_owned() }
}

#[test]
fn discovery_password_and_plain_sso() {
    let flows = vec![LoginFlow::Password, LoginFlow::Sso(Vec::new())];
    let choices = discover_choices(&flows).unwrap();
    assert_eq!(choices.len(), 2);
    assert!(matches!(choices[0], LoginChoice::Password));
    assert!(matches!(choices[1], LoginChoice::Sso));
}

#[test]
fn discovery_ignores_token_and_appservice_flows() {
    let flows = vec![
        LoginFlow::Token,
        LoginFlow::Password,
        LoginFlow::ApplicationService,
        LoginFlow::Other,
    ];
    let choices = discover_choices(&flows).unwrap();
    assert_eq!(choices.len(), 1);
    assert!(matches!(choices[0], LoginChoice::Password));
}

#[test]
fn discovery_with_nothing_usable_fails() {
    let flows = vec![LoginFlow::Token, LoginFlow::ApplicationService, LoginFlow::Other];
    let r = discover_choices(&flows);
    assert!(matches!(r, Err(LoginError::NoCompatibleLoginMethod)));
}

#[test]
fn discovery_of_empty_flow_list_fails() {
    let flows: Vec<LoginFlow> = Vec::new();
    let r = discover_choices(&flows);
    assert!(matches!(r, Err(LoginError::NoCompatibleLoginMethod)));
}

#[test]
fn discovery_sso_providers_in_server_order() {
    let flows = vec![LoginFlow::Sso(vec![
        provider("oidc-github", "GitHub"),
        provider("oidc-gitlab", "GitLab"),
    ])];
    let choices = discover_choices(&flows).unwrap();
    assert_eq!(choices.len(), 2);
    match &choices[0] {
        LoginChoice::SsoIdp(p) => assert_eq!(p.id, "oidc-github"),
        _ => panic!("expected a provider-scoped choice"),
    }
    match &choices[1] {
        LoginChoice::SsoIdp(p) => assert_eq!(p.id, "oidc-gitlab"),
        _ => panic!("expected a provider-scoped choice"),
    }
    for c in &choices {
        assert!(!matches!(c, LoginChoice::Sso));
    }
}

#[test]
fn discovery_of_wellformed_answer_has_no_duplicates() {
    let flows = vec![
        LoginFlow::Password,
        LoginFlow::Sso(vec![provider("idp-a", "A"), provider("idp-b", "B")]),
    ];
    let choices = discover_choices(&flows).unwrap();
    assert_eq!(choices.len(), 3);
    for i in 0..choices.len() {
        for j in (i + 1)..choices.len() {
            let same = match (&choices[i], &choices[j]) {
                (LoginChoice::Password, LoginChoice::Password) => true,
                (LoginChoice::Sso, LoginChoice::Sso) => true,
                (LoginChoice::SsoIdp(p), LoginChoice::SsoIdp(q)) => p.id == q.id,
                _ => false,
            };
            assert!(!same);
        }
    }
}

#[test]
fn discovery_mirrors_a_repeated_flow() {
    // The mapping is faithful to the server's answer: a flow advertised twice
    // is offered twice.
    let flows = vec![LoginFlow::Password, LoginFlow::Password];
    let choices = discover_choices(&flows).unwrap();
    assert_eq!(choices.len(), 2);
    assert!(matches!(choices[0], LoginChoice::Password));
    assert!(matches!(choices[1], LoginChoice::Password));
}

#[test]
fn discovery_mixed_flows_keep_order() {
    let flows = vec![
        LoginFlow::Sso(vec![provider("idp1", "One")]),
        LoginFlow::Password,
    ];
    let choices = discover_choices(&flows).unwrap();
    assert_eq!(choices.len(), 2);
    assert!(matches!(choices[0], LoginChoice::SsoIdp(_)));
    assert!(matches!(choices[1], LoginChoice::Password));
}
