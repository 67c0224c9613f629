use login_flow::choices::IdentityProvider;
use login_flow::choices::LoginChoice;
use login_flow::choices::menu_line;
use login_flow::choices::menu_lines;
use login_flow::errors::LoginError;
use login_flow::resolver::auto_selection;
use login_flow::resolver::parse_selection;
use login_flow::text::trim_line;

#[test]
fn single_candidate_is_selected_without_input() {
    assert_eq!(auto_selection(1), Some(0));
}

#[test]
fn several_candidates_need_input() {
    assert_eq!(auto_selection(2), None);
    assert_eq!(auto_selection(5), None);
}

#[test]
fn negative_input_is_retried() {
    let k = 3;
    assert_eq!(parse_selection("-1", k), Err(LoginError::InvalidUserSelection));
}

#[test]
fn non_numeric_input_is_retried() {
    let k = 3;
    assert_eq!(parse_selection("abc", k), Err(LoginError::InvalidUserSelection));
}

#[test]
fn out_of_range_input_is_retried() {
    let k = 3;
    let line = format!("{}", k);
    assert_eq!(parse_selection(&line, k), Err(LoginError::InvalidUserSelection));
}

#[test]
fn zero_selects_the_first_candidate() {
    let k = 3;
    assert_eq!(parse_selection("0", k), Ok(0));
}

#[test]
fn selection_input_is_trimmed() {
    assert_eq!(parse_selection(" 2\n", 3), Ok(2));
    assert_eq!(parse_selection("2", 3), Ok(2));
}

#[test]
fn empty_input_is_retried() {
    assert_eq!(parse_selection("", 3), Err(LoginError::InvalidUserSelection));
    assert_eq!(parse_selection("  \n", 3), Err(LoginError::InvalidUserSelection));
}

#[test]
fn huge_input_is_retried() {
    assert_eq!(
        parse_selection("99999999999999999999999999999", 3),
        Err(LoginError::InvalidUserSelection)
    );
}

#[test]
fn menu_lines_show_index_and_label() {
    assert_eq!(menu_line(0, &LoginChoice::Password), "0) Username and password");
    assert_eq!(menu_line(1, &LoginChoice::Sso), "1) SSO");
    let c = LoginChoice::SsoIdp(IdentityProvider {
        id: "oidc-github".to_owned(),
        name: "GitHub".to_owned(),
    });
    assert_eq!(menu_line(12, &c), "12) SSO via GitHub");
}

#[test]
fn whole_menu_is_rendered_in_order() {
    let choices = vec![
        LoginChoice::Sso,
        LoginChoice::Password,
        LoginChoice::SsoIdp(IdentityProvider {
            id: "oidc-github".to_owned(),
            name: "GitHub".to_owned(),
        }),
    ];
    let lines = menu_lines(&choices);
    assert_eq!(
        lines,
        vec!["0) SSO", "1) Username and password", "2) SSO via GitHub"]
    );
}

#[test]
fn input_lines_are_trimmed() {
    assert_eq!(trim_line("  alice\n"), "alice");
    assert_eq!(trim_line("\tbob \r\n"), "bob");
    assert_eq!(trim_line("carol"), "carol");
    assert_eq!(trim_line(" \t\r\n"), "");
}
