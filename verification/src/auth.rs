//! The authenticator decisions: which authentication method a resolved choice
//! dispatches to, how the password loop reacts to each attempt's outcome, and
//! the messages the SSO flow surfaces.

use vstd::prelude::*;

use crate::choices::ChoiceData;
use crate::choices::LoginChoice;
use crate::errors::LoginError;

verus! {

/// The authentication method a resolved choice drives: password login, or SSO
/// with an optional identity-provider id that scopes the server's redirect.
pub enum AuthMethod {
    Password,
    Sso(Option<String>),
}

/// The mathematical value of an [`AuthMethod`].
pub enum MethodData {
    Password,
    Sso(Option<Seq<char>>),
}

impl DeepView for AuthMethod {
    type V = MethodData;

    open spec fn deep_view(&self) -> MethodData {
        match self {
            AuthMethod::Password => MethodData::Password,
            AuthMethod::Sso(idp) => MethodData::Sso(idp.deep_view()),
        }
    }
}

/// The method each choice dispatches to: the password choice to password
/// login; the generic SSO choice to SSO without a provider id; a
/// provider-scoped choice to SSO with that provider's id.
pub open spec fn method_of(c: ChoiceData) -> MethodData {
    match c {
        ChoiceData::Password => MethodData::Password,
        ChoiceData::Sso => MethodData::Sso(None),
        ChoiceData::SsoIdp(p) => MethodData::Sso(Some(p.id)),
    }
}

/// The authentication method the given choice drives.
pub fn dispatch_method(c: &LoginChoice) -> (m: AuthMethod)
    ensures
        m.deep_view() == method_of(c.deep_view()),
{
    match c {
        LoginChoice::Password => AuthMethod::Password,
        LoginChoice::Sso => AuthMethod::Sso(None),
        LoginChoice::SsoIdp(p) => AuthMethod::Sso(Some(p.id.clone())),
    }
}

/// The outcome of one password-authentication attempt, as reported by the
/// connection.
#[derive(Clone, Copy, Debug, PartialEq, Eq, Structural)]
pub enum PasswordOutcome {
    /// The server accepted the credentials.
    Accepted,
    /// The server rejected the credentials; fresh ones may be tried.
    CredentialRejected,
    /// A network or protocol error that is not credential-shaped.
    Fatal,
}

/// What the password loop does next.
#[derive(Clone, Copy, Debug, PartialEq, Eq, Structural)]
pub enum PasswordAction {
    /// Terminal success: report the authenticated username and stop.
    Finish,
    /// Print the error and prompt for fresh credentials, without limit.
    PromptAgain,
    /// Surface the failure to the caller; the run aborts.
    Abort(LoginError),
}

/// The password loop's reaction to each outcome: success finishes, a rejected
/// credential re-prompts indefinitely, anything else aborts the run.
pub open spec fn password_action_of(o: PasswordOutcome) -> PasswordAction {
    match o {
        PasswordOutcome::Accepted => PasswordAction::Finish,
        PasswordOutcome::CredentialRejected => PasswordAction::PromptAgain,
        PasswordOutcome::Fatal => PasswordAction::Abort(LoginError::TransportOrProtocolFailure),
    }
}

/// Decide how the password loop reacts to one attempt's outcome.
pub fn password_step(o: &PasswordOutcome) -> (a: PasswordAction)
    ensures
        a == password_action_of(*o),
{
    match o {
        PasswordOutcome::Accepted => PasswordAction::Finish,
        PasswordOutcome::CredentialRejected => PasswordAction::PromptAgain,
        PasswordOutcome::Fatal => PasswordAction::Abort(LoginError::TransportOrProtocolFailure),
    }
}

/// The display name given to a device the first time it logs in.
pub fn initial_device_display_name() -> (r: &'static str)
    ensures
        r@ == "login client"@,
{
    "login client"
}

/// The line surfacing the SSO redirect URL to the user.
pub open spec fn sso_url_prompt_of(url: Seq<char>) -> Seq<char> {
    "Open this URL in your browser: "@ + url
}

/// The line surfacing the SSO redirect URL to the user.
pub fn sso_url_prompt(url: &str) -> (r: String)
    ensures
        r@ == sso_url_prompt_of(url@),
{
    let mut s = "Open this URL in your browser: ".to_owned();
    s.append(url);
    s
}

/// The line reporting who was authenticated.
pub open spec fn logged_in_message_of(user: Seq<char>) -> Seq<char> {
    "Logged in as "@ + user
}

/// The line reporting who was authenticated.
pub fn logged_in_message(user: &str) -> (r: String)
    ensures
        r@ == logged_in_message_of(user@),
{
    let mut s = "Logged in as ".to_owned();
    s.append(user);
    s
}

} // verus!
