//! The data carried through the login flow: the server-advertised flows and
//! the selectable login choices they are mapped to.

use vstd::prelude::*;

use crate::digits::digits_of;
use crate::digits::digits_str;

verus! {

/// One SSO identity provider, as reported by the server.
pub struct IdentityProvider {
    /// Opaque stable identifier, used programmatically.
    pub id: String,
    /// Human-readable name, used for display only.
    pub name: String,
}

/// The mathematical value of an [`IdentityProvider`].
pub struct ProviderData {
    pub id: Seq<char>,
    pub name: Seq<char>,
}

impl DeepView for IdentityProvider {
    type V = ProviderData;

    open spec fn deep_view(&self) -> ProviderData {
        ProviderData { id: self.id@, name: self.name@ }
    }
}

impl Clone for IdentityProvider {
    fn clone(&self) -> (r: Self)
        ensures
            r.deep_view() == self.deep_view(),
    {
        IdentityProvider { id: self.id.clone(), name: self.name.clone() }
    }
}

/// One authentication flow advertised by the server.
pub enum LoginFlow {
    /// Username-and-password login.
    Password,
    /// SSO login, with the identity providers the server lists for it.
    Sso(Vec<IdentityProvider>),
    /// Token login; an implementation detail of SSO completion, never
    /// directly selectable.
    Token,
    /// Application-service login, not selectable by an interactive user.
    ApplicationService,
    /// Any flow kind this client does not know.
    Other,
}

/// The mathematical value of a [`LoginFlow`].
pub enum FlowData {
    Password,
    Sso(Seq<ProviderData>),
    Token,
    ApplicationService,
    Other,
}

impl DeepView for LoginFlow {
    type V = FlowData;

    open spec fn deep_view(&self) -> FlowData {
        match self {
            LoginFlow::Password => FlowData::Password,
            LoginFlow::Sso(ps) => FlowData::Sso(ps.deep_view()),
            LoginFlow::Token => FlowData::Token,
            LoginFlow::ApplicationService => FlowData::ApplicationService,
            LoginFlow::Other => FlowData::Other,
        }
    }
}

/// One selectable authentication method.
pub enum LoginChoice {
    /// Login with username and password.
    Password,
    /// Login with SSO.
    Sso,
    /// Login with a specific SSO identity provider.
    SsoIdp(IdentityProvider),
}

/// The mathematical value of a [`LoginChoice`].
pub enum ChoiceData {
    Password,
    Sso,
    SsoIdp(ProviderData),
}

impl DeepView for LoginChoice {
    type V = ChoiceData;

    open spec fn deep_view(&self) -> ChoiceData {
        match self {
            LoginChoice::Password => ChoiceData::Password,
            LoginChoice::Sso => ChoiceData::Sso,
            LoginChoice::SsoIdp(p) => ChoiceData::SsoIdp(p.deep_view()),
        }
    }
}

/// The display label of a login choice.
pub open spec fn label_of(c: ChoiceData) -> Seq<char> {
    match c {
        ChoiceData::Password => "Username and password"@,
        ChoiceData::Sso => "SSO"@,
        ChoiceData::SsoIdp(p) => "SSO via "@ + p.name,
    }
}

/// One line of the disambiguation menu: the index, a closing parenthesis, and
/// the label of the choice.
pub open spec fn menu_line_of(idx: nat, c: ChoiceData) -> Seq<char> {
    digits_of(idx) + ") "@ + label_of(c)
}

impl LoginChoice {
    /// The display label of this choice.
    pub fn label(&self) -> (r: String)
        ensures
            r@ == label_of(self.deep_view()),
    {
        match self {
            LoginChoice::Password => "Username and password".to_owned(),
            LoginChoice::Sso => "SSO".to_owned(),
            LoginChoice::SsoIdp(p) => {
                let mut s = "SSO via ".to_owned();
                s.append(p.name.as_str());
                s
            },
        }
    }
}

/// The menu line offering choice `c` under index `idx`.
pub fn menu_line(idx: usize, c: &LoginChoice) -> (r: String)
    ensures
        r@ == menu_line_of(idx as nat, c.deep_view()),
{
    let mut s = digits_str(idx);
    s.append(") ");
    let label = c.label();
    s.append(label.as_str());
    s
}

/// The whole disambiguation menu, one line per choice, indexed from zero.
pub fn menu_lines(choices: &Vec<LoginChoice>) -> (r: Vec<String>)
    ensures
        r.len() == choices.len(),
        forall|k: int|
            0 <= k < choices.len() ==> (#[trigger] r@[k])@ == menu_line_of(
                k as nat,
                choices.deep_view()[k],
            ),
{
    let mut out: Vec<String> = Vec::new();
    let n = choices.len();
    let mut i: usize = 0;
    while i < n
        invariant
            i <= n == choices.len(),
            out.len() == i,
            forall|k: int|
                0 <= k < i ==> (#[trigger] out@[k])@ == menu_line_of(
                    k as nat,
                    choices.deep_view()[k],
                ),
        decreases n - i,
    {
        let line = menu_line(i, &choices[i]);
        out.push(line);
        i = i + 1;
    }
    out
}

} // verus!
