//! The session records: the connection-level descriptor produced when the
//! client is built, the server-issued proof of authentication, and the durable
//! record assembled from the two.

use vstd::prelude::*;

use crate::errors::LoginError;

verus! {

/// The data needed to rebuild the protocol connection later.  Produced by the
/// connection factory at build time; the login flow only threads it through.
pub struct ClientSession {
    /// The URL of the homeserver the connection is bound to.
    pub homeserver: String,
    /// The local data directory backing the connection's store.
    pub db_path: String,
    /// The passphrase protecting the store.
    pub passphrase: String,
}

/// The mathematical value of a [`ClientSession`].
pub struct ClientSessionData {
    pub homeserver: Seq<char>,
    pub db_path: Seq<char>,
    pub passphrase: Seq<char>,
}

impl DeepView for ClientSession {
    type V = ClientSessionData;

    open spec fn deep_view(&self) -> ClientSessionData {
        ClientSessionData {
            homeserver: self.homeserver@,
            db_path: self.db_path@,
            passphrase: self.passphrase@,
        }
    }
}

/// The server-issued proof of authentication, obtainable only from a
/// connection that completed an authenticator.
pub struct UserSession {
    /// The identifier of the authenticated user.
    pub user_id: String,
    /// The identifier of this device.
    pub device_id: String,
    /// The access credential issued for this session.
    pub access_token: String,
    /// The refresh credential, if the server issued one.
    pub refresh_token: Option<String>,
}

/// The mathematical value of a [`UserSession`].
pub struct UserSessionData {
    pub user_id: Seq<char>,
    pub device_id: Seq<char>,
    pub access_token: Seq<char>,
    pub refresh_token: Option<Seq<char>>,
}

impl DeepView for UserSession {
    type V = UserSessionData;

    open spec fn deep_view(&self) -> UserSessionData {
        UserSessionData {
            user_id: self.user_id@,
            device_id: self.device_id@,
            access_token: self.access_token@,
            refresh_token: self.refresh_token.deep_view(),
        }
    }
}

/// The durable artifact of a successful run: enough to reconstruct the
/// authenticated connection without repeating the login flow.
pub struct PersistedSession {
    /// The connection-level descriptor from build time.
    pub client_session: ClientSession,
    /// The server-issued user session.
    pub user_session: UserSession,
    /// The latest sync position; absent until the first sync.
    pub sync_token: Option<String>,
}

/// The mathematical value of a [`PersistedSession`].
pub struct SessionData {
    pub client_session: ClientSessionData,
    pub user_session: UserSessionData,
    pub sync_token: Option<Seq<char>>,
}

impl DeepView for PersistedSession {
    type V = SessionData;

    open spec fn deep_view(&self) -> SessionData {
        SessionData {
            client_session: self.client_session.deep_view(),
            user_session: self.user_session.deep_view(),
            sync_token: self.sync_token.deep_view(),
        }
    }
}

/// Assemble the durable record.  Authentication strictly precedes
/// persistence: a missing user session is an invariant violation, reported as
/// `NotAuthenticated` and never recovered from.  The sync cursor of a fresh
/// record is always absent.
pub fn build_persisted_session(client_session: ClientSession, user_session: Option<UserSession>) -> (r:
    Result<PersistedSession, LoginError>)
    ensures
        match r {
            Ok(p) => user_session is Some && p.deep_view() == (SessionData {
                client_session: client_session.deep_view(),
                user_session: user_session->Some_0.deep_view(),
                sync_token: None,
            }),
            Err(e) => e == LoginError::NotAuthenticated && user_session is None,
        },
{
    match user_session {
        Some(u) => Ok(
            PersistedSession { client_session, user_session: u, sync_token: None },
        ),
        None => Err(LoginError::NotAuthenticated),
    }
}

} // verus!
