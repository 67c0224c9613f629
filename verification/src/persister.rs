//! The compute half of session persistence: assemble the durable record and
//! serialize it.  Writing the result to the destination path is the caller's
//! side of the boundary.

use vstd::prelude::*;

use crate::codec::encode_session;
use crate::codec::encode_spec;
use crate::errors::LoginError;
use crate::session::build_persisted_session;
use crate::session::ClientSession;
use crate::session::SessionData;
use crate::session::UserSession;

verus! {

/// Assemble and serialize the durable record of a successful run.  Succeeds
/// exactly when a user session exists; the record always starts with an
/// absent sync cursor.
pub fn prepare_session_record(client_session: ClientSession, user_session: Option<UserSession>) -> (r:
    Result<String, LoginError>)
    ensures
        match r {
            Ok(text) => user_session is Some && text@ == encode_spec(
                SessionData {
                    client_session: client_session.deep_view(),
                    user_session: user_session->Some_0.deep_view(),
                    sync_token: None,
                },
            ),
            Err(e) => e == LoginError::NotAuthenticated && user_session is None,
        },
{
    match build_persisted_session(client_session, user_session) {
        Ok(p) => Ok(encode_session(&p)),
        Err(e) => Err(e),
    }
}

/// The line reporting where the session record was written.
pub fn session_saved_message(path: &str) -> (r: String)
    ensures
        r@ == "Session persisted in "@ + path@,
{
    let mut s = "Session persisted in ".to_owned();
    s.append(path);
    s
}

} // verus!
