//! The decisions of the two request gates. The transport-facing layer
//! extracts the token from its carrier and runs these; it attaches the
//! resulting claims to the one request and nothing else.
use crate::domain::Claims;
use crate::domain::Role;
use crate::errors::GateError;
use crate::token::token_of;
use crate::token::token_shape_ok;
use crate::token::verify_token;
use vstd::prelude::*;

verus! {

/// The request-authentication decision: no token, or a token that fails
/// verification, is rejected as unauthenticated — the same answer for
/// every failure sub-kind, so nothing leaks about why a token failed.
/// A well-shaped unexpired token under the right secret is accepted with
/// exactly its embedded claims.
pub fn authenticate_request(token: Option<&str>, secret: &str, now: u64) -> (r: Result<
    Claims,
    GateError,
>)
    ensures
        token is None ==> r == Err::<Claims, GateError>(GateError::Unauthenticated),
        r is Err ==> r->Err_0 == GateError::Unauthenticated,
        r is Ok ==> (token matches Some(t) && t@ == token_of(r->Ok_0, secret@) && r->Ok_0.exp
            > now),
        forall|c: Claims|
            (token matches Some(t) && t@ == token_of(c, secret@) && token_shape_ok(c, secret@)
                && c.exp > now) ==> r == Result::<Claims, GateError>::Ok(c),
{
    match token {
        None => Err(GateError::Unauthenticated),
        Some(t) => match verify_token(t, secret, now) {
            Ok(claims) => Ok(claims),
            Err(_) => Err(GateError::Unauthenticated),
        },
    }
}

/// The role-authorization decision: runs strictly after authentication,
/// never re-validates the token, and compares the attached role exactly.
/// Missing claims are rejected as unauthenticated, a role mismatch as
/// forbidden.
pub fn authorize_role(claims: Option<&Claims>, required: Role) -> (r: Result<(), GateError>)
    ensures
        r is Ok <==> (claims matches Some(c) && c.role == required),
        claims is None ==> r == Err::<(), GateError>(GateError::Unauthenticated),
        (claims matches Some(c) && c.role != required) ==> r == Err::<(), GateError>(
            GateError::Forbidden,
        ),
{
    match claims {
        None => Err(GateError::Unauthenticated),
        Some(c) => {
            if c.role == required {
                Ok(())
            } else {
                Err(GateError::Forbidden)
            }
        },
    }
}

} // verus!
