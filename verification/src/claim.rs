//! The verified identity attached to a request after authentication, and the
//! role checks the routing layers apply.

use vstd::prelude::*;

use crate::database::Database;
use crate::database::User;
use crate::database::UserRole;
use crate::error::ServiceError;

verus! {

pub const HOUR_TO_SECOND: u64 = 60 * 60;

/// How long a freshly issued token stays valid, in seconds.
pub const TOKEN_LIFETIME_SECONDS: u64 = HOUR_TO_SECOND * 24 * 30;

/// The claims carried by a session token. `role` is only filled in once the
/// account row has been read back from the store.
#[derive(Debug)]
pub struct Claims {
    pub id: i64,
    pub username: String,
    pub role: Option<UserRole>,
    pub exp: u64,
}

impl Clone for Claims {
    fn clone(&self) -> (r: Self)
        ensures
            r == *self,
    {
        Claims { id: self.id, username: self.username.clone(), role: self.role, exp: self.exp }
    }
}

impl Claims {
    /// Fresh claims for an account, expiring thirty days after `now`.
    pub fn for_user(user: &User, now: u64) -> (c: Claims)
        requires
            now + TOKEN_LIFETIME_SECONDS <= u64::MAX,
        ensures
            c.id == user.id,
            c.username@ == user.username@,
            c.role is None,
            c.exp == now + TOKEN_LIFETIME_SECONDS,
    {
        Claims {
            id: user.id,
            username: user.username.clone(),
            role: None,
            exp: now + TOKEN_LIFETIME_SECONDS,
        }
    }

    /// The token has expired at time `now`.
    pub fn is_expired(&self, now: u64) -> (r: bool)
        ensures
            r == (self.exp <= now),
    {
        self.exp <= now
    }

    /// The claims carry exactly this role.
    pub fn has_role(&self, role: UserRole) -> (r: bool)
        ensures
            r == (self.role == Some(role)),
    {
        match self.role {
            Some(own) => own == role,
            None => false,
        }
    }
}

/// Resolves decoded claims against the account table: the request is let
/// through, with the stored role attached, exactly when an account with the
/// claimed id and username exists.
pub fn authenticate(db: &Database, claims: Claims) -> (r: Result<Claims, ServiceError>)
    requires
        db.wf(),
    ensures
        r is Ok <==> db.has_credentials(claims.id, claims.username@),
        r matches Ok(c) ==> exists|i: int|
            0 <= i < db.users@.len() && (#[trigger] db.users@[i]).id == claims.id
                && db.users@[i].username@ == claims.username@ && c == (Claims {
                role: Some(db.users@[i].role),
                ..claims
            }),
        r matches Err(e) ==> e == ServiceError::Unauthorized,
{
    let position = db.find_user(claims.id);
    match position {
        Some(i) => {
            let user = &db.users[i];
            if user.username == claims.username {
                let out = Claims { role: Some(user.role), ..claims };
                assert(db.has_credentials(out.id, out.username@));
                Ok(out)
            } else {
                proof {
                    assert forall|j: int|
                        0 <= j < db.users@.len() && (#[trigger] db.users@[j]).id == claims.id
                            implies db.users@[j].username@ != claims.username@ by {
                        assert(db.user_ids()[j] == db.users@[j].id);
                        assert(db.user_ids()[i as int] == db.users@[i as int].id);
                        crate::database::lemma_ids_unique(
                            db.user_ids(),
                            db.next_user_id,
                            j,
                            i as int,
                        );
                    }
                }
                Err(ServiceError::Unauthorized)
            }
        },
        None => Err(ServiceError::Unauthorized),
    }
}

/// A routing layer's role gate: the request passes only with this exact role.
pub fn authorize_role(claims: &Claims, required: UserRole) -> (r: Result<(), ServiceError>)
    ensures
        r is Ok <==> claims.role == Some(required),
        r matches Err(e) ==> e == ServiceError::Unauthorized,
{
    if claims.has_role(required) {
        Ok(())
    } else {
        Err(ServiceError::Unauthorized)
    }
}

} // verus!
