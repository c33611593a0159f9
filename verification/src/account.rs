//! Accounts: signing up and in, profiles, the one-way promotion of a
//! customer to a salon owner, and the administrator's user management.

use vstd::prelude::*;

use crate::claim::Claims;
use crate::database::Database;
use crate::database::GeneralStatus;
use crate::database::Salon;
use crate::database::User;
use crate::database::UserGender;
use crate::database::UserOutput;
use crate::database::UserRole;
use crate::error::ServiceError;
use crate::password::bcrypt_hash_wf;
use crate::password::hash_password;
use crate::password::password_matches;
use crate::password::verify_password;
use crate::salon::has_user;
use crate::utils::page_of;

verus! {

/// A new customer account.
pub struct SignupInput {
    pub username: String,
    pub password: String,
    pub full_name: Option<String>,
    pub email: Option<String>,
    pub gender: Option<UserGender>,
}

/// Credentials presented at sign-in.
pub struct SigninInput {
    pub username: String,
    pub password: String,
}

/// Profile fields to change; absent fields keep their stored value.
pub struct UpdateUserProfileInput {
    pub username: Option<String>,
    pub full_name: Option<String>,
    pub date_of_birth: Option<String>,
    pub email: Option<String>,
    pub gender: Option<UserGender>,
    pub avatar: Option<String>,
}

/// A new salon-owner account opened by an administrator.
pub struct CreateSalonUserInput {
    pub username: String,
    pub password: String,
    pub email: Option<String>,
    pub gender: Option<UserGender>,
}

/// Filter and page selector of the administrator's user listing.
pub struct UserQueryInput {
    pub role: Option<UserRole>,
    pub page: Option<i64>,
    pub limit: Option<i64>,
}

/// The public face of an account: everything but the password hash.
pub open spec fn user_output_of(u: User) -> UserOutput {
    UserOutput {
        id: u.id,
        username: u.username,
        full_name: u.full_name,
        email: u.email,
        gender: u.gender,
        role: u.role,
        avatar: u.avatar,
        date_of_birth: u.date_of_birth,
    }
}

/// A stored account with the requested profile fields replaced; absent
/// request fields keep the stored values, and id, password hash, role and
/// salon link never move.
pub open spec fn merged_profile(u: User, input: UpdateUserProfileInput) -> User {
    User {
        username: match input.username {
            Some(n) => n,
            None => u.username,
        },
        full_name: match input.full_name {
            Some(v) => Some(v),
            None => u.full_name,
        },
        date_of_birth: match input.date_of_birth {
            Some(v) => Some(v),
            None => u.date_of_birth,
        },
        email: match input.email {
            Some(v) => Some(v),
            None => u.email,
        },
        gender: match input.gender {
            Some(v) => Some(v),
            None => u.gender,
        },
        avatar: match input.avatar {
            Some(v) => Some(v),
            None => u.avatar,
        },
        ..u
    }
}

/// Some account other than `user_id` carries this username.
pub open spec fn other_has_username(db: Database, user_id: i64, username: Seq<char>) -> bool {
    exists|i: int|
        0 <= i < db.users@.len() && (#[trigger] db.users@[i]).username@ == username
            && db.users@[i].id != user_id
}

/// The accounts passing the role filter, in stored order.
pub open spec fn users_with_role(s: Seq<User>, role: Option<UserRole>) -> Seq<User>
    decreases s.len(),
{
    if s.len() == 0 {
        Seq::empty()
    } else {
        let prev = users_with_role(s.drop_last(), role);
        if match role {
            Some(r) => s.last().role == r,
            None => true,
        } {
            prev.push(s.last())
        } else {
            prev
        }
    }
}

pub proof fn lemma_users_with_role_len(s: Seq<User>, role: Option<UserRole>)
    ensures
        users_with_role(s, role).len() <= s.len(),
    decreases s.len(),
{
    if s.len() != 0 {
        lemma_users_with_role_len(s.drop_last(), role);
    }
}

/// Copies the visible part of an account.
fn to_user_output(u: &User) -> (r: UserOutput)
    ensures
        r == user_output_of(*u),
{
    UserOutput {
        id: u.id,
        username: u.username.clone(),
        full_name: crate::database::clone_opt_string(&u.full_name),
        email: crate::database::clone_opt_string(&u.email),
        gender: u.gender,
        role: u.role,
        avatar: crate::database::clone_opt_string(&u.avatar),
        date_of_birth: crate::database::clone_opt_string(&u.date_of_birth),
    }
}

/// Position of the account carrying this username, if any.
fn find_user_by_username(db: &Database, username: &String) -> (r: Option<usize>)
    ensures
        match r {
            Some(i) => i < db.users@.len() && db.users@[i as int].username@ == username@,
            None => !db.has_username(username@),
        },
{
    let n = db.users.len();
    for i in 0..n
        invariant
            n == db.users@.len(),
            forall|j: int| 0 <= j < i ==> (#[trigger] db.users@[j]).username@ != username@,
    {
        if db.users[i].username == *username {
            return Some(i);
        }
    }
    None
}

/// Another account than `user_id` already uses this username.
fn username_conflicts(db: &Database, user_id: i64, name: &String) -> (r: bool)
    ensures
        r == other_has_username(*db, user_id, name@),
{
    let n = db.users.len();
    for i in 0..n
        invariant
            n == db.users@.len(),
            forall|j: int|
                0 <= j < i ==> !((#[trigger] db.users@[j]).username@ == name@ && db.users@[j].id
                    != user_id),
    {
        if db.users[i].username == *name && db.users[i].id != user_id {
            return true;
        }
    }
    false
}

/// Opens a customer account.
///
/// Owed success whenever the username is still free; the only failure left
/// then is the password backend. The stored row carries the next free id,
/// the customer role, and a hash the password verifiably belongs to.
pub fn sign_up(db: &mut Database, input: SignupInput) -> (r: Result<User, ServiceError>)
    requires
        old(db).wf(),
        old(db).next_user_id < i64::MAX,
    ensures
        final(db).wf(),
        r matches Ok(u) ==> {
            &&& u.id == old(db).next_user_id
            &&& u.username@ == input.username@
            &&& password_matches(input.password@, u.password@)
            &&& bcrypt_hash_wf(u.password@)
            &&& u.full_name == input.full_name
            &&& u.email == input.email
            &&& u.gender == input.gender
            &&& u.role == UserRole::Customer
            &&& u.avatar is None
            &&& u.date_of_birth is None
            &&& u.salon_id is None
            &&& final(db).users@ == old(db).users@.push(u)
            &&& final(db).next_user_id == old(db).next_user_id + 1
            &&& *final(db) == (Database {
                users: final(db).users,
                next_user_id: final(db).next_user_id,
                ..*old(db)
            })
        },
        r is Ok ==> !old(db).has_username(input.username@),
        r matches Err(e) ==> {
            &&& *final(db) == *old(db)
            &&& (e == ServiceError::UsernameTaken <==> old(db).has_username(input.username@))
            &&& (e == ServiceError::UsernameTaken || e == ServiceError::PasswordBackend)
        },
{
    if let Some(_) = find_user_by_username(db, &input.username) {
        return Err(ServiceError::UsernameTaken);
    }
    let hashed = match hash_password(input.password.as_str(), 4) {
        Ok(h) => h,
        Err(_) => {
            return Err(ServiceError::PasswordBackend);
        },
    };
    let user = User {
        id: db.next_user_id,
        username: input.username,
        password: hashed,
        full_name: input.full_name,
        email: input.email,
        gender: input.gender,
        role: UserRole::Customer,
        avatar: None,
        date_of_birth: None,
        salon_id: None,
    };
    let out = user.clone();
    let ghost prev = *db;
    db.users.push(user);
    db.next_user_id = db.next_user_id + 1;
    proof {
        assert(db.user_ids() =~= prev.user_ids().push(out.id));
        assert(db.salon_ids() =~= prev.salon_ids());
        assert(db.branch_ids() =~= prev.branch_ids());
        assert(db.bed_ids() =~= prev.bed_ids());
        assert(db.therapy_ids() =~= prev.therapy_ids());
        assert(db.reservation_ids() =~= prev.reservation_ids());
    }
    Ok(out)
}

/// A row with this username stands in the store, its stored hash is one
/// bcrypt can check, and the password belongs to it: exactly the condition
/// under which signing in succeeds.
pub open spec fn sign_in_accepts(db: Database, username: Seq<char>, password: Seq<char>) -> bool {
    exists|i: int|
        0 <= i < db.users@.len() && (#[trigger] db.users@[i]).username@ == username
            && bcrypt_hash_wf(db.users@[i].password@) && password_matches(
            password,
            db.users@[i].password@,
        )
}

/// Signing up and then signing in with the same password succeeds: a stored
/// row whose hash bcrypt can check and the password belongs to — what every
/// fresh account row carries — is exactly what acceptance asks for.
pub proof fn lemma_sign_up_then_sign_in(db: Database, i: int, password: Seq<char>)
    requires
        0 <= i < db.users@.len(),
        bcrypt_hash_wf(db.users@[i].password@),
        password_matches(password, db.users@[i].password@),
    ensures
        sign_in_accepts(db, db.users@[i].username@, password),
{
}

/// Checks credentials against the stored accounts.
///
/// Succeeds exactly when a stored row carries the username, its hash is one
/// bcrypt can check, and the password belongs to it. An unknown username, a
/// wrong password, and a stored hash bcrypt cannot parse each fail with
/// their own error, the first two as the upstream messages did.
pub fn sign_in(db: &Database, input: &SigninInput) -> (r: Result<User, ServiceError>)
    requires
        db.wf(),
    ensures
        r is Ok <==> sign_in_accepts(*db, input.username@, input.password@),
        r matches Ok(u) ==> exists|i: int|
            {
                &&& 0 <= i < db.users@.len()
                &&& (#[trigger] db.users@[i]).username@ == input.username@
                &&& bcrypt_hash_wf(db.users@[i].password@)
                &&& password_matches(input.password@, db.users@[i].password@)
                &&& u == db.users@[i]
            },
        r == Err::<User, ServiceError>(ServiceError::UserNotFound) <==> !db.has_username(
            input.username@,
        ),
        r == Err::<User, ServiceError>(ServiceError::PasswordBackend) <==> exists|i: int|
            {
                &&& 0 <= i < db.users@.len()
                &&& (#[trigger] db.users@[i]).username@ == input.username@
                &&& !bcrypt_hash_wf(db.users@[i].password@)
            },
        r == Err::<User, ServiceError>(ServiceError::Unauthorized) <==> exists|i: int|
            {
                &&& 0 <= i < db.users@.len()
                &&& (#[trigger] db.users@[i]).username@ == input.username@
                &&& bcrypt_hash_wf(db.users@[i].password@)
                &&& !password_matches(input.password@, db.users@[i].password@)
            },
        r matches Err(e) ==> e == ServiceError::UserNotFound || e == ServiceError::Unauthorized
            || e == ServiceError::PasswordBackend,
{
    let i = match find_user_by_username(db, &input.username) {
        Some(i) => i,
        None => {
            return Err(ServiceError::UserNotFound);
        },
    };
    proof {
        assert forall|j: int|
            0 <= j < db.users@.len() && (#[trigger] db.users@[j]).username@ == input.username@
                implies j == i as int by {
            if j < i as int {
                assert(db.users@[j].username@ != db.users@[i as int].username@);
            } else if (i as int) < j {
                assert(db.users@[i as int].username@ != db.users@[j].username@);
            }
        }
    }
    let user = &db.users[i];
    match verify_password(input.password.as_str(), user.password.as_str()) {
        Ok(true) => Ok(user.clone()),
        Ok(false) => Err(ServiceError::Unauthorized),
        Err(_) => Err(ServiceError::PasswordBackend),
    }
}

/// The caller's own profile, without the password hash.
pub fn get_profile(db: &Database, claims: &Claims) -> (r: Result<UserOutput, ServiceError>)
    requires
        db.wf(),
    ensures
        r is Ok <==> has_user(*db, claims.id),
        r matches Ok(p) ==> exists|i: int|
            {
                &&& 0 <= i < db.users@.len()
                &&& (#[trigger] db.users@[i]).id == claims.id
                &&& p == user_output_of(db.users@[i])
            },
        r matches Err(e) ==> e == ServiceError::UserNotFound,
{
    match db.find_user(claims.id) {
        Some(i) => Ok(to_user_output(&db.users[i])),
        None => Err(ServiceError::UserNotFound),
    }
}

/// Rewrites the caller's profile with the fields the request carries.
///
/// Succeeds exactly when the account exists and a requested new username
/// collides with nobody else; id, password, role and salon link stay.
pub fn update_profile(db: &mut Database, claims: &Claims, input: UpdateUserProfileInput) -> (r:
    Result<UserOutput, ServiceError>)
    requires
        old(db).wf(),
    ensures
        final(db).wf(),
        r is Ok <==> has_user(*old(db), claims.id) && (input.username matches Some(n)
            ==> !other_has_username(*old(db), claims.id, n@)),
        r matches Ok(p) ==> exists|i: int|
            {
                &&& 0 <= i < old(db).users@.len()
                &&& (#[trigger] old(db).users@[i]).id == claims.id
                &&& p == user_output_of(merged_profile(old(db).users@[i], input))
                &&& final(db).users@ == old(db).users@.update(
                    i,
                    merged_profile(old(db).users@[i], input),
                )
            },
        r is Ok ==> *final(db) == (Database { users: final(db).users, ..*old(db) }),
        r matches Err(e) ==> *final(db) == *old(db) && e == if !has_user(*old(db), claims.id) {
            ServiceError::UserNotFound
        } else {
            ServiceError::UsernameTaken
        },
{
    let ui = match db.find_user(claims.id) {
        Some(i) => i,
        None => {
            return Err(ServiceError::UserNotFound);
        },
    };
    if let Some(new_name) = &input.username {
        if username_conflicts(db, claims.id, new_name) {
            return Err(ServiceError::UsernameTaken);
        }
    }
    let stored = db.users[ui].clone();
    let updated = User {
        username: match input.username {
            Some(n) => n,
            None => stored.username,
        },
        full_name: match input.full_name {
            Some(v) => Some(v),
            None => stored.full_name,
        },
        date_of_birth: match input.date_of_birth {
            Some(v) => Some(v),
            None => stored.date_of_birth,
        },
        email: match input.email {
            Some(v) => Some(v),
            None => stored.email,
        },
        gender: match input.gender {
            Some(v) => Some(v),
            None => stored.gender,
        },
        avatar: match input.avatar {
            Some(v) => Some(v),
            None => stored.avatar,
        },
        id: stored.id,
        password: stored.password,
        role: stored.role,
        salon_id: stored.salon_id,
    };
    let out = to_user_output(&updated);
    let ghost prev = *db;
    db.users.set(ui, updated);
    proof {
        assert(db.user_ids() =~= prev.user_ids());
        assert(db.salon_ids() =~= prev.salon_ids());
        assert(db.branch_ids() =~= prev.branch_ids());
        assert(db.bed_ids() =~= prev.bed_ids());
        assert(db.therapy_ids() =~= prev.therapy_ids());
        assert(db.reservation_ids() =~= prev.reservation_ids());
        assert forall|a: int, b: int| 0 <= a < b < db.users@.len() implies db.users@[a].username@
            != db.users@[b].username@ by {
            if a != ui as int && b != ui as int {
                assert(db.users@[a].username@ == prev.users@[a].username@);
                assert(db.users@[b].username@ == prev.users@[b].username@);
                assert(prev.users@[a].username@ != prev.users@[b].username@);
            } else {
                let o = if a == ui as int {
                    b
                } else {
                    a
                };
                assert(db.users@[o].username@ == prev.users@[o].username@);
                assert(prev.user_ids()[o] == prev.users@[o].id);
                assert(prev.user_ids()[ui as int] == prev.users@[ui as int].id);
                if o < ui as int {
                    assert(prev.user_ids()[o] != prev.user_ids()[ui as int]);
                } else {
                    assert(prev.user_ids()[ui as int] != prev.user_ids()[o]);
                }
                match input.username {
                    Some(n) => {
                        assert(updated.username@ == n@);
                        if prev.users@[o].username@ == n@ {
                            assert(other_has_username(prev, claims.id, n@));
                        }
                    },
                    None => {
                        assert(updated.username@ == prev.users@[ui as int].username@);
                        if o < ui as int {
                            assert(prev.users@[o].username@ != prev.users@[
                                ui as int].username@);
                        } else {
                            assert(prev.users@[ui as int].username@ != prev.users@[
                                o].username@);
                        }
                    },
                }
            }
        }
    }
    Ok(out)
}

/// Promotes the calling customer to a salon owner. One-way: any other role
/// is turned away.
pub fn customer_to_salon_user(db: &mut Database, claims: &Claims) -> (r: Result<
    User,
    ServiceError,
>)
    requires
        old(db).wf(),
    ensures
        final(db).wf(),
        r is Ok <==> exists|i: int|
            0 <= i < old(db).users@.len() && (#[trigger] old(db).users@[i]).id == claims.id && old(
                db,
            ).users@[i].role == UserRole::Customer,
        r matches Ok(u) ==> exists|i: int|
            {
                &&& 0 <= i < old(db).users@.len()
                &&& (#[trigger] old(db).users@[i]).id == claims.id
                &&& u == (User { role: UserRole::SalonOwner, ..old(db).users@[i] })
                &&& final(db).users@ == old(db).users@.update(i, u)
            },
        r is Ok ==> *final(db) == (Database { users: final(db).users, ..*old(db) }),
        r matches Err(e) ==> *final(db) == *old(db) && e == if !has_user(*old(db), claims.id) {
            ServiceError::UserNotFound
        } else {
            ServiceError::NotCustomerRole
        },
{
    let ui = match db.find_user(claims.id) {
        Some(i) => i,
        None => {
            return Err(ServiceError::UserNotFound);
        },
    };
    if !(db.users[ui].role == UserRole::Customer) {
        proof {
            assert forall|j: int|
                0 <= j < db.users@.len() && (#[trigger] db.users@[j]).id == claims.id implies !(
            db.users@[j].role == UserRole::Customer) by {
                assert(db.user_ids()[j] == db.users@[j].id);
                assert(db.user_ids()[ui as int] == db.users@[ui as int].id);
                crate::database::lemma_ids_unique(db.user_ids(), db.next_user_id, j, ui as int);
            }
        }
        return Err(ServiceError::NotCustomerRole);
    }
    let updated = User { role: UserRole::SalonOwner, ..db.users[ui].clone() };
    let out = updated.clone();
    let ghost prev = *db;
    db.users.set(ui, updated);
    proof {
        assert(db.user_ids() =~= prev.user_ids());
        assert(db.salon_ids() =~= prev.salon_ids());
        assert(db.branch_ids() =~= prev.branch_ids());
        assert(db.bed_ids() =~= prev.bed_ids());
        assert(db.therapy_ids() =~= prev.therapy_ids());
        assert(db.reservation_ids() =~= prev.reservation_ids());
        assert forall|a: int, b: int| 0 <= a < b < db.users@.len() implies db.users@[a].username@
            != db.users@[b].username@ by {
            assert(db.users@[a].username@ == prev.users@[a].username@);
            assert(db.users@[b].username@ == prev.users@[b].username@);
            assert(prev.users@[a].username@ != prev.users@[b].username@);
        }
    }
    Ok(out)
}

/// The administrator's promotion: turns a customer into a salon owner and
/// opens the empty salon they will manage. One-way, like the self-service
/// promotion.
pub fn customer_to_salon_owner(db: &mut Database, user_id: i64) -> (r: Result<User, ServiceError>)
    requires
        old(db).wf(),
        old(db).next_salon_id < i64::MAX,
    ensures
        final(db).wf(),
        r is Ok <==> exists|i: int|
            0 <= i < old(db).users@.len() && (#[trigger] old(db).users@[i]).id == user_id && old(
                db,
            ).users@[i].role == UserRole::Customer,
        r matches Ok(u) ==> exists|i: int|
            {
                &&& 0 <= i < old(db).users@.len()
                &&& (#[trigger] old(db).users@[i]).id == user_id
                &&& u == (User {
                    role: UserRole::SalonOwner,
                    salon_id: Some(old(db).next_salon_id),
                    ..old(db).users@[i]
                })
                &&& final(db).users@ == old(db).users@.update(i, u)
                &&& final(db).salons@ == old(db).salons@.push(
                    Salon {
                        id: old(db).next_salon_id,
                        logo: None,
                        cover_photo: None,
                        name: None,
                        phone: None,
                        email: None,
                        description: None,
                        status: Some(GeneralStatus::Activate),
                    },
                )
                &&& final(db).next_salon_id == old(db).next_salon_id + 1
                &&& *final(db) == (Database {
                    users: final(db).users,
                    salons: final(db).salons,
                    next_salon_id: final(db).next_salon_id,
                    ..*old(db)
                })
            },
        r matches Err(e) ==> *final(db) == *old(db) && e == if !has_user(*old(db), user_id) {
            ServiceError::UserNotFound
        } else {
            ServiceError::NotCustomerRole
        },
{
    let ui = match db.find_user(user_id) {
        Some(i) => i,
        None => {
            return Err(ServiceError::UserNotFound);
        },
    };
    if !(db.users[ui].role == UserRole::Customer) {
        proof {
            assert forall|j: int|
                0 <= j < db.users@.len() && (#[trigger] db.users@[j]).id == user_id implies !(
            db.users@[j].role == UserRole::Customer) by {
                assert(db.user_ids()[j] == db.users@[j].id);
                assert(db.user_ids()[ui as int] == db.users@[ui as int].id);
                crate::database::lemma_ids_unique(db.user_ids(), db.next_user_id, j, ui as int);
            }
        }
        return Err(ServiceError::NotCustomerRole);
    }
    let salon = Salon {
        id: db.next_salon_id,
        logo: None,
        cover_photo: None,
        name: None,
        phone: None,
        email: None,
        description: None,
        status: Some(GeneralStatus::Activate),
    };
    let updated = User {
        role: UserRole::SalonOwner,
        salon_id: Some(db.next_salon_id),
        ..db.users[ui].clone()
    };
    let out = updated.clone();
    let ghost prev = *db;
    db.users.set(ui, updated);
    db.salons.push(salon);
    db.next_salon_id = db.next_salon_id + 1;
    proof {
        assert(db.user_ids() =~= prev.user_ids());
        assert(db.salon_ids() =~= prev.salon_ids().push(prev.next_salon_id));
        assert(db.branch_ids() =~= prev.branch_ids());
        assert(db.bed_ids() =~= prev.bed_ids());
        assert(db.therapy_ids() =~= prev.therapy_ids());
        assert(db.reservation_ids() =~= prev.reservation_ids());
        assert forall|a: int, b: int| 0 <= a < b < db.users@.len() implies db.users@[a].username@
            != db.users@[b].username@ by {
            assert(db.users@[a].username@ == prev.users@[a].username@);
            assert(db.users@[b].username@ == prev.users@[b].username@);
            assert(prev.users@[a].username@ != prev.users@[b].username@);
        }
    }
    Ok(out)
}

/// Opens a salon-owner account, administrator-only.
///
/// Like [`sign_up`], but with the owner role and no profile beyond email
/// and gender; the owner's salon comes later, with the promotion flow.
pub fn create_salon_user(db: &mut Database, input: CreateSalonUserInput) -> (r: Result<
    UserOutput,
    ServiceError,
>)
    requires
        old(db).wf(),
        old(db).next_user_id < i64::MAX,
    ensures
        final(db).wf(),
        r matches Ok(p) ==> exists|u: User|
            {
                &&& u.id == old(db).next_user_id
                &&& u.username@ == input.username@
                &&& password_matches(input.password@, u.password@)
                &&& bcrypt_hash_wf(u.password@)
                &&& u.full_name is None
                &&& u.email == input.email
                &&& u.gender == input.gender
                &&& u.role == UserRole::SalonOwner
                &&& u.avatar is None
                &&& u.date_of_birth is None
                &&& u.salon_id is None
                &&& p == user_output_of(u)
                &&& final(db).users@ == old(db).users@.push(u)
                &&& final(db).next_user_id == old(db).next_user_id + 1
                &&& *final(db) == (Database {
                    users: final(db).users,
                    next_user_id: final(db).next_user_id,
                    ..*old(db)
                })
            },
        r is Ok ==> !old(db).has_username(input.username@),
        r matches Err(e) ==> {
            &&& *final(db) == *old(db)
            &&& (e == ServiceError::UsernameTaken <==> old(db).has_username(input.username@))
            &&& (e == ServiceError::UsernameTaken || e == ServiceError::PasswordBackend)
        },
{
    if let Some(_) = find_user_by_username(db, &input.username) {
        return Err(ServiceError::UsernameTaken);
    }
    let hashed = match hash_password(input.password.as_str(), 4) {
        Ok(h) => h,
        Err(_) => {
            return Err(ServiceError::PasswordBackend);
        },
    };
    let user = User {
        id: db.next_user_id,
        username: input.username,
        password: hashed,
        full_name: None,
        email: input.email,
        gender: input.gender,
        role: UserRole::SalonOwner,
        avatar: None,
        date_of_birth: None,
        salon_id: None,
    };
    let out = to_user_output(&user);
    let ghost pushed = user;
    let ghost prev = *db;
    db.users.push(user);
    db.next_user_id = db.next_user_id + 1;
    proof {
        assert(db.user_ids() =~= prev.user_ids().push(pushed.id));
        assert(db.salon_ids() =~= prev.salon_ids());
        assert(db.branch_ids() =~= prev.branch_ids());
        assert(db.bed_ids() =~= prev.bed_ids());
        assert(db.therapy_ids() =~= prev.therapy_ids());
        assert(db.reservation_ids() =~= prev.reservation_ids());
    }
    Ok(out)
}

/// Closes an account, administrator-only. Administrators themselves cannot
/// be deleted this way.
pub fn delete_user(db: &mut Database, user_id: i64) -> (r: Result<User, ServiceError>)
    requires
        old(db).wf(),
    ensures
        final(db).wf(),
        r is Ok <==> exists|i: int|
            0 <= i < old(db).users@.len() && (#[trigger] old(db).users@[i]).id == user_id && old(
                db,
            ).users@[i].role != UserRole::Admin,
        r matches Ok(u) ==> exists|i: int|
            {
                &&& 0 <= i < old(db).users@.len()
                &&& (#[trigger] old(db).users@[i]).id == user_id
                &&& u == old(db).users@[i]
                &&& final(db).users@ == old(db).users@.remove(i)
            },
        r is Ok ==> *final(db) == (Database { users: final(db).users, ..*old(db) }),
        r matches Err(e) ==> *final(db) == *old(db) && e == ServiceError::UserNotFound,
{
    let ui = match db.find_user(user_id) {
        Some(i) => i,
        None => {
            return Err(ServiceError::UserNotFound);
        },
    };
    if db.users[ui].role == UserRole::Admin {
        proof {
            assert forall|j: int|
                0 <= j < db.users@.len() && (#[trigger] db.users@[j]).id == user_id implies
                db.users@[j].role == UserRole::Admin by {
                assert(db.user_ids()[j] == db.users@[j].id);
                assert(db.user_ids()[ui as int] == db.users@[ui as int].id);
                crate::database::lemma_ids_unique(db.user_ids(), db.next_user_id, j, ui as int);
            }
        }
        return Err(ServiceError::UserNotFound);
    }
    let out = db.users[ui].clone();
    let ghost prev = *db;
    let _removed = db.users.remove(ui);
    proof {
        assert(db.user_ids() =~= prev.user_ids().remove(ui as int));
        assert(db.salon_ids() =~= prev.salon_ids());
        assert(db.branch_ids() =~= prev.branch_ids());
        assert(db.bed_ids() =~= prev.bed_ids());
        assert(db.therapy_ids() =~= prev.therapy_ids());
        assert(db.reservation_ids() =~= prev.reservation_ids());
        assert forall|a: int, b: int| 0 <= a < b < db.users@.len() implies db.users@[a].username@
            != db.users@[b].username@ by {
            let pa = if a < ui as int {
                a
            } else {
                a + 1
            };
            let pb = if b < ui as int {
                b
            } else {
                b + 1
            };
            assert(prev.users@[pa].username@ != prev.users@[pb].username@);
        }
    }
    Ok(out)
}

/// One page of accounts passing the role filter, in stored order, without
/// password hashes, with total and page counts. Succeeds exactly for a
/// valid page selector.
pub fn list_user(db: &Database, query: UserQueryInput) -> (r: Result<
    (Vec<UserOutput>, i64, i64),
    ServiceError,
>)
    requires
        db.wf(),
    ensures
        ({
            let q = crate::database::GeneralPagingQueryInput { page: query.page, limit: query.limit };
            &&& r is Ok <==> crate::reservation::paging_valid(q)
            &&& r matches Ok(t) ==> {
                let shown = users_with_role(db.users@, query.role).map_values(
                    |u: User| user_output_of(u),
                );
                let from = (crate::reservation::effective_page(q) - 1)
                    * crate::reservation::effective_limit(q);
                let to = crate::reservation::effective_page(q) * crate::reservation::effective_limit(
                    q,
                ) - 1;
                &&& t.0@ == page_of(shown, from, to)
                &&& t.1 == shown.len()
                &&& t.2 == (shown.len() + crate::reservation::effective_limit(q) - 1)
                    / crate::reservation::effective_limit(q)
            }
            &&& r matches Err(e) ==> e == ServiceError::InvalidPaging
        }),
{
    if let Some(p) = query.page {
        if p <= 0 {
            return Err(ServiceError::InvalidPaging);
        }
    }
    let (page, limit) = crate::utils::extract_page_and_limit(query.page, query.limit);
    let window = match crate::utils::get_query_from_to(page, limit) {
        Ok(w) => w,
        Err(_) => {
            return Err(ServiceError::InvalidPaging);
        },
    };
    let from = window.0;
    let to = window.1;
    proof {
        assert(from >= 0 && to + 1 - from == limit) by (nonlinear_arith)
            requires
                page >= 1,
                limit > 0,
                from == (page - 1) * limit,
                to == page * limit - 1,
        ;
    }
    let ghost shown = users_with_role(db.users@, query.role).map_values(
        |u: User| user_output_of(u),
    );
    let mut outputs: Vec<UserOutput> = Vec::new();
    let n = db.users.len();
    for i in 0..n
        invariant
            n == db.users@.len(),
            outputs@ == users_with_role(db.users@.subrange(0, i as int), query.role).map_values(
                |u: User| user_output_of(u),
            ),
    {
        proof {
            assert(db.users@.subrange(0, i + 1).drop_last() =~= db.users@.subrange(0, i as int));
            assert(db.users@.subrange(0, i + 1).last() == db.users@[i as int]);
        }
        let keep = match query.role {
            Some(role) => db.users[i].role == role,
            None => true,
        };
        if keep {
            let ghost before = users_with_role(db.users@.subrange(0, i as int), query.role);
            outputs.push(to_user_output(&db.users[i]));
            proof {
                assert(outputs@ =~= before.push(db.users@[i as int]).map_values(
                    |u: User| user_output_of(u),
                ));
            }
        }
    }
    proof {
        assert(db.users@.subrange(0, n as int) =~= db.users@);
        lemma_users_with_role_len(db.users@, query.role);
        assert(shown.len() == users_with_role(db.users@, query.role).len());
    }
    let total: i64 = outputs.len() as i64;
    let pages = crate::utils::total_pages(total, limit);
    let mut page_rows: Vec<UserOutput> = Vec::new();
    let m = outputs.len();
    for k in 0..m
        invariant
            m == outputs@.len(),
            m < i64::MAX,
            outputs@ == shown,
            0 <= from <= to + 1,
            page_rows@ =~= page_of(shown.subrange(0, k as int), from as int, to as int),
    {
        if (k as i64) >= from && (k as i64) <= to {
            let u = &outputs[k];
            page_rows.push(
                UserOutput {
                    id: u.id,
                    username: u.username.clone(),
                    full_name: crate::database::clone_opt_string(&u.full_name),
                    email: crate::database::clone_opt_string(&u.email),
                    gender: u.gender,
                    role: u.role,
                    avatar: crate::database::clone_opt_string(&u.avatar),
                    date_of_birth: crate::database::clone_opt_string(&u.date_of_birth),
                },
            );
        }
        proof {
            let prefix = shown.subrange(0, k as int);
            let step = shown.subrange(0, k + 1);
            assert(step[k as int] == shown[k as int]);
            assert(forall|j: int| 0 <= j < k ==> step[j] == #[trigger] prefix[j]);
            if (k as int) < from {
                assert(page_of(step, from as int, to as int) =~= page_of(
                    prefix,
                    from as int,
                    to as int,
                ));
            } else if (k as int) <= to {
                assert(page_of(step, from as int, to as int) =~= page_of(
                    prefix,
                    from as int,
                    to as int,
                ).push(shown[k as int]));
            } else {
                assert(page_of(step, from as int, to as int) =~= page_of(
                    prefix,
                    from as int,
                    to as int,
                ));
            }
            assert(page_rows@ =~= page_of(step, from as int, to as int));
        }
    }
    proof {
        assert(shown.subrange(0, m as int) =~= shown);
    }
    Ok((page_rows, total, pages))
}

} // verus!
