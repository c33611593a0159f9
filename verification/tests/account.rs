use salon_booking::account::create_salon_user;
use salon_booking::account::customer_to_salon_owner;
use salon_booking::account::customer_to_salon_user;
use salon_booking::account::delete_user;
use salon_booking::account::get_profile;
use salon_booking::account::list_user;
use salon_booking::account::sign_in;
use salon_booking::account::sign_up;
use salon_booking::account::update_profile;
use salon_booking::account::CreateSalonUserInput;
use salon_booking::account::SigninInput;
use salon_booking::account::SignupInput;
use salon_booking::account::UpdateUserProfileInput;
use salon_booking::account::UserQueryInput;
use salon_booking::claim::authenticate;
use salon_booking::claim::authorize_role;
use salon_booking::claim::Claims;
use salon_booking::database::Database;
use salon_booking::database::User;
use salon_booking::database::UserGender;
use salon_booking::database::UserRole;
use salon_booking::error::ServiceError;

fn signup(name: &str, pw: &str) -> SignupInput {
    SignupInput {
        username: String::from(name),
        password: String::from(pw),
        full_name: Some(String::from("Full Name")),
        email: Some(String::from("mail@example.com")),
        gender: Some(UserGender::Female),
    }
}

fn claims_for(id: i64, username: &str, role: UserRole) -> Claims {
    Claims { id, username: String::from(username), role: Some(role), exp: u64::MAX }
}

#[test]
fn sign_up_then_sign_in() {
    let mut db = Database::new();
    let user = sign_up(&mut db, signup("alice", "correct horse")).unwrap();
    assert_eq!(user.id, 1);
    assert_eq!(user.username, "alice");
    assert_eq!(user.role, UserRole::Customer);
    assert_ne!(user.password, "correct horse", "the stored password must be a hash");

    let back = sign_in(
        &db,
        &SigninInput { username: String::from("alice"), password: String::from("correct horse") },
    )
    .expect("the right password must sign in");
    assert_eq!(back.id, user.id);
}

#[test]
fn sign_in_wrong_password_rejected() {
    let mut db = Database::new();
    sign_up(&mut db, signup("alice", "correct horse")).unwrap();
    let err = sign_in(
        &db,
        &SigninInput { username: String::from("alice"), password: String::from("wrong horse") },
    )
    .expect_err("a wrong password must be turned away");
    assert_eq!(err, ServiceError::Unauthorized);
}

#[test]
fn sign_in_unknown_username_rejected() {
    let db = Database::new();
    let err = sign_in(
        &db,
        &SigninInput { username: String::from("nobody"), password: String::from("x") },
    )
    .expect_err("an unknown username must be turned away");
    assert_eq!(err, ServiceError::UserNotFound);
}

#[test]
fn sign_in_with_malformed_stored_hash_fails_as_backend() {
    let mut db = Database::new();
    // A row provisioned outside the service, carrying no bcrypt hash at all.
    db.users.push(User {
        id: db.next_user_id,
        username: String::from("legacy"),
        password: String::from("plaintext-left-over"),
        full_name: None,
        email: None,
        gender: None,
        role: UserRole::Customer,
        avatar: None,
        date_of_birth: None,
        salon_id: None,
    });
    db.next_user_id += 1;
    let err = sign_in(
        &db,
        &SigninInput {
            username: String::from("legacy"),
            password: String::from("plaintext-left-over"),
        },
    )
    .expect_err("a stored hash bcrypt cannot parse must fail as a backend error");
    assert_eq!(err, ServiceError::PasswordBackend);
}

#[test]
fn duplicate_username_rejected() {
    let mut db = Database::new();
    sign_up(&mut db, signup("alice", "pw1")).unwrap();
    let err = sign_up(&mut db, signup("alice", "pw2"))
        .expect_err("a taken username must be rejected");
    assert_eq!(err, ServiceError::UsernameTaken);
    assert_eq!(err.message(), "username already existed.");
}

#[test]
fn profile_round_trip() {
    let mut db = Database::new();
    let user = sign_up(&mut db, signup("alice", "pw")).unwrap();
    let claims = claims_for(user.id, "alice", UserRole::Customer);

    let profile = get_profile(&db, &claims).unwrap();
    assert_eq!(profile.username, "alice");
    assert_eq!(profile.full_name.as_deref(), Some("Full Name"));
    assert_eq!(profile.gender, Some(UserGender::Female));

    let updated = update_profile(
        &mut db,
        &claims,
        UpdateUserProfileInput {
            username: None,
            full_name: Some(String::from("Alice A.")),
            date_of_birth: Some(String::from("1990-01-01")),
            email: None,
            gender: None,
            avatar: None,
        },
    )
    .unwrap();
    assert_eq!(updated.username, "alice", "an absent field keeps its value");
    assert_eq!(updated.full_name.as_deref(), Some("Alice A."));
    assert_eq!(updated.date_of_birth.as_deref(), Some("1990-01-01"));
    assert_eq!(updated.email.as_deref(), Some("mail@example.com"));
}

#[test]
fn profile_username_change_respects_uniqueness() {
    let mut db = Database::new();
    let alice = sign_up(&mut db, signup("alice", "pw")).unwrap();
    sign_up(&mut db, signup("bob", "pw")).unwrap();
    let claims = claims_for(alice.id, "alice", UserRole::Customer);
    let err = update_profile(
        &mut db,
        &claims,
        UpdateUserProfileInput {
            username: Some(String::from("bob")),
            full_name: None,
            date_of_birth: None,
            email: None,
            gender: None,
            avatar: None,
        },
    )
    .expect_err("taking another account's username must fail");
    assert_eq!(err, ServiceError::UsernameTaken);

    let renamed = update_profile(
        &mut db,
        &claims,
        UpdateUserProfileInput {
            username: Some(String::from("alice2")),
            full_name: None,
            date_of_birth: None,
            email: None,
            gender: None,
            avatar: None,
        },
    )
    .unwrap();
    assert_eq!(renamed.username, "alice2");
}

#[test]
fn promotion_is_one_way() {
    let mut db = Database::new();
    let user = sign_up(&mut db, signup("alice", "pw")).unwrap();
    let claims = claims_for(user.id, "alice", UserRole::Customer);
    let promoted = customer_to_salon_user(&mut db, &claims).unwrap();
    assert_eq!(promoted.role, UserRole::SalonOwner);
    let err = customer_to_salon_user(&mut db, &claims)
        .expect_err("promoting a non-customer must fail");
    assert_eq!(err, ServiceError::NotCustomerRole);
    assert_eq!(err.message(), "This account is not customer role.");
}

#[test]
fn admin_promotion_opens_a_salon() {
    let mut db = Database::new();
    let user = sign_up(&mut db, signup("alice", "pw")).unwrap();
    let promoted = customer_to_salon_owner(&mut db, user.id).unwrap();
    assert_eq!(promoted.role, UserRole::SalonOwner);
    let salon_id = promoted.salon_id.expect("the promotion must open a salon");
    assert!(salon_booking::salon::salon_detail(&db, salon_id).is_ok());
    let err = customer_to_salon_owner(&mut db, user.id)
        .expect_err("the promotion is one-way");
    assert_eq!(err, ServiceError::NotCustomerRole);
    let err = customer_to_salon_owner(&mut db, 999)
        .expect_err("an unknown account cannot be promoted");
    assert_eq!(err, ServiceError::UserNotFound);
}

#[test]
fn admin_creates_salon_user() {
    let mut db = Database::new();
    let out = create_salon_user(
        &mut db,
        CreateSalonUserInput {
            username: String::from("owner"),
            password: String::from("pw"),
            email: None,
            gender: Some(UserGender::Male),
        },
    )
    .unwrap();
    assert_eq!(out.role, UserRole::SalonOwner);
    assert_eq!(out.username, "owner");
    let err = create_salon_user(
        &mut db,
        CreateSalonUserInput {
            username: String::from("owner"),
            password: String::from("pw"),
            email: None,
            gender: None,
        },
    )
    .expect_err("a taken username must be rejected");
    assert_eq!(err, ServiceError::UsernameTaken);
}

#[test]
fn delete_user_spares_admins() {
    let mut db = Database::new();
    let customer = sign_up(&mut db, signup("alice", "pw")).unwrap();
    // An administrator account, as provisioned outside the service.
    db.users.push(User {
        id: db.next_user_id,
        username: String::from("root"),
        password: String::from("placeholder-hash"),
        full_name: None,
        email: None,
        gender: None,
        role: UserRole::Admin,
        avatar: None,
        date_of_birth: None,
        salon_id: None,
    });
    let admin_id = db.next_user_id;
    db.next_user_id += 1;

    let gone = delete_user(&mut db, customer.id).unwrap();
    assert_eq!(gone.id, customer.id);
    let err = delete_user(&mut db, customer.id).expect_err("a deleted account stays gone");
    assert_eq!(err, ServiceError::UserNotFound);
    assert_eq!(err.message(), "user_id is invalid!");
    let err = delete_user(&mut db, admin_id).expect_err("administrators cannot be deleted");
    assert_eq!(err, ServiceError::UserNotFound);
}

#[test]
fn list_user_filters_and_pages() {
    let mut db = Database::new();
    for name in ["a", "b", "c"] {
        sign_up(&mut db, signup(name, "pw")).unwrap();
    }
    create_salon_user(
        &mut db,
        CreateSalonUserInput {
            username: String::from("owner"),
            password: String::from("pw"),
            email: None,
            gender: None,
        },
    )
    .unwrap();

    let (all, total, pages) = list_user(
        &db,
        UserQueryInput { role: None, page: None, limit: None },
    )
    .unwrap();
    assert_eq!(total, 4);
    assert_eq!(pages, 1);
    assert_eq!(all.len(), 4);

    let (customers, total, _) = list_user(
        &db,
        UserQueryInput { role: Some(UserRole::Customer), page: Some(1), limit: Some(2) },
    )
    .unwrap();
    assert_eq!(total, 3);
    assert_eq!(customers.len(), 2);
    assert_eq!(customers[0].username, "a");
    assert_eq!(customers[1].username, "b");

    let (owners, total, _) = list_user(
        &db,
        UserQueryInput { role: Some(UserRole::SalonOwner), page: None, limit: None },
    )
    .unwrap();
    assert_eq!(total, 1);
    assert_eq!(owners[0].username, "owner");

    let err = list_user(
        &db,
        UserQueryInput { role: None, page: Some(-1), limit: Some(2) },
    )
    .expect_err("a non-positive page breaks the pagination contract");
    assert_eq!(err, ServiceError::InvalidPaging);
}

#[test]
fn authenticate_attaches_stored_role() {
    let mut db = Database::new();
    let user = sign_up(&mut db, signup("alice", "pw")).unwrap();
    let bare = Claims { id: user.id, username: String::from("alice"), role: None, exp: 7 };
    let full = authenticate(&db, bare).unwrap();
    assert_eq!(full.role, Some(UserRole::Customer));
    assert_eq!(full.exp, 7);

    let wrong_name = Claims { id: user.id, username: String::from("bob"), role: None, exp: 7 };
    let err = authenticate(&db, wrong_name).expect_err("an unknown identity must be turned away");
    assert_eq!(err, ServiceError::Unauthorized);
    assert_eq!(err.message(), "Unauthorized!");
}

#[test]
fn role_gates() {
    let claims = claims_for(1, "alice", UserRole::Customer);
    assert!(authorize_role(&claims, UserRole::Customer).is_ok());
    assert_eq!(
        authorize_role(&claims, UserRole::Admin).unwrap_err(),
        ServiceError::Unauthorized
    );
    let bare = Claims { id: 1, username: String::from("alice"), role: None, exp: 0 };
    assert!(authorize_role(&bare, UserRole::Customer).is_err());
}

#[test]
fn claims_for_user_expire_thirty_days_later() {
    let mut db = Database::new();
    let user = sign_up(&mut db, signup("alice", "pw")).unwrap();
    let claims = Claims::for_user(&user, 1000);
    assert_eq!(claims.id, user.id);
    assert_eq!(claims.username, "alice");
    assert_eq!(claims.exp, 1000 + 30 * 24 * 3600);
    assert!(claims.role.is_none());
    assert!(!claims.is_expired(1000 + 30 * 24 * 3600 - 1));
    assert!(claims.is_expired(1000 + 30 * 24 * 3600));
}
