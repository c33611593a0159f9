use salon_booking::account::sign_up;
use salon_booking::account::customer_to_salon_owner;
use salon_booking::account::SignupInput;
use salon_booking::claim::Claims;
use salon_booking::database::Database;
use salon_booking::database::ReservationStatus;
use salon_booking::database::UserRole;
use salon_booking::error::ServiceError;
use salon_booking::reservation::cancel_reservation;
use salon_booking::reservation::create_reservation;
use salon_booking::reservation::create_reservation_now;
use salon_booking::reservation::list_reservation_history;
use salon_booking::reservation::CreateReservationInput;
use salon_booking::database::GeneralPagingQueryInput;
use salon_booking::salon::add_branch;
use salon_booking::salon::add_therapy;
use salon_booking::salon::AddAndUpdateTherapyInput;
use salon_booking::salon::AddSalonBranchInput;
use salon_booking::salon_bed::add_bed;
use salon_booking::salon_bed::AddSalonBedInput;

// 2025-01-01T00:00:00Z
const MIDNIGHT: i64 = 1735689600;
const T10_00: i64 = MIDNIGHT + 10 * 3600;
const T10_30: i64 = MIDNIGHT + 10 * 3600 + 1800;
const T11_00: i64 = MIDNIGHT + 11 * 3600;
const T11_30: i64 = MIDNIGHT + 11 * 3600 + 1800;
const T12_00: i64 = MIDNIGHT + 12 * 3600;

fn claims_for(id: i64, username: &str, role: UserRole) -> Claims {
    Claims { id, username: String::from(username), role: Some(role), exp: u64::MAX }
}

/// A store with one salon (owner "owner", user 1), one branch (1), one bed
/// (1), one therapy (1), and a customer "customer" (user 2).
fn world() -> (Database, Claims, Claims) {
    let mut db = Database::new();
    let owner_user = sign_up(
        &mut db,
        SignupInput {
            username: String::from("owner"),
            password: String::from("ownerpw"),
            full_name: None,
            email: None,
            gender: None,
        },
    )
    .unwrap();
    let customer_user = sign_up(
        &mut db,
        SignupInput {
            username: String::from("customer"),
            password: String::from("customerpw"),
            full_name: None,
            email: None,
            gender: None,
        },
    )
    .unwrap();
    customer_to_salon_owner(&mut db, owner_user.id).unwrap();
    let owner = claims_for(owner_user.id, "owner", UserRole::SalonOwner);
    let customer = claims_for(customer_user.id, "customer", UserRole::Customer);
    let branch = add_branch(
        &mut db,
        &owner,
        AddSalonBranchInput { address: String::from("1 Main St") },
    )
    .unwrap();
    add_bed(&mut db, &owner, branch.id, AddSalonBedInput { name: String::from("Bed 1") }).unwrap();
    add_therapy(
        &mut db,
        &owner,
        AddAndUpdateTherapyInput {
            name: Some(String::from("Massage")),
            description: None,
            price: Some(100),
            duration: Some(String::from("60m")),
        },
    )
    .unwrap();
    (db, owner, customer)
}

fn booking(bed_id: i64, therapy_id: i64, from: i64, to: i64) -> CreateReservationInput {
    CreateReservationInput {
        therapy_id,
        salon_bed_id: bed_id,
        time_from: from,
        time_to: to,
        comment: None,
    }
}

#[test]
fn create_reservation_succeeds_on_free_bed() {
    let (mut db, _owner, customer) = world();
    let res = create_reservation(&mut db, &customer, booking(1, 1, T10_00, T11_00), MIDNIGHT)
        .expect("booking a free bed with valid times must succeed");
    assert_eq!(res.status, ReservationStatus::Waiting);
    assert_eq!(res.user_id, customer.id);
    assert_eq!(res.salon_bed_id, 1);
    assert_eq!(res.time_from, T10_00);
    assert_eq!(res.time_to, T11_00);
}

#[test]
fn overlapping_reservation_rejected() {
    let (mut db, _owner, customer) = world();
    create_reservation(&mut db, &customer, booking(1, 1, T10_00, T11_00), MIDNIGHT).unwrap();
    let err = create_reservation(&mut db, &customer, booking(1, 1, T10_30, T11_30), MIDNIGHT)
        .expect_err("an overlapping slot on the same bed must be rejected");
    assert_eq!(err, ServiceError::BedUnavailable);
    assert_eq!(err.message(), "This bed already booked at this time.");
}

#[test]
fn adjacent_reservation_accepted() {
    let (mut db, _owner, customer) = world();
    create_reservation(&mut db, &customer, booking(1, 1, T10_00, T11_00), MIDNIGHT).unwrap();
    let res = create_reservation(&mut db, &customer, booking(1, 1, T11_00, T12_00), MIDNIGHT)
        .expect("an adjacent slot starting where the first ends must be accepted");
    assert_eq!(res.status, ReservationStatus::Waiting);
}

#[test]
fn empty_slot_rejected() {
    let (mut db, _owner, customer) = world();
    let err = create_reservation(&mut db, &customer, booking(1, 1, T10_00, T10_00), MIDNIGHT)
        .expect_err("time_from == time_to must be rejected");
    assert_eq!(err, ServiceError::InvalidTimeRange);
    assert_eq!(err.message(), "time to must be greater than time from");
}

#[test]
fn slot_starting_now_rejected() {
    let (mut db, _owner, customer) = world();
    let err = create_reservation(&mut db, &customer, booking(1, 1, T10_00, T11_00), T10_00)
        .expect_err("time_from == now is not strictly future and must be rejected");
    assert_eq!(err, ServiceError::TimeNotInFuture);
}

#[test]
fn backward_slot_rejected() {
    let (mut db, _owner, customer) = world();
    let err = create_reservation(&mut db, &customer, booking(1, 1, T11_00, T10_00), MIDNIGHT)
        .expect_err("time_from after time_to must be rejected");
    assert_eq!(err, ServiceError::InvalidTimeRange);
}

#[test]
fn therapy_of_other_salon_rejected() {
    let (mut db, _owner, customer) = world();
    // A second owner with their own salon and therapy, no beds.
    let other = sign_up(
        &mut db,
        SignupInput {
            username: String::from("other"),
            password: String::from("otherpw"),
            full_name: None,
            email: None,
            gender: None,
        },
    )
    .unwrap();
    customer_to_salon_owner(&mut db, other.id).unwrap();
    let other_claims = claims_for(other.id, "other", UserRole::SalonOwner);
    let foreign_therapy = add_therapy(
        &mut db,
        &other_claims,
        AddAndUpdateTherapyInput {
            name: Some(String::from("Facial")),
            description: None,
            price: None,
            duration: None,
        },
    )
    .unwrap();
    let err = create_reservation(
        &mut db,
        &customer,
        booking(1, foreign_therapy.id, T10_00, T11_00),
        MIDNIGHT,
    )
    .expect_err("a therapy of another salon must not be bookable on this bed");
    assert_eq!(err, ServiceError::TherapyBedSalonMismatch);
    assert_eq!(err.message(), "therapy and salon bed are not in same salon!");
}

#[test]
fn unknown_bed_rejected() {
    let (mut db, _owner, customer) = world();
    let err = create_reservation(&mut db, &customer, booking(77, 1, T10_00, T11_00), MIDNIGHT)
        .expect_err("an unknown bed must not be bookable");
    assert_eq!(err, ServiceError::BedUnavailable, "a missing bed counts as unavailable");
}

#[test]
fn cancel_then_rebook_same_slot() {
    let (mut db, _owner, customer) = world();
    let res = create_reservation(&mut db, &customer, booking(1, 1, T10_00, T11_00), MIDNIGHT)
        .unwrap();
    let cancelled = cancel_reservation(&mut db, &customer, res.id)
        .expect("the owner of a waiting reservation may cancel it");
    assert_eq!(cancelled.status, ReservationStatus::Cancel);
    assert_eq!(cancelled.id, res.id);
    let again = create_reservation(&mut db, &customer, booking(1, 1, T10_00, T11_00), MIDNIGHT)
        .expect("after cancellation the same slot must be bookable again");
    assert_eq!(again.status, ReservationStatus::Waiting);
    assert_ne!(again.id, res.id);
}

#[test]
fn cancel_by_other_user_rejected_like_missing() {
    let (mut db, owner, customer) = world();
    let res = create_reservation(&mut db, &customer, booking(1, 1, T10_00, T11_00), MIDNIGHT)
        .unwrap();
    let err_other = cancel_reservation(&mut db, &owner, res.id)
        .expect_err("someone else's reservation must not be cancellable");
    let err_missing = cancel_reservation(&mut db, &customer, 999)
        .expect_err("a missing reservation must not be cancellable");
    assert_eq!(err_other, err_missing);
    assert_eq!(err_other, ServiceError::ReservationNotCancellable);
    assert_eq!(
        err_other.message(),
        "This reservation of this user already canceled or not found."
    );
    // The reservation still stands.
    let err = create_reservation(&mut db, &customer, booking(1, 1, T10_30, T11_30), MIDNIGHT)
        .expect_err("the slot must still be taken after the failed cancellations");
    assert_eq!(err, ServiceError::BedUnavailable);
}

#[test]
fn cancel_twice_rejected() {
    let (mut db, _owner, customer) = world();
    let res = create_reservation(&mut db, &customer, booking(1, 1, T10_00, T11_00), MIDNIGHT)
        .unwrap();
    cancel_reservation(&mut db, &customer, res.id).unwrap();
    let err = cancel_reservation(&mut db, &customer, res.id)
        .expect_err("cancelling an already cancelled reservation must fail");
    assert_eq!(err, ServiceError::ReservationNotCancellable);
}

#[test]
fn history_is_per_user_newest_first() {
    let (mut db, owner, customer) = world();
    let early = create_reservation(&mut db, &customer, booking(1, 1, T10_00, T11_00), MIDNIGHT)
        .unwrap();
    let late = create_reservation(&mut db, &customer, booking(1, 1, T11_30, T12_00), MIDNIGHT)
        .unwrap();
    let middle = create_reservation(&mut db, &customer, booking(1, 1, T11_00, T11_30), MIDNIGHT)
        .unwrap();
    // A reservation of someone else never shows up.
    create_reservation(&mut db, &owner, booking(1, 1, T12_00, T12_00 + 3600), MIDNIGHT).unwrap();

    let (rows, total, pages) = list_reservation_history(
        &db,
        &customer,
        GeneralPagingQueryInput { page: None, limit: None },
    )
    .unwrap();
    assert_eq!(total, 3);
    assert_eq!(pages, 1);
    let ids: Vec<i64> = rows.iter().map(|r| r.id).collect();
    assert_eq!(ids, vec![late.id, middle.id, early.id]);

    // Each listed row carries the display snapshot of what it points at.
    let first = &rows[0];
    assert_eq!(first.therapy.as_ref().map(|t| t.id), Some(1));
    assert_eq!(first.salon_bed.as_ref().map(|b| b.id), Some(1));
    assert_eq!(first.salon_branch.as_ref().map(|b| b.id), Some(1));
    assert!(first.salon.is_some());
}

#[test]
fn history_pages_are_windows() {
    let (mut db, _owner, customer) = world();
    for k in 0..5i64 {
        create_reservation(
            &mut db,
            &customer,
            booking(1, 1, T10_00 + k * 3600, T10_00 + k * 3600 + 1800),
            MIDNIGHT,
        )
        .unwrap();
    }
    let (page1, total, pages) = list_reservation_history(
        &db,
        &customer,
        GeneralPagingQueryInput { page: Some(1), limit: Some(2) },
    )
    .unwrap();
    assert_eq!(total, 5);
    assert_eq!(pages, 3);
    assert_eq!(page1.len(), 2);
    assert_eq!(page1[0].time_from, T10_00 + 4 * 3600);
    assert_eq!(page1[1].time_from, T10_00 + 3 * 3600);
    let (page3, _, _) = list_reservation_history(
        &db,
        &customer,
        GeneralPagingQueryInput { page: Some(3), limit: Some(2) },
    )
    .unwrap();
    assert_eq!(page3.len(), 1);
    assert_eq!(page3[0].time_from, T10_00);
    let (beyond, _, _) = list_reservation_history(
        &db,
        &customer,
        GeneralPagingQueryInput { page: Some(9), limit: Some(2) },
    )
    .unwrap();
    assert!(beyond.is_empty());
}

#[test]
fn history_rejects_non_positive_page() {
    let (db, _owner, customer) = world();
    let err = list_reservation_history(
        &db,
        &customer,
        GeneralPagingQueryInput { page: Some(0), limit: Some(2) },
    )
    .expect_err("a non-positive page breaks the pagination contract");
    assert_eq!(err, ServiceError::InvalidPaging);
    assert_eq!(err.message(), "page and limit must greater than 0.");
}

#[test]
fn history_rejects_bad_limit() {
    let (db, _owner, customer) = world();
    let err = list_reservation_history(
        &db,
        &customer,
        GeneralPagingQueryInput { page: Some(1), limit: Some(0) },
    )
    .expect_err("a zero limit addresses no rows");
    assert_eq!(err, ServiceError::InvalidPaging);
}

#[test]
fn clocked_create_rejects_past_slot() {
    let (mut db, _owner, customer) = world();
    // 2000-01-01T00:00:00Z lies in the past for any running clock.
    let past: i64 = 946684800;
    let (now, outcome) = create_reservation_now(&mut db, &customer, booking(1, 1, past, past + 3600));
    assert!(now > past);
    assert_eq!(outcome.expect_err("a slot in the past must be rejected"), ServiceError::TimeNotInFuture);
}

#[test]
fn clocked_create_accepts_far_future_slot() {
    let (mut db, _owner, customer) = world();
    // 2100-01-01T00:00:00Z lies in the future for any running clock.
    let future: i64 = 4102444800;
    let (now, outcome) = create_reservation_now(&mut db, &customer, booking(1, 1, future, future + 3600));
    assert!(now < future);
    let res = outcome.expect("a free far-future slot must be accepted");
    assert_eq!(res.status, ReservationStatus::Waiting);
}

