use salon_booking::account::customer_to_salon_owner;
use salon_booking::account::sign_up;
use salon_booking::account::SignupInput;
use salon_booking::claim::Claims;
use salon_booking::database::Database;
use salon_booking::database::GeneralPagingQueryInput;
use salon_booking::database::GeneralStatus;
use salon_booking::database::UserRole;
use salon_booking::error::ServiceError;
use salon_booking::reservation::create_reservation;
use salon_booking::reservation::CreateReservationInput;
use salon_booking::salon::add_branch;
use salon_booking::salon::add_therapy;
use salon_booking::salon::create_salon;
use salon_booking::salon::delete_branch;
use salon_booking::salon::delete_salon;
use salon_booking::salon::delete_therapy;
use salon_booking::salon::get_salon;
use salon_booking::salon::list_salon;
use salon_booking::salon::salon_detail;
use salon_booking::salon::update_salon;
use salon_booking::salon::update_therapy;
use salon_booking::salon::AddAndUpdateTherapyInput;
use salon_booking::salon::AddSalonBranchInput;
use salon_booking::salon::CreateSalonInput;
use salon_booking::salon::UpdateSalonInput;
use salon_booking::salon_bed::add_bed;
use salon_booking::salon_bed::available_bed;
use salon_booking::salon_bed::delete_bed;
use salon_booking::salon_bed::list_bed;
use salon_booking::salon_bed::AddSalonBedInput;
use salon_booking::salon_bed::TimeRangeQuery;

fn owner_world() -> (Database, Claims) {
    let mut db = Database::new();
    let user = sign_up(
        &mut db,
        SignupInput {
            username: String::from("owner"),
            password: String::from("pw"),
            full_name: None,
            email: None,
            gender: None,
        },
    )
    .unwrap();
    customer_to_salon_owner(&mut db, user.id).unwrap();
    let claims = Claims {
        id: user.id,
        username: String::from("owner"),
        role: Some(UserRole::SalonOwner),
        exp: u64::MAX,
    };
    (db, claims)
}

#[test]
fn admin_creates_and_deletes_salons() {
    let mut db = Database::new();
    let salon = create_salon(
        &mut db,
        CreateSalonInput {
            logo: None,
            cover_photo: None,
            name: String::from("Shiny"),
            phone: Some(String::from("123")),
            email: None,
            description: None,
        },
    );
    assert_eq!(salon.id, 1);
    assert_eq!(salon.name.as_deref(), Some("Shiny"));
    assert_eq!(salon.status, Some(GeneralStatus::Activate));

    let detail = salon_detail(&db, salon.id).unwrap();
    assert_eq!(detail.salon.id, salon.id);
    assert!(detail.salon_branches.is_empty());
    assert!(detail.therapies.is_empty());

    let gone = delete_salon(&mut db, salon.id).unwrap();
    assert_eq!(gone.id, salon.id);
    let err = delete_salon(&mut db, salon.id).expect_err("a deleted salon stays gone");
    assert_eq!(err, ServiceError::SalonNotFound);
    let err = salon_detail(&db, salon.id).expect_err("a deleted salon has no detail");
    assert_eq!(err.message(), "salon not found.");
}

#[test]
fn list_salon_pages_in_stored_order() {
    let mut db = Database::new();
    for name in ["A", "B", "C"] {
        create_salon(
            &mut db,
            CreateSalonInput {
                logo: None,
                cover_photo: None,
                name: String::from(name),
                phone: None,
                email: None,
                description: None,
            },
        );
    }
    let (rows, total, pages) = list_salon(
        &db,
        GeneralPagingQueryInput { page: Some(2), limit: Some(2) },
    )
    .unwrap();
    assert_eq!(total, 3);
    assert_eq!(pages, 2);
    assert_eq!(rows.len(), 1);
    assert_eq!(rows[0].name.as_deref(), Some("C"));

    let err = list_salon(&db, GeneralPagingQueryInput { page: Some(1), limit: Some(-1) })
        .expect_err("a negative limit addresses no rows");
    assert_eq!(err, ServiceError::InvalidPaging);
    let err = list_salon(&db, GeneralPagingQueryInput { page: Some(0), limit: Some(2) })
        .expect_err("a non-positive page breaks the pagination contract");
    assert_eq!(err, ServiceError::InvalidPaging);
}

#[test]
fn owner_manages_own_salon() {
    let (mut db, owner) = owner_world();
    let detail = get_salon(&db, &owner).unwrap();
    assert_eq!(detail.salon.name, None, "the promotion opens an empty salon");

    let updated = update_salon(
        &mut db,
        &owner,
        UpdateSalonInput {
            logo: None,
            cover_photo: None,
            name: Some(String::from("Named")),
            phone: Some(String::from("555")),
            email: None,
            description: Some(String::from("About")),
        },
    )
    .unwrap();
    assert_eq!(updated.name.as_deref(), Some("Named"));
    assert_eq!(updated.status, Some(GeneralStatus::Activate), "status never moves");

    let detail = get_salon(&db, &owner).unwrap();
    assert_eq!(detail.salon.name.as_deref(), Some("Named"));

    let stranger = Claims {
        id: 999,
        username: String::from("stranger"),
        role: Some(UserRole::SalonOwner),
        exp: u64::MAX,
    };
    let err = get_salon(&db, &stranger).expect_err("an unknown account owns nothing");
    assert_eq!(err, ServiceError::Unauthorized);
}

#[test]
fn branches_and_beds_are_owner_scoped() {
    let (mut db, owner) = owner_world();
    let branch = add_branch(
        &mut db,
        &owner,
        AddSalonBranchInput { address: String::from("1 Main St") },
    )
    .unwrap();
    assert_eq!(branch.address.as_deref(), Some("1 Main St"));

    let bed = add_bed(&mut db, &owner, branch.id, AddSalonBedInput { name: String::from("B1") })
        .unwrap();
    let beds = list_bed(&db, branch.id);
    assert_eq!(beds.len(), 1);
    assert_eq!(beds[0].id, bed.id);

    // A second owner cannot touch the first one's branch or bed.
    let other_user = sign_up(
        &mut db,
        SignupInput {
            username: String::from("other"),
            password: String::from("pw"),
            full_name: None,
            email: None,
            gender: None,
        },
    )
    .unwrap();
    customer_to_salon_owner(&mut db, other_user.id).unwrap();
    let other = Claims {
        id: other_user.id,
        username: String::from("other"),
        role: Some(UserRole::SalonOwner),
        exp: u64::MAX,
    };
    let err = add_bed(&mut db, &other, branch.id, AddSalonBedInput { name: String::from("X") })
        .expect_err("a branch of another salon takes no beds");
    assert_eq!(err, ServiceError::BranchNotFound);
    assert_eq!(err.message(), "Branch not found or not your branch!");
    let err = delete_bed(&mut db, &other, bed.id)
        .expect_err("a bed of another salon cannot be deleted");
    assert_eq!(err, ServiceError::BedNotFound);
    assert_eq!(err.message(), "Bed not found or not your salon bed!");
    let err = delete_branch(&mut db, &other, branch.id)
        .expect_err("a branch of another salon cannot be deleted");
    assert_eq!(err, ServiceError::BranchNotFound);

    // The owner can.
    let gone = delete_bed(&mut db, &owner, bed.id).unwrap();
    assert_eq!(gone.id, bed.id);
    assert!(list_bed(&db, branch.id).is_empty());
    let gone = delete_branch(&mut db, &owner, branch.id).unwrap();
    assert_eq!(gone.id, branch.id);
}

#[test]
fn owner_without_salon_cannot_build() {
    let mut db = Database::new();
    salon_booking::account::create_salon_user(
        &mut db,
        salon_booking::account::CreateSalonUserInput {
            username: String::from("newowner"),
            password: String::from("pw"),
            email: None,
            gender: None,
        },
    )
    .unwrap();
    let claims = Claims {
        id: 1,
        username: String::from("newowner"),
        role: Some(UserRole::SalonOwner),
        exp: u64::MAX,
    };
    let err = add_branch(
        &mut db,
        &claims,
        AddSalonBranchInput { address: String::from("nowhere") },
    )
    .expect_err("an owner without a salon cannot open branches");
    assert_eq!(err, ServiceError::NoSalonOwned);
    let err = get_salon(&db, &claims).expect_err("an owner without a salon has none to read");
    assert_eq!(err, ServiceError::NoSalonOwned);
}

#[test]
fn therapies_are_owner_scoped() {
    let (mut db, owner) = owner_world();
    let therapy = add_therapy(
        &mut db,
        &owner,
        AddAndUpdateTherapyInput {
            name: Some(String::from("Massage")),
            description: None,
            price: Some(100),
            duration: Some(String::from("60m")),
        },
    )
    .unwrap();
    assert_eq!(therapy.price, Some(100));

    let updated = update_therapy(
        &mut db,
        &owner,
        therapy.id,
        AddAndUpdateTherapyInput {
            name: Some(String::from("Deep Massage")),
            description: Some(String::from("Long")),
            price: Some(150),
            duration: None,
        },
    )
    .unwrap();
    assert_eq!(updated.name.as_deref(), Some("Deep Massage"));
    assert_eq!(updated.price, Some(150));
    assert_eq!(updated.duration, None, "the update replaces every field");

    let detail = get_salon(&db, &owner).unwrap();
    assert_eq!(detail.therapies.len(), 1);
    assert_eq!(detail.therapies[0].name.as_deref(), Some("Deep Massage"));

    let err = update_therapy(
        &mut db,
        &owner,
        999,
        AddAndUpdateTherapyInput { name: None, description: None, price: None, duration: None },
    )
    .expect_err("an unknown therapy cannot be updated");
    assert_eq!(err, ServiceError::TherapyNotFound);

    let gone = delete_therapy(&mut db, &owner, therapy.id).unwrap();
    assert_eq!(gone.id, therapy.id);
    let err = delete_therapy(&mut db, &owner, therapy.id)
        .expect_err("a deleted therapy stays gone");
    assert_eq!(err, ServiceError::TherapyNotFound);
}

#[test]
fn available_beds_exclude_booked_slots() {
    let (mut db, owner) = owner_world();
    let branch = add_branch(
        &mut db,
        &owner,
        AddSalonBranchInput { address: String::from("1 Main St") },
    )
    .unwrap();
    let bed1 = add_bed(&mut db, &owner, branch.id, AddSalonBedInput { name: String::from("B1") })
        .unwrap();
    let bed2 = add_bed(&mut db, &owner, branch.id, AddSalonBedInput { name: String::from("B2") })
        .unwrap();
    let therapy = add_therapy(
        &mut db,
        &owner,
        AddAndUpdateTherapyInput { name: None, description: None, price: None, duration: None },
    )
    .unwrap();

    let t0: i64 = 1735725600;
    create_reservation(
        &mut db,
        &owner,
        CreateReservationInput {
            therapy_id: therapy.id,
            salon_bed_id: bed1.id,
            time_from: t0,
            time_to: t0 + 3600,
            comment: Some(String::from("please")),
        },
        t0 - 3600,
    )
    .unwrap();

    let free = available_bed(
        &db,
        branch.id,
        TimeRangeQuery { time_from: t0 + 1800, time_to: t0 + 5400 },
    )
    .unwrap();
    assert_eq!(free.len(), 1, "the booked bed must be filtered out");
    assert_eq!(free[0].id, bed2.id);

    let free = available_bed(
        &db,
        branch.id,
        TimeRangeQuery { time_from: t0 + 3600, time_to: t0 + 7200 },
    )
    .unwrap();
    assert_eq!(free.len(), 2, "an adjacent slot blocks nothing");

    let err = available_bed(&db, branch.id, TimeRangeQuery { time_from: t0, time_to: t0 })
        .expect_err("an empty slot is not a valid question");
    assert_eq!(err, ServiceError::InvalidTimeRange);
}

#[test]
fn salon_wide_bed_listings() {
    let (mut db, owner) = owner_world();
    let branch1 = add_branch(
        &mut db,
        &owner,
        AddSalonBranchInput { address: String::from("1 Main St") },
    )
    .unwrap();
    let branch2 = add_branch(
        &mut db,
        &owner,
        AddSalonBranchInput { address: String::from("2 Side St") },
    )
    .unwrap();
    let bed1 = add_bed(&mut db, &owner, branch1.id, AddSalonBedInput { name: String::from("B1") })
        .unwrap();
    let bed2 = add_bed(&mut db, &owner, branch2.id, AddSalonBedInput { name: String::from("B2") })
        .unwrap();
    let therapy = add_therapy(
        &mut db,
        &owner,
        AddAndUpdateTherapyInput { name: None, description: None, price: None, duration: None },
    )
    .unwrap();
    let salon_id = get_salon(&db, &owner).unwrap().salon.id;

    let beds = salon_booking::salon_bed::list_salon_bed(&db, salon_id);
    let ids: Vec<i64> = beds.iter().map(|b| b.id).collect();
    assert_eq!(ids, vec![bed1.id, bed2.id], "beds of every branch of the salon");
    assert!(salon_booking::salon_bed::list_salon_bed(&db, salon_id + 1).is_empty());

    let t0: i64 = 1735725600;
    create_reservation(
        &mut db,
        &owner,
        CreateReservationInput {
            therapy_id: therapy.id,
            salon_bed_id: bed2.id,
            time_from: t0,
            time_to: t0 + 3600,
            comment: None,
        },
        t0 - 3600,
    )
    .unwrap();
    let free = salon_booking::salon_bed::list_available_salon_bed(
        &db,
        salon_id,
        TimeRangeQuery { time_from: t0, time_to: t0 + 1800 },
    )
    .unwrap();
    let ids: Vec<i64> = free.iter().map(|b| b.id).collect();
    assert_eq!(ids, vec![bed1.id], "the booked bed drops out salon-wide");
    let err = salon_booking::salon_bed::list_available_salon_bed(
        &db,
        salon_id,
        TimeRangeQuery { time_from: t0, time_to: t0 },
    )
    .expect_err("an empty slot is not a valid question");
    assert_eq!(err, ServiceError::InvalidTimeRange);
}
