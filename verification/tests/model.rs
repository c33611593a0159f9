use salon_booking::database::GeneralStatus;
use salon_booking::database::ReservationStatus;
use salon_booking::database::UserGender;
use salon_booking::database::UserRole;
use salon_booking::db_error::SupabaseError;
use salon_booking::error::AppError;
use salon_booking::error::ServiceError;
use salon_booking::extract_page_and_limit;
use salon_booking::get_query_from_to;
use salon_booking::response::response_message;
use salon_booking::response::GeneralBody;
use salon_booking::total_pages;

#[test]
fn total_pages_rounds_up() {
    assert_eq!(total_pages(0, 5), 0);
    assert_eq!(total_pages(9, 3), 3);
    assert_eq!(total_pages(10, 3), 4);
    assert_eq!(total_pages(1, 9999), 1);
    assert_eq!(total_pages(3, 1), 3);
}

#[test]
fn page_and_limit_defaults() {
    assert_eq!(extract_page_and_limit(None, None), (1, 9999));
    assert_eq!(extract_page_and_limit(Some(0), Some(50)), (1, 50));
    assert_eq!(extract_page_and_limit(Some(-3), None), (1, 9999));
    assert_eq!(extract_page_and_limit(Some(4), Some(25)), (4, 25));
}

#[test]
fn query_windows() {
    assert_eq!(get_query_from_to(1, 10).unwrap(), (0, 9));
    assert_eq!(get_query_from_to(3, 10).unwrap(), (20, 29));
    let err: AppError = get_query_from_to(0, 10).unwrap_err();
    assert_eq!(err.message, "page and limit must greater than 0.");
    assert!(get_query_from_to(1, 0).is_err());
    assert!(get_query_from_to(i64::MAX, 2).is_err(), "a window past the largest row fails");
}

#[test]
fn stock_response_messages() {
    assert_eq!(response_message(200), Some("Successfully!"));
    assert_eq!(response_message(500), Some("Internal server error!"));
    assert_eq!(response_message(401), Some("Unauthorized!"));
    assert_eq!(response_message(400), Some("Bad request!"));
    assert_eq!(response_message(418), None);
}

#[test]
fn general_body_carries_status_and_message() {
    let body: GeneralBody<i64> = GeneralBody::new(200, Some(7));
    assert_eq!(body.status, 200);
    assert_eq!(body.data, Some(7));
    assert_eq!(body.message, "Successfully!");

    let body: GeneralBody<bool> = GeneralBody::new(418, None);
    assert_eq!(body.message, "Undefied!");

    let body: GeneralBody<bool> = GeneralBody::new_custom(400, String::from("Error: boom"), None);
    assert_eq!(body.status, 400);
    assert_eq!(body.message, "Error: boom");
}

#[test]
fn role_and_gender_codes() {
    assert_eq!(UserRole::Admin.code(), "ADMIN");
    assert_eq!(UserRole::SalonOwner.code(), "SALON_OWNER");
    assert_eq!(UserRole::Customer.code(), "CUSTOMER");
    assert_eq!(UserGender::Male.code(), "Male");
    assert_eq!(UserGender::Female.code(), "Female");
}

#[test]
fn enums_compare_by_variant() {
    assert_eq!(GeneralStatus::Activate, GeneralStatus::Activate);
    assert_ne!(GeneralStatus::Activate, GeneralStatus::Inactivate);
    assert_ne!(ReservationStatus::Waiting, ReservationStatus::Cancel);
    assert_ne!(ReservationStatus::Waiting, ReservationStatus::Done);
}

#[test]
fn service_errors_wrap_into_app_errors() {
    let app = ServiceError::BedUnavailable.to_app_error();
    assert_eq!(app.message, "This bed already booked at this time.");
    let app = AppError::new(String::from("boom"));
    assert_eq!(app.message, "boom");
}

#[test]
fn supabase_error_is_plain_data() {
    let e = SupabaseError {
        code: String::from("23505"),
        details: None,
        hint: None,
        message: Some(String::from("duplicate key")),
    };
    assert_eq!(e.code, "23505");
    assert_eq!(e.message.as_deref(), Some("duplicate key"));
}
