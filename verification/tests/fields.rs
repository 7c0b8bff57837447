use clishare::data::model;
use clishare::data::query::{key_count_is_valid, RevocationStatus};
use clishare::data::DbId;
use clishare::domain::clip::field::{Password, ShortCode, SHORTCODE_LEN};
use clishare::service::ask::GetClip;
use clishare::Time;
use std::str::FromStr;

#[test]
fn shortcode_new_has_ten_letters_or_digits() {
    for _ in 0..50 {
        let shortcode = ShortCode::new();
        let text = shortcode.as_str();
        assert_eq!(text.chars().count(), 10);
        assert_eq!(SHORTCODE_LEN, 10);
        assert!(text
            .chars()
            .all(|c| c.is_ascii_lowercase() || c.is_ascii_digit()));
    }
}

#[test]
fn shortcode_new_is_not_a_constant() {
    let first = ShortCode::new().into_inner();
    let differs = (0..20).any(|_| ShortCode::new().into_inner() != first);
    assert!(differs);
}

#[test]
fn shortcode_default_is_a_fresh_code() {
    let shortcode = ShortCode::default();
    assert_eq!(shortcode.as_str().chars().count(), 10);
}

#[test]
fn shortcode_keeps_its_text() {
    let shortcode = ShortCode::from("abcd123456");
    assert_eq!(shortcode.as_str(), "abcd123456");
    assert_eq!(shortcode.clone().as_str(), "abcd123456");
    assert_eq!(shortcode.into_inner(), "abcd123456".to_string());
    let shortcode = ShortCode::from("any text at all".to_string());
    assert_eq!(shortcode.as_str(), "any text at all");
    assert_eq!(String::from(shortcode), "any text at all".to_string());
    assert_eq!(ShortCode::from("").as_str(), "");
}

#[test]
fn password_defaults_to_none() {
    let password = Password::default();
    assert!(!password.has_password());
    assert_eq!(password.into_inner(), None);
}

#[test]
fn get_clip_from_raw_has_no_password() {
    let request = GetClip::from_raw("abcd123456");
    assert_eq!(request.shortcode.as_str(), "abcd123456");
    assert!(!request.password.has_password());
    let request = GetClip::from("zzzz999999");
    assert_eq!(request.shortcode.as_str(), "zzzz999999");
    assert_eq!(request.password.into_inner(), None);
    let request = GetClip::from(ShortCode::from("k"));
    assert_eq!(request.shortcode.as_str(), "k");
    assert!(!request.password.has_password());
}

#[test]
fn model_get_clip_selects_by_shortcode() {
    assert_eq!(
        model::GetClip::from(GetClip::from_raw("abcd123456")).shortcode,
        "abcd123456"
    );
    assert_eq!(
        model::GetClip::from(ShortCode::from("zzzz999999")).shortcode,
        "zzzz999999"
    );
    assert_eq!(model::GetClip::from("k".to_string()).shortcode, "k");
}

#[test]
fn model_rows_hold_what_they_are_given() {
    let new_clip = model::NewClip {
        clip_id: DbId::nil().to_string(),
        shortcode: "abcd123456".to_string(),
        content: "hello".to_string(),
        title: None,
        posted: 1431648000,
        expires: Some(1726704000),
        password: None,
    };
    assert_eq!(new_clip.clip_id, "00000000-0000-0000-0000-000000000000");
    assert_eq!(new_clip.expires, Some(1726704000));
    let update = model::UpdateClip {
        shortcode: new_clip.shortcode.clone(),
        content: "bye".to_string(),
        title: Some("title".to_string()),
        expires: None,
        password: Some("secret".to_string()),
    };
    assert_eq!(update.shortcode, "abcd123456");
    assert_eq!(update.title.as_deref(), Some("title"));
}

#[test]
fn revocation_status_follows_the_rows_affected() {
    assert_eq!(
        RevocationStatus::from_rows_affected(0),
        RevocationStatus::NotFound
    );
    assert_eq!(
        RevocationStatus::from_rows_affected(1),
        RevocationStatus::Revoked
    );
    assert_eq!(
        RevocationStatus::from_rows_affected(u64::MAX),
        RevocationStatus::Revoked
    );
}

#[test]
fn a_key_is_valid_when_it_is_stored_at_least_once() {
    assert!(!key_count_is_valid(0));
    assert!(key_count_is_valid(1));
    assert!(key_count_is_valid(u32::MAX));
}

#[test]
fn db_id_nil_is_all_zeros() {
    let id = DbId::nil();
    assert_eq!(id.as_u128(), 0);
    assert_eq!(id.to_string(), "00000000-0000-0000-0000-000000000000");
    assert_eq!(id, DbId::from_u128(0));
}

#[test]
fn db_id_new_is_a_random_uuid() {
    for _ in 0..20 {
        let id = DbId::new();
        let bits = id.as_u128();
        assert_eq!((bits >> 76) & 0xf, 4);
        assert_eq!((bits >> 62) & 0x3, 2);
        assert_ne!(id, DbId::nil());
        let parsed = uuid::Uuid::from_u128(bits);
        assert_eq!(parsed.get_version_num(), 4);
    }
    assert_ne!(DbId::new(), DbId::new());
    assert_ne!(DbId::default(), DbId::nil());
}

#[test]
fn db_id_text_is_hyphenated_lower_hex() {
    let id = DbId::from_u128(0x550e8400e29b41d4a716446655440000);
    assert_eq!(id.to_string(), "550e8400-e29b-41d4-a716-446655440000");
    assert_eq!(String::from(id), "550e8400-e29b-41d4-a716-446655440000");
    let id = DbId::from_u128(0x0123456789abcdeffedcba9876543210);
    assert_eq!(id.to_string(), "01234567-89ab-cdef-fedc-ba9876543210");
    assert_eq!(
        DbId::from_u128(u128::MAX).to_string(),
        "ffffffff-ffff-ffff-ffff-ffffffffffff"
    );
}

#[test]
fn db_id_parses_the_text_of_a_uuid() {
    let id = DbId::from_str("550e8400-e29b-41d4-a716-446655440000").unwrap();
    assert_eq!(id.as_u128(), 0x550e8400e29b41d4a716446655440000);
    let id = DbId::from_str("550E8400E29B41D4A716446655440000").unwrap();
    assert_eq!(id.as_u128(), 0x550e8400e29b41d4a716446655440000);
    assert!(DbId::from_str("not a uuid").is_err());
    assert!(DbId::from_str("").is_err());
    let fresh = DbId::new();
    assert_eq!(DbId::from_str(&fresh.to_string()).unwrap(), fresh);
}

#[test]
fn time_parses_a_date_as_its_first_moment_in_utc() {
    let time = Time::from_str("2024-09-19").unwrap();
    assert_eq!(time.timestamp(), 1726704000);
    assert_eq!(time.subsec_nanos(), 0);
    let time = Time::from_str("2015-05-15").unwrap();
    assert_eq!(time.timestamp(), 1431648000);
    assert_eq!(Time::from_str("1970-01-01").unwrap(), Time::from_timestamp(0, 0));
}

#[test]
fn time_rejects_what_is_not_a_date() {
    assert!(Time::from_str("").is_err());
    assert!(Time::from_str("tomorrow").is_err());
    assert!(Time::from_str("2024-13-01").is_err());
    assert!(Time::from_str("2024-09-19T10:00:00Z").is_err());
}

#[test]
fn time_reads_a_naive_datetime_as_utc() {
    let naive = chrono::NaiveDate::from_ymd_opt(2015, 5, 15)
        .unwrap()
        .and_hms_nano_opt(0, 0, 7, 250)
        .unwrap();
    let time = Time::from_naive_utc(naive);
    assert_eq!(time.timestamp(), 1431648007);
    assert_eq!(time.subsec_nanos(), 250);
}

#[test]
fn time_keeps_its_parts() {
    let time = Time::from_timestamp(-5, 999_999_999);
    assert_eq!(time.timestamp(), -5);
    assert_eq!(time.subsec_nanos(), 999_999_999);
    assert_eq!(time.clone(), time);
}

#[test]
fn time_now_is_the_present() {
    let before = chrono::Utc::now().timestamp();
    let now = Time::now();
    let after = chrono::Utc::now().timestamp();
    assert!(before <= now.timestamp() && now.timestamp() <= after);
    assert!(now.subsec_nanos() < 2_000_000_000);
}

#[test]
fn new_clip_row_gets_a_fresh_id_and_shortcode() {
    let before = chrono::Utc::now().timestamp();
    let row = model::NewClip::new(
        "hello".to_string(),
        Some("greeting".to_string()),
        Some(Time::from_timestamp(1726704000, 5)),
        None,
    );
    let after = chrono::Utc::now().timestamp();
    let id = DbId::from_str(&row.clip_id).unwrap();
    assert_eq!(id.to_string(), row.clip_id);
    assert_eq!((id.as_u128() >> 76) & 0xf, 4);
    assert_eq!(row.shortcode.chars().count(), 10);
    assert!(row
        .shortcode
        .chars()
        .all(|c| c.is_ascii_lowercase() || c.is_ascii_digit()));
    assert_eq!(row.content, "hello");
    assert_eq!(row.title.as_deref(), Some("greeting"));
    assert!(before <= row.posted && row.posted <= after);
    assert_eq!(row.expires, Some(1726704000));
    assert_eq!(row.password, None);
    let other = model::NewClip::new("hello".to_string(), None, None, Some("pw".to_string()));
    assert_ne!(other.clip_id, row.clip_id);
    assert_eq!(other.expires, None);
    assert_eq!(other.password.as_deref(), Some("pw"));
}

#[test]
fn update_clip_row_keeps_the_shortcode() {
    let row = model::UpdateClip::new(
        &ShortCode::from("abcd123456"),
        "bye".to_string(),
        None,
        Some(Time::from_timestamp(-1, 0)),
        Some("pw".to_string()),
    );
    assert_eq!(row.shortcode, "abcd123456");
    assert_eq!(row.content, "bye");
    assert_eq!(row.title, None);
    assert_eq!(row.expires, Some(-1));
    assert_eq!(row.password.as_deref(), Some("pw"));
}
