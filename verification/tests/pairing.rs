//! Pairing codes.
use aionui_channel::error::ChannelError;
use aionui_channel::pairing::{
    code_from_draw, generate_pairing_code, le_number, pairing_code_of, AssistantUser, PairingCode, PairingService,
    PairingStatus, PAIRING_CODE_LENGTH, PAIRING_CODE_TTL_MS,
};
use aionui_channel::random::{generate_id, id_from_draw};

#[test]
fn code_has_correct_length() {
    let code = generate_pairing_code().unwrap();
    assert_eq!(code.len(), PAIRING_CODE_LENGTH);
}

#[test]
fn code_is_all_digits() {
    let code = generate_pairing_code().unwrap();
    assert!(code.chars().all(|c| c.is_ascii_digit()));
}

#[test]
fn code_is_zero_padded() {
    // Generate many codes; at least some should start with '0' statistically,
    // but more importantly verify format consistency.
    for _ in 0..100 {
        let code = generate_pairing_code().unwrap();
        assert_eq!(code.len(), PAIRING_CODE_LENGTH);
        assert!(code.chars().all(|c| c.is_ascii_digit()));
    }
}

#[test]
fn codes_are_not_all_identical() {
    let codes: std::collections::HashSet<String> = (0..50).map(|_| generate_pairing_code().unwrap()).collect();
    // With 6-digit codes, 50 random samples should produce > 1 unique
    assert!(codes.len() > 1);
}

fn codes_of_numbers_are_exact() {
    assert_eq!(pairing_code_of(0), "000000");
    assert_eq!(pairing_code_of(42), "000042");
    assert_eq!(pairing_code_of(999_999), "999999");
    assert_eq!(le_number([1, 2, 3, 4]), u32::from_le_bytes([1, 2, 3, 4]));
    assert_eq!(le_number([255, 255, 255, 255]), u32::MAX);
    assert_eq!(code_from_draw(Ok(1_000_042)), Ok("000042".to_string()));
    assert_eq!(code_from_draw(Ok(u32::MAX)), Ok(format!("{:06}", u32::MAX % 1_000_000)));
}

fn a_failed_draw_is_an_error() {
    assert!(matches!(code_from_draw(Err("no entropy".into())), Err(e) if e.message().contains("no entropy")));
}

fn row(code: &str, user: &str, status: PairingStatus, expires_at: i64) -> PairingCode {
    PairingCode {
        code: code.into(),
        owner_user_id: "owner".into(),
        platform_user_id: user.into(),
        platform_type: "telegram".into(),
        display_name: Some("Test".into()),
        requested_at: 0,
        expires_at,
        status: status.as_str().into(),
    }
}

fn a_request_is_pending_for_ten_minutes() {
    let r = PairingService::request_pairing("owner", "tg_42", "telegram", &Some("Test".into()), "123456", 1000);
    assert_eq!(r.code, "123456");
    assert_eq!(r.owner_user_id, "owner");
    assert_eq!(r.platform_user_id, "tg_42");
    assert_eq!(r.platform_type, "telegram");
    assert_eq!(r.display_name.as_deref(), Some("Test"));
    assert_eq!(r.requested_at, 1000);
    assert_eq!(r.expires_at, 1000 + PAIRING_CODE_TTL_MS);
    assert_eq!(r.expires_at, 601_000);
    assert_eq!(r.status, "pending");
}

fn older_codes_of_the_user_end() {
    let p = PairingStatus::Pending;
    let mut other = row("4", "tg_42", p, 1);
    other.platform_type = "lark".into();
    let pending = vec![row("1", "tg_42", p, 1), row("2", "tg_43", p, 1), row("3", "tg_42", p, 1), other];
    assert_eq!(
        PairingService::expire_user_pending_codes(&pending, "tg_42", "telegram"),
        vec!["1".to_string(), "3".to_string()]
    );
    assert!(PairingService::expire_user_pending_codes(&pending, "nobody", "telegram").is_empty());
}

fn codes_are_decided_once_and_in_time() {
    let p = PairingStatus::Pending;
    let user = PairingService::approve_pairing("owner", Some(row("1", "tg_42", p, 100)), "1", "u1", 99).unwrap();
    assert_eq!(
        user,
        AssistantUser {
            id: "u1".into(),
            owner_user_id: "owner".into(),
            platform_user_id: "tg_42".into(),
            platform_type: "telegram".into(),
            display_name: Some("Test".into()),
            authorized_at: 99,
            last_active: None,
            session_id: None,
        }
    );
    assert_eq!(
        PairingService::approve_pairing("owner", None, "1", "u1", 50),
        Err(ChannelError::PairingNotFound("1".into()))
    );
    assert_eq!(
        PairingService::reject_pairing(Some(row("1", "tg_42", p, 100)), "1", 100),
        Err(ChannelError::PairingExpired("1".into()))
    );
    assert_eq!(PairingService::reject_pairing(Some(row("1", "tg_42", p, 100)), "1", 99), Ok(()));
    for done in [PairingStatus::Approved, PairingStatus::Rejected, PairingStatus::Expired] {
        assert_eq!(
            PairingService::get_valid_pending_pairing(Some(row("1", "tg_42", done, 100)), "1", 50),
            Err(ChannelError::PairingAlreadyProcessed("1".into()))
        );
    }
}

fn decisions_are_stored() {
    let p = PairingStatus::Pending;
    let approve = |row: Option<PairingCode>, now: i64| PairingService::approve_pairing("owner", row, "1", "u1", now);
    let reject = |row: Option<PairingCode>, now: i64| PairingService::reject_pairing(row, "1", now);
    let good = || Some(row("1", "tg_42", p, 100));
    let done = || Some(row("1", "tg_42", PairingStatus::Rejected, 100));
    assert_eq!(PairingService::status_of_approval(&approve(good(), 99)), Some(PairingStatus::Approved));
    assert_eq!(PairingService::status_of_rejection(&reject(good(), 99)), Some(PairingStatus::Rejected));
    assert_eq!(PairingService::status_of_approval(&approve(good(), 100)), Some(PairingStatus::Expired));
    assert_eq!(PairingService::status_of_rejection(&reject(good(), 100)), Some(PairingStatus::Expired));
    assert_eq!(PairingService::status_of_approval(&approve(None, 50)), None);
    assert_eq!(PairingService::status_of_rejection(&reject(None, 50)), None);
    assert_eq!(PairingService::status_of_approval(&approve(done(), 50)), None);
    assert_eq!(PairingService::status_of_rejection(&reject(done(), 50)), None);
}

fn ids_are_random_uuids() {
    let bytes: [u8; 16] = [0, 1, 2, 3, 4, 5, 6, 7, 8, 9, 10, 11, 12, 13, 14, 255];
    assert_eq!(id_from_draw(Ok(bytes)).as_deref(), Ok("00010203-0405-4607-8809-0a0b0c0d0eff"));
    assert_eq!(id_from_draw(Ok([0xff; 16])).as_deref(), Ok("ffffffff-ffff-4fff-bfff-ffffffffffff"));
    assert_eq!(id_from_draw(Err("no entropy".into())), Err("RNG failure: no entropy".to_string()));
    let first = generate_id().unwrap();
    assert_ne!(first, generate_id().unwrap());
    assert_eq!(uuid::Uuid::parse_str(&first).unwrap().get_version_num(), 4);
}

fn expired_codes_are_not_listed() {
    let p = PairingStatus::Pending;
    let rows = vec![row("1", "a", p, 100), row("2", "b", p, 99), row("3", "c", p, 101)];
    let listed = PairingService::get_pending_pairings(rows, 100);
    let codes: Vec<&str> = listed.iter().map(|r| r.code.as_str()).collect();
    assert_eq!(codes, vec!["3"]);
}

fn users_are_known_by_their_row() {
    assert!(!PairingService::is_user_authorized(&None));
    assert!(PairingService::get_internal_user_id(&None).is_none());
    let user = Some(
        PairingService::approve_pairing("owner", Some(row("1", "tg", PairingStatus::Pending, 9)), "1", "u1", 5).unwrap(),
    );
    assert!(PairingService::is_user_authorized(&user));
    assert_eq!(PairingService::get_internal_user_id(&user).as_deref(), Some("u1"));
}

#[test]
fn codes_are_drawn() {
    codes_of_numbers_are_exact();
    a_failed_draw_is_an_error();
    ids_are_random_uuids();
}

#[test]
fn codes_live_and_end() {
    a_request_is_pending_for_ten_minutes();
    older_codes_of_the_user_end();
    codes_are_decided_once_and_in_time();
    decisions_are_stored();
    expired_codes_are_not_listed();
    users_are_known_by_their_row();
}
