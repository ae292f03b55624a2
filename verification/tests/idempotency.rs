use zero2prod::domain::UserId;
use zero2prod::idempotency::{
    next_action, DecodeError, HeaderPairRecord, Headers, IdempotencyKey, InvalidKey, Ledger,
    LedgerError, NextAction, ReplayError, SavedResponse,
};

fn key(text: &str) -> IdempotencyKey {
    IdempotencyKey::parse(text.to_string()).unwrap()
}

fn response(status: u16, body: &[u8]) -> SavedResponse {
    SavedResponse::new(
        status,
        Headers::new(vec![HeaderPairRecord::new("x-test", b"yes")]),
        body.to_vec(),
    )
    .unwrap()
}

#[test]
fn a_key_is_printable_ascii_of_bounded_length() {
    assert!(IdempotencyKey::parse("a".to_string()).is_ok());
    assert!(IdempotencyKey::parse("a".repeat(49)).is_ok());
    assert!(IdempotencyKey::parse(" ~!".to_string()).is_ok());
    assert_eq!(
        key("0f1e2d3c-4b5a-6978-8796-a5b4c3d2e1f0").as_ref(),
        "0f1e2d3c-4b5a-6978-8796-a5b4c3d2e1f0"
    );
}

#[test]
fn an_empty_key_is_refused() {
    assert_eq!(
        IdempotencyKey::parse(String::new()).unwrap_err(),
        InvalidKey::Empty
    );
}

#[test]
fn a_key_of_fifty_characters_is_too_long() {
    assert_eq!(
        IdempotencyKey::parse("a".repeat(50)).unwrap_err(),
        InvalidKey::TooLong
    );
    assert_eq!(
        IdempotencyKey::parse("a".repeat(5000)).unwrap_err(),
        InvalidKey::TooLong
    );
}

#[test]
fn a_key_with_other_characters_is_refused() {
    for text in ["tab\there", "line\nbreak", "caf\u{e9}", "\u{7f}", "\0"] {
        assert_eq!(
            IdempotencyKey::parse(text.to_string()).unwrap_err(),
            InvalidKey::NotPrintable,
            "{text:?}"
        );
    }
}

#[test]
fn the_length_of_a_key_is_looked_at_first() {
    assert_eq!(
        IdempotencyKey::parse("\u{e9}".repeat(50)).unwrap_err(),
        InvalidKey::TooLong
    );
    // 49 characters, though 98 bytes: short enough, and refused for its characters.
    assert_eq!(
        IdempotencyKey::parse("\u{e9}".repeat(49)).unwrap_err(),
        InvalidKey::NotPrintable
    );
}

#[test]
fn each_key_defect_has_its_message() {
    assert_eq!(
        InvalidKey::Empty.message(),
        "The idempotency key cannot be empty"
    );
    assert_eq!(
        InvalidKey::TooLong.message(),
        "The idempotency key must be shorter than 50 characters"
    );
    assert_eq!(
        InvalidKey::NotPrintable.message(),
        "The idempotency key must be printable ASCII"
    );
}

#[test]
fn keys_compare_by_their_text() {
    assert!(key("K1").same_as(&key("K1")));
    assert!(!key("K1").same_as(&key("K2")));
    assert!(key("K1").same_as(&key("K1").clone()));
    assert_eq!(key("K1").into_string(), "K1");
}

#[test]
fn a_response_needs_a_status_from_100_to_999() {
    for status in [100u16, 200, 303, 599, 999] {
        let made = SavedResponse::new(status, Headers::new(Vec::new()), Vec::new());
        assert_eq!(made.unwrap().status(), status);
    }
    for status in [0u16, 99, 1000, u16::MAX] {
        assert_eq!(
            SavedResponse::new(status, Headers::new(Vec::new()), Vec::new()),
            Err(ReplayError::InvalidStatusCode)
        );
    }
}

#[test]
fn a_response_needs_valid_headers() {
    let bad_name = Headers::new(vec![HeaderPairRecord::new("bad name", b"v")]);
    assert_eq!(
        SavedResponse::new(200, bad_name, Vec::new()),
        Err(ReplayError::InvalidHeader)
    );
    let empty_name = Headers::new(vec![HeaderPairRecord::new("", b"v")]);
    assert_eq!(
        SavedResponse::new(200, empty_name, Vec::new()),
        Err(ReplayError::InvalidHeader)
    );
    let bad_value = Headers::new(vec![
        HeaderPairRecord::new("x-fine", b"fine"),
        HeaderPairRecord::new("x-broken", b"line\nbreak"),
    ]);
    assert_eq!(
        SavedResponse::new(200, bad_value, Vec::new()),
        Err(ReplayError::InvalidHeader)
    );
    let delete = Headers::new(vec![HeaderPairRecord::new("x", &[127])]);
    assert_eq!(
        SavedResponse::new(200, delete, Vec::new()),
        Err(ReplayError::InvalidHeader)
    );
    let odd_but_fine = Headers::new(vec![HeaderPairRecord::new("X-Odd", &[9, 32, 126, 128, 255])]);
    assert!(SavedResponse::new(200, odd_but_fine, Vec::new()).is_ok());
}

#[test]
fn the_status_is_looked_at_before_the_headers() {
    let bad_name = Headers::new(vec![HeaderPairRecord::new("bad name", b"v")]);
    assert_eq!(
        SavedResponse::new(1000, bad_name, Vec::new()),
        Err(ReplayError::InvalidStatusCode)
    );
}

#[test]
fn a_redirect_is_a_303_with_a_location() {
    let redirect = SavedResponse::see_other("/admin/newsletters").unwrap();
    assert_eq!(redirect.status(), 303);
    assert_eq!(
        redirect.headers(),
        &Headers::new(vec![HeaderPairRecord::new(
            "location",
            b"/admin/newsletters"
        )])
    );
    assert!(redirect.body().is_empty());
    // Bytes from 128 on may stand in a header value; control bytes may not.
    let accented = SavedResponse::see_other("/caf\u{e9}").unwrap();
    assert_eq!(
        accented.headers(),
        &Headers::new(vec![HeaderPairRecord::new(
            "location",
            &[b'/', b'c', b'a', b'f', 0xc3, 0xa9]
        )])
    );
    assert_eq!(SavedResponse::see_other("/a\nb"), None);
    assert_eq!(SavedResponse::see_other("/a\u{7f}b"), None);
    assert!(SavedResponse::see_other("/a\tb").is_some());
}

#[test]
fn a_text_response_names_its_kind() {
    let response = SavedResponse::text(500, "it broke \u{2014} sorry").unwrap();
    assert_eq!(response.status(), 500);
    assert_eq!(
        response.headers(),
        &Headers::new(vec![HeaderPairRecord::new(
            "content-type",
            b"text/plain; charset=utf-8"
        )])
    );
    assert_eq!(response.body(), &"it broke \u{2014} sorry".as_bytes().to_vec());
    assert_eq!(SavedResponse::text(99, "no"), None);
}

#[test]
fn a_status_only_response_is_empty() {
    let response = SavedResponse::status_only(401).unwrap();
    assert_eq!(response.status(), 401);
    assert_eq!(response.headers(), &Headers::new(Vec::new()));
    assert!(response.body().is_empty());
    assert_eq!(SavedResponse::status_only(1000), None);
}

#[test]
fn a_response_survives_the_ledger_row_byte_for_byte() {
    let first = SavedResponse::new(
        303,
        Headers::new(vec![
            HeaderPairRecord::new("location", b"/admin/newsletters"),
            HeaderPairRecord::new("set-cookie", &[b'a', 0xff, 0x80, b'=', b'1']),
            HeaderPairRecord::new("set-cookie", b"b=2"),
        ]),
        vec![0, 1, 2, 255, 254],
    )
    .unwrap();
    let (status, header_bytes, body) = first.to_row();
    assert_eq!(status, 303i16);
    assert_eq!(header_bytes, first.headers().to_bytes());
    assert_eq!(body, vec![0, 1, 2, 255, 254]);
    let replayed = SavedResponse::from_row(status, &header_bytes, body).unwrap();
    assert_eq!(replayed, first);
    assert_eq!(replayed.to_row(), first.to_row());
}

#[test]
fn a_row_with_a_bad_status_is_not_replayed() {
    let header_bytes = Headers::new(Vec::new()).to_bytes();
    for status in [-1i16, i16::MIN, 0, 99, 1000, i16::MAX] {
        assert_eq!(
            SavedResponse::from_row(status, &header_bytes, Vec::new()),
            Err(ReplayError::InvalidStatusCode),
            "{status}"
        );
    }
    assert!(SavedResponse::from_row(100, &header_bytes, Vec::new()).is_ok());
    assert!(SavedResponse::from_row(999, &header_bytes, Vec::new()).is_ok());
}

#[test]
fn a_row_with_unreadable_headers_is_not_replayed() {
    assert_eq!(
        SavedResponse::from_row(200, &[1, 2, 3], Vec::new()),
        Err(ReplayError::Headers(DecodeError::UnexpectedEnd))
    );
    let bytes: Vec<u8> = vec![
        1, 0, 0, 0, 0, 0, 0, 0, 1, 0, 0, 0, 0, 0, 0, 0, 0xff, 0, 0, 0, 0, 0, 0, 0, 0,
    ];
    assert_eq!(
        SavedResponse::from_row(200, &bytes, Vec::new()),
        Err(ReplayError::Headers(DecodeError::InvalidUtf8))
    );
    // The status is looked at first.
    assert_eq!(
        SavedResponse::from_row(-5, &[1, 2, 3], Vec::new()),
        Err(ReplayError::InvalidStatusCode)
    );
}

#[test]
fn a_row_with_an_invalid_header_is_not_replayed() {
    let bytes = Headers::new(vec![HeaderPairRecord::new("not a name", b"v")]).to_bytes();
    assert_eq!(
        SavedResponse::from_row(200, &bytes, Vec::new()),
        Err(ReplayError::InvalidHeader)
    );
    let bytes = Headers::new(vec![HeaderPairRecord::new("x-ok", b"\r\n")]).to_bytes();
    assert_eq!(
        SavedResponse::from_row(200, &bytes, Vec::new()),
        Err(ReplayError::InvalidHeader)
    );
}

#[test]
fn rows_written_by_count_decide_the_next_action() {
    assert_eq!(next_action(1, None), Ok(NextAction::StartProcessing));
    assert_eq!(
        next_action(1, Some(response(200, b"ignored"))),
        Ok(NextAction::StartProcessing)
    );
    assert_eq!(
        next_action(0, Some(response(200, b"saved"))),
        Ok(NextAction::ReturnSavedResponse(response(200, b"saved")))
    );
    assert_eq!(next_action(0, None), Err(LedgerError::ResponseMissing));
}

#[test]
fn a_first_claim_starts_the_work() {
    let mut ledger = Ledger::new();
    assert_eq!(ledger.len(), 0);
    assert_eq!(
        ledger.claim(UserId(1), &key("K1"), 1000),
        Ok(NextAction::StartProcessing)
    );
    assert_eq!(ledger.len(), 1);
    assert_eq!(ledger.get_saved_response(&key("K1"), UserId(1)), None);
}

#[test]
fn a_claim_of_a_key_in_flight_is_an_error() {
    let mut ledger = Ledger::new();
    ledger.claim(UserId(1), &key("K1"), 1000).unwrap();
    assert_eq!(
        ledger.claim(UserId(1), &key("K1"), 1001),
        Err(LedgerError::ResponseMissing)
    );
    assert_eq!(ledger.len(), 1);
}

#[test]
fn a_claim_of_a_completed_key_replays_the_response() {
    let mut ledger = Ledger::new();
    ledger.claim(UserId(1), &key("K1"), 1000).unwrap();
    ledger.save_response(&key("K1"), UserId(1), response(303, b"first"));
    for _ in 0..3 {
        assert_eq!(
            ledger.claim(UserId(1), &key("K1"), 2000),
            Ok(NextAction::ReturnSavedResponse(response(303, b"first")))
        );
    }
    assert_eq!(ledger.len(), 1);
    assert_eq!(
        ledger.get_saved_response(&key("K1"), UserId(1)),
        Some(response(303, b"first"))
    );
}

#[test]
fn keys_belong_to_their_callers() {
    let mut ledger = Ledger::new();
    ledger.claim(UserId(1), &key("K1"), 1000).unwrap();
    ledger.save_response(&key("K1"), UserId(1), response(200, b"one"));
    assert_eq!(
        ledger.claim(UserId(2), &key("K1"), 1000),
        Ok(NextAction::StartProcessing)
    );
    assert_eq!(
        ledger.claim(UserId(1), &key("K2"), 1000),
        Ok(NextAction::StartProcessing)
    );
    assert_eq!(ledger.len(), 3);
    assert_eq!(ledger.get_saved_response(&key("K1"), UserId(2)), None);
    assert_eq!(
        ledger.get_saved_response(&key("K1"), UserId(1)),
        Some(response(200, b"one"))
    );
}

#[test]
fn saving_without_a_claim_changes_nothing() {
    let mut ledger = Ledger::new();
    ledger.save_response(&key("K1"), UserId(1), response(200, b"lost"));
    assert_eq!(ledger.len(), 0);
    assert_eq!(ledger.get_saved_response(&key("K1"), UserId(1)), None);
    assert_eq!(
        ledger.claim(UserId(1), &key("K1"), 5),
        Ok(NextAction::StartProcessing)
    );
}

#[test]
fn a_released_claim_can_be_made_again() {
    let mut ledger = Ledger::new();
    ledger.claim(UserId(1), &key("K1"), 1000).unwrap();
    ledger.claim(UserId(1), &key("K2"), 1000).unwrap();
    ledger.release(&key("K1"), UserId(1));
    assert_eq!(ledger.len(), 1);
    assert_eq!(
        ledger.claim(UserId(1), &key("K1"), 1001),
        Ok(NextAction::StartProcessing)
    );
    // Unknown keys and completed rows are left alone.
    ledger.release(&key("K9"), UserId(1));
    ledger.save_response(&key("K2"), UserId(1), response(200, b"done"));
    ledger.release(&key("K2"), UserId(1));
    assert_eq!(ledger.len(), 2);
    assert_eq!(
        ledger.get_saved_response(&key("K2"), UserId(1)),
        Some(response(200, b"done"))
    );
}

#[test]
fn a_purge_removes_the_rows_older_than_the_cutoff() {
    let mut ledger = Ledger::new();
    ledger.claim(UserId(1), &key("old"), 100).unwrap();
    ledger.claim(UserId(1), &key("edge"), 200).unwrap();
    ledger.claim(UserId(1), &key("new"), 300).unwrap();
    ledger.save_response(&key("old"), UserId(1), response(200, b"x"));
    assert_eq!(ledger.purge(0), 0);
    assert_eq!(ledger.purge(100), 0);
    assert_eq!(ledger.len(), 3);
    // A row created exactly at the cutoff is not older than it.
    assert_eq!(ledger.purge(200), 1);
    assert_eq!(ledger.len(), 2);
    assert_eq!(ledger.get_saved_response(&key("old"), UserId(1)), None);
    assert_eq!(
        ledger.claim(UserId(1), &key("edge"), 999),
        Err(LedgerError::ResponseMissing)
    );
    assert_eq!(ledger.purge(u64::MAX), 2);
    assert_eq!(ledger.len(), 0);
    assert_eq!(ledger.purge(u64::MAX), 0);
}

#[test]
fn a_response_that_is_saved_again_replaces_the_first() {
    let mut ledger = Ledger::new();
    ledger.claim(UserId(1), &key("K1"), 1000).unwrap();
    ledger.save_response(&key("K1"), UserId(1), response(200, b"one"));
    ledger.save_response(&key("K1"), UserId(1), response(201, b"two"));
    assert_eq!(ledger.len(), 1);
    assert_eq!(
        ledger.get_saved_response(&key("K1"), UserId(1)),
        Some(response(201, b"two"))
    );
}
