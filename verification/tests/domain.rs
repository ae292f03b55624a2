use zero2prod::domain::{NewSubscriber, SubscriberEmail, SubscriberName, UserId};

const FORBIDDEN_CHARACTERS: &[char] = &[
    '/', '\\', '<', '>', '"', '|', '?', '*', ':', ';', ',', '(', ')',
];

#[test]
fn empty_string_is_rejected() {
    let email: String = "".into();
    assert!(SubscriberEmail::parse(email).is_err());
}

#[test]
fn email_missing_at_symbol_is_rejected() {
    let email: String = "ursuladomain.com".into();
    assert!(SubscriberEmail::parse(email).is_err());
}

#[test]
fn email_missing_subject_is_rejected() {
    let email: String = "@domain.com".into();
    assert!(SubscriberEmail::parse(email).is_err());
}

#[test]
fn a_valid_email_is_parsed() {
    let email: String = "ursula@domain.com".into();
    assert!(SubscriberEmail::parse(email).is_ok());
}

#[test]
fn a_parsed_email_keeps_its_text() {
    let email = SubscriberEmail::parse("ursula@domain.com".to_string()).unwrap();
    assert_eq!(email.as_ref(), "ursula@domain.com");
}

#[test]
fn a_rejected_email_is_quoted_in_the_message() {
    let error = SubscriberEmail::parse("ursuladomain.com".to_string()).unwrap_err();
    assert_eq!(error, "ursuladomain.com is not a valid subscriber email");
}

#[test]
fn a_256_graphme_long_name_is_valid() {
    let name = "a".repeat(256);
    assert!(SubscriberName::parse(name).is_ok());
}

#[test]
fn a_name_longer_than_256_graphemes_is_rejected() {
    let name = "a".repeat(257);
    assert!(SubscriberName::parse(name).is_err());
}

#[test]
fn whitespace_only_names_are_rejected() {
    let name = " ".to_string();
    assert!(SubscriberName::parse(name).is_err());
}

#[test]
fn empty_name_is_rejected() {
    let name = "".to_string();
    assert!(SubscriberName::parse(name).is_err());
}

#[test]
fn names_containing_an_invalid_character_are_rejected() {
    for name in FORBIDDEN_CHARACTERS {
        assert!(SubscriberName::parse(name.to_string()).is_err());
    }
}

#[test]
fn a_valid_name_is_parsed_successfully() {
    let name = "Ursula Le Guin".to_string();
    assert!(SubscriberName::parse(name).is_ok());
}

#[test]
fn each_name_defect_has_its_message() {
    assert_eq!(
        SubscriberName::parse("\t \n".to_string()).unwrap_err(),
        "Name is empty."
    );
    assert_eq!(
        SubscriberName::parse("a".repeat(257)).unwrap_err(),
        "Name is too long."
    );
    assert_eq!(
        SubscriberName::parse("Ursula (Le Guin)".to_string()).unwrap_err(),
        "Name contains forbidden characters."
    );
}

#[test]
fn the_first_name_defect_decides() {
    // Too long and forbidden at once: the length is looked at first.
    let name = "/".repeat(300);
    assert_eq!(SubscriberName::parse(name).unwrap_err(), "Name is too long.");
}

#[test]
fn length_is_counted_in_graphemes_not_in_characters() {
    // 256 graphemes of two characters each: the letter and a combining accent.
    let name = "e\u{301}".repeat(256);
    assert_eq!(name.chars().count(), 512);
    assert!(SubscriberName::parse(name).is_ok());
    let name = "e\u{301}".repeat(257);
    assert!(SubscriberName::parse(name).is_err());
}

#[test]
fn a_name_is_trimmed_as_unicode_white_space() {
    // U+2003 is white space for `trim`, and so the name is blank.
    assert_eq!(
        SubscriberName::parse("\u{2003}".to_string()).unwrap_err(),
        "Name is empty."
    );
}

#[test]
fn try_parse_is_parse() {
    assert!(SubscriberName::try_parse("Ursula".to_string()).is_ok());
    assert_eq!(
        SubscriberName::try_parse("".to_string()).unwrap_err(),
        "Name is empty."
    );
}

#[test]
fn inner_gives_the_name_back() {
    let name = SubscriberName::parse("Ursula Le Guin".to_string()).unwrap();
    assert_eq!(name.as_ref(), "Ursula Le Guin");
    assert_eq!(name.inner(), "Ursula Le Guin");
}

#[test]
fn a_new_subscriber_needs_both_fields_to_be_valid() {
    let subscriber =
        NewSubscriber::parse("Ursula".to_string(), "ursula@domain.com".to_string()).unwrap();
    assert_eq!(subscriber.name.as_ref(), "Ursula");
    assert_eq!(subscriber.email.as_ref(), "ursula@domain.com");
    assert_eq!(
        subscriber.to_text(),
        "subscriber_email: ursula@domain.com, subscriber_name: Ursula"
    );
    assert_eq!(
        NewSubscriber::parse("Ursula".to_string(), "nobody".to_string()).unwrap_err(),
        "nobody is not a valid subscriber email"
    );
}

#[test]
fn the_name_of_a_new_subscriber_is_checked_first() {
    assert_eq!(
        NewSubscriber::parse("".to_string(), "nobody".to_string()).unwrap_err(),
        "Name is empty."
    );
}

#[test]
fn a_user_id_is_read_from_sixteen_bytes_only() {
    let bytes: [u8; 16] = [
        0xa1, 0xa2, 0xa3, 0xa4, 0xb1, 0xb2, 0xc1, 0xc2, 0xd1, 0xd2, 0xd3, 0xd4, 0xd5, 0xd6, 0xd7,
        0xd8,
    ];
    assert_eq!(
        UserId::from_slice(&bytes),
        Some(UserId(0xa1a2a3a4b1b2c1c2d1d2d3d4d5d6d7d8))
    );
    assert_eq!(UserId::from_slice(&bytes[..15]), None);
    assert_eq!(UserId::from_slice(&[0u8; 17]), None);
    assert_eq!(UserId::from_slice(&[]), None);
}

#[test]
fn a_user_id_has_its_bytes_most_significant_first() {
    let mut bytes = [0u8; 16];
    bytes[15] = 1;
    assert_eq!(UserId::from_bytes(bytes), UserId(1));
    assert_eq!(UserId(1).as_bytes(), bytes);
    bytes[0] = 0x80;
    assert_eq!(UserId::from_bytes(bytes), UserId((1u128 << 127) + 1));
    assert_eq!(UserId((1u128 << 127) + 1).as_bytes(), bytes);
}

#[test]
fn fresh_user_ids_are_version_four_and_differ() {
    let one = UserId::new_v4();
    let other = UserId::new_v4();
    assert_ne!(one, other);
    for id in [one, other] {
        assert_eq!((id.0 >> 76) & 0xf, 4);
        assert_eq!((id.0 >> 62) & 0x3, 2);
    }
}

#[test]
fn a_user_id_is_written_in_five_groups_of_hexadecimal_digits() {
    assert_eq!(
        UserId(0xa1a2a3a4b1b2c1c2d1d2d3d4d5d6d7d8).to_text(),
        "a1a2a3a4-b1b2-c1c2-d1d2-d3d4d5d6d7d8"
    );
    assert_eq!(
        UserId(0xABCDEF).to_text(),
        "00000000-0000-0000-0000-000000abcdef"
    );
}
