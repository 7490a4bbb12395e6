use chinese_id::{validate, Date, Gender, PersonalInfo, ValidationError};

#[test]
fn test_validate() {
    assert_eq!(validate(""), Err(ValidationError::InvalidLength));
    assert_eq!(
        validate("abcdefghijklmnopqr"),
        Err(ValidationError::InvalidCharacters)
    );
    assert_eq!(
        validate("11010220000101XXXX"),
        Err(ValidationError::InvalidCharacters)
    );
    assert_eq!(
        validate("110102199902290014"),
        Err(ValidationError::InvalidDate)
    );
    assert_eq!(
        validate("11010220000101001X"),
        Err(ValidationError::ChecksumError)
    );
    assert_eq!(
        validate("110102200002290014"),
        Ok(PersonalInfo {
            address: "110102",
            date_of_birth: Date::from_ymd_opt(2000, 2, 29).unwrap(),
            order: 1,
            gender: Gender::Male
        })
    );
    assert_eq!(
        validate("110102200002291009"),
        Ok(PersonalInfo {
            address: "110102",
            date_of_birth: Date::from_ymd_opt(2000, 2, 29).unwrap(),
            order: 100,
            gender: Gender::Female
        })
    );
}

#[test]
fn wrong_lengths_are_rejected_first() {
    assert_eq!(validate("11010220000229001"), Err(ValidationError::InvalidLength));
    assert_eq!(validate("1101022000022900140"), Err(ValidationError::InvalidLength));
    assert_eq!(validate("abc"), Err(ValidationError::InvalidLength));
}

#[test]
fn length_counts_characters_not_bytes() {
    // 17 characters, 18 bytes
    assert_eq!(validate("1101022000022900\u{e9}"), Err(ValidationError::InvalidLength));
    // 18 characters, more than 18 bytes
    assert_eq!(
        validate("11010220000229001\u{e9}"),
        Err(ValidationError::InvalidCharacters)
    );
}

#[test]
fn ten_mark_only_in_last_place() {
    assert_eq!(validate("X10102200002290014"), Err(ValidationError::InvalidCharacters));
    assert_eq!(validate("1101022000022900x4"), Err(ValidationError::InvalidCharacters));
    assert_eq!(validate("11010220000229001-"), Err(ValidationError::InvalidCharacters));
}

#[test]
fn trailing_ten_mark_in_either_case() {
    let expected = PersonalInfo {
        address: "110105",
        date_of_birth: Date::from_ymd_opt(2000, 12, 31).unwrap(),
        order: 9,
        gender: Gender::Male,
    };
    assert_eq!(validate("11010520001231009X"), Ok(expected));
    let lower = validate("11010520001231009x").unwrap();
    assert_eq!(lower.address, "110105");
    assert_eq!(lower.order, 9);
}

#[test]
fn checksum_mismatch_is_reported() {
    assert_eq!(validate("110102200002290015"), Err(ValidationError::ChecksumError));
    assert_eq!(validate("000000000000000000"), Err(ValidationError::ChecksumError));
}

#[test]
fn impossible_dates_are_rejected() {
    assert_eq!(validate("440304199602300006"), Err(ValidationError::InvalidDate));
    assert_eq!(validate("110105190013010009"), Err(ValidationError::InvalidDate));
    assert_eq!(validate("110105210002290012"), Err(ValidationError::InvalidDate));
}

#[test]
fn year_zero_is_a_calendar_year() {
    let info = validate("110102000001019998").unwrap();
    assert_eq!(info.address, "110102");
    assert_eq!(info.date_of_birth.year(), 0);
    assert_eq!(info.date_of_birth.month(), 1);
    assert_eq!(info.date_of_birth.day(), 1);
    assert_eq!(info.order, 999);
    assert_eq!(info.gender, Gender::Male);
}

#[test]
fn validation_is_deterministic() {
    for id in ["110102200002290014", "11010220000101001X", "", "110102199902290014"] {
        assert_eq!(validate(id), validate(id));
    }
}

#[test]
fn gender_follows_order_parity() {
    for id in ["110102200002290014", "110102200002291009", "110102000001019998"] {
        let info = validate(id).unwrap();
        assert!(info.order <= 999);
        assert_eq!(info.gender == Gender::Female, info.order % 2 == 0);
    }
}

#[test]
fn dates_follow_the_gregorian_calendar() {
    assert!(Date::from_ymd_opt(2000, 2, 29).is_some());
    assert!(Date::from_ymd_opt(2024, 2, 29).is_some());
    assert!(Date::from_ymd_opt(1999, 2, 29).is_none());
    assert!(Date::from_ymd_opt(1900, 2, 29).is_none());
    assert!(Date::from_ymd_opt(2023, 4, 31).is_none());
    assert!(Date::from_ymd_opt(2023, 0, 1).is_none());
    assert!(Date::from_ymd_opt(2023, 13, 1).is_none());
    assert!(Date::from_ymd_opt(2023, 1, 0).is_none());
    assert!(Date::from_ymd_opt(400000, 1, 1).is_none());
    let d = Date::from_ymd_opt(1987, 6, 15).unwrap();
    assert_eq!((d.year(), d.month(), d.day()), (1987, 6, 15));
}
