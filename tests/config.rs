use fmn_passgen::config::ConfigBuilder;
use fmn_passgen::config::uniquify_chars;
use fmn_passgen::config::validate_enum;
use fmn_passgen::config::validate_int;
use fmn_passgen::consts::default::SYMBOL_ALPHABET;
use fmn_passgen::types::PaddingType;
use fmn_passgen::types::RngType;
use fmn_passgen::types::ValidationError;
use fmn_passgen::types::WordTransformationType;

fn s(v: &str) -> Option<String> {
    Some(v.to_owned())
}

fn invalid_number(r: Result<u8, ValidationError>) -> (String, u8, u8) {
    match r {
        Err(ValidationError::InvalidNumber(v, min, max)) => (v, min, max),
        other => panic!("unexpected {other:?}"),
    }
}

#[test]
fn defaults_build() {
    let c = ConfigBuilder::new().build().unwrap();
    assert_eq!(c.count, 1);
    assert_eq!(c.word_count, 4);
    assert_eq!(c.word_min_length, 3);
    assert_eq!(c.word_max_length, 11);
    assert_eq!(c.word_transformation, WordTransformationType::AlternatingLowerUpper);
    assert_eq!(c.digits_before, 2);
    assert_eq!(c.digits_after, 2);
    assert_eq!(c.padding_type, PaddingType::Fixed);
    assert_eq!(c.padding_length, 2);
    assert_eq!(c.padding_characters, SYMBOL_ALPHABET.to_vec());
    assert_eq!(c.separator_characters, SYMBOL_ALPHABET.to_vec());
    assert_eq!(c.rng_type, RngType::OsRng);
}

#[test]
fn numbers_parse_with_optional_plus_and_leading_zeros() {
    assert_eq!(validate_int(s("+7"), 0, 255, 1).unwrap(), 7);
    assert_eq!(validate_int(s("007"), 0, 255, 1).unwrap(), 7);
    assert_eq!(validate_int(s("255"), 0, 255, 1).unwrap(), 255);
    assert_eq!(validate_int(None, 0, 255, 9).unwrap(), 9);
}

#[test]
fn bad_numbers_are_rejected_with_their_text() {
    assert_eq!(invalid_number(validate_int(s("abc"), 1, 255, 1)), ("abc".to_owned(), 1, 255));
    assert_eq!(invalid_number(validate_int(s("256"), 0, 255, 1)), ("256".to_owned(), 0, 255));
    assert_eq!(invalid_number(validate_int(s("-1"), 0, 255, 1)), ("-1".to_owned(), 0, 255));
    assert_eq!(invalid_number(validate_int(s(""), 0, 255, 1)), ("".to_owned(), 0, 255));
    assert_eq!(invalid_number(validate_int(s("+"), 0, 255, 1)), ("+".to_owned(), 0, 255));
    assert_eq!(invalid_number(validate_int(s(" 3"), 0, 255, 1)), (" 3".to_owned(), 0, 255));
    assert_eq!(invalid_number(validate_int(s("0"), 1, 255, 1)), ("0".to_owned(), 1, 255));
    assert_eq!(invalid_number(validate_int(s("99999999999"), 0, 255, 1)), ("99999999999".to_owned(), 0, 255));
}

#[test]
fn word_count_above_bound_is_rejected() {
    match ConfigBuilder::new().word_count(s("33")).build() {
        Err(ValidationError::InvalidNumber(v, 0, 32)) => assert_eq!(v, "33"),
        other => panic!("unexpected {other:?}"),
    }
    assert_eq!(ConfigBuilder::new().word_count(s("0")).build().unwrap().word_count, 0);
}

#[test]
fn max_length_below_min_length_is_rejected() {
    match ConfigBuilder::new()
        .word_min_length(s("6"))
        .word_max_length(s("5"))
        .build()
    {
        Err(ValidationError::InvalidNumber(v, 6, 255)) => assert_eq!(v, "5"),
        other => panic!("unexpected {other:?}"),
    }
    match ConfigBuilder::new().word_max_length(s("2")).build() {
        Err(ValidationError::InvalidNumber(v, 3, 255)) => assert_eq!(v, "2"),
        other => panic!("unexpected {other:?}"),
    }
}

#[test]
fn max_length_default_follows_min_length() {
    let c = ConfigBuilder::new().word_min_length(s("20")).build().unwrap();
    assert_eq!(c.word_min_length, 20);
    assert_eq!(c.word_max_length, 20);
    let c = ConfigBuilder::new().word_min_length(s("5")).build().unwrap();
    assert_eq!(c.word_max_length, 11);
}

#[test]
fn enums_are_case_insensitive() {
    let c = ConfigBuilder::new()
        .word_transformation(s("CAPITALIZE-Last"))
        .padding_type(s("Adaptive"))
        .rng_type(s("CSPRNG"))
        .build()
        .unwrap();
    assert_eq!(c.word_transformation, WordTransformationType::CapitalizeLast);
    assert_eq!(c.padding_type, PaddingType::Adaptive);
    assert_eq!(c.rng_type, RngType::Csprng);
    assert_eq!(validate_enum::<PaddingType>(None).unwrap(), PaddingType::Fixed);
}

#[test]
fn bad_enum_names_are_rejected_with_the_choices() {
    match ConfigBuilder::new().padding_type(s("Wide")).build() {
        Err(ValidationError::InvalidEnum(msg)) => assert_eq!(
            msg,
            "`wide` is not a valid PaddingType. Possible choices: none, fixed, adaptive"
        ),
        other => panic!("unexpected {other:?}"),
    }
    match ConfigBuilder::new().word_transformation(s("title")).build() {
        Err(ValidationError::InvalidEnum(msg)) => assert_eq!(
            msg,
            "`title` is not a valid WordTransformationType. Possible choices: none, lower, \
             upper, capitalize-first, capitalize-last, capitalize-not-first, \
             alternating-lower-upper, alternating-upper-lower, random-upper-lower"
        ),
        other => panic!("unexpected {other:?}"),
    }
}

#[test]
fn padding_length_default_depends_on_padding_type() {
    let c = ConfigBuilder::new().padding_type(s("adaptive")).build().unwrap();
    assert_eq!(c.padding_length, 42);
    let c = ConfigBuilder::new().padding_type(s("none")).build().unwrap();
    assert_eq!(c.padding_type, PaddingType::NoPadding);
    assert_eq!(c.padding_length, 0);
    let c = ConfigBuilder::new()
        .padding_type(s("adaptive"))
        .padding_length(s("12"))
        .build()
        .unwrap();
    assert_eq!(c.padding_length, 12);
}

#[test]
fn character_sets_are_sorted_and_deduplicated() {
    let c = ConfigBuilder::new()
        .padding_characters(s("cba a"))
        .separator_characters(s("--+"))
        .build()
        .unwrap();
    assert_eq!(c.padding_characters, vec![' ', 'a', 'b', 'c']);
    assert_eq!(c.separator_characters, vec!['+', '-']);
    assert_eq!(uniquify_chars(s("zzé"), &['x']).unwrap(), vec!['z', 'é']);
    assert_eq!(uniquify_chars(None, &['x', 'a']).unwrap(), vec!['x', 'a']);
}

#[test]
fn empty_character_sets_are_rejected() {
    assert!(matches!(
        ConfigBuilder::new().padding_characters(s("")).build(),
        Err(ValidationError::EmptyString)
    ));
    assert!(matches!(
        ConfigBuilder::new().separator_characters(s("")).build(),
        Err(ValidationError::EmptyString)
    ));
}

#[test]
fn first_failing_field_wins() {
    match ConfigBuilder::new()
        .count(s("0"))
        .word_transformation(s("bogus"))
        .build()
    {
        Err(ValidationError::InvalidNumber(v, 1, 255)) => assert_eq!(v, "0"),
        other => panic!("unexpected {other:?}"),
    }
}
