use std::mem::discriminant;

use fmn_passgen::types::PaddingType;
use fmn_passgen::types::RngType;
use fmn_passgen::types::StrEnum;
use fmn_passgen::types::ValidationError;
use fmn_passgen::types::WordTransformationType;

#[test]
fn test_strenum_name() {
    assert_eq!(RngType::NAME, "RngType");
}

#[test]
fn test_strenum_name_member_arr() {
    assert_eq!("os-rng", RngType::NAME_MEMBER_ARR[0].0);
    assert_eq!("csprng", RngType::NAME_MEMBER_ARR[1].0);
    assert_eq!(
        discriminant(&RngType::OsRng),
        discriminant(&RngType::NAME_MEMBER_ARR[0].1)
    );
    assert_eq!(
        discriminant(&RngType::Csprng),
        discriminant(&RngType::NAME_MEMBER_ARR[1].1)
    );
}

#[test]
fn test_strenum_to_static_str() {
    assert_eq!("os-rng", RngType::OsRng.to_static_str());
}

#[test]
fn test_strenum_to_member_success() {
    assert_eq!(
        discriminant(&RngType::to_member("os-rng").unwrap()),
        discriminant(&RngType::OsRng)
    );
}

#[test]
fn test_strenum_to_member_err() {
    RngType::to_member("not-a-member").unwrap_err();
}

#[test]
fn canonical_names_round_trip() {
    for (name, member) in WordTransformationType::NAME_MEMBER_ARR {
        assert_eq!(member.to_static_str(), name);
        let found = WordTransformationType::to_member(name).unwrap();
        assert_eq!(found, member);
        assert_eq!(found.to_static_str(), name);
    }
    for (name, member) in PaddingType::NAME_MEMBER_ARR {
        assert_eq!(PaddingType::to_member(name).unwrap(), member);
        assert_eq!(PaddingType::to_member(name).unwrap().to_static_str(), name);
    }
    for (name, member) in RngType::NAME_MEMBER_ARR {
        assert_eq!(RngType::to_member(name).unwrap(), member);
        assert_eq!(RngType::to_member(name).unwrap().to_static_str(), name);
    }
}

#[test]
fn kebab_case_names() {
    assert_eq!(WordTransformationType::AsIs.to_static_str(), "none");
    assert_eq!(
        WordTransformationType::CapitalizeNotFirst.to_static_str(),
        "capitalize-not-first"
    );
    assert_eq!(
        WordTransformationType::AlternatingUpperLower.to_static_str(),
        "alternating-upper-lower"
    );
    assert_eq!(PaddingType::NoPadding.to_static_str(), "none");
    assert_eq!(PaddingType::Adaptive.to_static_str(), "adaptive");
    assert_eq!(RngType::Csprng.to_static_str(), "csprng");
}

#[test]
fn invalid_member_message_lists_choices() {
    match PaddingType::to_member("wide") {
        Err(ValidationError::InvalidEnum(msg)) => assert_eq!(
            msg,
            "`wide` is not a valid PaddingType. Possible choices: none, fixed, adaptive"
        ),
        other => panic!("unexpected {other:?}"),
    }
    match RngType::to_member("OS-RNGX") {
        Err(ValidationError::InvalidEnum(msg)) => assert_eq!(
            msg,
            "`os-rngx` is not a valid RngType. Possible choices: os-rng, csprng"
        ),
        other => panic!("unexpected {other:?}"),
    }
}

#[test]
fn enum_defaults() {
    assert_eq!(
        WordTransformationType::default(),
        WordTransformationType::AlternatingLowerUpper
    );
    assert_eq!(PaddingType::default(), PaddingType::Fixed);
    assert_eq!(RngType::default(), RngType::OsRng);
}

#[test]
fn lookup_ignores_ascii_case() {
    assert_eq!(RngType::to_member("OS-RNG").unwrap(), RngType::OsRng);
    assert_eq!(RngType::to_member("CsPrng").unwrap(), RngType::Csprng);
    assert_eq!(PaddingType::to_member("NONE").unwrap(), PaddingType::NoPadding);
    assert_eq!(
        WordTransformationType::to_member("Capitalize-Not-First").unwrap(),
        WordTransformationType::CapitalizeNotFirst
    );
}
