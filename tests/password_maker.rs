use rand::SeedableRng;
use rand::rngs::SmallRng;

use fmn_passgen::PasswordMaker;
use fmn_passgen::config::ConfigBuilder;
use fmn_passgen::test_helpers::make_wordlist;
use fmn_passgen::types::PaddingType;
use fmn_passgen::types::WordTransformationType;

/// Makes a [`PasswordMaker`] with reproducible random output and a small wordlist.
fn make_seeded_maker(seed: u64) -> PasswordMaker<SmallRng> {
    PasswordMaker {
        rng: SmallRng::seed_from_u64(seed),
        config: ConfigBuilder::new().build().unwrap(),
        wordlist: make_wordlist(),
    }
}

#[test]
fn test_filter_wordlist() {
    let mut maker = make_seeded_maker(1);
    maker.wordlist = make_wordlist();
    maker.config.word_min_length = 4;
    maker.config.word_max_length = 4;
    let result = maker.filter_wordlist();
    let expected = [5, 6];
    let matches = result
        .iter()
        .zip(expected.iter())
        .filter(|&(a, b)| a == b)
        .count();
    assert_eq!(result.len(), matches, "result.len() == matches");
    assert_eq!(expected.len(), matches, "expected.len() == matches");
}

#[test]
fn test_choose_words() {
    let params = [2, 100];

    for param in params {
        let mut maker = make_seeded_maker(1);
        maker.config.word_count = param;
        let indices: [usize; 2] = [1, 2];
        let result = maker.choose_words(&indices);
        assert_eq!(result.len(), param as usize);
    }
}

#[test]
fn test_choose_words_result_is_shuffled() {
    let seeds = [3, 9];
    let expected = [("labor", "hello"), ("hello", "labor")];
    for i in 0..2 {
        let mut maker = make_seeded_maker(seeds[i]);
        maker.config.word_count = 2;
        let indices: [usize; 2] = [1, 2];
        let result = maker.choose_words(&indices);
        assert_eq!(result[0], expected[i].0);
        assert_eq!(result[1], expected[i].1);
    }
}

#[test]
fn test_transform_words_empty() {
    let mut maker = make_seeded_maker(1);
    let v = Vec::new();
    assert!(maker.transform_words(v).is_empty());
}

#[test]
fn test_transform_words_none() {
    let mut maker = make_seeded_maker(1);
    maker.config.word_transformation = WordTransformationType::AsIs;
    let v = vec!["abCD".to_owned()];
    assert_eq!(v, maker.transform_words(v.clone()));
}

#[test]
fn test_choose_n_digits_none() {
    let mut maker = make_seeded_maker(1);
    assert!(maker.choose_n_digits(0).is_none());
}

#[test]
fn test_choose_n_digits_some() {
    let mut maker = make_seeded_maker(1);
    let result = maker.choose_n_digits(3).unwrap();
    assert_eq!("871".to_owned(), result);
}

#[test]
fn test_create_pseudo_words_ok() {
    let mut maker = make_seeded_maker(1);
    maker.config.digits_before = 2;
    maker.config.digits_after = 3;
    let (left, right) = maker.create_pseudo_words();
    assert_eq!(left.unwrap(), "87".to_owned());
    assert_eq!(right.unwrap(), "171".to_owned());
}

#[test]
fn test_create_pseudo_words_none_left() {
    let mut maker = make_seeded_maker(1);
    maker.config.digits_before = 0;
    maker.config.digits_after = 3;
    let (left, right) = maker.create_pseudo_words();
    assert!(left.is_none());
    assert_eq!(right.unwrap(), "871".to_owned());
}

#[test]
fn test_create_pseudo_words_none_right() {
    let mut maker = make_seeded_maker(1);
    maker.config.digits_before = 2;
    maker.config.digits_after = 0;
    let (left, right) = maker.create_pseudo_words();
    assert_eq!(left.unwrap(), "87".to_owned());
    assert!(right.is_none());
}

#[test]
fn test_choose_separator_default() {
    let mut maker = make_seeded_maker(1);
    let result = maker.choose_separator().unwrap();
    assert_eq!(result, '?');
}

#[test]
fn test_choose_separator_empty() {
    let mut maker = make_seeded_maker(1);
    maker.config.separator_characters = Vec::new();
    let result = maker.choose_separator();
    assert!(result.is_none());
}

#[test]
fn test_create_padding_none() {
    let mut maker = make_seeded_maker(1);
    maker.config.padding_type = PaddingType::NoPadding;
    let (left, right) = maker.create_padding("");
    assert_eq!("", &left.unwrap());
    assert_eq!("", &right.unwrap());
}

#[test]
fn test_create_padding_defaults() {
    let mut maker = make_seeded_maker(1);
    let (left, right) = maker.create_padding("");
    assert_eq!("??", &left.unwrap());
    assert_eq!("??", &right.unwrap());
}

#[test]
fn test_create_padding_fixed_custom() {
    let mut maker = make_seeded_maker(1);
    maker.config.padding_type = PaddingType::Fixed;
    maker.config.padding_length = 3;
    let (left, right) = maker.create_padding("");
    assert_eq!("???", &left.unwrap());
    assert_eq!("???", &right.unwrap());
}

#[test]
fn test_create_padding_fixed_empty() {
    let mut maker = make_seeded_maker(1);
    maker.config.padding_type = PaddingType::Fixed;
    maker.config.padding_characters = Vec::new();
    let (left, right) = maker.create_padding("");
    assert!(left.is_none());
    assert!(right.is_none());
}

#[test]
fn test_create_padding_fixed_no_padding_length() {
    let mut maker = make_seeded_maker(1);
    maker.config.padding_type = PaddingType::Fixed;
    maker.config.padding_length = 0;
    let (left, right) = maker.create_padding("");
    assert_eq!("", &left.unwrap());
    assert_eq!("", &right.unwrap());
}

#[test]
fn test_create_padding_adaptive_empty() {
    let mut maker = make_seeded_maker(1);
    maker.config.padding_type = PaddingType::Adaptive;
    maker.config.padding_characters = Vec::new();
    let (left, right) = maker.create_padding("");
    assert_eq!("", &left.unwrap());
    assert!(right.is_none());
}

#[test]
fn test_create_padding_adaptive_no_change() {
    let mut maker = make_seeded_maker(1);
    maker.config.padding_type = PaddingType::Adaptive;
    maker.config.padding_length = 1;
    let (left, right) = maker.create_padding("Hello");
    assert_eq!("", &left.unwrap());
    assert_eq!("", &right.unwrap());
}

#[test]
fn test_create_padding_adaptive_ok() {
    let mut maker = make_seeded_maker(1);
    maker.config.padding_type = PaddingType::Adaptive;
    maker.config.padding_length = 10;
    let (left, right) = maker.create_padding("Hello");
    assert_eq!("", &left.unwrap());
    assert_eq!("?????", &right.unwrap());
}

#[test]
fn make_passwords_returns_count_passwords() {
    for count in [1u8, 3, 17] {
        let mut maker = make_seeded_maker(5);
        maker.config.count = count;
        assert_eq!(maker.make_passwords().len(), count as usize);
    }
}

#[test]
fn fixed_padding_uses_one_character_on_both_sides() {
    for seed in 0..20 {
        let mut maker = make_seeded_maker(seed);
        maker.config.padding_length = 3;
        let chars: Vec<char> = maker.make_password().chars().collect();
        let n = chars.len();
        assert!(n >= 6);
        let c = chars[0];
        assert!(maker.config.padding_characters.contains(&c));
        assert!(chars[..3].iter().all(|&x| x == c));
        assert!(chars[n - 3..].iter().all(|&x| x == c));
    }
}

#[test]
fn adaptive_padding_reaches_length_and_never_truncates() {
    let mut maker = make_seeded_maker(2);
    maker.config.padding_type = PaddingType::Adaptive;
    maker.config.padding_length = 40;
    let pw = maker.make_password();
    assert_eq!(pw.chars().count(), 40);

    let mut maker = make_seeded_maker(2);
    maker.config.padding_type = PaddingType::Adaptive;
    maker.config.padding_length = 3;
    let pw = maker.make_password();
    let mut unpadded_maker = make_seeded_maker(2);
    unpadded_maker.config.padding_type = PaddingType::NoPadding;
    assert_eq!(pw, unpadded_maker.make_password());
    assert!(pw.chars().count() >= 3);
}

#[test]
fn no_words_gives_digits_and_one_separator() {
    let mut maker = make_seeded_maker(4);
    maker.config.word_count = 0;
    maker.config.padding_type = PaddingType::NoPadding;
    maker.config.separator_characters = vec!['#'];
    let pw = maker.make_password();
    assert_eq!(pw.len(), 5);
    assert_eq!(&pw[2..3], "#");
    assert!(pw[..2].chars().all(|c| c.is_ascii_digit()));
    assert!(pw[3..].chars().all(|c| c.is_ascii_digit()));

    maker.config.digits_after = 0;
    let pw = maker.make_password();
    assert_eq!(pw.len(), 2);
    assert!(pw.chars().all(|c| c.is_ascii_digit()));

    maker.config.digits_before = 0;
    assert_eq!(maker.make_password(), "");
}

#[test]
fn no_digits_gives_words_without_stray_separators() {
    let mut maker = make_seeded_maker(6);
    maker.config.digits_before = 0;
    maker.config.digits_after = 0;
    maker.config.padding_type = PaddingType::NoPadding;
    maker.config.separator_characters = vec!['#'];
    maker.config.word_transformation = WordTransformationType::AsIs;
    let pw = maker.make_password();
    assert!(!pw.starts_with('#') && !pw.ends_with('#'));
    let parts: Vec<&str> = pw.split('#').collect();
    assert_eq!(parts.len(), 4);
    for part in parts {
        assert!(make_wordlist().iter().any(|w| w == part));
    }
}

#[test]
fn same_seed_same_passwords() {
    let mut a = make_seeded_maker(42);
    let mut b = make_seeded_maker(42);
    a.config.count = 4;
    b.config.count = 4;
    assert_eq!(a.make_passwords(), b.make_passwords());
}

#[test]
fn seeded_default_password_is_pinned() {
    let mut maker = make_seeded_maker(1);
    assert_eq!(maker.make_password(), "$$15@ice@DEEP@modern@DEEP@95$$");
}

#[test]
fn empty_candidate_set_gives_no_words() {
    let mut maker = make_seeded_maker(1);
    maker.config.word_min_length = 50;
    maker.config.word_max_length = 60;
    maker.config.padding_type = PaddingType::NoPadding;
    maker.config.separator_characters = vec!['#'];
    let pw = maker.make_password();
    assert_eq!(pw.len(), 5);
    assert_eq!(&pw[2..3], "#");
}

#[test]
fn new_keeps_its_parts() {
    let config = ConfigBuilder::new().count(Some("2".to_owned())).build().unwrap();
    let mut maker = PasswordMaker::new(SmallRng::seed_from_u64(3), config, make_wordlist());
    assert_eq!(maker.config.count, 2);
    assert_eq!(maker.wordlist.len(), 9);
    assert_eq!(maker.make_passwords().len(), 2);
}

#[test]
fn os_rng_engine_makes_well_formed_passwords() {
    let config = ConfigBuilder::new()
        .count(Some("5".to_owned()))
        .word_transformation(Some("random-upper-lower".to_owned()))
        .build()
        .unwrap();
    let mut maker = PasswordMaker::new(rand::rngs::OsRng, config, make_wordlist());
    let passwords = maker.make_passwords();
    assert_eq!(passwords.len(), 5);
    for pw in passwords {
        assert!(pw.chars().count() >= 4 + 4 * 4);
    }
}

#[test]
fn thread_rng_engine_makes_well_formed_passwords() {
    let config = ConfigBuilder::new()
        .count(Some("5".to_owned()))
        .word_transformation(Some("random-upper-lower".to_owned()))
        .build()
        .unwrap();
    let mut maker = PasswordMaker::new(rand::rng(), config, make_wordlist());
    let passwords = maker.make_passwords();
    assert_eq!(passwords.len(), 5);
    for pw in passwords {
        assert!(pw.chars().count() >= 4 + 4 * 4);
    }
}

#[test]
fn separator_only_between_present_parts() {
    let mut maker = make_seeded_maker(8);
    maker.config.word_count = 1;
    maker.config.digits_before = 0;
    maker.config.digits_after = 2;
    maker.config.padding_type = PaddingType::NoPadding;
    maker.config.separator_characters = vec!['#'];
    let pw = maker.make_password();
    assert_eq!(pw.matches('#').count(), 1);
    assert!(!pw.starts_with('#') && !pw.ends_with('#'));
    let (word, digits) = pw.split_once('#').unwrap();
    assert!(make_wordlist().iter().any(|w| w == &word.to_ascii_lowercase()));
    assert_eq!(digits.len(), 2);
}

#[test]
fn no_draw_when_nothing_is_random() {
    let mut maker = make_seeded_maker(1);
    let before = maker.rng.clone();
    for kind in [
        WordTransformationType::AsIs,
        WordTransformationType::Upper,
        WordTransformationType::AlternatingLowerUpper,
    ] {
        maker.config.word_transformation = kind;
        maker.transform_words(vec!["abc".to_owned(), "de".to_owned()]);
    }
    maker.config.word_transformation = WordTransformationType::RandomUpperLower;
    assert!(maker.transform_words(Vec::new()).is_empty());
    assert!(maker.choose_n_digits(0).is_none());
    maker.config.digits_before = 0;
    maker.config.digits_after = 0;
    assert_eq!(maker.create_pseudo_words(), (None, None));
    maker.config.separator_characters = Vec::new();
    assert!(maker.choose_separator().is_none());
    assert!(maker.choose_words(&[]).is_empty());
    assert!(maker.rng == before);

    maker.transform_words(vec!["abc".to_owned()]);
    assert!(maker.rng != before);
}

#[test]
fn default_layout_on_small_list() {
    for seed in 0..10 {
        let mut maker = make_seeded_maker(seed);
        let chars: Vec<char> = maker.make_password().chars().collect();
        let n = chars.len();
        let (p, s) = (chars[0], chars[4]);
        assert_eq!(chars[1], p);
        assert_eq!(chars[n - 1], p);
        assert_eq!(chars[n - 2], p);
        assert!(chars[2].is_ascii_digit() && chars[3].is_ascii_digit());
        assert!(chars[n - 3].is_ascii_digit() && chars[n - 4].is_ascii_digit());
        assert_eq!(chars[n - 5], s);
        let middle: String = chars[5..n - 5].iter().collect();
        let words: Vec<&str> = middle.split(s).collect();
        assert_eq!(words.len(), 4);
        for (k, w) in words.iter().enumerate() {
            let expected_case = if k % 2 == 0 {
                w.to_ascii_lowercase()
            } else {
                w.to_ascii_uppercase()
            };
            assert_eq!(*w, expected_case);
            assert!(make_wordlist().contains(&w.to_ascii_lowercase()));
        }
    }
}
