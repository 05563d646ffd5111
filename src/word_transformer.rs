//! The different ways that words can be transformed.
use vstd::prelude::*;
use vstd::string::StrSliceExecFns;
use vstd::string::StringExecFns;

use crate::random::RandomSource;
use crate::text::strings_view;
use crate::text::to_ascii_lowercase;
use crate::text::to_ascii_uppercase;
use crate::text::upper_char;
use crate::types::WordTransformationType;

verus! {

/// foo -> Foo
pub open spec fn capitalized_first(w: Seq<char>) -> Seq<char> {
    if w.len() == 0 {
        w
    } else {
        seq![upper_char(w[0])] + w.drop_first()
    }
}

/// foo -> foO
pub open spec fn capitalized_last(w: Seq<char>) -> Seq<char> {
    if w.len() == 0 {
        w
    } else {
        w.drop_last().push(upper_char(w.last()))
    }
}

/// foo -> fOO; a word of at most one character is kept.
pub open spec fn capitalized_not_first(w: Seq<char>) -> Seq<char> {
    if w.len() <= 1 {
        w
    } else {
        seq![w[0]] + crate::text::upper(w.drop_first())
    }
}

/// Each word upper-cased where its coin is true, lower-cased otherwise.
pub open spec fn cased_by_coins(words: Seq<Seq<char>>, coins: Seq<bool>) -> Seq<Seq<char>> {
    Seq::new(
        words.len(),
        |i: int|
            if coins[i] {
                crate::text::upper(words[i])
            } else {
                crate::text::lower(words[i])
            },
    )
}

/// Words at even positions upper-cased when `even_upper` holds and lower-cased
/// otherwise; words at odd positions get the other case.
pub open spec fn alternated(words: Seq<Seq<char>>, even_upper: bool) -> Seq<Seq<char>> {
    cased_by_coins(words, Seq::new(words.len(), |i: int| (i % 2 == 0) == even_upper))
}

/// What a transformation does to a sequence of words; `coins` holds the
/// random draws, one per word, that `RandomUpperLower` reads.
pub open spec fn transformed(
    kind: WordTransformationType,
    words: Seq<Seq<char>>,
    coins: Seq<bool>,
) -> Seq<Seq<char>> {
    match kind {
        WordTransformationType::AsIs => words,
        WordTransformationType::Lower => words.map_values(|w: Seq<char>| crate::text::lower(w)),
        WordTransformationType::Upper => words.map_values(|w: Seq<char>| crate::text::upper(w)),
        WordTransformationType::CapitalizeFirst => words.map_values(
            |w: Seq<char>| capitalized_first(w),
        ),
        WordTransformationType::CapitalizeLast => words.map_values(
            |w: Seq<char>| capitalized_last(w),
        ),
        WordTransformationType::CapitalizeNotFirst => words.map_values(
            |w: Seq<char>| capitalized_not_first(w),
        ),
        WordTransformationType::AlternatingLowerUpper => alternated(words, false),
        WordTransformationType::AlternatingUpperLower => alternated(words, true),
        WordTransformationType::RandomUpperLower => cased_by_coins(words, coins),
    }
}

/// correct horse battery staple
pub fn lower(words: Vec<String>) -> (r: Vec<String>)
    ensures
        strings_view(r@) == strings_view(words@).map_values(|w: Seq<char>| crate::text::lower(w)),
{
    let mut r: Vec<String> = Vec::new();
    for i in 0..words.len()
        invariant
            r@.len() == i,
            forall|j: int| 0 <= j < i ==> (#[trigger] r@[j])@ == crate::text::lower(words@[j]@),
    {
        r.push(to_ascii_lowercase(words[i].as_str()));
    }
    assert(strings_view(r@) =~= strings_view(words@).map_values(
        |w: Seq<char>| crate::text::lower(w),
    ));
    r
}

/// CORRECT HORSE BATTERY STAPLE
pub fn upper(words: Vec<String>) -> (r: Vec<String>)
    ensures
        strings_view(r@) == strings_view(words@).map_values(|w: Seq<char>| crate::text::upper(w)),
{
    let mut r: Vec<String> = Vec::new();
    for i in 0..words.len()
        invariant
            r@.len() == i,
            forall|j: int| 0 <= j < i ==> (#[trigger] r@[j])@ == crate::text::upper(words@[j]@),
    {
        r.push(to_ascii_uppercase(words[i].as_str()));
    }
    assert(strings_view(r@) =~= strings_view(words@).map_values(
        |w: Seq<char>| crate::text::upper(w),
    ));
    r
}

/// Correct Horse Battery Staple
pub fn capitalize_first(words: Vec<String>) -> (r: Vec<String>)
    ensures
        strings_view(r@) == strings_view(words@).map_values(|w: Seq<char>| capitalized_first(w)),
{
    let mut r: Vec<String> = Vec::new();
    for i in 0..words.len()
        invariant
            r@.len() == i,
            forall|j: int| 0 <= j < i ==> (#[trigger] r@[j])@ == capitalized_first(words@[j]@),
    {
        r.push(capitalize_first_char(words[i].as_str()));
    }
    assert(strings_view(r@) =~= strings_view(words@).map_values(
        |w: Seq<char>| capitalized_first(w),
    ));
    r
}

/// correcT horsE batterY staplE
pub fn capitalize_last(words: Vec<String>) -> (r: Vec<String>)
    ensures
        strings_view(r@) == strings_view(words@).map_values(|w: Seq<char>| capitalized_last(w)),
{
    let mut r: Vec<String> = Vec::new();
    for i in 0..words.len()
        invariant
            r@.len() == i,
            forall|j: int| 0 <= j < i ==> (#[trigger] r@[j])@ == capitalized_last(words@[j]@),
    {
        r.push(capitalize_last_char(words[i].as_str()));
    }
    assert(strings_view(r@) =~= strings_view(words@).map_values(
        |w: Seq<char>| capitalized_last(w),
    ));
    r
}

/// cORRECT hORSE bATTERY sTAPLE
pub fn capitalize_not_first(words: Vec<String>) -> (r: Vec<String>)
    ensures
        strings_view(r@) == strings_view(words@).map_values(
            |w: Seq<char>| capitalized_not_first(w),
        ),
{
    let mut r: Vec<String> = Vec::new();
    for i in 0..words.len()
        invariant
            r@.len() == i,
            forall|j: int| 0 <= j < i ==> (#[trigger] r@[j])@ == capitalized_not_first(words@[j]@),
    {
        r.push(capitalize_not_first_char(words[i].as_str()));
    }
    assert(strings_view(r@) =~= strings_view(words@).map_values(
        |w: Seq<char>| capitalized_not_first(w),
    ));
    r
}

/// Upper- or lower-cases each word by the matching flag.
fn case_each(words: &Vec<String>, upper_at: Ghost<Seq<bool>>, even_upper: bool) -> (r: Vec<String>)
    requires
        upper_at@ == Seq::new(words@.len(), |i: int| (i % 2 == 0) == even_upper),
    ensures
        strings_view(r@) == cased_by_coins(strings_view(words@), upper_at@),
{
    let mut r: Vec<String> = Vec::new();
    for i in 0..words.len()
        invariant
            upper_at@ == Seq::new(words@.len(), |i: int| (i % 2 == 0) == even_upper),
            r@.len() == i,
            forall|j: int|
                0 <= j < i ==> (#[trigger] r@[j])@ == (if upper_at@[j] {
                    crate::text::upper(words@[j]@)
                } else {
                    crate::text::lower(words@[j]@)
                }),
    {
        if (i % 2 == 0) == even_upper {
            r.push(to_ascii_uppercase(words[i].as_str()));
        } else {
            r.push(to_ascii_lowercase(words[i].as_str()));
        }
    }
    assert(strings_view(r@) =~= cased_by_coins(strings_view(words@), upper_at@));
    r
}

/// correct HORSE battery STAPLE
pub fn alternating_lower_upper(words: Vec<String>) -> (r: Vec<String>)
    ensures
        strings_view(r@) == alternated(strings_view(words@), false),
{
    case_each(&words, Ghost(Seq::new(words@.len(), |i: int| (i % 2 == 0) == false)), false)
}

/// CORRECT horse BATTERY staple
pub fn alternating_upper_lower(words: Vec<String>) -> (r: Vec<String>)
    ensures
        strings_view(r@) == alternated(strings_view(words@), true),
{
    case_each(&words, Ghost(Seq::new(words@.len(), |i: int| (i % 2 == 0) == true)), true)
}

/// correct HORSE battery staple: one coin is drawn for each word, in order;
/// heads upper-cases the word, tails lower-cases it.
pub fn random_upper_lower<R: RandomSource>(rng: &mut R, words: Vec<String>) -> (r: Vec<String>)
    ensures
        exists|coins: Seq<bool>|
            coins.len() == words@.len() && strings_view(r@) == #[trigger] cased_by_coins(
                strings_view(words@),
                coins,
            ),
{
    let mut r: Vec<String> = Vec::new();
    let ghost mut coins: Seq<bool> = Seq::empty();
    for i in 0..words.len()
        invariant
            r@.len() == i,
            coins.len() == i,
            forall|j: int|
                0 <= j < i ==> (#[trigger] r@[j])@ == (if coins[j] {
                    crate::text::upper(words@[j]@)
                } else {
                    crate::text::lower(words@[j]@)
                }),
    {
        let heads = rng.coin();
        if heads {
            r.push(to_ascii_uppercase(words[i].as_str()));
        } else {
            r.push(to_ascii_lowercase(words[i].as_str()));
        }
        proof {
            coins = coins.push(heads);
        }
    }
    assert(strings_view(r@) =~= cased_by_coins(strings_view(words@), coins));
    r
}

/// foo -> Foo
pub fn capitalize_first_char(word: &str) -> (r: String)
    ensures
        r@ == capitalized_first(word@),
{
    let n = word.unicode_len();
    if n == 0 {
        return String::new();
    }
    let head = to_ascii_uppercase(word.substring_char(0, 1));
    let r = head.concat(word.substring_char(1, n));
    assert(r@ =~= capitalized_first(word@));
    r
}

/// foo -> foO
pub fn capitalize_last_char(word: &str) -> (r: String)
    ensures
        r@ == capitalized_last(word@),
{
    let n = word.unicode_len();
    if n == 0 {
        return String::new();
    }
    let last = to_ascii_uppercase(word.substring_char(n - 1, n));
    let r = String::from_str(word.substring_char(0, n - 1)).concat(last.as_str());
    assert(r@ =~= capitalized_last(word@));
    r
}

/// foo -> fOO
pub fn capitalize_not_first_char(word: &str) -> (r: String)
    ensures
        r@ == capitalized_not_first(word@),
{
    let n = word.unicode_len();
    if n <= 1 {
        return String::from_str(word);
    }
    let rest = to_ascii_uppercase(word.substring_char(1, n));
    let r = String::from_str(word.substring_char(0, 1)).concat(rest.as_str());
    assert(r@ =~= capitalized_not_first(word@));
    r
}

/// Transforming with `AsIs` hands back the very same words, whatever the coins.
pub proof fn lemma_as_is_is_identity(words: Seq<Seq<char>>, coins: Seq<bool>)
    ensures
        transformed(WordTransformationType::AsIs, words, coins) == words,
{
}

} // verus!
