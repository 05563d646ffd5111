//! Small helpers for exercising the library: a word list and case checks.
use vstd::prelude::*;
use vstd::string::StrSliceExecFns;
use vstd::string::StringExecFns;

use crate::text::strings_view;

verus! {

/// Whether a character has the Unicode `Uppercase` property.
pub uninterp spec fn uppercase_property(c: char) -> bool;

/// Whether a character has the Unicode `Lowercase` property.
pub uninterp spec fn lowercase_property(c: char) -> bool;

/// Relies on `char::is_uppercase`: whether `c` has the Unicode `Uppercase`
/// property, which depends on `c` alone.
#[verifier::external_body]
fn char_is_uppercase(c: char) -> (r: bool)
    ensures
        r == uppercase_property(c),
{
    c.is_uppercase()
}

/// Relies on `char::is_lowercase`: whether `c` has the Unicode `Lowercase`
/// property, which depends on `c` alone.
#[verifier::external_body]
fn char_is_lowercase(c: char) -> (r: bool)
    ensures
        r == lowercase_property(c),
{
    c.is_lowercase()
}

/// A small, easy to work with word list.
pub fn make_wordlist() -> (r: Vec<String>)
    ensures
        strings_view(r@) == seq![
            "modern"@,
            "labor"@,
            "hello"@,
            "world"@,
            "water"@,
            "fire"@,
            "deep"@,
            "ice"@,
            "pie"@,
        ],
{
    let r = vec![
        String::from_str("modern"),
        String::from_str("labor"),
        String::from_str("hello"),
        String::from_str("world"),
        String::from_str("water"),
        String::from_str("fire"),
        String::from_str("deep"),
        String::from_str("ice"),
        String::from_str("pie"),
    ];
    assert(strings_view(r@) =~= seq![
        "modern"@,
        "labor"@,
        "hello"@,
        "world"@,
        "water"@,
        "fire"@,
        "deep"@,
        "ice"@,
        "pie"@,
    ]);
    r
}

/// Whether every character of `word` is upper case.
pub fn str_is_uppercase(word: &str) -> (r: bool)
    ensures
        r == forall|i: int| 0 <= i < word@.len() ==> uppercase_property(#[trigger] word@[i]),
{
    let n = word.unicode_len();
    for i in 0..n
        invariant
            n == word@.len(),
            forall|j: int| 0 <= j < i ==> uppercase_property(#[trigger] word@[j]),
    {
        if !char_is_uppercase(word.get_char(i)) {
            return false;
        }
    }
    true
}

/// Whether every character of `word` is lower case.
pub fn str_is_lowercase(word: &str) -> (r: bool)
    ensures
        r == forall|i: int| 0 <= i < word@.len() ==> lowercase_property(#[trigger] word@[i]),
{
    let n = word.unicode_len();
    for i in 0..n
        invariant
            n == word@.len(),
            forall|j: int| 0 <= j < i ==> lowercase_property(#[trigger] word@[j]),
    {
        if !char_is_lowercase(word.get_char(i)) {
            return false;
        }
    }
    true
}

} // verus!
