//! Turning raw, optional option strings into a validated [`Config`].
use vstd::prelude::*;
use vstd::string::StrSliceExecFns;

use crate::consts::default::COUNT;
use crate::consts::default::DIGITS_AFTER;
use crate::consts::default::DIGITS_BEFORE;
use crate::consts::default::PADDING_LENGTH_ADAPTIVE;
use crate::consts::default::PADDING_LENGTH_FIXED;
use crate::consts::default::SYMBOL_ALPHABET;
use crate::consts::default::WORD_COUNT;
use crate::consts::default::WORD_MAX_LENGTH;
use crate::consts::default::WORD_MIN_LENGTH;
use crate::text::lower;
use crate::types::PaddingType;
use crate::types::RngType;
use crate::types::StrEnum;
use crate::types::ValidationError;
use crate::types::WordTransformationType;
use crate::types::invalid_choice_message;
use crate::types::lookup;
use crate::types::names_of;

verus! {

/// Integer types that numeric options may be read into. Only `u8` is one:
/// every bound the validator applies fits in it.
pub trait Integer: Copy {}

impl Integer for u8 {}

/// A validated configuration.
#[derive(Clone, Debug)]
pub struct Config {
    pub count: u8,
    pub word_count: u8,
    pub word_min_length: u8,
    pub word_max_length: u8,
    pub word_transformation: WordTransformationType,
    pub digits_before: u8,
    pub digits_after: u8,
    pub padding_type: PaddingType,
    pub padding_length: u8,
    pub padding_characters: Vec<char>,
    pub separator_characters: Vec<char>,
    pub rng_type: RngType,
}

impl Config {
    /// The bounds a validated configuration keeps: at least one password, at
    /// most 32 words, word lengths from 1 with the minimum not above the
    /// maximum, and characters to draw padding and separators from.
    pub open spec fn wf(&self) -> bool {
        &&& 1 <= self.count
        &&& self.word_count <= 32
        &&& 1 <= self.word_min_length <= self.word_max_length
        &&& self.padding_characters@.len() > 0
        &&& self.separator_characters@.len() > 0
    }
}

/// Raw option values, each unset or a string as the user gave it.
#[derive(Clone, Debug, Default)]
pub struct ConfigBuilder {
    pub count: Option<String>,
    pub word_count: Option<String>,
    pub word_min_length: Option<String>,
    pub word_max_length: Option<String>,
    pub word_transformation: Option<String>,
    pub digits_before: Option<String>,
    pub digits_after: Option<String>,
    pub padding_type: Option<String>,
    pub padding_length: Option<String>,
    pub padding_characters: Option<String>,
    pub separator_characters: Option<String>,
    pub rng_type: Option<String>,
}

/// What a [`ValidationError`] says, over character sequences.
pub enum ErrorView {
    InvalidNumber(Seq<char>, u8, u8),
    InvalidEnum(Seq<char>),
    EmptyString,
}

impl View for ValidationError {
    type V = ErrorView;

    open spec fn view(&self) -> ErrorView {
        match self {
            ValidationError::InvalidNumber(s, min, max) => ErrorView::InvalidNumber(s@, *min, *max),
            ValidationError::InvalidEnum(msg) => ErrorView::InvalidEnum(msg@),
            ValidationError::EmptyString => ErrorView::EmptyString,
        }
    }
}

/// A [`Config`] with its character lists seen as sets.
pub struct ConfigView {
    pub count: u8,
    pub word_count: u8,
    pub word_min_length: u8,
    pub word_max_length: u8,
    pub word_transformation: WordTransformationType,
    pub digits_before: u8,
    pub digits_after: u8,
    pub padding_type: PaddingType,
    pub padding_length: u8,
    pub padding_characters: Set<char>,
    pub separator_characters: Set<char>,
    pub rng_type: RngType,
}

impl View for Config {
    type V = ConfigView;

    open spec fn view(&self) -> ConfigView {
        ConfigView {
            count: self.count,
            word_count: self.word_count,
            word_min_length: self.word_min_length,
            word_max_length: self.word_max_length,
            word_transformation: self.word_transformation,
            digits_before: self.digits_before,
            digits_after: self.digits_after,
            padding_type: self.padding_type,
            padding_length: self.padding_length,
            padding_characters: self.padding_characters@.to_set(),
            separator_characters: self.separator_characters@.to_set(),
            rng_type: self.rng_type,
        }
    }
}

pub open spec fn opt_view(o: Option<String>) -> Option<Seq<char>> {
    match o {
        Some(s) => Some(s@),
        None => None,
    }
}

/// The raw options, over character sequences.
pub struct BuilderView {
    pub count: Option<Seq<char>>,
    pub word_count: Option<Seq<char>>,
    pub word_min_length: Option<Seq<char>>,
    pub word_max_length: Option<Seq<char>>,
    pub word_transformation: Option<Seq<char>>,
    pub digits_before: Option<Seq<char>>,
    pub digits_after: Option<Seq<char>>,
    pub padding_type: Option<Seq<char>>,
    pub padding_length: Option<Seq<char>>,
    pub padding_characters: Option<Seq<char>>,
    pub separator_characters: Option<Seq<char>>,
    pub rng_type: Option<Seq<char>>,
}

impl View for ConfigBuilder {
    type V = BuilderView;

    open spec fn view(&self) -> BuilderView {
        BuilderView {
            count: opt_view(self.count),
            word_count: opt_view(self.word_count),
            word_min_length: opt_view(self.word_min_length),
            word_max_length: opt_view(self.word_max_length),
            word_transformation: opt_view(self.word_transformation),
            digits_before: opt_view(self.digits_before),
            digits_after: opt_view(self.digits_after),
            padding_type: opt_view(self.padding_type),
            padding_length: opt_view(self.padding_length),
            padding_characters: opt_view(self.padding_characters),
            separator_characters: opt_view(self.separator_characters),
            rng_type: opt_view(self.rng_type),
        }
    }
}

pub open spec fn is_digit(c: char) -> bool {
    '0' <= c && c <= '9'
}

/// The value of a sequence of decimal digits.
pub open spec fn digits_value(s: Seq<char>) -> nat
    decreases s.len(),
{
    if s.len() == 0 {
        0
    } else {
        digits_value(s.drop_last()) * 10 + ((s.last() as u32) - ('0' as u32)) as nat
    }
}

/// The digits of an unsigned decimal: the text after an optional leading '+'.
pub open spec fn unsigned_digits(s: Seq<char>) -> Seq<char> {
    if s.len() > 0 && s[0] == '+' {
        s.drop_first()
    } else {
        s
    }
}

/// Whether `s` is an unsigned decimal: an optional '+', then one or more digits.
pub open spec fn is_unsigned_decimal(s: Seq<char>) -> bool {
    let d = unsigned_digits(s);
    d.len() > 0 && forall|i: int| 0 <= i < d.len() ==> is_digit(#[trigger] d[i])
}

/// The `u8` that `s` denotes, if it denotes one.
pub open spec fn parse_u8(s: Seq<char>) -> Option<u8> {
    if is_unsigned_decimal(s) && digits_value(unsigned_digits(s)) <= 255 {
        Some(digits_value(unsigned_digits(s)) as u8)
    } else {
        None
    }
}

/// A numeric option: the default when unset, the number when it lies in
/// `min..=max`, an error carrying the raw text otherwise.
pub open spec fn int_outcome(raw: Option<Seq<char>>, min: u8, max: u8, default: u8) -> Result<
    u8,
    ErrorView,
> {
    match raw {
        None => Ok(default),
        Some(s) => match parse_u8(s) {
            Some(v) => if min <= v && v <= max {
                Ok(v)
            } else {
                Err(ErrorView::InvalidNumber(s, min, max))
            },
            None => Err(ErrorView::InvalidNumber(s, min, max)),
        },
    }
}

/// An enum option: the default when unset, else the member named by the
/// lower-cased text, else the lookup's error.
pub open spec fn enum_outcome<T: StrEnum>(raw: Option<Seq<char>>) -> Result<T, ErrorView> {
    match raw {
        None => Ok(T::default_member()),
        Some(s) => match lookup::<T>(lower(s)) {
            Some(m) => Ok(m),
            None => Err(
                ErrorView::InvalidEnum(
                    invalid_choice_message(lower(s), T::kind_name(), names_of(T::all_members())),
                ),
            ),
        },
    }
}

/// A character-set option, as a set: the default alphabet when unset, an
/// error when empty, else the characters given.
pub open spec fn chars_outcome(raw: Option<Seq<char>>, default: Seq<char>) -> Result<
    Set<char>,
    ErrorView,
> {
    match raw {
        None => Ok(default.to_set()),
        Some(s) => if s.len() == 0 {
            Err(ErrorView::EmptyString)
        } else {
            Ok(s.to_set())
        },
    }
}

pub open spec fn strictly_increasing(s: Seq<char>) -> bool {
    forall|i: int, j: int| 0 <= i < j < s.len() ==> s[i] < s[j]
}

/// How a stored character list is laid out: the default alphabet in its own
/// order, or the given characters sorted without repeats.
pub open spec fn chars_layout(raw: Option<Seq<char>>, default: Seq<char>, v: Seq<char>) -> bool {
    match raw {
        None => v == default,
        Some(_) => strictly_increasing(v),
    }
}

/// The default padding length for each padding type.
pub open spec fn default_padding_length(t: PaddingType) -> u8 {
    match t {
        PaddingType::Fixed => PADDING_LENGTH_FIXED,
        PaddingType::Adaptive => PADDING_LENGTH_ADAPTIVE,
        PaddingType::NoPadding => 0,
    }
}

/// The default largest word length: the usual one, raised to the smallest
/// word length when that is larger.
pub open spec fn default_word_max_length(min: u8) -> u8 {
    if min > WORD_MAX_LENGTH {
        min
    } else {
        WORD_MAX_LENGTH
    }
}

/// What building from `b` gives: fields are resolved in declaration order and
/// the first failure is the result.
pub open spec fn build_outcome(b: BuilderView) -> Result<ConfigView, ErrorView> {
    let count = int_outcome(b.count, 1, 255, COUNT);
    let word_count = int_outcome(b.word_count, 0, 32, WORD_COUNT);
    let min = int_outcome(b.word_min_length, 1, 255, WORD_MIN_LENGTH);
    let max = int_outcome(
        b.word_max_length,
        min->Ok_0,
        255,
        default_word_max_length(min->Ok_0),
    );
    let transformation = enum_outcome::<WordTransformationType>(b.word_transformation);
    let before = int_outcome(b.digits_before, 0, 255, DIGITS_BEFORE);
    let after = int_outcome(b.digits_after, 0, 255, DIGITS_AFTER);
    let padding_chars = chars_outcome(b.padding_characters, SYMBOL_ALPHABET@);
    let padding_type = enum_outcome::<PaddingType>(b.padding_type);
    let padding_length = int_outcome(
        b.padding_length,
        0,
        255,
        default_padding_length(padding_type->Ok_0),
    );
    let separators = chars_outcome(b.separator_characters, SYMBOL_ALPHABET@);
    let rng = enum_outcome::<RngType>(b.rng_type);
    if count is Err {
        Err(count->Err_0)
    } else if word_count is Err {
        Err(word_count->Err_0)
    } else if min is Err {
        Err(min->Err_0)
    } else if max is Err {
        Err(max->Err_0)
    } else if transformation is Err {
        Err(transformation->Err_0)
    } else if before is Err {
        Err(before->Err_0)
    } else if after is Err {
        Err(after->Err_0)
    } else if padding_chars is Err {
        Err(padding_chars->Err_0)
    } else if padding_type is Err {
        Err(padding_type->Err_0)
    } else if padding_length is Err {
        Err(padding_length->Err_0)
    } else if separators is Err {
        Err(separators->Err_0)
    } else if rng is Err {
        Err(rng->Err_0)
    } else {
        Ok(
            ConfigView {
                count: count->Ok_0,
                word_count: word_count->Ok_0,
                word_min_length: min->Ok_0,
                word_max_length: max->Ok_0,
                word_transformation: transformation->Ok_0,
                digits_before: before->Ok_0,
                digits_after: after->Ok_0,
                padding_type: padding_type->Ok_0,
                padding_length: padding_length->Ok_0,
                padding_characters: padding_chars->Ok_0,
                separator_characters: separators->Ok_0,
                rng_type: rng->Ok_0,
            },
        )
    }
}

pub open spec fn result_view<T: View, E: View>(r: Result<T, E>) -> Result<T::V, E::V> {
    match r {
        Ok(t) => Ok(t@),
        Err(e) => Err(e@),
    }
}

/// A builder's outcome is an `InvalidNumber` error whenever the largest word
/// length it is given is a number below the smallest word length it resolves.
pub proof fn lemma_max_below_min_rejected(b: BuilderView, max: u8, min: u8)
    requires
        b.word_max_length is Some,
        parse_u8(b.word_max_length->Some_0) == Some(max),
        int_outcome(b.word_min_length, 1, 255, WORD_MIN_LENGTH) == Ok::<u8, ErrorView>(min),
        max < min,
    ensures
        build_outcome(b) is Err,
        build_outcome(b)->Err_0 is InvalidNumber,
{
}

/// Resolves a numeric option: unset gives `default`; otherwise the text must
/// be an unsigned decimal in `min..=max`.
pub fn validate_int(value: Option<String>, min: u8, max: u8, default: u8) -> (r: Result<
    u8,
    ValidationError,
>)
    ensures
        result_view(r) == int_outcome(opt_view(value), min, max, default),
{
    match value {
        None => Ok(default),
        Some(inner) => {
            match parse_u8_exec(inner.as_str()) {
                Some(v) => {
                    if min <= v && v <= max {
                        Ok(v)
                    } else {
                        Err(ValidationError::InvalidNumber(inner, min, max))
                    }
                },
                None => Err(ValidationError::InvalidNumber(inner, min, max)),
            }
        },
    }
}

/// Resolves an enum option: unset gives the enum's default; otherwise the
/// text, lower-cased, must be a canonical name.
pub fn validate_enum<T: StrEnum>(value: Option<String>) -> (r: Result<T, ValidationError>)
    ensures
        match (r, enum_outcome::<T>(opt_view(value))) {
            (Ok(a), Ok(b)) => a == b,
            (Err(e), Err(f)) => e@ == f,
            _ => false,
        },
{
    match value {
        None => Ok(T::default_value()),
        Some(inner) => {
            crate::types::member_named::<T>(inner.as_str())
        },
    }
}

/// Resolves a character-set option: unset gives `default` as it is; the empty
/// string is refused; otherwise its characters, sorted and without repeats.
pub fn uniquify_chars(value: Option<String>, default: &[char]) -> (r: Result<
    Vec<char>,
    ValidationError,
>)
    ensures
        match r {
            Ok(v) => chars_outcome(opt_view(value), default@) == Ok::<Set<char>, ErrorView>(
                v@.to_set(),
            ) && chars_layout(opt_view(value), default@, v@) && (value is Some ==> v@.len() > 0),
            Err(e) => chars_outcome(opt_view(value), default@) == Err::<Set<char>, ErrorView>(
                e@,
            ),
        },
{
    match value {
        None => {
            let mut v: Vec<char> = Vec::new();
            let mut i: usize = 0;
            while i < default.len()
                invariant
                    i <= default@.len(),
                    v@ == default@.subrange(0, i as int),
                decreases default@.len() - i,
            {
                v.push(default[i]);
                i += 1;
                assert(v@ =~= default@.subrange(0, i as int));
            }
            assert(v@ =~= default@);
            assert(v@.to_set() =~= default@.to_set());
            Ok(v)
        },
        Some(inner) => {
            let s = inner.as_str();
            let n = s.unicode_len();
            if n == 0 {
                return Err(ValidationError::EmptyString);
            }
            let mut v: Vec<char> = Vec::new();
            let mut i: usize = 0;
            while i < n
                invariant
                    n == s@.len(),
                    i <= n,
                    strictly_increasing(v@),
                    forall|x: char| v@.contains(x) <==> s@.subrange(0, i as int).contains(x),
                decreases n - i,
            {
                let c = s.get_char(i);
                let mut p: usize = 0;
                while p < v.len() && v[p] < c
                    invariant
                        p <= v@.len(),
                        forall|j: int| 0 <= j < p ==> v@[j] < c,
                    decreases v@.len() - p,
                {
                    p += 1;
                }
                let ghost prev = v@;
                if p < v.len() && v[p] == c {
                    assert(v@[p as int] == c);
                    assert forall|x: char| v@.contains(x) <==> (prev.contains(x) || x == c) by {
                        if x == c {
                            assert(v@[p as int] == x);
                        }
                    }
                } else {
                    v.insert(p, c);
                    assert(forall|j: int| p <= j < prev.len() ==> c < prev[j]) by {
                        assert forall|j: int| p <= j < prev.len() implies c < prev[j] by {
                            if j > p {
                                assert(prev[p as int] < prev[j]);
                            }
                        }
                    }
                    assert(v@[p as int] == c);
                    assert forall|x: char| v@.contains(x) <==> (prev.contains(x) || x == c) by {
                        if v@.contains(x) && x != c {
                            let k = choose|k: int| 0 <= k < v@.len() && v@[k] == x;
                            if k < p {
                                assert(prev[k] == x);
                            } else {
                                assert(prev[k - 1] == x);
                            }
                        }
                        if prev.contains(x) {
                            let k = choose|k: int| 0 <= k < prev.len() && prev[k] == x;
                            if k < p {
                                assert(v@[k] == x);
                            } else {
                                assert(v@[k + 1] == x);
                            }
                        }
                    }
                }
                let ghost done = s@.subrange(0, i as int);
                let ghost next = s@.subrange(0, i + 1);
                assert forall|x: char| next.contains(x) <==> (done.contains(x) || x == c) by {
                    if next.contains(x) {
                        let k = choose|k: int| 0 <= k < next.len() && next[k] == x;
                        if k < i {
                            assert(done[k] == x);
                        }
                    }
                    if done.contains(x) {
                        let k = choose|k: int| 0 <= k < done.len() && done[k] == x;
                        assert(next[k] == x);
                    }
                    if x == c {
                        assert(next[i as int] == x);
                    }
                }
                assert forall|x: char| v@.contains(x) <==> next.contains(x) by {
                    assert(v@.contains(x) <==> (prev.contains(x) || x == c));
                    assert(prev.contains(x) <==> done.contains(x));
                }
                i += 1;
            }
            assert(s@.subrange(0, n as int) =~= s@);
            assert(v@.to_set() =~= s@.to_set());
            assert(s@.contains(s@[0]));
            assert(v@.contains(s@[0]));
            Ok(v)
        },
    }
}

/// Reads an unsigned decimal that fits in a `u8`.
fn parse_u8_exec(s: &str) -> (r: Option<u8>)
    ensures
        r == parse_u8(s@),
{
    let n = s.unicode_len();
    let mut i: usize = 0;
    if n > 0 && s.get_char(0) == '+' {
        i = 1;
    }
    let start = i;
    proof {
        assert(unsigned_digits(s@) =~= s@.subrange(start as int, n as int));
    }
    if start == n {
        return None;
    }
    let mut value: u32 = 0;
    while i < n
        invariant
            start <= i <= n,
            n == s@.len(),
            unsigned_digits(s@) =~= s@.subrange(start as int, n as int),
            forall|j: int| start <= j < i ==> is_digit(#[trigger] s@[j]),
            value as nat == digits_value(s@.subrange(start as int, i as int)),
            value <= 255,
        decreases n - i,
    {
        let c = s.get_char(i);
        if c < '0' || c > '9' {
            proof {
                let d = unsigned_digits(s@);
                assert(d[i - start] == c);
            }
            return None;
        }
        let digit = (c as u32) - ('0' as u32);
        proof {
            let sub = s@.subrange(start as int, i + 1);
            assert(sub.drop_last() =~= s@.subrange(start as int, i as int));
        }
        value = value * 10 + digit;
        i += 1;
        if value > 255 {
            proof {
                if is_unsigned_decimal(s@) {
                    lemma_digits_value_grows(unsigned_digits(s@), i - start);
                    assert(unsigned_digits(s@).subrange(0, i - start) =~= s@.subrange(
                        start as int,
                        i as int,
                    ));
                }
            }
            return None;
        }
    }
    Some(value as u8)
}

/// A decimal is at least as large as any of its prefixes.
proof fn lemma_digits_value_grows(s: Seq<char>, k: int)
    requires
        0 <= k <= s.len(),
        forall|i: int| 0 <= i < s.len() ==> is_digit(#[trigger] s[i]),
    ensures
        digits_value(s.subrange(0, k)) <= digits_value(s),
    decreases s.len(),
{
    if k < s.len() {
        assert(s.drop_last().subrange(0, k) =~= s.subrange(0, k));
        lemma_digits_value_grows(s.drop_last(), k);
    } else {
        assert(s.subrange(0, k) =~= s);
    }
}

impl ConfigBuilder {
    /// A builder with every option unset.
    pub fn new() -> (r: Self)
        ensures
            r == (ConfigBuilder {
                count: None,
                word_count: None,
                word_min_length: None,
                word_max_length: None,
                word_transformation: None,
                digits_before: None,
                digits_after: None,
                padding_type: None,
                padding_length: None,
                padding_characters: None,
                separator_characters: None,
                rng_type: None,
            }),
    {
        ConfigBuilder {
            count: None,
            word_count: None,
            word_min_length: None,
            word_max_length: None,
            word_transformation: None,
            digits_before: None,
            digits_after: None,
            padding_type: None,
            padding_length: None,
            padding_characters: None,
            separator_characters: None,
            rng_type: None,
        }
    }

    /// Sets the raw `count` option.
    pub fn count(self, value: Option<String>) -> (r: Self)
        ensures
            r == (ConfigBuilder { count: value, ..self }),
    {
        ConfigBuilder { count: value, ..self }
    }

    /// Sets the raw `word-count` option.
    pub fn word_count(self, value: Option<String>) -> (r: Self)
        ensures
            r == (ConfigBuilder { word_count: value, ..self }),
    {
        ConfigBuilder { word_count: value, ..self }
    }

    /// Sets the raw `word-min-length` option.
    pub fn word_min_length(self, value: Option<String>) -> (r: Self)
        ensures
            r == (ConfigBuilder { word_min_length: value, ..self }),
    {
        ConfigBuilder { word_min_length: value, ..self }
    }

    /// Sets the raw `word-max-length` option.
    pub fn word_max_length(self, value: Option<String>) -> (r: Self)
        ensures
            r == (ConfigBuilder { word_max_length: value, ..self }),
    {
        ConfigBuilder { word_max_length: value, ..self }
    }

    /// Sets the raw `word-transformation` option.
    pub fn word_transformation(self, value: Option<String>) -> (r: Self)
        ensures
            r == (ConfigBuilder { word_transformation: value, ..self }),
    {
        ConfigBuilder { word_transformation: value, ..self }
    }

    /// Sets the raw `digits-before` option.
    pub fn digits_before(self, value: Option<String>) -> (r: Self)
        ensures
            r == (ConfigBuilder { digits_before: value, ..self }),
    {
        ConfigBuilder { digits_before: value, ..self }
    }

    /// Sets the raw `digits-after` option.
    pub fn digits_after(self, value: Option<String>) -> (r: Self)
        ensures
            r == (ConfigBuilder { digits_after: value, ..self }),
    {
        ConfigBuilder { digits_after: value, ..self }
    }

    /// Sets the raw `padding-type` option.
    pub fn padding_type(self, value: Option<String>) -> (r: Self)
        ensures
            r == (ConfigBuilder { padding_type: value, ..self }),
    {
        ConfigBuilder { padding_type: value, ..self }
    }

    /// Sets the raw `padding-length` option.
    pub fn padding_length(self, value: Option<String>) -> (r: Self)
        ensures
            r == (ConfigBuilder { padding_length: value, ..self }),
    {
        ConfigBuilder { padding_length: value, ..self }
    }

    /// Sets the raw `padding-characters` option.
    pub fn padding_characters(self, value: Option<String>) -> (r: Self)
        ensures
            r == (ConfigBuilder { padding_characters: value, ..self }),
    {
        ConfigBuilder { padding_characters: value, ..self }
    }

    /// Sets the raw `separator-characters` option.
    pub fn separator_characters(self, value: Option<String>) -> (r: Self)
        ensures
            r == (ConfigBuilder { separator_characters: value, ..self }),
    {
        ConfigBuilder { separator_characters: value, ..self }
    }

    /// Sets the raw `rng-type` option.
    pub fn rng_type(self, value: Option<String>) -> (r: Self)
        ensures
            r == (ConfigBuilder { rng_type: value, ..self }),
    {
        ConfigBuilder { rng_type: value, ..self }
    }

    /// Validates every option, in declaration order, and stops at the first
    /// failure.
    pub fn build(self) -> (r: Result<Config, ValidationError>)
        ensures
            result_view(r) == build_outcome(self@),
            r is Ok ==> r->Ok_0.wf(),
            r is Ok ==> chars_layout(
                self@.padding_characters,
                SYMBOL_ALPHABET@,
                r->Ok_0.padding_characters@,
            ),
            r is Ok ==> chars_layout(
                self@.separator_characters,
                SYMBOL_ALPHABET@,
                r->Ok_0.separator_characters@,
            ),
    {
        let count = match validate_int(self.count, 1, 255, COUNT) {
            Ok(v) => v,
            Err(e) => return Err(e),
        };
        let word_count = match validate_int(self.word_count, 0, 32, WORD_COUNT) {
            Ok(v) => v,
            Err(e) => return Err(e),
        };
        let word_min_length = match validate_int(self.word_min_length, 1, 255, WORD_MIN_LENGTH) {
            Ok(v) => v,
            Err(e) => return Err(e),
        };
        let max_default = if word_min_length > WORD_MAX_LENGTH {
            word_min_length
        } else {
            WORD_MAX_LENGTH
        };
        let word_max_length = match validate_int(
            self.word_max_length,
            word_min_length,
            255,
            max_default,
        ) {
            Ok(v) => v,
            Err(e) => return Err(e),
        };
        let word_transformation = match validate_enum::<WordTransformationType>(
            self.word_transformation,
        ) {
            Ok(v) => v,
            Err(e) => return Err(e),
        };
        let digits_before = match validate_int(self.digits_before, 0, 255, DIGITS_BEFORE) {
            Ok(v) => v,
            Err(e) => return Err(e),
        };
        let digits_after = match validate_int(self.digits_after, 0, 255, DIGITS_AFTER) {
            Ok(v) => v,
            Err(e) => return Err(e),
        };
        let padding_characters = match uniquify_chars(self.padding_characters, &SYMBOL_ALPHABET) {
            Ok(v) => v,
            Err(e) => return Err(e),
        };
        let padding_type = match validate_enum::<PaddingType>(self.padding_type) {
            Ok(v) => v,
            Err(e) => return Err(e),
        };
        let padding_default = match padding_type {
            PaddingType::Fixed => PADDING_LENGTH_FIXED,
            PaddingType::Adaptive => PADDING_LENGTH_ADAPTIVE,
            PaddingType::NoPadding => 0,
        };
        let padding_length = match validate_int(self.padding_length, 0, 255, padding_default) {
            Ok(v) => v,
            Err(e) => return Err(e),
        };
        let separator_characters = match uniquify_chars(
            self.separator_characters,
            &SYMBOL_ALPHABET,
        ) {
            Ok(v) => v,
            Err(e) => return Err(e),
        };
        let rng_type = match validate_enum::<RngType>(self.rng_type) {
            Ok(v) => v,
            Err(e) => return Err(e),
        };
        Ok(
            Config {
                count,
                word_count,
                word_min_length,
                word_max_length,
                word_transformation,
                digits_before,
                digits_after,
                padding_type,
                padding_length,
                padding_characters,
                separator_characters,
                rng_type,
            },
        )
    }
}

} // verus!
