//! Shared types: the validation error and the enums with canonical names.
use vstd::prelude::*;
use vstd::string::StringExecFns;

use crate::text::join;
use crate::text::join_strings;
use crate::text::lower;
use crate::text::to_ascii_lowercase;
use crate::text::str_eq;
use crate::text::strings_view;

verus! {

/// Why a raw option could not become part of a configuration.
#[derive(Clone, Debug)]
pub enum ValidationError {
    /// The raw value, and the smallest and largest accepted numbers.
    InvalidNumber(String, u8, u8),
    /// A message that lists the accepted names.
    InvalidEnum(String),
    /// A character set was given as the empty string.
    EmptyString,
}

/// The message of a failed name lookup.
pub open spec fn invalid_choice_message(
    member: Seq<char>,
    kind: Seq<char>,
    choices: Seq<Seq<char>>,
) -> Seq<char> {
    "`"@ + member + "` is not a valid "@ + kind + ". Possible choices: "@ + join(choices, ", "@)
}

/// The member whose canonical name is `s`, if there is one.
pub open spec fn lookup<T: StrEnum>(s: Seq<char>) -> Option<T> {
    if exists|m: T| #[trigger] m.canonical_name() == s {
        Some(choose|m: T| #[trigger] m.canonical_name() == s)
    } else {
        None
    }
}

/// The canonical names of a sequence of members, in order.
pub open spec fn names_of<T: StrEnum>(ms: Seq<T>) -> Seq<Seq<char>> {
    ms.map_values(|m: T| m.canonical_name())
}

/// An enum whose members each have a canonical kebab-case name.
pub trait StrEnum: Sized + Copy {
    /// The name of the enum itself.
    spec fn kind_name() -> Seq<char>;

    /// Every member, in declaration order.
    spec fn all_members() -> Seq<Self>;

    /// The canonical name of a member.
    spec fn canonical_name(self) -> Seq<char>;

    /// The member used when none is named.
    spec fn default_member() -> Self;

    proof fn lemma_members_complete(m: Self)
        ensures
            Self::all_members().contains(m),
    ;

    proof fn lemma_names_distinct(a: Self, b: Self)
        ensures
            a.canonical_name() == b.canonical_name() ==> a == b,
    ;

    fn enum_name() -> (r: &'static str)
        ensures
            r@ == Self::kind_name(),
    ;

    fn default_value() -> (r: Self)
        ensures
            r == Self::default_member(),
    ;

    fn members() -> (r: Vec<Self>)
        ensures
            r@ == Self::all_members(),
    ;

    fn to_static_str(&self) -> (r: &'static str)
        ensures
            r@ == self.canonical_name(),
    ;
}

/// The member whose canonical name is `member` up to ASCII case, or an error
/// that names the lower-cased `member` and lists every canonical name in
/// declaration order.
pub fn member_named<T: StrEnum>(member: &str) -> (r: Result<T, ValidationError>)
    ensures
        match r {
            Ok(m) => lookup::<T>(lower(member@)) == Some(m),
            Err(e) => lookup::<T>(lower(member@)) is None && match e {
                ValidationError::InvalidEnum(msg) => msg@ == invalid_choice_message(
                    lower(member@),
                    T::kind_name(),
                    names_of(T::all_members()),
                ),
                _ => false,
            },
        },
{
    let lowered = to_ascii_lowercase(member);
    let key = lowered.as_str();
    let members = T::members();
    let mut names: Vec<String> = Vec::new();
    let mut i: usize = 0;
    while i < members.len()
        invariant
            key@ == lower(member@),
            members@ == T::all_members(),
            i <= members@.len(),
            names@.len() == i,
            strings_view(names@) =~= names_of(members@.subrange(0, i as int)),
            forall|j: int| 0 <= j < i ==> (#[trigger] members@[j]).canonical_name() != key@,
        decreases members@.len() - i,
    {
        let name = members[i].to_static_str();
        if str_eq(name, key) {
            let m = members[i];
            proof {
                assert(m.canonical_name() == key@);
                let c = choose|x: T| #[trigger] x.canonical_name() == key@;
                T::lemma_names_distinct(c, m);
            }
            return Ok(m);
        }
        names.push(String::from_str(name));
        proof {
            let ms = members@.subrange(0, i + 1);
            assert(ms.drop_last() =~= members@.subrange(0, i as int));
            assert(names_of(ms) =~= names_of(members@.subrange(0, i as int)).push(name@));
        }
        i += 1;
    }
    proof {
        assert(members@.subrange(0, members@.len() as int) =~= members@);
        if exists|x: T| #[trigger] x.canonical_name() == key@ {
            let x = choose|x: T| #[trigger] x.canonical_name() == key@;
            T::lemma_members_complete(x);
            let j = choose|j: int| 0 <= j < members@.len() && members@[j] == x;
            assert(members@[j].canonical_name() != key@);
        }
    }
    let mut msg = String::from_str("`");
    msg.append(key);
    msg.append("` is not a valid ");
    msg.append(T::enum_name());
    msg.append(". Possible choices: ");
    let choices = join_strings(&names, ", ");
    msg.append(choices.as_str());
    Err(ValidationError::InvalidEnum(msg))
}

/// Every canonical name leads back, through the lookup, to the member that
/// carries it, and so to the same canonical name.
pub proof fn lemma_canonical_name_round_trip<T: StrEnum>(m: T)
    ensures
        lookup::<T>(m.canonical_name()) == Some(m),
        lookup::<T>(m.canonical_name()).unwrap().canonical_name() == m.canonical_name(),
{
    let c = choose|x: T| #[trigger] x.canonical_name() == m.canonical_name();
    T::lemma_names_distinct(c, m);
}

/// The different ways words can be transformed.
#[derive(Clone, Copy, Debug, PartialEq, Eq, Structural)]
pub enum WordTransformationType {
    /// the words as they are (canonical name `none`)
    AsIs,
    /// correct horse battery staple
    Lower,
    /// CORRECT HORSE BATTERY STAPLE
    Upper,
    /// Correct Horse Battery Staple
    CapitalizeFirst,
    /// correcT horsE batterY staplE
    CapitalizeLast,
    /// cORRECT hORSE bATTERY sTAPLE
    CapitalizeNotFirst,
    /// correct HORSE battery STAPLE
    AlternatingLowerUpper,
    /// CORRECT horse BATTERY staple
    AlternatingUpperLower,
    /// correct HORSE battery staple (each word upper or lower at random)
    RandomUpperLower,
}

/// The different ways padding can be applied.
#[derive(Clone, Copy, Debug, PartialEq, Eq, Structural)]
pub enum PaddingType {
    /// no padding (canonical name `none`)
    NoPadding,
    /// add padding-length padding-characters to front and back
    Fixed,
    /// if the unpadded password is shorter than padding-length, append
    /// padding-characters up to that length
    Adaptive,
}

/// The different random number generator options.
#[derive(Clone, Copy, Debug, PartialEq, Eq, Structural)]
pub enum RngType {
    /// the system's native secure RNG
    OsRng,
    /// a reasonably secure userspace RNG
    Csprng,
}

impl WordTransformationType {
    pub const NAME: &'static str = "WordTransformationType";

    pub const NAME_MEMBER_ARR: [(&'static str, WordTransformationType); 9] = [
        ("none", WordTransformationType::AsIs),
        ("lower", WordTransformationType::Lower),
        ("upper", WordTransformationType::Upper),
        ("capitalize-first", WordTransformationType::CapitalizeFirst),
        ("capitalize-last", WordTransformationType::CapitalizeLast),
        ("capitalize-not-first", WordTransformationType::CapitalizeNotFirst),
        ("alternating-lower-upper", WordTransformationType::AlternatingLowerUpper),
        ("alternating-upper-lower", WordTransformationType::AlternatingUpperLower),
        ("random-upper-lower", WordTransformationType::RandomUpperLower),
    ];

    /// The member whose canonical name is `member` up to ASCII case, or an
    /// error listing the canonical names.
    pub fn to_member(member: &str) -> (r: Result<Self, ValidationError>)
        ensures
            match r {
                Ok(m) => lookup::<Self>(lower(member@)) == Some(m),
                Err(e) => lookup::<Self>(lower(member@)) is None && match e {
                    ValidationError::InvalidEnum(msg) => msg@ == invalid_choice_message(
                        lower(member@),
                        Self::kind_name(),
                        names_of(Self::all_members()),
                    ),
                    _ => false,
                },
            },
    {
        member_named::<Self>(member)
    }
}

impl StrEnum for WordTransformationType {
    open spec fn kind_name() -> Seq<char> {
        "WordTransformationType"@
    }

    open spec fn default_member() -> Self {
        WordTransformationType::AlternatingLowerUpper
    }

    open spec fn all_members() -> Seq<Self> {
        seq![WordTransformationType::AsIs, WordTransformationType::Lower, WordTransformationType::Upper, WordTransformationType::CapitalizeFirst, WordTransformationType::CapitalizeLast, WordTransformationType::CapitalizeNotFirst, WordTransformationType::AlternatingLowerUpper, WordTransformationType::AlternatingUpperLower, WordTransformationType::RandomUpperLower]
    }

    open spec fn canonical_name(self) -> Seq<char> {
        match self {
            WordTransformationType::AsIs => "none"@,
            WordTransformationType::Lower => "lower"@,
            WordTransformationType::Upper => "upper"@,
            WordTransformationType::CapitalizeFirst => "capitalize-first"@,
            WordTransformationType::CapitalizeLast => "capitalize-last"@,
            WordTransformationType::CapitalizeNotFirst => "capitalize-not-first"@,
            WordTransformationType::AlternatingLowerUpper => "alternating-lower-upper"@,
            WordTransformationType::AlternatingUpperLower => "alternating-upper-lower"@,
            WordTransformationType::RandomUpperLower => "random-upper-lower"@,
        }
    }

    proof fn lemma_members_complete(m: Self) {
        match m {
            WordTransformationType::AsIs => assert(Self::all_members()[0] == m),
            WordTransformationType::Lower => assert(Self::all_members()[1] == m),
            WordTransformationType::Upper => assert(Self::all_members()[2] == m),
            WordTransformationType::CapitalizeFirst => assert(Self::all_members()[3] == m),
            WordTransformationType::CapitalizeLast => assert(Self::all_members()[4] == m),
            WordTransformationType::CapitalizeNotFirst => assert(Self::all_members()[5] == m),
            WordTransformationType::AlternatingLowerUpper => assert(Self::all_members()[6] == m),
            WordTransformationType::AlternatingUpperLower => assert(Self::all_members()[7] == m),
            WordTransformationType::RandomUpperLower => assert(Self::all_members()[8] == m),
        }
    }

    proof fn lemma_names_distinct(a: Self, b: Self) {
        reveal_strlit("none");
        reveal_strlit("lower");
        reveal_strlit("upper");
        reveal_strlit("capitalize-first");
        reveal_strlit("capitalize-last");
        reveal_strlit("capitalize-not-first");
        reveal_strlit("alternating-lower-upper");
        reveal_strlit("alternating-upper-lower");
        reveal_strlit("random-upper-lower");
        let (na, nb) = (a.canonical_name(), b.canonical_name());
        if na == nb {
            assert(na.len() == nb.len() && na[0] == nb[0]);
            if na.len() > 12 {
                assert(na[12] == nb[12]);
            }
        }
    }

    fn enum_name() -> (r: &'static str) {
        Self::NAME
    }

    fn default_value() -> (r: Self) {
        Self::AlternatingLowerUpper
    }

    fn members() -> (r: Vec<Self>) {
        let r = vec![WordTransformationType::AsIs, WordTransformationType::Lower, WordTransformationType::Upper, WordTransformationType::CapitalizeFirst, WordTransformationType::CapitalizeLast, WordTransformationType::CapitalizeNotFirst, WordTransformationType::AlternatingLowerUpper, WordTransformationType::AlternatingUpperLower, WordTransformationType::RandomUpperLower];
        assert(r@ =~= Self::all_members());
        r
    }

    fn to_static_str(&self) -> (r: &'static str) {
        match self {
            WordTransformationType::AsIs => "none",
            WordTransformationType::Lower => "lower",
            WordTransformationType::Upper => "upper",
            WordTransformationType::CapitalizeFirst => "capitalize-first",
            WordTransformationType::CapitalizeLast => "capitalize-last",
            WordTransformationType::CapitalizeNotFirst => "capitalize-not-first",
            WordTransformationType::AlternatingLowerUpper => "alternating-lower-upper",
            WordTransformationType::AlternatingUpperLower => "alternating-upper-lower",
            WordTransformationType::RandomUpperLower => "random-upper-lower",
        }
    }
}

impl Default for WordTransformationType {
    fn default() -> (r: Self)
        ensures
            r == WordTransformationType::AlternatingLowerUpper,
    {
        WordTransformationType::AlternatingLowerUpper
    }
}

impl PaddingType {
    pub const NAME: &'static str = "PaddingType";

    pub const NAME_MEMBER_ARR: [(&'static str, PaddingType); 3] = [
        ("none", PaddingType::NoPadding),
        ("fixed", PaddingType::Fixed),
        ("adaptive", PaddingType::Adaptive),
    ];

    /// The member whose canonical name is `member` up to ASCII case, or an
    /// error listing the canonical names.
    pub fn to_member(member: &str) -> (r: Result<Self, ValidationError>)
        ensures
            match r {
                Ok(m) => lookup::<Self>(lower(member@)) == Some(m),
                Err(e) => lookup::<Self>(lower(member@)) is None && match e {
                    ValidationError::InvalidEnum(msg) => msg@ == invalid_choice_message(
                        lower(member@),
                        Self::kind_name(),
                        names_of(Self::all_members()),
                    ),
                    _ => false,
                },
            },
    {
        member_named::<Self>(member)
    }
}

impl StrEnum for PaddingType {
    open spec fn kind_name() -> Seq<char> {
        "PaddingType"@
    }

    open spec fn default_member() -> Self {
        PaddingType::Fixed
    }

    open spec fn all_members() -> Seq<Self> {
        seq![PaddingType::NoPadding, PaddingType::Fixed, PaddingType::Adaptive]
    }

    open spec fn canonical_name(self) -> Seq<char> {
        match self {
            PaddingType::NoPadding => "none"@,
            PaddingType::Fixed => "fixed"@,
            PaddingType::Adaptive => "adaptive"@,
        }
    }

    proof fn lemma_members_complete(m: Self) {
        match m {
            PaddingType::NoPadding => assert(Self::all_members()[0] == m),
            PaddingType::Fixed => assert(Self::all_members()[1] == m),
            PaddingType::Adaptive => assert(Self::all_members()[2] == m),
        }
    }

    proof fn lemma_names_distinct(a: Self, b: Self) {
        reveal_strlit("none");
        reveal_strlit("fixed");
        reveal_strlit("adaptive");
        let (na, nb) = (a.canonical_name(), b.canonical_name());
        if na == nb {
            assert(na.len() == nb.len() && na[0] == nb[0]);
        }
    }

    fn enum_name() -> (r: &'static str) {
        Self::NAME
    }

    fn default_value() -> (r: Self) {
        Self::Fixed
    }

    fn members() -> (r: Vec<Self>) {
        let r = vec![PaddingType::NoPadding, PaddingType::Fixed, PaddingType::Adaptive];
        assert(r@ =~= Self::all_members());
        r
    }

    fn to_static_str(&self) -> (r: &'static str) {
        match self {
            PaddingType::NoPadding => "none",
            PaddingType::Fixed => "fixed",
            PaddingType::Adaptive => "adaptive",
        }
    }
}

impl Default for PaddingType {
    fn default() -> (r: Self)
        ensures
            r == PaddingType::Fixed,
    {
        PaddingType::Fixed
    }
}

impl RngType {
    pub const NAME: &'static str = "RngType";

    pub const NAME_MEMBER_ARR: [(&'static str, RngType); 2] = [
        ("os-rng", RngType::OsRng),
        ("csprng", RngType::Csprng),
    ];

    /// The member whose canonical name is `member` up to ASCII case, or an
    /// error listing the canonical names.
    pub fn to_member(member: &str) -> (r: Result<Self, ValidationError>)
        ensures
            match r {
                Ok(m) => lookup::<Self>(lower(member@)) == Some(m),
                Err(e) => lookup::<Self>(lower(member@)) is None && match e {
                    ValidationError::InvalidEnum(msg) => msg@ == invalid_choice_message(
                        lower(member@),
                        Self::kind_name(),
                        names_of(Self::all_members()),
                    ),
                    _ => false,
                },
            },
    {
        member_named::<Self>(member)
    }
}

impl StrEnum for RngType {
    open spec fn kind_name() -> Seq<char> {
        "RngType"@
    }

    open spec fn default_member() -> Self {
        RngType::OsRng
    }

    open spec fn all_members() -> Seq<Self> {
        seq![RngType::OsRng, RngType::Csprng]
    }

    open spec fn canonical_name(self) -> Seq<char> {
        match self {
            RngType::OsRng => "os-rng"@,
            RngType::Csprng => "csprng"@,
        }
    }

    proof fn lemma_members_complete(m: Self) {
        match m {
            RngType::OsRng => assert(Self::all_members()[0] == m),
            RngType::Csprng => assert(Self::all_members()[1] == m),
        }
    }

    proof fn lemma_names_distinct(a: Self, b: Self) {
        reveal_strlit("os-rng");
        reveal_strlit("csprng");
        let (na, nb) = (a.canonical_name(), b.canonical_name());
        if na == nb {
            assert(na.len() == nb.len() && na[0] == nb[0]);
        }
    }

    fn enum_name() -> (r: &'static str) {
        Self::NAME
    }

    fn default_value() -> (r: Self) {
        Self::OsRng
    }

    fn members() -> (r: Vec<Self>) {
        let r = vec![RngType::OsRng, RngType::Csprng];
        assert(r@ =~= Self::all_members());
        r
    }

    fn to_static_str(&self) -> (r: &'static str) {
        match self {
            RngType::OsRng => "os-rng",
            RngType::Csprng => "csprng",
        }
    }
}

impl Default for RngType {
    fn default() -> (r: Self)
        ensures
            r == RngType::OsRng,
    {
        RngType::OsRng
    }
}

} // verus!
