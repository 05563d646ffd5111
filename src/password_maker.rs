//! Provides the [`PasswordMaker`] struct: the password generation algorithm.
use vstd::prelude::*;
use vstd::string::StrSliceExecFns;
use vstd::string::StringExecFns;

use crate::config::Config;
use crate::config::opt_view;
use crate::consts::DIGIT_ALPHABET;
use crate::random::RandomSource;
use crate::text::join;
use crate::text::join_strings;
use crate::text::push_char;
use crate::text::repeat;
use crate::text::strings_view;
use crate::types::PaddingType;
use crate::types::WordTransformationType;
use crate::word_transformer;
use crate::word_transformer::transformed;

verus! {

/// Turns a [`Config`] and a word list into passwords, drawing from `rng`.
pub struct PasswordMaker<R: RandomSource> {
    pub rng: R,
    pub config: Config,
    pub wordlist: Vec<String>,
}

/// Indices, in order, of the words whose length lies in `min..=max`.
pub open spec fn candidates(wl: Seq<Seq<char>>, min: int, max: int) -> Seq<int>
    decreases wl.len(),
{
    if wl.len() == 0 {
        Seq::empty()
    } else {
        let prev = candidates(wl.drop_last(), min, max);
        if min <= wl.last().len() <= max {
            prev.push(wl.len() - 1)
        } else {
            prev
        }
    }
}

/// The words at `idx[p]` for each pick `p`, in the order of the picks.
pub open spec fn picked(wl: Seq<Seq<char>>, idx: Seq<int>, picks: Seq<int>) -> Seq<Seq<char>> {
    picks.map_values(|p: int| wl[idx[p]])
}

pub open spec fn usize_ints(s: Seq<usize>) -> Seq<int> {
    s.map_values(|i: usize| i as int)
}

pub open spec fn all_digits(s: Seq<char>) -> bool {
    forall|i: int| 0 <= i < s.len() ==> '0' <= #[trigger] s[i] && s[i] <= '9'
}

/// The parts that are not empty, in order.
pub open spec fn nonempty_parts(parts: Seq<Seq<char>>) -> Seq<Seq<char>>
    decreases parts.len(),
{
    if parts.len() == 0 {
        Seq::empty()
    } else {
        let prev = nonempty_parts(parts.drop_last());
        if parts.last().len() > 0 {
            prev.push(parts.last())
        } else {
            prev
        }
    }
}

pub open spec fn separator_seq(sep: Option<char>) -> Seq<char> {
    match sep {
        Some(c) => seq![c],
        None => Seq::empty(),
    }
}

/// The password before padding: the leading digits, the words and the trailing
/// digits, empty parts left out, with the separator between neighbours.
pub open spec fn unpadded(
    words: Seq<Seq<char>>,
    before: Seq<char>,
    after: Seq<char>,
    sep: Option<char>,
) -> Seq<char> {
    join(nonempty_parts(seq![before] + words + seq![after]), separator_seq(sep))
}

/// How many padding characters go in front and at the back of an unpadded
/// password of `len` characters.
pub open spec fn padding_lengths(t: PaddingType, padding_length: u8, len: nat) -> (nat, nat) {
    match t {
        PaddingType::NoPadding => (0, 0),
        PaddingType::Fixed => (padding_length as nat, padding_length as nat),
        PaddingType::Adaptive => (
            0,
            if len < padding_length {
                (padding_length - len) as nat
            } else {
                0
            },
        ),
    }
}

/// One side of the padding as the engine hands it out: `n` copies of the
/// drawn character; with no character to draw, empty if `n` is 0 and absent
/// otherwise.
pub open spec fn padding_part(pad: Option<char>, n: nat) -> Option<Seq<char>> {
    match pad {
        Some(c) => Some(repeat(c, n)),
        None => if n == 0 {
            Some(Seq::empty())
        } else {
            None
        },
    }
}

/// One side of the padding as it ends up in the password.
pub open spec fn padding_text(pad: Option<char>, n: nat) -> Seq<char> {
    match pad {
        Some(c) => repeat(c, n),
        None => Seq::empty(),
    }
}

/// An unpadded password with its padding.
pub open spec fn padded(t: PaddingType, padding_length: u8, pad: Option<char>, u: Seq<char>) -> Seq<
    char,
> {
    let (b, a) = padding_lengths(t, padding_length, u.len());
    padding_text(pad, b) + u + padding_text(pad, a)
}

/// A character drawn from `set`: none exactly when `set` is empty.
pub open spec fn drawn_from(c: Option<char>, set: Seq<char>) -> bool {
    &&& (c is None <==> set.len() == 0)
    &&& (c is Some ==> set.contains(c->Some_0))
}

/// Whether the draws are ones the engine can make for one password: `picks`
/// index the candidate words (there are `word_count` of them unless no word
/// is a candidate), one coin per pick, the digit strings, the separator and
/// the padding character.
pub open spec fn draws_fit(
    c: Config,
    wl: Seq<Seq<char>>,
    picks: Seq<int>,
    coins: Seq<bool>,
    before: Seq<char>,
    after: Seq<char>,
    sep: Option<char>,
    pad: Option<char>,
) -> bool {
    let cands = candidates(wl, c.word_min_length as int, c.word_max_length as int);
    &&& picks.len() == (if cands.len() == 0 {
        0
    } else {
        c.word_count as int
    })
    &&& forall|k: int| 0 <= k < picks.len() ==> 0 <= #[trigger] picks[k] < cands.len()
    &&& coins.len() == picks.len()
    &&& before.len() == c.digits_before && all_digits(before)
    &&& after.len() == c.digits_after && all_digits(after)
    &&& drawn_from(sep, c.separator_characters@)
    &&& drawn_from(pad, c.padding_characters@)
}

/// The transformed words of a password made with these draws.
pub open spec fn chosen_words(
    c: Config,
    wl: Seq<Seq<char>>,
    picks: Seq<int>,
    coins: Seq<bool>,
) -> Seq<Seq<char>> {
    let cands = candidates(wl, c.word_min_length as int, c.word_max_length as int);
    transformed(c.word_transformation, picked(wl, cands, picks), coins)
}

/// The unpadded password made with these draws.
pub open spec fn unpadded_of(
    c: Config,
    wl: Seq<Seq<char>>,
    picks: Seq<int>,
    coins: Seq<bool>,
    before: Seq<char>,
    after: Seq<char>,
    sep: Option<char>,
) -> Seq<char> {
    unpadded(chosen_words(c, wl, picks, coins), before, after, sep)
}

/// The password made with these draws.
pub open spec fn password_of(
    c: Config,
    wl: Seq<Seq<char>>,
    picks: Seq<int>,
    coins: Seq<bool>,
    before: Seq<char>,
    after: Seq<char>,
    sep: Option<char>,
    pad: Option<char>,
) -> Seq<char> {
    padded(c.padding_type, c.padding_length, pad, unpadded_of(c, wl, picks, coins, before, after, sep))
}

/// Whether `pw` is a password the engine can make from `c` and `wl`.
pub open spec fn possible_password(c: Config, wl: Seq<Seq<char>>, pw: Seq<char>) -> bool {
    exists|
        picks: Seq<int>,
        coins: Seq<bool>,
        before: Seq<char>,
        after: Seq<char>,
        sep: Option<char>,
        pad: Option<char>,
    |
        draws_fit(c, wl, picks, coins, before, after, sep, pad) && pw == #[trigger] password_of(
            c,
            wl,
            picks,
            coins,
            before,
            after,
            sep,
            pad,
        )
}

/// Every candidate is an index of the word list whose word has a length in
/// `min..=max`, and candidates come in increasing order.
pub proof fn lemma_candidates_fit(wl: Seq<Seq<char>>, min: int, max: int)
    ensures
        forall|k: int|
            0 <= k < candidates(wl, min, max).len() ==> {
                let i = #[trigger] candidates(wl, min, max)[k];
                0 <= i < wl.len() && min <= wl[i].len() <= max
            },
    decreases wl.len(),
{
    if wl.len() > 0 {
        let prev = wl.drop_last();
        lemma_candidates_fit(prev, min, max);
        assert forall|k: int| 0 <= k < candidates(wl, min, max).len() implies {
            let i = #[trigger] candidates(wl, min, max)[k];
            0 <= i < wl.len() && min <= wl[i].len() <= max
        } by {
            if k < candidates(prev, min, max).len() {
                let i = candidates(prev, min, max)[k];
                assert(prev[i] == wl[i]);
            }
        }
    }
}

/// Concatenates the leading digits, the words and the trailing digits, leaving
/// out empty parts and putting the separator between neighbours.
pub fn join_parts(
    front: Option<String>,
    words: Vec<String>,
    back: Option<String>,
    separator: Option<char>,
) -> (r: String)
    ensures
        r@ == unpadded(
            strings_view(words@),
            match opt_view(front) {
                Some(s) => s,
                None => Seq::empty(),
            },
            match opt_view(back) {
                Some(s) => s,
                None => Seq::empty(),
            },
            separator,
        ),
{
    let ghost words_in = strings_view(words@);
    let mut words = words;
    let front = match front {
        Some(s) => s,
        None => String::new(),
    };
    let back = match back {
        Some(s) => s,
        None => String::new(),
    };
    let ghost all = seq![front@] + words_in + seq![back@];
    let mut parts: Vec<String> = Vec::new();
    parts.push(front);
    parts.append(&mut words);
    parts.push(back);
    assert(strings_view(parts@) =~= all);
    let mut kept: Vec<String> = Vec::new();
    for i in 0..parts.len()
        invariant
            strings_view(parts@) == all,
            strings_view(kept@) == nonempty_parts(all.subrange(0, i as int)),
    {
        proof {
            assert(all.subrange(0, i + 1).drop_last() =~= all.subrange(0, i as int));
        }
        if parts[i].as_str().unicode_len() > 0 {
            kept.push(parts[i].clone());
            assert(strings_view(kept@) =~= nonempty_parts(all.subrange(0, i + 1)));
        }
    }
    assert(all.subrange(0, all.len() as int) =~= all);
    let mut sep = String::new();
    match separator {
        Some(c) => push_char(&mut sep, c),
        None => {},
    }
    assert(sep@ =~= separator_seq(separator));
    join_strings(&kept, sep.as_str())
}

/// `n` copies of `c`.
fn repeated(c: char, n: usize) -> (r: String)
    ensures
        r@ == repeat(c, n as nat),
{
    let mut r = String::new();
    for i in 0..n
        invariant
            r@ == repeat(c, i as nat),
    {
        push_char(&mut r, c);
        assert(r@ =~= repeat(c, (i + 1) as nat));
    }
    r
}

/// A character drawn uniformly from `set`, or none when `set` is empty.
fn choose_char<R: RandomSource>(rng: &mut R, set: &Vec<char>) -> (r: Option<char>)
    ensures
        drawn_from(r, set@),
        set@.len() == 0 ==> *final(rng) == *old(rng),
{
    if set.len() == 0 {
        None
    } else {
        let c = set[rng.below(set.len())];
        assert(set@.contains(c));
        Some(c)
    }
}

impl<R: RandomSource> PasswordMaker<R> {
    /// An engine for `config` over `wordlist`, drawing from `rng`.
    pub fn new(rng: R, config: Config, wordlist: Vec<String>) -> (r: Self)
        ensures
            r.rng == rng,
            r.config == config,
            r.wordlist == wordlist,
    {
        PasswordMaker { rng, config, wordlist }
    }

    /// Indices, in order, of the words whose character count lies between the
    /// configured minimum and maximum length, both included.
    pub fn filter_wordlist(&self) -> (r: Vec<usize>)
        ensures
            usize_ints(r@) == candidates(
                strings_view(self.wordlist@),
                self.config.word_min_length as int,
                self.config.word_max_length as int,
            ),
    {
        let min = self.config.word_min_length as usize;
        let max = self.config.word_max_length as usize;
        let ghost wl = strings_view(self.wordlist@);
        let mut r: Vec<usize> = Vec::new();
        for i in 0..self.wordlist.len()
            invariant
                wl == strings_view(self.wordlist@),
                min == self.config.word_min_length,
                max == self.config.word_max_length,
                usize_ints(r@) == candidates(wl.subrange(0, i as int), min as int, max as int),
        {
            proof {
                assert(wl.subrange(0, i + 1).drop_last() =~= wl.subrange(0, i as int));
            }
            let len = self.wordlist[i].as_str().unicode_len();
            if min <= len && len <= max {
                r.push(i);
            }
            assert(usize_ints(r@) =~= candidates(wl.subrange(0, i + 1), min as int, max as int));
        }
        assert(wl.subrange(0, wl.len() as int) =~= wl);
        r
    }

    /// Draws, with replacement, the configured number of words among those
    /// that `indices` point at; none when `indices` is empty.
    pub fn choose_words(&mut self, indices: &[usize]) -> (r: Vec<String>)
        requires
            forall|i: int| 0 <= i < indices@.len() ==> #[trigger] indices@[i] < old(self).wordlist@.len(),
        ensures
            final(self).config == old(self).config,
            final(self).wordlist == old(self).wordlist,
            indices@.len() == 0 || old(self).config.word_count == 0 ==> final(self).rng == old(
                self,
            ).rng,
            exists|picks: Seq<int>|
                {
                    &&& picks.len() == (if indices@.len() == 0 {
                        0
                    } else {
                        old(self).config.word_count as int
                    })
                    &&& forall|k: int| 0 <= k < picks.len() ==> 0 <= #[trigger] picks[k] < indices@.len()
                    &&& strings_view(r@) == #[trigger] picked(
                        strings_view(old(self).wordlist@),
                        usize_ints(indices@),
                        picks,
                    )
                },
    {
        let ghost wl = strings_view(self.wordlist@);
        if indices.len() == 0 {
            let r: Vec<String> = Vec::new();
            assert(strings_view(r@) =~= picked(wl, usize_ints(indices@), Seq::empty()));
            return r;
        }
        let n = self.config.word_count as usize;
        let mut buf: Vec<String> = Vec::new();
        let ghost mut picks: Seq<int> = Seq::empty();
        for _k in 0..n
            invariant
                self.config == old(self).config,
                self.wordlist == old(self).wordlist,
                wl == strings_view(self.wordlist@),
                n == self.config.word_count,
                n == 0 ==> self.rng == old(self).rng,
                0 < indices@.len(),
                forall|i: int| 0 <= i < indices@.len() ==> #[trigger] indices@[i] < self.wordlist@.len(),
                picks.len() == buf@.len(),
                buf@.len() == _k,
                forall|k: int| 0 <= k < picks.len() ==> 0 <= #[trigger] picks[k] < indices@.len(),
                strings_view(buf@) =~= picked(wl, usize_ints(indices@), picks),
        {
            let p = self.rng.below(indices.len());
            let word = self.wordlist[indices[p]].clone();
            let ghost prev_buf = buf@;
            buf.push(word);
            proof {
                let prev_picks = picks;
                picks = picks.push(p as int);
                assert(strings_view(buf@) =~= strings_view(prev_buf).push(word@));
                assert(picked(wl, usize_ints(indices@), picks) =~= picked(
                    wl,
                    usize_ints(indices@),
                    prev_picks,
                ).push(wl[indices@[p as int] as int]));
            }
        }
        buf
    }

    /// Applies the configured transformation to the words.
    pub fn transform_words(&mut self, words: Vec<String>) -> (r: Vec<String>)
        ensures
            final(self).config == old(self).config,
            final(self).wordlist == old(self).wordlist,
            old(self).config.word_transformation != WordTransformationType::RandomUpperLower
                || words@.len() == 0 ==> final(self).rng == old(self).rng,
            exists|coins: Seq<bool>|
                coins.len() == words@.len() && strings_view(r@) == #[trigger] transformed(
                    old(self).config.word_transformation,
                    strings_view(words@),
                    coins,
                ),
    {
        let ghost ws = strings_view(words@);
        let ghost no_coins = Seq::new(ws.len(), |i: int| false);
        if words.len() == 0 {
            assert(transformed(self.config.word_transformation, ws, no_coins) =~= ws);
            return words;
        }
        let r = match self.config.word_transformation {
            WordTransformationType::AsIs => words,
            WordTransformationType::Lower => word_transformer::lower(words),
            WordTransformationType::Upper => word_transformer::upper(words),
            WordTransformationType::CapitalizeFirst => word_transformer::capitalize_first(words),
            WordTransformationType::CapitalizeLast => word_transformer::capitalize_last(words),
            WordTransformationType::CapitalizeNotFirst => word_transformer::capitalize_not_first(
                words,
            ),
            WordTransformationType::AlternatingLowerUpper => {
                word_transformer::alternating_lower_upper(words)
            },
            WordTransformationType::AlternatingUpperLower => {
                word_transformer::alternating_upper_lower(words)
            },
            WordTransformationType::RandomUpperLower => {
                let r = word_transformer::random_upper_lower(&mut self.rng, words);
                proof {
                    let coins = choose|coins: Seq<bool>|
                        coins.len() == ws.len() && strings_view(r@)
                            == #[trigger] word_transformer::cased_by_coins(ws, coins);
                    assert(strings_view(r@) == transformed(
                        WordTransformationType::RandomUpperLower,
                        ws,
                        coins,
                    ));
                }
                r
            },
        };
        if self.config.word_transformation != WordTransformationType::RandomUpperLower {
            assert(strings_view(r@) == transformed(self.config.word_transformation, ws, no_coins));
        }
        r
    }

    /// Draws `n` digits, with replacement; none when `n` is 0.
    pub fn choose_n_digits(&mut self, n: usize) -> (r: Option<String>)
        ensures
            final(self).config == old(self).config,
            final(self).wordlist == old(self).wordlist,
            r is None <==> n == 0,
            n == 0 ==> final(self).rng == old(self).rng,
            r is Some ==> r->Some_0@.len() == n && all_digits(r->Some_0@),
    {
        if n == 0 {
            return None;
        }
        let mut buf = String::new();
        for k in 0..n
            invariant
                self.config == old(self).config,
                self.wordlist == old(self).wordlist,
                buf@.len() == k,
                all_digits(buf@),
        {
            let d = DIGIT_ALPHABET[self.rng.below(10)];
            push_char(&mut buf, d);
        }
        Some(buf)
    }

    /// Draws the leading and the trailing digit strings.
    pub fn create_pseudo_words(&mut self) -> (r: (Option<String>, Option<String>))
        ensures
            final(self).config == old(self).config,
            final(self).wordlist == old(self).wordlist,
            old(self).config.digits_before == 0 && old(self).config.digits_after == 0
                ==> final(self).rng == old(self).rng,
            r.0 is None <==> old(self).config.digits_before == 0,
            r.0 is Some ==> r.0->Some_0@.len() == old(self).config.digits_before && all_digits(
                r.0->Some_0@,
            ),
            r.1 is None <==> old(self).config.digits_after == 0,
            r.1 is Some ==> r.1->Some_0@.len() == old(self).config.digits_after && all_digits(
                r.1->Some_0@,
            ),
    {
        let before = self.choose_n_digits(self.config.digits_before as usize);
        let after = self.choose_n_digits(self.config.digits_after as usize);
        (before, after)
    }

    /// Draws a separator among the configured ones; none if there are none.
    pub fn choose_separator(&mut self) -> (r: Option<char>)
        ensures
            final(self).config == old(self).config,
            final(self).wordlist == old(self).wordlist,
            drawn_from(r, old(self).config.separator_characters@),
            old(self).config.separator_characters@.len() == 0 ==> final(self).rng == old(self).rng,
    {
        choose_char(&mut self.rng, &self.config.separator_characters)
    }

    /// The padding in front of and behind `password`: one drawn padding
    /// character, repeated as the padding type asks.
    pub fn create_padding(&mut self, password: &str) -> (r: (Option<String>, Option<String>))
        ensures
            final(self).config == old(self).config,
            final(self).wordlist == old(self).wordlist,
            old(self).config.padding_characters@.len() == 0 ==> final(self).rng == old(self).rng,
            exists|pad: Option<char>|
                {
                    &&& drawn_from(pad, old(self).config.padding_characters@)
                    &&& opt_view(r.0) == #[trigger] padding_part(
                        pad,
                        padding_lengths(
                            old(self).config.padding_type,
                            old(self).config.padding_length,
                            password@.len(),
                        ).0,
                    )
                    &&& opt_view(r.1) == padding_part(
                        pad,
                        padding_lengths(
                            old(self).config.padding_type,
                            old(self).config.padding_length,
                            password@.len(),
                        ).1,
                    )
                },
    {
        let len = self.config.padding_length as usize;
        let n = password.unicode_len();
        let (before_len, after_len) = match self.config.padding_type {
            PaddingType::NoPadding => (0, 0),
            PaddingType::Fixed => (len, len),
            PaddingType::Adaptive => (0, if n < len {
                len - n
            } else {
                0
            }),
        };
        let pad = choose_char(&mut self.rng, &self.config.padding_characters);
        let before = match pad {
            Some(c) => Some(repeated(c, before_len)),
            None => if before_len == 0 {
                Some(String::new())
            } else {
                None
            },
        };
        let after = match pad {
            Some(c) => Some(repeated(c, after_len)),
            None => if after_len == 0 {
                Some(String::new())
            } else {
                None
            },
        };
        assert(opt_view(before) == padding_part(
            pad,
            padding_lengths(self.config.padding_type, self.config.padding_length, n as nat).0,
        ));
        (before, after)
    }

    /// Makes one password: candidate words are filtered, drawn and
    /// transformed, digit strings and a separator are drawn, the parts are
    /// joined, and padding is added.
    pub fn make_password(&mut self) -> (r: String)
        ensures
            final(self).config == old(self).config,
            final(self).wordlist == old(self).wordlist,
            possible_password(old(self).config, strings_view(old(self).wordlist@), r@),
    {
        let ghost c = self.config;
        let ghost wl = strings_view(self.wordlist@);
        let ghost cands = candidates(wl, c.word_min_length as int, c.word_max_length as int);
        let filtered = self.filter_wordlist();
        proof {
            lemma_candidates_fit(wl, c.word_min_length as int, c.word_max_length as int);
            assert forall|i: int| 0 <= i < filtered@.len() implies #[trigger] filtered@[i]
                < self.wordlist@.len() by {
                assert(usize_ints(filtered@)[i] == cands[i]);
            }
        }
        let chosen = self.choose_words(filtered.as_slice());
        let ghost picks = choose|picks: Seq<int>|
            {
                &&& picks.len() == (if filtered@.len() == 0 {
                    0
                } else {
                    c.word_count as int
                })
                &&& forall|k: int| 0 <= k < picks.len() ==> 0 <= #[trigger] picks[k] < filtered@.len()
                &&& strings_view(chosen@) == #[trigger] picked(wl, usize_ints(filtered@), picks)
            };
        let ghost chosen_view = strings_view(chosen@);
        let transformed_words = self.transform_words(chosen);
        let ghost coins = choose|coins: Seq<bool>|
            coins.len() == chosen_view.len() && strings_view(transformed_words@) == #[trigger] transformed(
                c.word_transformation,
                chosen_view,
                coins,
            );
        let (front, back) = self.create_pseudo_words();
        let ghost before = match opt_view(front) {
            Some(s) => s,
            None => Seq::empty(),
        };
        let ghost after = match opt_view(back) {
            Some(s) => s,
            None => Seq::empty(),
        };
        let separator = self.choose_separator();
        let unpadded_password = join_parts(front, transformed_words, back, separator);
        let (front_padding, rear_padding) = self.create_padding(unpadded_password.as_str());
        let ghost lens = padding_lengths(c.padding_type, c.padding_length, unpadded_password@.len());
        let ghost pad = choose|pad: Option<char>|
            {
                &&& drawn_from(pad, c.padding_characters@)
                &&& opt_view(front_padding) == #[trigger] padding_part(pad, lens.0)
                &&& opt_view(rear_padding) == padding_part(pad, lens.1)
            };
        let mut r = match front_padding {
            Some(s) => s,
            None => String::new(),
        };
        r.append(unpadded_password.as_str());
        match rear_padding {
            Some(s) => r.append(s.as_str()),
            None => {},
        }
        proof {
            assert(usize_ints(filtered@) == cands);
            assert(unpadded_password@ == unpadded_of(c, wl, picks, coins, before, after, separator));
            assert(r@ =~= password_of(c, wl, picks, coins, before, after, separator, pad));
            assert(draws_fit(c, wl, picks, coins, before, after, separator, pad));
        }
        r
    }

    /// Makes the configured number of passwords.
    pub fn make_passwords(&mut self) -> (r: Vec<String>)
        ensures
            final(self).config == old(self).config,
            final(self).wordlist == old(self).wordlist,
            r@.len() == old(self).config.count,
            forall|i: int|
                0 <= i < r@.len() ==> possible_password(
                    old(self).config,
                    strings_view(old(self).wordlist@),
                    #[trigger] r@[i]@,
                ),
    {
        let count = self.config.count as usize;
        let mut buf: Vec<String> = Vec::new();
        for k in 0..count
            invariant
                self.config == old(self).config,
                self.wordlist == old(self).wordlist,
                count == self.config.count,
                buf@.len() == k,
                forall|i: int|
                    0 <= i < buf@.len() ==> possible_password(
                        self.config,
                        strings_view(self.wordlist@),
                        #[trigger] buf@[i]@,
                    ),
        {
            let p = self.make_password();
            buf.push(p);
        }
        buf
    }
}

/// Leaving out empty parts distributes over concatenation.
proof fn lemma_nonempty_parts_concat(a: Seq<Seq<char>>, b: Seq<Seq<char>>)
    ensures
        nonempty_parts(a + b) == nonempty_parts(a) + nonempty_parts(b),
    decreases b.len(),
{
    if b.len() == 0 {
        assert(a + b =~= a);
        assert(nonempty_parts(a) + nonempty_parts(b) =~= nonempty_parts(a));
    } else {
        lemma_nonempty_parts_concat(a, b.drop_last());
        assert((a + b).drop_last() =~= a + b.drop_last());
        if b.last().len() > 0 {
            assert(nonempty_parts(a) + nonempty_parts(b) =~= (nonempty_parts(a) + nonempty_parts(
                b.drop_last(),
            )).push(b.last()));
        }
    }
}

proof fn lemma_nonempty_parts_single(p: Seq<char>)
    ensures
        nonempty_parts(seq![p]) == (if p.len() > 0 {
            seq![p]
        } else {
            Seq::<Seq<char>>::empty()
        }),
{
    let e = Seq::<Seq<char>>::empty();
    assert(seq![p].drop_last() =~= e);
    assert(seq![p].last() == p);
    assert(nonempty_parts(e) == e);
    assert(e.push(p) =~= seq![p]);
}

/// The candidate-word part of the draws is empty when no word is asked for.
proof fn lemma_no_words(
    c: Config,
    wl: Seq<Seq<char>>,
    picks: Seq<int>,
    coins: Seq<bool>,
)
    requires
        picks.len() == 0,
    ensures
        chosen_words(c, wl, picks, coins) == Seq::<Seq<char>>::empty(),
{
    let cands = candidates(wl, c.word_min_length as int, c.word_max_length as int);
    assert(transformed(c.word_transformation, picked(wl, cands, picks), coins) =~= Seq::<
        Seq<char>,
    >::empty());
}

/// With fixed padding and at least one padding character, every generated
/// password starts and ends with `padding_length` copies of one and the same
/// padding character.
pub proof fn lemma_fixed_padding_same_both_ends(c: Config, wl: Seq<Seq<char>>, pw: Seq<char>)
    requires
        possible_password(c, wl, pw),
        c.padding_type == PaddingType::Fixed,
        c.padding_characters@.len() > 0,
    ensures
        exists|ch: char|
            {
                &&& #[trigger] c.padding_characters@.contains(ch)
                &&& pw.len() >= 2 * c.padding_length
                &&& pw.subrange(0, c.padding_length as int) == repeat(ch, c.padding_length as nat)
                &&& pw.subrange(pw.len() - c.padding_length, pw.len() as int) == repeat(
                    ch,
                    c.padding_length as nat,
                )
            },
{
    let (picks, coins, before, after, sep, pad) = choose|
        picks: Seq<int>,
        coins: Seq<bool>,
        before: Seq<char>,
        after: Seq<char>,
        sep: Option<char>,
        pad: Option<char>,
    |
        draws_fit(c, wl, picks, coins, before, after, sep, pad) && pw == #[trigger] password_of(
            c,
            wl,
            picks,
            coins,
            before,
            after,
            sep,
            pad,
        );
    let ch = pad->Some_0;
    let n = c.padding_length as int;
    let u = unpadded_of(c, wl, picks, coins, before, after, sep);
    assert(pw == repeat(ch, n as nat) + u + repeat(ch, n as nat));
    assert(pw.subrange(0, n) =~= repeat(ch, n as nat));
    assert(pw.subrange(pw.len() - n, pw.len() as int) =~= repeat(ch, n as nat));
}

/// Adaptive padding only ever appends: the unpadded password is kept whole at
/// the front; it is returned unchanged when it already has `padding_length`
/// characters; and with a padding character to draw, the result has at least
/// `padding_length` characters.
pub proof fn lemma_adaptive_padding(
    c: Config,
    wl: Seq<Seq<char>>,
    picks: Seq<int>,
    coins: Seq<bool>,
    before: Seq<char>,
    after: Seq<char>,
    sep: Option<char>,
    pad: Option<char>,
)
    requires
        draws_fit(c, wl, picks, coins, before, after, sep, pad),
        c.padding_type == PaddingType::Adaptive,
    ensures
        ({
            let u = unpadded_of(c, wl, picks, coins, before, after, sep);
            let pw = password_of(c, wl, picks, coins, before, after, sep, pad);
            &&& pw.len() >= u.len()
            &&& pw.subrange(0, u.len() as int) == u
            &&& u.len() >= c.padding_length ==> pw == u
            &&& c.padding_characters@.len() > 0 ==> pw.len() >= c.padding_length
        }),
{
    let u = unpadded_of(c, wl, picks, coins, before, after, sep);
    let pw = password_of(c, wl, picks, coins, before, after, sep, pad);
    let a = padding_lengths(c.padding_type, c.padding_length, u.len()).1;
    assert(padding_text(pad, 0) =~= Seq::<char>::empty());
    assert(pw == Seq::<char>::empty() + u + padding_text(pad, a));
    assert(pw.subrange(0, u.len() as int) =~= u);
    if u.len() >= c.padding_length {
        assert(padding_text(pad, a) =~= Seq::<char>::empty());
        assert(pw =~= u);
    }
}

/// With no words asked for, the unpadded password is made of the digit
/// strings alone: nothing when both are empty, one of them without a
/// separator when the other is empty, else both around one separator.
pub proof fn lemma_no_words_only_digits(
    c: Config,
    wl: Seq<Seq<char>>,
    picks: Seq<int>,
    coins: Seq<bool>,
    before: Seq<char>,
    after: Seq<char>,
    sep: Option<char>,
    pad: Option<char>,
)
    requires
        draws_fit(c, wl, picks, coins, before, after, sep, pad),
        c.word_count == 0,
    ensures
        unpadded_of(c, wl, picks, coins, before, after, sep) == (if before.len() == 0 {
            after
        } else if after.len() == 0 {
            before
        } else {
            before + separator_seq(sep) + after
        }),
{
    lemma_no_words(c, wl, picks, coins);
    let ws = chosen_words(c, wl, picks, coins);
    assert(seq![before] + ws + seq![after] =~= seq![before] + seq![after]);
    lemma_nonempty_parts_concat(seq![before], seq![after]);
    lemma_nonempty_parts_single(before);
    lemma_nonempty_parts_single(after);
    let parts = nonempty_parts(seq![before]) + nonempty_parts(seq![after]);
    let sq = separator_seq(sep);
    if before.len() == 0 {
        if after.len() == 0 {
            assert(parts =~= Seq::<Seq<char>>::empty());
        } else {
            assert(parts =~= seq![after]);
            assert(join(parts, sq) == after);
        }
    } else if after.len() == 0 {
        assert(parts =~= seq![before]);
        assert(join(parts, sq) == before);
    } else {
        assert(parts =~= seq![before, after]);
        assert(parts.drop_last() =~= seq![before]);
        assert(join(parts.drop_last(), sq) == before);
        assert(join(parts, sq) == before + sq + after);
    }
}

/// With no digits asked for on either side, the unpadded password is the
/// non-empty words joined by the separator: no digit part, and no separator
/// at either end.
pub proof fn lemma_no_digits_words_only(
    c: Config,
    wl: Seq<Seq<char>>,
    picks: Seq<int>,
    coins: Seq<bool>,
    before: Seq<char>,
    after: Seq<char>,
    sep: Option<char>,
    pad: Option<char>,
)
    requires
        draws_fit(c, wl, picks, coins, before, after, sep, pad),
        c.digits_before == 0,
        c.digits_after == 0,
    ensures
        unpadded_of(c, wl, picks, coins, before, after, sep) == join(
            nonempty_parts(chosen_words(c, wl, picks, coins)),
            separator_seq(sep),
        ),
{
    let ws = chosen_words(c, wl, picks, coins);
    lemma_nonempty_parts_concat(seq![before] + ws, seq![after]);
    lemma_nonempty_parts_concat(seq![before], ws);
    lemma_nonempty_parts_single(before);
    lemma_nonempty_parts_single(after);
    assert(nonempty_parts(seq![before]) + nonempty_parts(ws) + nonempty_parts(seq![after])
        =~= nonempty_parts(ws));
}

/// A sequence of non-empty parts is kept whole.
proof fn lemma_nonempty_parts_all(parts: Seq<Seq<char>>)
    requires
        forall|i: int| 0 <= i < parts.len() ==> (#[trigger] parts[i]).len() > 0,
    ensures
        nonempty_parts(parts) == parts,
    decreases parts.len(),
{
    if parts.len() > 0 {
        lemma_nonempty_parts_all(parts.drop_last());
        assert(parts.drop_last().push(parts.last()) =~= parts);
    }
}

/// With the default layout (four alternating-case words, two digits on each
/// side, fixed padding of two, a separator and a padding character to draw),
/// a password reads: two padding characters, the leading digits, then the
/// four picked words lower, upper, lower, upper, then the trailing digits,
/// with one separator between neighbours, and two padding characters again.
pub proof fn lemma_default_layout(
    c: Config,
    wl: Seq<Seq<char>>,
    picks: Seq<int>,
    coins: Seq<bool>,
    before: Seq<char>,
    after: Seq<char>,
    sep: Option<char>,
    pad: Option<char>,
)
    requires
        draws_fit(c, wl, picks, coins, before, after, sep, pad),
        c.word_count == 4,
        c.digits_before == 2,
        c.digits_after == 2,
        c.padding_type == PaddingType::Fixed,
        c.padding_length == 2,
        c.word_transformation == WordTransformationType::AlternatingLowerUpper,
        1 <= c.word_min_length,
        candidates(wl, c.word_min_length as int, c.word_max_length as int).len() > 0,
        c.separator_characters@.len() > 0,
        c.padding_characters@.len() > 0,
    ensures
        ({
            let ws = picked(
                wl,
                candidates(wl, c.word_min_length as int, c.word_max_length as int),
                picks,
            );
            let s = seq![sep->Some_0];
            let p = repeat(pad->Some_0, 2);
            &&& ws.len() == 4
            &&& password_of(c, wl, picks, coins, before, after, sep, pad) == p + before + s
                + crate::text::lower(ws[0]) + s + crate::text::upper(ws[1]) + s
                + crate::text::lower(ws[2]) + s + crate::text::upper(ws[3]) + s + after + p
        }),
{
    let min = c.word_min_length as int;
    let max = c.word_max_length as int;
    let cands = candidates(wl, min, max);
    lemma_candidates_fit(wl, min, max);
    let ws = picked(wl, cands, picks);
    let words = chosen_words(c, wl, picks, coins);
    assert(words.len() == 4);
    assert(words[0] == crate::text::lower(ws[0]));
    assert(words[1] == crate::text::upper(ws[1]));
    assert(words[2] == crate::text::lower(ws[2]));
    assert(words[3] == crate::text::upper(ws[3]));
    assert forall|k: int| 0 <= k < 4 implies (#[trigger] words[k]).len() > 0 by {
        assert(0 <= picks[k] < cands.len());
        assert(ws[k] == wl[cands[picks[k]]]);
    }
    let parts = seq![before] + words + seq![after];
    assert(parts =~= seq![before, words[0], words[1], words[2], words[3], after]);
    assert forall|i: int| 0 <= i < parts.len() implies (#[trigger] parts[i]).len() > 0 by {
        if 1 <= i <= 4 {
            assert(parts[i] == words[i - 1]);
        }
    }
    lemma_nonempty_parts_all(parts);
    let sq = separator_seq(sep);
    let p1 = parts.subrange(0, 1);
    let p2 = parts.subrange(0, 2);
    let p3 = parts.subrange(0, 3);
    let p4 = parts.subrange(0, 4);
    let p5 = parts.subrange(0, 5);
    assert(p2.drop_last() =~= p1);
    assert(p3.drop_last() =~= p2);
    assert(p4.drop_last() =~= p3);
    assert(p5.drop_last() =~= p4);
    assert(parts.drop_last() =~= p5);
    assert(join(p1, sq) == before);
    assert(join(p2, sq) == before + sq + words[0]);
    assert(join(p3, sq) == before + sq + words[0] + sq + words[1]);
    assert(join(p4, sq) == before + sq + words[0] + sq + words[1] + sq + words[2]);
    assert(join(p5, sq) == before + sq + words[0] + sq + words[1] + sq + words[2] + sq
        + words[3]);
    assert(join(parts, sq) == before + sq + words[0] + sq + words[1] + sq + words[2] + sq
        + words[3] + sq + after);
    let u = unpadded_of(c, wl, picks, coins, before, after, sep);
    assert(u == join(parts, sq));
}

} // verus!
