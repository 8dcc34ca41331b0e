//! The candidates that mining kernels work on.
//!
//! A kernel is poked with the noun
//!
//! ```text
//! [%template version commit nonce network-target pool-target pow-len]
//! ```
//!
//! in which the nonce is a five-tuple of field elements, drawn at random or
//! taken over from an attempt that missed.

use vstd::prelude::*;

use crate::noun::{cell, copy_bytes, le_bytes, Noun, NounSlab};

verus! {

/// The order of the field that nonces are drawn from, `2^64 - 2^32 + 1`.
pub const PRIME: u64 = 18446744069414584321;

/// The tag `%template`.
pub const TEMPLATE: [u8; 8] = [0x74, 0x65, 0x6d, 0x70, 0x6c, 0x61, 0x74, 0x65];

/// A work template as the pool sends it. The version and the proof-of-work
/// length are atoms, least significant byte first; the other parts are jammed
/// nouns.
#[derive(Debug, PartialEq, Eq)]
pub struct Template {
    pub version: Vec<u8>,
    pub commit: Vec<u8>,
    pub network_target: Vec<u8>,
    pub pool_target: Vec<u8>,
    pub pow_len: Vec<u8>,
}

/// A work template whose jammed parts have been cued; `None` stands for bytes
/// that are no jammed noun.
#[derive(Debug)]
pub struct CuedTemplate {
    pub version: Vec<u8>,
    pub commit: Option<NounSlab>,
    pub network_target: Option<NounSlab>,
    pub pool_target: Option<NounSlab>,
    pub pow_len: Vec<u8>,
}

/// The value of a [`CuedTemplate`], over nouns.
pub struct CuedTemplateView {
    pub version: Seq<u8>,
    pub commit: Option<Noun>,
    pub network_target: Option<Noun>,
    pub pool_target: Option<Noun>,
    pub pow_len: Seq<u8>,
}

/// The noun of a slab that may be missing.
pub open spec fn optional_noun(slab: Option<NounSlab>) -> Option<Noun> {
    match slab {
        Some(slab) => Some(slab@),
        None => None,
    }
}

impl View for CuedTemplate {
    type V = CuedTemplateView;

    open spec fn view(&self) -> CuedTemplateView {
        CuedTemplateView {
            version: self.version@,
            commit: optional_noun(self.commit),
            network_target: optional_noun(self.network_target),
            pool_target: optional_noun(self.pool_target),
            pow_len: self.pow_len@,
        }
    }
}

/// Why there is no candidate to mine on.
#[derive(Clone, Copy, Debug, PartialEq, Eq, Structural)]
pub enum MineError {
    /// No template has come yet.
    NoTemplate,
    /// The template's commitment is no jammed noun.
    Commit,
    /// The template's network target is no jammed noun.
    NetworkTarget,
    /// The template's pool target is no jammed noun.
    PoolTarget,
}

/// The candidate noun of a template's parts and a nonce.
pub open spec fn candidate_noun(
    version: Seq<u8>,
    commit: Noun,
    nonce: Noun,
    network_target: Noun,
    pool_target: Noun,
    pow_len: Seq<u8>,
) -> Noun {
    cell(
        Noun::Atom(TEMPLATE@),
        cell(
            Noun::Atom(version),
            cell(
                commit,
                cell(nonce, cell(network_target, cell(pool_target, Noun::Atom(pow_len)))),
            ),
        ),
    )
}

/// The candidate for a template and a nonce, or the first thing that stands in
/// its way.
pub open spec fn candidate_for(template: Option<CuedTemplateView>, nonce: Noun) -> Result<
    Noun,
    MineError,
> {
    match template {
        None => Err(MineError::NoTemplate),
        Some(t) => match (t.commit, t.network_target, t.pool_target) {
            (None, _, _) => Err(MineError::Commit),
            (_, None, _) => Err(MineError::NetworkTarget),
            (_, _, None) => Err(MineError::PoolTarget),
            (Some(commit), Some(network_target), Some(pool_target)) => Ok(
                candidate_noun(
                    t.version,
                    commit,
                    nonce,
                    network_target,
                    pool_target,
                    t.pow_len,
                ),
            ),
        },
    }
}

/// The value of a candidate slab, over nouns.
pub open spec fn result_noun(result: Result<NounSlab, MineError>) -> Result<Noun, MineError> {
    match result {
        Ok(slab) => Ok(slab@),
        Err(e) => Err(e),
    }
}

/// The nonce that five words make up, the first one innermost:
/// `[w4 w3 w2 w1 w0]`.
pub open spec fn nonce_noun(words: Seq<u64>) -> Noun {
    cell(
        word_noun(words[4]),
        cell(
            word_noun(words[3]),
            cell(word_noun(words[2]), cell(word_noun(words[1]), word_noun(words[0]))),
        ),
    )
}

/// The atom of a word.
pub open spec fn word_noun(word: u64) -> Noun {
    Noun::Atom(le_bytes(word as nat, 8))
}

/// The words are those of a nonce: five elements of the field.
pub open spec fn are_field_elements(words: Seq<u64>) -> bool {
    &&& words.len() == 5
    &&& forall|i: int| 0 <= i < 5 ==> words[i] < PRIME
}

/// The elements of the field that some draws are reduced to.
pub open spec fn field_elements(draws: Seq<u64>) -> Seq<u64> {
    draws.map_values(|draw: u64| draw % PRIME)
}

/// A call of the generator came back with `word`. Nothing is known of which
/// words these are, so the one way to show it of a word is to make the call.
pub closed spec fn is_draw(word: u64) -> bool {
    call_ensures(random_word, (), word)
}

/// The words are the elements of a nonce that has been drawn: for each position
/// a call of [`draw_element`] came back with the word there.
pub open spec fn are_drawn(words: Seq<u64>) -> bool {
    &&& words.len() == 5
    &&& call_ensures(draw_element, (0usize,), words[0])
    &&& call_ensures(draw_element, (1usize,), words[1])
    &&& call_ensures(draw_element, (2usize,), words[2])
    &&& call_ensures(draw_element, (3usize,), words[3])
    &&& call_ensures(draw_element, (4usize,), words[4])
}

/// `result` is the candidate for `template` with a nonce that has been drawn.
pub open spec fn is_random_candidate(
    template: Option<CuedTemplateView>,
    result: Result<Noun, MineError>,
) -> bool {
    exists|words: Seq<u64>|
        {
            &&& are_field_elements(words)
            &&& are_drawn(words)
            &&& result == #[trigger] candidate_for(template, nonce_noun(words))
        }
}

/// A random word. Calls `gen` on the generator that `rand::thread_rng` hands
/// out. Nothing is claimed of the word, and in particular not how the words
/// are distributed. The generator panics where the operating system gives it
/// nothing to seed from.
#[verifier::external_body]
fn random_word() -> u64 {
    rand::Rng::gen::<u64>(&mut rand::thread_rng())
}

/// The nonce of five random draws, the first one innermost. Each draw is
/// reduced to an element of the field.
pub fn nonce_of(draws: &[u64; 5]) -> (r: NounSlab)
    ensures
        r@ == nonce_noun(field_elements(draws@)),
{
    let mut nonce = NounSlab::word(draws[0] % PRIME);
    nonce = NounSlab::cell(&NounSlab::word(draws[1] % PRIME), &nonce);
    nonce = NounSlab::cell(&NounSlab::word(draws[2] % PRIME), &nonce);
    nonce = NounSlab::cell(&NounSlab::word(draws[3] % PRIME), &nonce);
    NounSlab::cell(&NounSlab::word(draws[4] % PRIME), &nonce)
}

/// Draws a random element of the field, for the nonce's word at `position`. The
/// position has no influence on the element. It tells the draws for one nonce
/// apart, so that none of them can stand in for another.
#[allow(unused_variables)]
pub fn draw_element(position: usize) -> (r: u64)
    ensures
        r < PRIME,
        exists|draw: u64| #[trigger] is_draw(draw) && r == draw % PRIME,
{
    let generator = random_word;
    let draw: u64 = generator();
    proof {
        lemma_draws_come_from_the_generator(draw);
    }
    draw % PRIME
}

/// A random nonce.
pub fn random_nonce() -> (r: NounSlab)
    ensures
        exists|words: Seq<u64>|
            {
                &&& are_field_elements(words)
                &&& are_drawn(words)
                &&& r@ == #[trigger] nonce_noun(words)
            },
{
    let draw = draw_element;
    let words = [draw(0), draw(1), draw(2), draw(3), draw(4)];
    assert(are_field_elements(words@));
    assert(are_drawn(words@));
    assert(field_elements(words@) =~= words@);
    nonce_of(&words)
}

/// Builds the candidate for a template and a nonce.
pub fn candidate(template: Option<&CuedTemplate>, nonce: &NounSlab) -> (r: Result<
    NounSlab,
    MineError,
>)
    ensures
        result_noun(r) == candidate_for(
            match template {
                Some(t) => Some(t@),
                None => None,
            },
            nonce@,
        ),
{
    let template = match template {
        Some(template) => template,
        None => return Err(MineError::NoTemplate),
    };
    let commit = match &template.commit {
        Some(commit) => commit,
        None => return Err(MineError::Commit),
    };
    let network_target = match &template.network_target {
        Some(network_target) => network_target,
        None => return Err(MineError::NetworkTarget),
    };
    let pool_target = match &template.pool_target {
        Some(pool_target) => pool_target,
        None => return Err(MineError::PoolTarget),
    };
    let mut noun = NounSlab::atom(copy_bytes(template.pow_len.as_slice()));
    noun = NounSlab::cell(pool_target, &noun);
    noun = NounSlab::cell(network_target, &noun);
    noun = NounSlab::cell(nonce, &noun);
    noun = NounSlab::cell(commit, &noun);
    noun = NounSlab::cell(&NounSlab::atom(copy_bytes(template.version.as_slice())), &noun);
    noun = NounSlab::cell(&NounSlab::atom(copy_bytes(&TEMPLATE)), &noun);
    Ok(noun)
}

/// Builds the candidate for the next attempt: with the nonce that is handed
/// over, or with a random one.
pub fn mine(template: Option<&CuedTemplate>, nonce: Option<&NounSlab>) -> (r: Result<
    NounSlab,
    MineError,
>)
    ensures
        ({
            let template = match template {
                Some(t) => Some(t@),
                None => None,
            };
            match nonce {
                Some(nonce) => result_noun(r) == candidate_for(template, nonce@),
                None => is_random_candidate(template, result_noun(r)),
            }
        }),
{
    match nonce {
        Some(nonce) => candidate(template, nonce),
        None => {
            let nonce = random_nonce();
            candidate(template, &nonce)
        },
    }
}

/// A candidate lists the tag `%template`, the template's version and
/// commitment, the nonce, the network target, the pool target and the
/// proof-of-work length, in this order and whatever they look like.
pub proof fn law_candidate_layout(template: CuedTemplateView, nonce: Noun)
    requires
        template.commit is Some,
        template.network_target is Some,
        template.pool_target is Some,
    ensures
        candidate_for(Some(template), nonce) is Ok,
        ({
            let first = candidate_for(Some(template), nonce)->Ok_0;
            let second = *first->Cell_1;
            let third = *second->Cell_1;
            let fourth = *third->Cell_1;
            let fifth = *fourth->Cell_1;
            let sixth = *fifth->Cell_1;
            let seventh = *sixth->Cell_1;
            &&& first is Cell && second is Cell && third is Cell
            &&& fourth is Cell && fifth is Cell && sixth is Cell
            &&& *first->Cell_0 == Noun::Atom(
                seq![0x74u8, 0x65u8, 0x6du8, 0x70u8, 0x6cu8, 0x61u8, 0x74u8, 0x65u8],
            )
            &&& *second->Cell_0 == Noun::Atom(template.version)
            &&& *third->Cell_0 == template.commit->0
            &&& *fourth->Cell_0 == nonce
            &&& *fifth->Cell_0 == template.network_target->0
            &&& *sixth->Cell_0 == template.pool_target->0
            &&& seventh == Noun::Atom(template.pow_len)
        }),
{
    assert(TEMPLATE@ =~= seq![0x74u8, 0x65u8, 0x6du8, 0x70u8, 0x6cu8, 0x61u8, 0x74u8, 0x65u8]);
}

/// There is a candidate exactly when there is a template whose commitment,
/// network target and pool target are nouns. Otherwise the first of these that
/// is missing is reported.
pub proof fn law_first_obstacle_is_reported(template: CuedTemplateView, nonce: Noun)
    ensures
        candidate_for(None, nonce) == Err::<Noun, MineError>(MineError::NoTemplate),
        template.commit is None <==> candidate_for(Some(template), nonce) == Err::<Noun, MineError>(
            MineError::Commit,
        ),
        template.commit is Some && template.network_target is None <==> candidate_for(
            Some(template),
            nonce,
        ) == Err::<Noun, MineError>(MineError::NetworkTarget),
        template.commit is Some && template.network_target is Some && template.pool_target is None
            <==> candidate_for(Some(template), nonce) == Err::<Noun, MineError>(
            MineError::PoolTarget,
        ),
        template.commit is Some && template.network_target is Some && template.pool_target is Some
            <==> candidate_for(Some(template), nonce) is Ok,
{
}

/// A nonce lists five atoms of eight bytes that denote its words, the last
/// word first.
pub proof fn law_nonce_layout(words: Seq<u64>)
    requires
        words.len() == 5,
    ensures
        ({
            let first = nonce_noun(words);
            let second = *first->Cell_1;
            let third = *second->Cell_1;
            let fourth = *third->Cell_1;
            let fifth = *fourth->Cell_1;
            &&& first is Cell && second is Cell && third is Cell && fourth is Cell
            &&& is_word(*first->Cell_0, words[4])
            &&& is_word(*second->Cell_0, words[3])
            &&& is_word(*third->Cell_0, words[2])
            &&& is_word(*fourth->Cell_0, words[1])
            &&& is_word(fifth, words[0])
        }),
{
    crate::noun::law_word_value(words[0]);
    crate::noun::law_word_value(words[1]);
    crate::noun::law_word_value(words[2]);
    crate::noun::law_word_value(words[3]);
    crate::noun::law_word_value(words[4]);
}

/// `noun` is an atom of eight bytes that denotes `word`.
pub open spec fn is_word(noun: Noun, word: u64) -> bool {
    noun matches Noun::Atom(bytes) && bytes.len() == 8 && crate::noun::le_value(bytes) == word
}

/// The atom of a word is the one atom of eight bytes that denotes the word.
pub proof fn law_words_are_numbers(noun: Noun, word: u64)
    ensures
        word_noun(word) matches Noun::Atom(bytes) && bytes.len() == 8 && crate::noun::le_value(
            bytes,
        ) == word,
        is_word(noun, word) <==> (noun matches Noun::Atom(bytes) && bytes.len() == 8
            && crate::noun::le_value(bytes) == word),
{
    crate::noun::law_word_value(word);
}

/// Draws are reduced one by one, each to its remainder by `2^64 - 2^32 + 1`.
pub proof fn law_draws_are_reduced(draws: Seq<u64>, i: int)
    requires
        0 <= i < draws.len(),
    ensures
        field_elements(draws).len() == draws.len(),
        field_elements(draws)[i] == draws[i] % 18446744069414584321u64,
        field_elements(draws)[i] < 0x1_0000_0000_0000_0000 - 0x1_0000_0000 + 1,
{
}

/// A nonce's words are five, and below `2^64 - 2^32 + 1`.
pub proof fn law_field_elements_are_below_the_prime(words: Seq<u64>)
    ensures
        are_field_elements(words) <==> words.len() == 5 && forall|i: int|
            0 <= i < 5 ==> #[trigger] words[i] < 0x1_0000_0000_0000_0000 - 0x1_0000_0000 + 1,
{
    if words.len() == 5 && forall|i: int|
        0 <= i < 5 ==> #[trigger] words[i] < 0x1_0000_0000_0000_0000 - 0x1_0000_0000 + 1 {
        assert forall|i: int| 0 <= i < 5 implies words[i] < PRIME by {}
    }
}

/// A word that counts as drawn came back from a call of the generator.
proof fn lemma_draws_come_from_the_generator(word: u64)
    ensures
        is_draw(word) <==> call_ensures(random_word, (), word),
{
}

/// A random candidate is the candidate for the template with a nonce of five
/// words. Each of them is what a call of [`draw_element`] for its position came
/// back with, and so the remainder of a word from the generator.
pub proof fn law_random_nonces_are_drawn(
    template: Option<CuedTemplateView>,
    result: Result<Noun, MineError>,
)
    requires
        is_random_candidate(template, result),
    ensures
        exists|words: Seq<u64>|
            {
                &&& words.len() == 5
                &&& forall|i: int|
                    0 <= i < 5 ==> {
                        &&& call_ensures(draw_element, (i as usize,), #[trigger] words[i])
                        &&& words[i] < 18446744069414584321
                        &&& exists|draw: u64|
                            #[trigger] is_draw(draw) && words[i] == draw % 18446744069414584321
                    }
                &&& result == #[trigger] candidate_for(template, nonce_noun(words))
            },
{
    let words = choose|words: Seq<u64>|
        {
            &&& are_field_elements(words)
            &&& are_drawn(words)
            &&& result == #[trigger] candidate_for(template, nonce_noun(words))
        };
    assert forall|i: int| 0 <= i < 5 implies {
        &&& call_ensures(draw_element, (i as usize,), #[trigger] words[i])
        &&& words[i] < 18446744069414584321
        &&& exists|draw: u64| #[trigger] is_draw(draw) && words[i] == draw % 18446744069414584321
    } by {
        assert(i == 0 || i == 1 || i == 2 || i == 3 || i == 4);
        assert(call_ensures(draw_element, (i as usize,), words[i]));
    }
}

/// The value of a template is made of the values of its parts.
pub proof fn law_templates_have_their_parts(template: CuedTemplate)
    ensures
        template@.version == template.version@,
        template@.commit == optional_noun(template.commit),
        template@.network_target == optional_noun(template.network_target),
        template@.pool_target == optional_noun(template.pool_target),
        template@.pow_len == template.pow_len@,
{
}

/// A slab that may be missing has the value of the slab, and a result that of
/// its slab or error.
pub proof fn law_slabs_have_their_nouns(
    slab: Option<NounSlab>,
    result: Result<NounSlab, MineError>,
)
    ensures
        slab is None <==> optional_noun(slab) is None,
        slab is Some ==> optional_noun(slab)->0 == slab->0@,
        result is Ok <==> result_noun(result) is Ok,
        result is Ok ==> result_noun(result)->Ok_0 == result->Ok_0@,
        result is Err ==> result_noun(result)->Err_0 == result->Err_0,
{
}

/// Whether there is a candidate, and what stands in its way, does not depend
/// on the nonce.
pub proof fn law_errors_do_not_depend_on_nonce(
    template: Option<CuedTemplateView>,
    nonce: Noun,
    other: Noun,
)
    ensures
        candidate_for(template, nonce) is Ok <==> candidate_for(template, other) is Ok,
        candidate_for(template, nonce) is Err ==> candidate_for(template, nonce) == candidate_for(
            template,
            other,
        ),
{
}

/// A candidate determines the template's parts and the nonce that it was made
/// from.
pub proof fn law_candidate_determines_its_parts(
    template: CuedTemplateView,
    nonce: Noun,
    other_template: CuedTemplateView,
    other_nonce: Noun,
)
    requires
        candidate_for(Some(template), nonce) is Ok,
        candidate_for(Some(template), nonce) == candidate_for(Some(other_template), other_nonce),
    ensures
        template == other_template,
        nonce == other_nonce,
{
    assert(template.version == other_template.version);
    assert(template.pow_len == other_template.pow_len);
}

/// Different words make different nonces.
pub proof fn law_nonce_determines_its_words(words: Seq<u64>, other: Seq<u64>)
    requires
        words.len() == 5,
        other.len() == 5,
        nonce_noun(words) == nonce_noun(other),
    ensures
        words == other,
{
    assert forall|i: int| 0 <= i < 5 implies words[i] == other[i] by {
        crate::noun::law_word_value(words[i]);
        crate::noun::law_word_value(other[i]);
        assert(word_noun(words[4]) == word_noun(other[4]));
        assert(word_noun(words[3]) == word_noun(other[3]));
        assert(word_noun(words[2]) == word_noun(other[2]));
        assert(word_noun(words[1]) == word_noun(other[1]));
        assert(word_noun(words[0]) == word_noun(other[0]));
        assert(word_noun(words[i]) == word_noun(other[i]));
    }
    assert(words =~= other);
}

} // verus!
