//! What a mining kernel answers, and what the answer means.
//!
//! A kernel that has run an attempt returns the noun `[effect rest]`. The
//! effect is one of
//!
//! ```text
//! %poke                                  the attempt was cancelled
//! [%miss nonce]                          the proof hit no target
//! [%pool commit digest proof]            the proof hit the pool target
//! [%network commit digest proof]         the proof hit the network target
//! ```
//!
//! and anything else is malformed.

use vstd::prelude::*;

use crate::noun::{copy_bytes, eq_bytes, Node, Noun, NounSlab};
use crate::noun::{cell, cell_points_below, has_tag, le_value, noun_at, points_backwards};

verus! {

/// The tag `%poke`.
pub const POKE: [u8; 4] = [0x70, 0x6f, 0x6b, 0x65];

/// The tag `%miss`.
pub const MISS: [u8; 4] = [0x6d, 0x69, 0x73, 0x73];

/// The tag `%pool`.
pub const POOL: [u8; 4] = [0x70, 0x6f, 0x6f, 0x6c];

/// The tag `%network`.
pub const NETWORK: [u8; 7] = [0x6e, 0x65, 0x74, 0x77, 0x6f, 0x72, 0x6b];

/// The target that a proof hit.
#[derive(Clone, Copy, Debug, PartialEq, Eq, Structural)]
pub enum Target {
    Pool,
    Network,
}

/// What came of a mining attempt.
#[derive(Debug)]
pub enum Outcome {
    /// The kernel returned an error.
    Failed,
    /// The kernel's answer is an atom.
    InvalidResult,
    /// The attempt was cancelled because there is a new template.
    Cancelled,
    /// The effect is an atom other than `%poke`.
    InvalidEffect,
    /// The proof hit no target; the next attempt goes on from this nonce.
    Miss { nonce: NounSlab },
    /// The effect's tag is none that the miner knows.
    InvalidTarget,
    /// The proof hit the pool target, and only the network target counts.
    NetworkMiss,
    /// The effect's body is an atom.
    InvalidMessage,
    /// The body's tail is an atom.
    InvalidMessageTail,
    /// The digest is a cell.
    InvalidDigest,
    /// A proof to submit.
    Solution { target: Target, commit: NounSlab, digest: Vec<u8>, proof: NounSlab },
}

/// The value of an [`Outcome`], over nouns.
pub enum OutcomeView {
    Failed,
    InvalidResult,
    Cancelled,
    InvalidEffect,
    Miss { nonce: Noun },
    InvalidTarget,
    NetworkMiss,
    InvalidMessage,
    InvalidMessageTail,
    InvalidDigest,
    Solution { target: Target, commit: Noun, digest: Seq<u8>, proof: Noun },
}

impl View for Outcome {
    type V = OutcomeView;

    open spec fn view(&self) -> OutcomeView {
        match self {
            Outcome::Failed => OutcomeView::Failed,
            Outcome::InvalidResult => OutcomeView::InvalidResult,
            Outcome::Cancelled => OutcomeView::Cancelled,
            Outcome::InvalidEffect => OutcomeView::InvalidEffect,
            Outcome::Miss { nonce } => OutcomeView::Miss { nonce: nonce@ },
            Outcome::InvalidTarget => OutcomeView::InvalidTarget,
            Outcome::NetworkMiss => OutcomeView::NetworkMiss,
            Outcome::InvalidMessage => OutcomeView::InvalidMessage,
            Outcome::InvalidMessageTail => OutcomeView::InvalidMessageTail,
            Outcome::InvalidDigest => OutcomeView::InvalidDigest,
            Outcome::Solution { target, commit, digest, proof } => OutcomeView::Solution {
                target: *target,
                commit: commit@,
                digest: digest@,
                proof: proof@,
            },
        }
    }
}

/// The target that an effect's tag names.
pub open spec fn target_of(tag: Noun) -> Option<Target> {
    if has_tag(tag, POOL@) {
        Some(Target::Pool)
    } else if has_tag(tag, NETWORK@) {
        Some(Target::Network)
    } else {
        None
    }
}

/// What the body `[commit digest proof]` of an accepted effect amounts to.
pub open spec fn solution_of(target: Target, body: Noun) -> OutcomeView {
    match body {
        Noun::Atom(_) => OutcomeView::InvalidMessage,
        Noun::Cell(commit, rest) => match *rest {
            Noun::Atom(_) => OutcomeView::InvalidMessageTail,
            Noun::Cell(digest, proof) => match *digest {
                Noun::Cell(_, _) => OutcomeView::InvalidDigest,
                Noun::Atom(bytes) => OutcomeView::Solution {
                    target,
                    commit: *commit,
                    digest: bytes,
                    proof: *proof,
                },
            },
        },
    }
}

/// What an effect amounts to. With `network_only`, a proof for the pool target
/// is worth nothing, whatever its body looks like.
pub open spec fn effect_outcome(effect: Noun, network_only: bool) -> OutcomeView {
    match effect {
        Noun::Atom(_) => if has_tag(effect, POKE@) {
            OutcomeView::Cancelled
        } else {
            OutcomeView::InvalidEffect
        },
        Noun::Cell(tag, body) => if has_tag(*tag, MISS@) {
            OutcomeView::Miss { nonce: *body }
        } else {
            match target_of(*tag) {
                None => OutcomeView::InvalidTarget,
                Some(target) => if network_only && target == Target::Pool {
                    OutcomeView::NetworkMiss
                } else {
                    solution_of(target, *body)
                },
            }
        },
    }
}

/// What a kernel's answer amounts to; `None` stands for an error.
pub open spec fn attempt_outcome(answer: Option<Noun>, network_only: bool) -> OutcomeView {
    match answer {
        None => OutcomeView::Failed,
        Some(Noun::Atom(_)) => OutcomeView::InvalidResult,
        Some(Noun::Cell(effect, _)) => effect_outcome(*effect, network_only),
    }
}

/// Whether entry `i` of the list is an atom with the tag `tag`.
fn node_has_tag(nodes: &Vec<Node>, i: usize, tag: &[u8]) -> (r: bool)
    requires
        points_backwards(nodes@),
        i < nodes@.len(),
    ensures
        r == has_tag(noun_at(nodes@, i as nat), tag@),
{
    match &nodes[i] {
        Node::Atom(bytes) => eq_bytes(bytes.as_slice(), tag),
        Node::Cell(head, tail) => {
            assert(cell_points_below(nodes@[i as int], i as int));
            false
        },
    }
}

/// Judges the answer of a mining kernel; `None` stands for an error.
pub fn judge(answer: Option<&NounSlab>, network_only: bool) -> (r: Outcome)
    ensures
        r@ == attempt_outcome(
            match answer {
                Some(slab) => Some(slab@),
                None => None,
            },
            network_only,
        ),
{
    let slab = match answer {
        Some(slab) => slab,
        None => return Outcome::Failed,
    };
    let (nodes, root) = slab.parts();
    let effect = match &nodes[root] {
        Node::Cell(effect, _) => *effect,
        Node::Atom(_) => return Outcome::InvalidResult,
    };
    let (tag, body) = match &nodes[effect] {
        Node::Cell(tag, body) => (*tag, *body),
        Node::Atom(_) => {
            return if node_has_tag(nodes, effect, &POKE) {
                Outcome::Cancelled
            } else {
                Outcome::InvalidEffect
            };
        },
    };
    if node_has_tag(nodes, tag, &MISS) {
        return Outcome::Miss { nonce: slab.subnoun(body) };
    }
    let target = if node_has_tag(nodes, tag, &POOL) {
        Target::Pool
    } else if node_has_tag(nodes, tag, &NETWORK) {
        Target::Network
    } else {
        return Outcome::InvalidTarget;
    };
    if network_only && target != Target::Network {
        return Outcome::NetworkMiss;
    }
    let (commit, rest) = match &nodes[body] {
        Node::Cell(commit, rest) => (*commit, *rest),
        Node::Atom(_) => return Outcome::InvalidMessage,
    };
    assert(noun_at(nodes@, body as nat) == cell(
        noun_at(nodes@, commit as nat),
        noun_at(nodes@, rest as nat),
    ));
    let (digest, proof) = match &nodes[rest] {
        Node::Cell(digest, proof) => (*digest, *proof),
        Node::Atom(_) => return Outcome::InvalidMessageTail,
    };
    assert(noun_at(nodes@, rest as nat) == cell(
        noun_at(nodes@, digest as nat),
        noun_at(nodes@, proof as nat),
    ));
    match &nodes[digest] {
        Node::Cell(_, _) => Outcome::InvalidDigest,
        Node::Atom(bytes) => Outcome::Solution {
            target,
            commit: slab.subnoun(commit),
            digest: copy_bytes(bytes.as_slice()),
            proof: slab.subnoun(proof),
        },
    }
}

/// The status code under which an outcome is traced, if any.
pub open spec fn status_code_of(outcome: OutcomeView) -> Option<Seq<char>> {
    match outcome {
        OutcomeView::Failed => None,
        OutcomeView::Cancelled
        | OutcomeView::Miss { .. }
        | OutcomeView::NetworkMiss
        | OutcomeView::Solution { .. } => Some("STATUS_CODE_OK"@),
        _ => Some("STATUS_CODE_ERROR"@),
    }
}

/// The result under which an outcome is traced, if any.
pub open spec fn mining_result_of(outcome: OutcomeView) -> Option<Seq<char>> {
    match outcome {
        OutcomeView::Cancelled => Some("cancelled"@),
        OutcomeView::Miss { .. } | OutcomeView::NetworkMiss => Some("miss"@),
        OutcomeView::Solution { target: Target::Pool, .. } => Some("Pool"@),
        OutcomeView::Solution { target: Target::Network, .. } => Some("Network"@),
        _ => None,
    }
}

/// The value of a text that may be missing.
pub open spec fn optional_str(text: Option<&'static str>) -> Option<Seq<char>> {
    match text {
        Some(text) => Some(text@),
        None => None,
    }
}

impl Outcome {
    /// The status code under which the outcome is traced, if any.
    pub fn status_code(&self) -> (r: Option<&'static str>)
        ensures
            optional_str(r) == status_code_of(self@),
    {
        match self {
            Outcome::Failed => None,
            Outcome::Cancelled => Some("STATUS_CODE_OK"),
            Outcome::Miss { .. } => Some("STATUS_CODE_OK"),
            Outcome::NetworkMiss => Some("STATUS_CODE_OK"),
            Outcome::Solution { .. } => Some("STATUS_CODE_OK"),
            _ => Some("STATUS_CODE_ERROR"),
        }
    }

    /// The result under which the outcome is traced, if any.
    pub fn mining_result(&self) -> (r: Option<&'static str>)
        ensures
            optional_str(r) == mining_result_of(self@),
    {
        match self {
            Outcome::Cancelled => Some("cancelled"),
            Outcome::Miss { .. } => Some("miss"),
            Outcome::NetworkMiss => Some("miss"),
            Outcome::Solution { target: Target::Pool, .. } => Some("Pool"),
            Outcome::Solution { target: Target::Network, .. } => Some("Network"),
            _ => None,
        }
    }
}

/// The size of a proof of `len` bytes, in hundredths of a kilobyte, rounded to
/// the nearest one and upwards from the middle.
pub fn proof_size_hundredths_kb(len: usize) -> (r: u128)
    ensures
        200 * len < 2048 * r + 1024,
        2048 * r <= 200 * len + 1024,
{
    let scaled: u128 = 100 * (len as u128) + 512;
    assert(1024 * (scaled / 1024) <= scaled < 1024 * (scaled / 1024) + 1024);
    scaled / 1024
}

/// No atom carries two of the tags `%miss`, `%pool` and `%network`.
pub proof fn law_tags_exclude_each_other(noun: Noun)
    ensures
        !(has_tag(noun, MISS@) && has_tag(noun, POOL@)),
        !(has_tag(noun, MISS@) && has_tag(noun, NETWORK@)),
        !(has_tag(noun, POOL@) && has_tag(noun, NETWORK@)),
{
    if let Noun::Atom(bytes) = noun {
        assert(MISS@[0] == 0x6d && POOL@[0] == 0x70 && NETWORK@[0] == 0x6e);
        if has_tag(noun, MISS@) {
            assert(bytes[0] == 0x6d);
        }
        if has_tag(noun, POOL@) {
            assert(bytes[0] == 0x70);
        }
        if has_tag(noun, NETWORK@) {
            assert(bytes[0] == 0x6e);
        }
    }
}

/// An effect `[tag commit digest proof]` whose tag names an accepted target is
/// a solution with exactly these parts, and there is no other way to a
/// solution.
pub proof fn law_solution_iff_well_formed(
    answer: Option<Noun>,
    network_only: bool,
    target: Target,
    commit: Noun,
    digest: Seq<u8>,
    proof_noun: Noun,
)
    ensures
        attempt_outcome(answer, network_only) == (OutcomeView::Solution {
            target,
            commit,
            digest,
            proof: proof_noun,
        }) <==> exists|tag: Noun, rest: Noun|
            {
                &&& target_of(tag) == Some(target)
                &&& network_only ==> target == Target::Network
                &&& answer == Some(
                    #[trigger] cell(
                        cell(tag, cell(commit, cell(Noun::Atom(digest), proof_noun))),
                        rest,
                    ),
                )
            },
{
    let body = cell(commit, cell(Noun::Atom(digest), proof_noun));
    if attempt_outcome(answer, network_only) == (OutcomeView::Solution {
        target,
        commit,
        digest,
        proof: proof_noun,
    }) {
        if let Some(Noun::Cell(effect, rest)) = answer {
            if let Noun::Cell(tag, found) = *effect {
                assert(*found == body);
                assert(target_of(*tag) == Some(target));
                assert(answer == Some(cell(cell(*tag, body), *rest)));
            }
        }
    }
    assert forall|tag: Noun, rest: Noun|
        {
            &&& target_of(tag) == Some(target)
            &&& network_only ==> target == Target::Network
            &&& answer == Some(#[trigger] cell(cell(tag, body), rest))
        } implies attempt_outcome(answer, network_only) == (OutcomeView::Solution {
        target,
        commit,
        digest,
        proof: proof_noun,
    }) by {
        law_tags_exclude_each_other(tag);
    }
}

/// The numbers that the tags denote.
proof fn lemma_tag_numbers()
    ensures
        le_value(POKE@) == 0x656b6f70,
        le_value(MISS@) == 0x7373696d,
        le_value(POOL@) == 0x6c6f6f70,
        le_value(NETWORK@) == 0x6b726f7774656e,
{
    lemma_value_of_four(POKE@);
    lemma_value_of_four(MISS@);
    lemma_value_of_four(POOL@);
    reveal_with_fuel(le_value, 4);
    lemma_value_of_four(NETWORK@.drop_first().drop_first().drop_first());
}

/// The number that four bytes denote.
proof fn lemma_value_of_four(bytes: Seq<u8>)
    requires
        bytes.len() == 4,
    ensures
        le_value(bytes) == bytes[0] + 0x100 * bytes[1] + 0x1_0000 * bytes[2] + 0x100_0000
            * bytes[3],
{
    reveal_with_fuel(le_value, 5);
}

/// An atom has one of the tags exactly when it denotes the tag's number.
proof fn lemma_tags_are_numbers(bytes: Seq<u8>)
    ensures
        has_tag(Noun::Atom(bytes), POKE@) <==> le_value(bytes) == 0x656b6f70,
        has_tag(Noun::Atom(bytes), MISS@) <==> le_value(bytes) == 0x7373696d,
        has_tag(Noun::Atom(bytes), POOL@) <==> le_value(bytes) == 0x6c6f6f70,
        has_tag(Noun::Atom(bytes), NETWORK@) <==> le_value(bytes) == 0x6b726f7774656e,
{
    lemma_tag_numbers();
    crate::noun::law_tag_is_number(bytes, POKE@);
    crate::noun::law_tag_is_number(bytes, MISS@);
    crate::noun::law_tag_is_number(bytes, POOL@);
    crate::noun::law_tag_is_number(bytes, NETWORK@);
}

/// The target that a tag names goes by the number that the tag denotes, however
/// many zeros its bytes end in: the pool target for `%pool`, the network target
/// for `%network`, and none for any other number or for a cell.
pub proof fn law_target_goes_by_number(tag: Noun)
    ensures
        target_of(tag) == Some(Target::Pool) <==> (tag matches Noun::Atom(bytes) && le_value(bytes)
            == 0x6c6f6f70),
        target_of(tag) == Some(Target::Network) <==> (tag matches Noun::Atom(bytes) && le_value(
            bytes,
        ) == 0x6b726f7774656e),
{
    if let Noun::Atom(bytes) = tag {
        lemma_tags_are_numbers(bytes);
    }
}

/// An error is a failure, an atom is no result, and nothing else is either.
pub proof fn law_answers_are_cells(answer: Option<Noun>, network_only: bool)
    ensures
        attempt_outcome(answer, network_only) is Failed <==> answer is None,
        attempt_outcome(answer, network_only) is InvalidResult <==> (answer matches Some(noun)
            && noun is Atom),
{
}

/// An effect that is an atom means that the attempt was cancelled, if it denotes
/// the number of `%poke`, and nothing otherwise.
pub proof fn law_atomic_effects_go_by_number(effect: Seq<u8>, rest: Noun, network_only: bool)
    ensures
        attempt_outcome(
            Some(Noun::Cell(Box::new(Noun::Atom(effect)), Box::new(rest))),
            network_only,
        ) == (if le_value(effect) == 0x656b6f70 {
            OutcomeView::Cancelled
        } else {
            OutcomeView::InvalidEffect
        }),
{
    lemma_tags_are_numbers(effect);
}

/// An effect that is a cell is judged by the number that its tag denotes: a
/// miss hands back the whole body as the next nonce, a proof for the pool
/// target is dropped where only the network target counts, and a tag with any
/// other number than those of `%miss`, `%pool` and `%network` names no target.
pub proof fn law_effects_go_by_number(tag: Seq<u8>, body: Noun, rest: Noun, network_only: bool)
    ensures
        ({
            let number = le_value(tag);
            let effect = Noun::Cell(Box::new(Noun::Atom(tag)), Box::new(body));
            let outcome = attempt_outcome(
                Some(Noun::Cell(Box::new(effect), Box::new(rest))),
                network_only,
            );
            &&& number == 0x7373696d ==> outcome == (OutcomeView::Miss { nonce: body })
            &&& outcome is Miss ==> number == 0x7373696d
            &&& outcome is NetworkMiss <==> network_only && number == 0x6c6f6f70
            &&& outcome is InvalidTarget <==> number != 0x7373696d && number != 0x6c6f6f70
                && number != 0x6b726f7774656e
            &&& !(outcome is Cancelled) && !(outcome is InvalidEffect)
        }),
{
    lemma_tags_are_numbers(tag);
}

/// A tag that is a cell names no target.
pub proof fn law_cells_are_no_tags(
    head: Noun,
    tail: Noun,
    body: Noun,
    rest: Noun,
    network_only: bool,
)
    ensures
        ({
            let tag = Noun::Cell(Box::new(head), Box::new(tail));
            let effect = Noun::Cell(Box::new(tag), Box::new(body));
            attempt_outcome(Some(Noun::Cell(Box::new(effect), Box::new(rest))), network_only)
                is InvalidTarget
        }),
{
}

/// A proof with the number of `%network` for its tag is submitted for the
/// network target, whatever counts; one with the number of `%pool` is submitted
/// for the pool target, and dropped where only the network target counts. What
/// is submitted are the three parts of the effect's body, in their order.
pub proof fn law_proofs_are_submitted_for_their_target(
    tag: Seq<u8>,
    commit: Noun,
    digest: Seq<u8>,
    proof_noun: Noun,
    rest: Noun,
)
    ensures
        ({
            let tail = Noun::Cell(Box::new(Noun::Atom(digest)), Box::new(proof_noun));
            let body = Noun::Cell(Box::new(commit), Box::new(tail));
            let effect = Noun::Cell(Box::new(Noun::Atom(tag)), Box::new(body));
            let answer = Some(Noun::Cell(Box::new(effect), Box::new(rest)));
            &&& le_value(tag) == 0x6b726f7774656e ==> forall|network_only: bool| #[trigger]
                attempt_outcome(answer, network_only) == (OutcomeView::Solution {
                    target: Target::Network,
                    commit,
                    digest,
                    proof: proof_noun,
                })
            &&& le_value(tag) == 0x6c6f6f70 ==> attempt_outcome(answer, true)
                == OutcomeView::NetworkMiss
            &&& le_value(tag) == 0x6c6f6f70 ==> attempt_outcome(answer, false) == (
            OutcomeView::Solution {
                target: Target::Pool,
                commit,
                digest,
                proof: proof_noun,
            })
        }),
{
    lemma_tags_are_numbers(tag);
}

/// Where the tag names a target that counts, the outcome says how far the body
/// has the form `[commit digest proof]` with an atom for the digest.
pub proof fn law_malformed_proofs_are_told_apart(
    tag: Seq<u8>,
    body: Noun,
    rest: Noun,
    network_only: bool,
)
    requires
        le_value(tag) == 0x6b726f7774656e || (le_value(tag) == 0x6c6f6f70 && !network_only),
    ensures
        ({
            let effect = Noun::Cell(Box::new(Noun::Atom(tag)), Box::new(body));
            let outcome = attempt_outcome(
                Some(Noun::Cell(Box::new(effect), Box::new(rest))),
                network_only,
            );
            &&& outcome is InvalidMessage <==> body is Atom
            &&& outcome is InvalidMessageTail <==> body is Cell && *body->Cell_1 is Atom
            &&& outcome is InvalidDigest <==> body is Cell && *body->Cell_1 is Cell
                && *(*body->Cell_1)->Cell_0 is Cell
            &&& outcome is Solution <==> body is Cell && *body->Cell_1 is Cell
                && *(*body->Cell_1)->Cell_0 is Atom
        }),
{
    lemma_tags_are_numbers(tag);
}

/// Atoms that denote the same number are judged alike, as effects and as tags.
pub proof fn law_equal_numbers_are_judged_alike(
    atom: Seq<u8>,
    other: Seq<u8>,
    body: Noun,
    rest: Noun,
    network_only: bool,
)
    requires
        le_value(atom) == le_value(other),
    ensures
        attempt_outcome(Some(cell(Noun::Atom(atom), rest)), network_only) == attempt_outcome(
            Some(cell(Noun::Atom(other), rest)),
            network_only,
        ),
        attempt_outcome(Some(cell(cell(Noun::Atom(atom), body), rest)), network_only)
            == attempt_outcome(Some(cell(cell(Noun::Atom(other), body), rest)), network_only),
{
    lemma_tags_are_numbers(atom);
    lemma_tags_are_numbers(other);
}

/// The rest of an answer, behind its effect, does not matter.
pub proof fn law_only_the_effect_is_judged(
    effect: Noun,
    rest: Noun,
    other: Noun,
    network_only: bool,
)
    ensures
        attempt_outcome(Some(cell(effect, rest)), network_only) == attempt_outcome(
            Some(cell(effect, other)),
            network_only,
        ),
{
}

/// The value of an outcome is of the same kind and has the same parts.
pub proof fn law_outcomes_have_their_parts(outcome: Outcome)
    ensures
        outcome is Failed <==> outcome@ is Failed,
        outcome is InvalidResult <==> outcome@ is InvalidResult,
        outcome is Cancelled <==> outcome@ is Cancelled,
        outcome is InvalidEffect <==> outcome@ is InvalidEffect,
        outcome is Miss <==> outcome@ is Miss,
        outcome is InvalidTarget <==> outcome@ is InvalidTarget,
        outcome is NetworkMiss <==> outcome@ is NetworkMiss,
        outcome is InvalidMessage <==> outcome@ is InvalidMessage,
        outcome is InvalidMessageTail <==> outcome@ is InvalidMessageTail,
        outcome is InvalidDigest <==> outcome@ is InvalidDigest,
        outcome is Solution <==> outcome@ is Solution,
        outcome matches Outcome::Miss { nonce } ==> outcome@->nonce == nonce@,
        outcome matches Outcome::Solution { target, commit, digest, proof } ==> {
            &&& outcome@->target == target
            &&& outcome@->commit == commit@
            &&& outcome@->digest == digest@
            &&& outcome@->Solution_proof == proof@
        },
{
}

/// Only an attempt that failed outright is traced without a status code.
/// Anything malformed is traced as an error, and the rest as well done.
pub proof fn law_status_codes(outcome: OutcomeView)
    ensures
        status_code_of(outcome) is None <==> outcome is Failed,
        outcome is Cancelled || outcome is Miss || outcome is NetworkMiss || outcome is Solution
            ==> status_code_of(outcome) == Some("STATUS_CODE_OK"@),
        outcome is InvalidResult || outcome is InvalidEffect || outcome is InvalidTarget || outcome
            is InvalidMessage || outcome is InvalidMessageTail || outcome is InvalidDigest
            ==> status_code_of(outcome) == Some("STATUS_CODE_ERROR"@),
{
}

/// A solution is traced under the name of its target, a proof that hit no
/// target that counts as a miss, and a cancelled attempt as cancelled. Nothing
/// else has a result.
pub proof fn law_mining_results(outcome: OutcomeView)
    ensures
        mining_result_of(outcome) is Some <==> outcome is Cancelled || outcome is Miss || outcome
            is NetworkMiss || outcome is Solution,
        outcome is Cancelled ==> mining_result_of(outcome) == Some("cancelled"@),
        outcome is Miss || outcome is NetworkMiss ==> mining_result_of(outcome) == Some("miss"@),
        outcome is Solution && outcome->target == Target::Pool ==> mining_result_of(outcome)
            == Some("Pool"@),
        outcome is Solution && outcome->target == Target::Network ==> mining_result_of(outcome)
            == Some("Network"@),
{
}

/// A text that may be missing has the value of the text.
pub proof fn law_optional_str(text: &'static str)
    ensures
        optional_str(Some(text)) == Some(text@),
        optional_str(None) is None,
{
}

/// A miner that works for the network target alone never submits a proof for
/// the pool target.
pub proof fn law_network_only_submits_network_proofs(answer: Option<Noun>)
    ensures
        attempt_outcome(answer, true) matches OutcomeView::Solution { target, .. } ==> target
            == Target::Network,
{
}

/// Working for the network target alone changes the judgement of nothing but
/// effects with the tag `%pool`.
pub proof fn law_network_only_affects_pool_proofs_only(answer: Option<Noun>)
    ensures
        attempt_outcome(answer, true) == attempt_outcome(answer, false) || (answer matches Some(
            Noun::Cell(effect, _),
        ) && *effect matches Noun::Cell(tag, _) && has_tag(*tag, POOL@)),
{
}

} // verus!
