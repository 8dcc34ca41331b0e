//! Nouns: binary trees with byte-string leaves.
//!
//! [`Noun`] is the mathematical tree. [`NounSlab`] stores one as a flat list of
//! nodes in which every cell points backwards, so that a subtree that occurs
//! many times is stored once and no operation recurses over the tree.

use vstd::arithmetic::power::pow;
use vstd::prelude::*;

verus! {

/// A noun: an atom, given by its bytes with the least significant one first,
/// or an ordered pair of nouns.
pub enum Noun {
    Atom(Seq<u8>),
    Cell(Box<Noun>, Box<Noun>),
}

/// The pair `[head tail]`.
pub open spec fn cell(head: Noun, tail: Noun) -> Noun {
    Noun::Cell(Box::new(head), Box::new(tail))
}

/// The bytes `atom` are `tag`, followed by nothing but zeros.
pub open spec fn bytes_match(atom: Seq<u8>, tag: Seq<u8>) -> bool {
    &&& tag.len() <= atom.len()
    &&& forall|i: int| 0 <= i < tag.len() ==> atom[i] == tag[i]
    &&& forall|i: int| tag.len() <= i < atom.len() ==> atom[i] == 0
}

/// `noun` is an atom whose bytes are `tag` up to trailing zeros.
pub open spec fn has_tag(noun: Noun, tag: Seq<u8>) -> bool {
    match noun {
        Noun::Atom(bytes) => bytes_match(bytes, tag),
        Noun::Cell(_, _) => false,
    }
}

/// The number that a byte string denotes, least significant byte first.
pub open spec fn le_value(bytes: Seq<u8>) -> nat
    decreases bytes.len(),
{
    if bytes.len() == 0 {
        0
    } else {
        bytes[0] as nat + 256 * le_value(bytes.drop_first())
    }
}

/// The `len` low bytes of a number, least significant one first.
pub open spec fn le_bytes(value: nat, len: nat) -> Seq<u8>
    decreases len,
{
    if len == 0 {
        Seq::empty()
    } else {
        seq![(value % 256) as u8] + le_bytes(value / 256, (len - 1) as nat)
    }
}

/// The `len` low bytes of a number that fits in them denote that number.
proof fn lemma_le_bytes_value(value: nat, len: nat)
    requires
        value < pow(256, len),
    ensures
        le_bytes(value, len).len() == len,
        le_value(le_bytes(value, len)) == value,
    decreases len,
{
    reveal(pow);
    if len > 0 {
        let rest = le_bytes(value / 256, (len - 1) as nat);
        assert(value / 256 < pow(256, (len - 1) as nat)) by (nonlinear_arith)
            requires
                value < 256 * pow(256, (len - 1) as nat),
        ;
        lemma_le_bytes_value(value / 256, (len - 1) as nat);
        assert(le_bytes(value, len).drop_first() =~= rest);
    }
}

/// The atom of a word, eight bytes long, denotes the word.
pub proof fn law_word_value(word: u64)
    ensures
        le_bytes(word as nat, 8).len() == 8,
        le_value(le_bytes(word as nat, 8)) == word,
{
    reveal(pow);
    reveal_with_fuel(pow, 9);
    lemma_le_bytes_value(word as nat, 8);
}

/// A byte string of zeros denotes zero, and no other does.
proof fn lemma_zero_value(bytes: Seq<u8>)
    ensures
        le_value(bytes) == 0 <==> forall|i: int| 0 <= i < bytes.len() ==> bytes[i] == 0,
    decreases bytes.len(),
{
    if bytes.len() > 0 {
        let rest = bytes.drop_first();
        lemma_zero_value(rest);
        if le_value(bytes) == 0 {
            assert forall|i: int| 0 <= i < bytes.len() implies bytes[i] == 0 by {
                if i > 0 {
                    assert(rest[i - 1] == bytes[i]);
                }
            }
        }
        if forall|i: int| 0 <= i < bytes.len() ==> bytes[i] == 0 {
            assert forall|i: int| 0 <= i < rest.len() implies rest[i] == 0 by {
                assert(rest[i] == bytes[i + 1]);
            }
        }
    }
}

/// A byte string denotes a number in base 256: it starts from nothing, and a
/// byte at its far end counts for the power of 256 that its position says.
pub proof fn law_value_is_positional(bytes: Seq<u8>, byte: u8)
    ensures
        le_value(Seq::<u8>::empty()) == 0,
        le_value(bytes.push(byte)) == le_value(bytes) + byte * pow(256, bytes.len()),
    decreases bytes.len(),
{
    reveal(pow);
    if bytes.len() == 0 {
        assert(bytes.push(byte).drop_first() =~= Seq::<u8>::empty());
        assert(le_value(bytes.push(byte).drop_first()) == 0);
    } else {
        let rest = bytes.drop_first();
        law_value_is_positional(rest, byte);
        assert(bytes.push(byte).drop_first() =~= rest.push(byte));
        let power = pow(256, rest.len());
        assert(256 * (byte * power) == byte * (256 * power)) by (nonlinear_arith);
    }
}

/// The low bytes of a number are its digits in base 256.
pub proof fn law_bytes_are_digits(value: nat, len: nat, i: int)
    requires
        0 <= i < len,
    ensures
        le_bytes(value, len).len() == len,
        le_bytes(value, len)[i] == (value as int / pow(256, i as nat)) % 256,
    decreases len,
{
    reveal(pow);
    let rest = le_bytes(value / 256, (len - 1) as nat);
    if i > 0 {
        law_bytes_are_digits(value / 256, (len - 1) as nat, i - 1);
        let power = pow(256, (i - 1) as nat);
        vstd::arithmetic::power::lemma_pow_positive(256, (i - 1) as nat);
        vstd::arithmetic::div_mod::lemma_div_denominator(value as int, 256, power);
        assert(le_bytes(value, len)[i] == rest[i - 1]);
    } else if len > 1 {
        law_bytes_are_digits(value / 256, (len - 1) as nat, 0);
    }
}

/// A cell has the head and the tail that it is made of.
pub proof fn law_cell_has_its_parts(head: Noun, tail: Noun)
    ensures
        cell(head, tail) is Cell,
        *cell(head, tail)->Cell_0 == head,
        *cell(head, tail)->Cell_1 == tail,
{
}

/// An atom has a tag exactly when its bytes are the tag's, filled up with
/// zeros at the far end. A cell has no tag.
pub proof fn law_tagged_atoms_are_padded(noun: Noun, tag: Seq<u8>)
    ensures
        has_tag(noun, tag) <==> (noun matches Noun::Atom(bytes) && tag.len() <= bytes.len()
            && bytes == tag + Seq::new((bytes.len() - tag.len()) as nat, |i: int| 0u8)),
        noun matches Noun::Atom(bytes) ==> has_tag(noun, tag) == bytes_match(bytes, tag),
{
    if let Noun::Atom(bytes) = noun {
        if tag.len() <= bytes.len() {
            let padded = tag + Seq::new((bytes.len() - tag.len()) as nat, |i: int| 0u8);
            if has_tag(noun, tag) {
                assert(bytes =~= padded);
            }
            if bytes == padded {
                assert forall|i: int| tag.len() <= i < bytes.len() implies bytes[i] == 0 by {
                    assert(padded[i] == 0);
                }
                assert forall|i: int| 0 <= i < tag.len() implies bytes[i] == tag[i] by {
                    assert(padded[i] == tag[i]);
                }
            }
        }
    }
}

/// Comparing an atom with a tag compares numbers: for a tag that does not end
/// in a zero byte, the atom's bytes match the tag exactly when the two denote
/// the same number.
pub proof fn law_tag_is_number(atom: Seq<u8>, tag: Seq<u8>)
    requires
        tag.len() > 0 ==> tag.last() != 0,
    ensures
        bytes_match(atom, tag) <==> le_value(atom) == le_value(tag),
    decreases tag.len(),
{
    if tag.len() == 0 {
        lemma_zero_value(atom);
    } else if atom.len() == 0 {
        lemma_zero_value(tag);
        assert(tag[tag.len() - 1] != 0);
    } else {
        let a = atom.drop_first();
        let t = tag.drop_first();
        if t.len() > 0 {
            assert(t.last() == tag.last());
        }
        law_tag_is_number(a, t);
        if bytes_match(atom, tag) {
            assert(bytes_match(a, t));
            assert(atom[0] == tag[0]);
        }
        if le_value(atom) == le_value(tag) {
            assert(atom[0] == tag[0] && le_value(a) == le_value(t));
            assert forall|i: int| 0 <= i < tag.len() implies atom[i] == tag[i] by {
                if i > 0 {
                    assert(a[i - 1] == t[i - 1]);
                }
            }
            assert forall|i: int| tag.len() <= i < atom.len() implies atom[i] == 0 by {
                assert(a[i - 1] == 0);
            }
        }
    }
}

/// One entry of a [`NounSlab`]: the bytes of an atom, or the positions of a
/// cell's head and tail in the same list.
#[derive(Debug, PartialEq, Eq)]
pub enum Node {
    Atom(Vec<u8>),
    Cell(usize, usize),
}

/// Every cell of the list points at entries before its own.
pub open spec fn points_backwards(nodes: Seq<Node>) -> bool {
    forall|i: int| 0 <= i < nodes.len() ==> cell_points_below(#[trigger] nodes[i], i)
}

/// If `node` is a cell, its head and tail are at positions below `bound`.
pub open spec fn cell_points_below(node: Node, bound: int) -> bool {
    match node {
        Node::Atom(_) => true,
        Node::Cell(head, tail) => head < bound && tail < bound,
    }
}

/// The noun that entry `i` of the list stands for. Where the list has no such
/// entry, or the entry points forwards, it is the empty atom.
pub open spec fn noun_at(nodes: Seq<Node>, i: nat) -> Noun
    decreases i,
{
    if i < nodes.len() {
        match nodes[i as int] {
            Node::Atom(bytes) => Noun::Atom(bytes@),
            Node::Cell(head, tail) => if head < i && tail < i {
                cell(noun_at(nodes, head as nat), noun_at(nodes, tail as nat))
            } else {
                Noun::Atom(Seq::empty())
            },
        }
    } else {
        Noun::Atom(Seq::empty())
    }
}

/// A list points backwards exactly when each cell in it comes after its head
/// and after its tail.
pub proof fn law_cells_come_after_their_parts(nodes: Seq<Node>)
    ensures
        points_backwards(nodes) <==> forall|i: int|
            0 <= i < nodes.len() ==> (#[trigger] nodes[i] matches Node::Cell(head, tail) ==> head
                < i && tail < i),
{
    if points_backwards(nodes) {
        assert forall|i: int| 0 <= i < nodes.len() implies (
        #[trigger] nodes[i] matches Node::Cell(head, tail) ==> head < i && tail < i) by {
            assert(cell_points_below(nodes[i], i));
        }
    }
}

/// An entry with bytes stands for the atom of these bytes, and an entry that
/// points at two others for the cell of what they stand for.
pub proof fn law_entries_stand_for_nouns(nodes: Seq<Node>, i: nat)
    requires
        points_backwards(nodes),
        i < nodes.len(),
    ensures
        nodes[i as int] matches Node::Atom(bytes) ==> noun_at(nodes, i) == Noun::Atom(bytes@),
        nodes[i as int] matches Node::Cell(head, tail) ==> {
            &&& noun_at(nodes, i) is Cell
            &&& *noun_at(nodes, i)->Cell_0 == noun_at(nodes, head as nat)
            &&& *noun_at(nodes, i)->Cell_1 == noun_at(nodes, tail as nat)
        },
{
    assert(cell_points_below(nodes[i as int], i as int));
}

/// `to` is `from` with its positions moved up by `offset`.
spec fn shifted(from: Node, to: Node, offset: int) -> bool {
    match (from, to) {
        (Node::Atom(a), Node::Atom(b)) => a@ == b@,
        (Node::Cell(h, t), Node::Cell(h2, t2)) => h2 == h + offset && t2 == t + offset,
        _ => false,
    }
}

/// A list that holds the first `count` entries of `from` from position `offset`
/// on holds their nouns there.
proof fn lemma_shifted_nouns(from: Seq<Node>, to: Seq<Node>, offset: nat, count: nat, i: nat)
    requires
        i < count <= from.len(),
        offset + count <= to.len(),
        points_backwards(from),
        forall|j: int| 0 <= j < count ==> shifted(#[trigger] from[j], to[offset + j], offset as int),
    ensures
        noun_at(to, offset + i) == noun_at(from, i),
    decreases i,
{
    assert(shifted(from[i as int], to[(offset + i) as int], offset as int));
    assert(cell_points_below(from[i as int], i as int));
    if let Node::Cell(head, tail) = from[i as int] {
        lemma_shifted_nouns(from, to, offset, count, head as nat);
        lemma_shifted_nouns(from, to, offset, count, tail as nat);
    }
}

/// Entries added at the end leave the nouns of the others as they were.
proof fn lemma_prefix_nouns(short: Seq<Node>, long: Seq<Node>, i: nat)
    requires
        i < short.len() <= long.len(),
        forall|j: int| 0 <= j < short.len() ==> short[j] == long[j],
    ensures
        noun_at(long, i) == noun_at(short, i),
    decreases i,
{
    if let Node::Cell(head, tail) = short[i as int] {
        if head < i && tail < i {
            lemma_prefix_nouns(short, long, head as nat);
            lemma_prefix_nouns(short, long, tail as nat);
        }
    }
}

/// Whether `atom` is `tag` followed by nothing but zeros.
pub fn eq_bytes(atom: &[u8], tag: &[u8]) -> (r: bool)
    ensures
        r == bytes_match(atom@, tag@),
{
    if tag.len() > atom.len() {
        return false;
    }
    let mut i: usize = 0;
    while i < atom.len()
        invariant
            i <= atom@.len(),
            tag@.len() <= atom@.len(),
            forall|j: int| 0 <= j < i && j < tag@.len() ==> atom@[j] == tag@[j],
            forall|j: int| tag@.len() <= j < i ==> atom@[j] == 0,
        decreases atom@.len() - i,
    {
        let expected: u8 = if i < tag.len() { tag[i] } else { 0 };
        if atom[i] != expected {
            return false;
        }
        i += 1;
    }
    true
}

/// A byte-for-byte copy.
pub fn copy_bytes(bytes: &[u8]) -> (r: Vec<u8>)
    ensures
        r@ == bytes@,
{
    let mut r: Vec<u8> = Vec::new();
    let mut i: usize = 0;
    while i < bytes.len()
        invariant
            i <= bytes@.len(),
            r@ =~= bytes@.take(i as int),
        decreases bytes@.len() - i,
    {
        r.push(bytes[i]);
        i += 1;
    }
    r
}

/// Copies the first `count` entries of `source` to the end of `nodes`.
fn append_shifted(nodes: &mut Vec<Node>, source: &Vec<Node>, count: usize)
    requires
        count <= source@.len(),
        points_backwards(source@),
        points_backwards(old(nodes)@),
    ensures
        points_backwards(final(nodes)@),
        final(nodes)@.len() == old(nodes)@.len() + count,
        forall|j: int| 0 <= j < old(nodes)@.len() ==> final(nodes)@[j] == old(nodes)@[j],
        forall|j: int|
            0 <= j < count ==> shifted(
                #[trigger] source@[j],
                final(nodes)@[old(nodes)@.len() + j],
                old(nodes)@.len() as int,
            ),
{
    let offset: usize = nodes.len();
    let mut i: usize = 0;
    while i < count
        invariant
            i <= count <= source@.len(),
            offset == old(nodes)@.len(),
            nodes@.len() == offset + i,
            points_backwards(source@),
            points_backwards(nodes@),
            forall|j: int| 0 <= j < offset ==> nodes@[j] == old(nodes)@[j],
            forall|j: int|
                0 <= j < i ==> shifted(#[trigger] source@[j], nodes@[offset + j], offset as int),
        decreases count - i,
    {
        assert(nodes.len() == nodes@.len());
        assert(cell_points_below(source@[i as int], i as int));
        let node = match &source[i] {
            Node::Atom(bytes) => Node::Atom(copy_bytes(bytes.as_slice())),
            Node::Cell(head, tail) => Node::Cell(offset + *head, offset + *tail),
        };
        assert(shifted(source@[i as int], node, offset as int));
        nodes.push(node);
        i += 1;
    }
}

/// A noun, stored as a list of nodes and the position of its root.
#[derive(Debug)]
pub struct NounSlab {
    nodes: Vec<Node>,
    root: usize,
}

impl View for NounSlab {
    type V = Noun;

    closed spec fn view(&self) -> Noun {
        noun_at(self.nodes@, self.root as nat)
    }
}

impl NounSlab {
    #[verifier::type_invariant]
    spec fn well_formed(self) -> bool {
        &&& points_backwards(self.nodes@)
        &&& self.root < self.nodes@.len()
    }

    /// The noun at position `root` of a list of nodes. `None` where a cell does
    /// not point backwards or the list has no entry at `root`.
    pub fn from_nodes(nodes: Vec<Node>, root: usize) -> (r: Option<NounSlab>)
        ensures
            r is Some <==> points_backwards(nodes@) && root < nodes@.len(),
            r matches Some(slab) ==> slab@ == noun_at(nodes@, root as nat),
    {
        let mut i: usize = 0;
        while i < nodes.len()
            invariant
                i <= nodes@.len(),
                forall|j: int| 0 <= j < i ==> cell_points_below(#[trigger] nodes@[j], j),
            decreases nodes@.len() - i,
        {
            if let Node::Cell(head, tail) = &nodes[i] {
                if *head >= i || *tail >= i {
                    assert(!cell_points_below(nodes@[i as int], i as int));
                    return None;
                }
            }
            i += 1;
        }
        if root < nodes.len() {
            Some(NounSlab { nodes, root })
        } else {
            None
        }
    }

    /// The list of nodes and the position of the root in it.
    pub fn parts(&self) -> (r: (&Vec<Node>, usize))
        ensures
            r.0@ == self.spec_nodes(),
            points_backwards(r.0@),
            r.1 < r.0@.len(),
            noun_at(r.0@, r.1 as nat) == self@,
    {
        proof {
            use_type_invariant(self);
        }
        (&self.nodes, self.root)
    }

    /// The atom with these bytes, least significant one first.
    pub fn atom(bytes: Vec<u8>) -> (r: NounSlab)
        ensures
            r@ == Noun::Atom(bytes@),
    {
        let mut nodes: Vec<Node> = Vec::new();
        nodes.push(Node::Atom(bytes));
        NounSlab { nodes, root: 0 }
    }

    /// The atom of a word, in eight bytes.
    pub fn word(word: u64) -> (r: NounSlab)
        ensures
            r@ == Noun::Atom(le_bytes(word as nat, 8)),
    {
        let mut bytes: Vec<u8> = Vec::new();
        let mut rest: u64 = word;
        let mut left: u64 = 8;
        while left > 0
            invariant
                left <= 8,
                le_bytes(word as nat, 8) =~= bytes@ + le_bytes(rest as nat, left as nat),
            decreases left,
        {
            bytes.push((rest % 256) as u8);
            rest = rest / 256;
            left -= 1;
        }
        NounSlab::atom(bytes)
    }

    /// The cell of two nouns.
    pub fn cell(head: &NounSlab, tail: &NounSlab) -> (r: NounSlab)
        ensures
            r@ == cell(head@, tail@),
    {
        proof {
            use_type_invariant(head);
            use_type_invariant(tail);
        }
        let mut nodes: Vec<Node> = Vec::new();
        append_shifted(&mut nodes, &head.nodes, head.nodes.len());
        let ghost heads = nodes@;
        let offset: usize = nodes.len();
        append_shifted(&mut nodes, &tail.nodes, tail.nodes.len());
        let ghost both = nodes@;
        let root: usize = nodes.len();
        nodes.push(Node::Cell(head.root, offset + tail.root));
        proof {
            lemma_shifted_nouns(head.nodes@, heads, 0, head.nodes@.len(), head.root as nat);
            lemma_prefix_nouns(heads, nodes@, head.root as nat);
            lemma_shifted_nouns(
                tail.nodes@,
                both,
                offset as nat,
                tail.nodes@.len(),
                tail.root as nat,
            );
            lemma_prefix_nouns(both, nodes@, (offset + tail.root) as nat);
        }
        NounSlab { nodes, root }
    }

    /// The noun at position `i` of this slab's list of nodes, in a slab of its
    /// own.
    pub fn subnoun(&self, i: usize) -> (r: NounSlab)
        requires
            i < self.spec_nodes().len(),
        ensures
            r@ == noun_at(self.spec_nodes(), i as nat),
    {
        proof {
            use_type_invariant(self);
        }
        assert(i < self.nodes.len());
        let mut nodes: Vec<Node> = Vec::new();
        append_shifted(&mut nodes, &self.nodes, i + 1);
        proof {
            lemma_shifted_nouns(self.nodes@, nodes@, 0, (i + 1) as nat, i as nat);
        }
        NounSlab { nodes, root: i }
    }

    /// The list of nodes.
    pub closed spec fn spec_nodes(self) -> Seq<Node> {
        self.nodes@
    }
}

impl Clone for NounSlab {
    fn clone(&self) -> (r: NounSlab)
        ensures
            r@ == self@,
    {
        proof {
            use_type_invariant(self);
        }
        self.subnoun(self.root)
    }
}

} // verus!
