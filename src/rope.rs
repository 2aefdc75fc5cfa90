use vstd::prelude::*;

verus! {

/// The ways in which a positional operation on a rope can fail.
#[derive(Debug, Clone, Copy, PartialEq, Eq, Structural)]
pub enum RopeError {
    /// The offset lies past the end of the content.
    IndexOutOfRange,
}

/// The content `s` with `b` put in at offset `i`: what inserting into a flat buffer gives.
pub open spec fn splice(s: Seq<u8>, i: int, b: Seq<u8>) -> Seq<u8> {
    s.take(i) + b + s.skip(i)
}

/// One contiguous run of bytes.
#[derive(Debug, Clone)]
pub struct RopeLeafNode(pub Vec<u8>);

/// A join of two subtrees, with their total length cached.
#[derive(Debug)]
pub struct RopeTrunkNode {
    pub child0: Box<RopeNode>,
    pub child1: Box<RopeNode>,
    pub length: usize,
}

/// A node of a rope: no content, a run of bytes, or a join of two subtrees.
#[derive(Debug)]
pub enum RopeNode {
    Empty,
    Trunk(RopeTrunkNode),
    Leaf(RopeLeafNode),
}

impl RopeNode {
    /// The bytes that this subtree holds, in document order.
    pub open spec fn content(self) -> Seq<u8>
        decreases self,
    {
        match self {
            RopeNode::Empty => Seq::empty(),
            RopeNode::Leaf(l) => l.0@,
            RopeNode::Trunk(t) => t.child0.content() + t.child1.content(),
        }
    }

    /// Every trunk of this subtree caches the true length of its content.
    pub open spec fn wf(self) -> bool
        decreases self,
    {
        match self {
            RopeNode::Trunk(t) => {
                &&& t.child0.wf()
                &&& t.child1.wf()
                &&& t.length == t.child0.content().len() + t.child1.content().len()
            },
            _ => true,
        }
    }

    /// This node is the trunk `prev` after an insertion at offset `i`, made in the child that
    /// holds that offset: in the first child when `i` lies before its end, else in the second
    /// child, so that the offset where the first child ends belongs to the second.
    pub open spec fn routed(self, prev: RopeNode, i: int) -> bool {
        &&& self is Trunk
        &&& prev is Trunk
        &&& i < prev->Trunk_0.child0@.len() ==> self->Trunk_0.child1 == prev->Trunk_0.child1
        &&& i >= prev->Trunk_0.child0@.len() ==> self->Trunk_0.child0 == prev->Trunk_0.child0
    }
}

impl View for RopeNode {
    type V = Seq<u8>;

    open spec fn view(&self) -> Seq<u8> {
        self.content()
    }
}

/// Appends the bytes of `src` to `dst`.
fn extend_bytes(dst: &mut Vec<u8>, src: &[u8])
    ensures
        final(dst)@ == old(dst)@ + src@,
{
    let mut k: usize = 0;
    while k < src.len()
        invariant
            k <= src@.len(),
            dst@ == old(dst)@ + src@.take(k as int),
        decreases src@.len() - k,
    {
        dst.push(src[k]);
        k = k + 1;
        assert(src@.take(k as int) == src@.take(k - 1) + seq![src@[k - 1]]);
    }
    assert(src@.take(src@.len() as int) == src@);
}

impl RopeLeafNode {
    /// Splits this run into a trunk at `i`: the byte at `i` is the first of the second child.
    pub fn split(self, i: usize) -> (r: RopeTrunkNode)
        requires
            i <= self.0@.len(),
        ensures
            r.child0 == Box::new(RopeNode::Leaf(RopeLeafNode(r.child0->Leaf_0.0))),
            r.child1 == Box::new(RopeNode::Leaf(RopeLeafNode(r.child1->Leaf_0.0))),
            r.child0@ == self.0@.take(i as int),
            r.child1@ == self.0@.skip(i as int),
            r.length == self.0@.len(),
            RopeNode::Trunk(r).wf(),
    {
        let run_length = self.0.len();
        let mut left = self.0;
        let right = left.split_off(i);
        let r = RopeTrunkNode {
            child0: Box::new(RopeNode::Leaf(RopeLeafNode(left))),
            child1: Box::new(RopeNode::Leaf(RopeLeafNode(right))),
            length: run_length,
        };
        assert(r.child0.wf() && r.child1.wf());
        r
    }

    /// Appends the run of `other` to this one.
    pub fn append(&mut self, other: RopeLeafNode)
        ensures
            final(self).0@ == old(self).0@ + other.0@,
    {
        let mut other = other;
        self.0.append(&mut other.0);
    }
}

impl RopeTrunkNode {
    /// Flattens this subtree into a single leaf.
    pub fn collapse(self) -> (r: RopeLeafNode)
        ensures
            r.0@ == RopeNode::Trunk(self)@,
    {
        RopeLeafNode(self.collapse_bytes())
    }

    /// Flattens this subtree into one buffer: the first child's bytes, then the second's.
    pub fn collapse_bytes(self) -> (r: Vec<u8>)
        ensures
            r@ == RopeNode::Trunk(self)@,
    {
        let mut out = self.child0.collapse();
        let mut rest = self.child1.collapse();
        out.append(&mut rest);
        out
    }
}

impl RopeNode {
    /// The number of bytes in this subtree.
    pub fn len(&self) -> (r: usize)
        requires
            self.wf(),
        ensures
            r == self@.len(),
    {
        match self {
            RopeNode::Leaf(l) => l.0.len(),
            RopeNode::Trunk(t) => t.length,
            RopeNode::Empty => 0,
        }
    }

    /// The byte at offset `i` of this subtree.
    pub fn byte_at(&self, i: usize) -> (r: Result<u8, RopeError>)
        requires
            self.wf(),
        ensures
            i < self@.len() ==> r == Ok::<u8, RopeError>(self@[i as int]),
            i >= self@.len() ==> r == Err::<u8, RopeError>(RopeError::IndexOutOfRange),
        decreases self,
    {
        match self {
            RopeNode::Leaf(l) => {
                if i < l.0.len() {
                    Ok(l.0[i])
                } else {
                    Err(RopeError::IndexOutOfRange)
                }
            },
            RopeNode::Trunk(t) => {
                let left = t.child0.len();
                if i < left {
                    t.child0.byte_at(i)
                } else {
                    t.child1.byte_at(i - left)
                }
            },
            RopeNode::Empty => Err(RopeError::IndexOutOfRange),
        }
    }

    /// Inserts `bytes` so that its first byte lands at offset `i` of this subtree.
    pub fn insert_bytes(&mut self, bytes: &[u8], i: usize) -> (r: Result<(), RopeError>)
        requires
            old(self).wf(),
            old(self)@.len() + bytes@.len() <= usize::MAX,
        ensures
            final(self).wf(),
            i <= old(self)@.len() ==> r is Ok && final(self)@ == splice(old(self)@, i as int, bytes@),
            i > old(self)@.len() ==> r == Err::<(), RopeError>(RopeError::IndexOutOfRange)
                && *final(self) == *old(self),
            (*old(self)) is Trunk && i <= old(self)@.len() ==> final(self).routed(*old(self), i as int),
        decreases *old(self),
    {
        match self {
            RopeNode::Leaf(l) => {
                let n = l.0.len();
                if i > n {
                    return Err(RopeError::IndexOutOfRange);
                }
                let ghost run0 = l.0@;
                if i == n {
                    extend_bytes(&mut l.0, bytes);
                    assert(run0.take(i as int) =~= run0);
                    assert(run0.skip(i as int) =~= Seq::<u8>::empty());
                    assert(l.0@ =~= splice(run0, i as int, bytes@));
                    return Ok(());
                }
                let mut run: Vec<u8> = Vec::new();
                std::mem::swap(&mut run, &mut l.0);
                let trunk = if i != 0 {
                    let right = run.split_off(i);
                    extend_bytes(&mut run, bytes);
                    assert(run@ + right@ =~= splice(run0, i as int, bytes@));
                    RopeTrunkNode {
                        child0: Box::new(RopeNode::Leaf(RopeLeafNode(run))),
                        child1: Box::new(RopeNode::Leaf(RopeLeafNode(right))),
                        length: n + bytes.len(),
                    }
                } else {
                    let mut fresh: Vec<u8> = Vec::new();
                    extend_bytes(&mut fresh, bytes);
                    assert(fresh@ + run@ =~= splice(run0, 0, bytes@));
                    RopeTrunkNode {
                        child0: Box::new(RopeNode::Leaf(RopeLeafNode(fresh))),
                        child1: Box::new(RopeNode::Leaf(RopeLeafNode(run))),
                        length: n + bytes.len(),
                    }
                };
                assert(trunk.child0.wf() && trunk.child1.wf());
                assert(RopeNode::Trunk(trunk)@ == trunk.child0@ + trunk.child1@);
                *self = RopeNode::Trunk(trunk);
                Ok(())
            },
            RopeNode::Trunk(t) => {
                if i > t.length {
                    return Err(RopeError::IndexOutOfRange);
                }
                let ghost c0 = t.child0@;
                let ghost c1 = t.child1@;
                let left = t.child0.len();
                t.length = t.length + bytes.len();
                if i < left {
                    let _ = t.child0.insert_bytes(bytes, i);
                    assert(t.child0@ + c1 =~= splice(c0 + c1, i as int, bytes@));
                } else {
                    let _ = t.child1.insert_bytes(bytes, i - left);
                    assert(c0 + t.child1@ =~= splice(c0 + c1, i as int, bytes@));
                }
                Ok(())
            },
            RopeNode::Empty => {
                if i != 0 {
                    return Err(RopeError::IndexOutOfRange);
                }
                let mut fresh: Vec<u8> = Vec::new();
                extend_bytes(&mut fresh, bytes);
                *self = RopeNode::Leaf(RopeLeafNode(fresh));
                assert(self@ =~= splice(Seq::empty(), 0, bytes@));
                Ok(())
            },
        }
    }

    /// Inserts the single byte `byte` at offset `i` of this subtree.
    pub fn insert_byte(&mut self, byte: u8, i: usize) -> (r: Result<(), RopeError>)
        requires
            old(self).wf(),
            old(self)@.len() + 1 <= usize::MAX,
        ensures
            final(self).wf(),
            i <= old(self)@.len() ==> r is Ok && final(self)@ == splice(old(self)@, i as int, seq![byte]),
            i > old(self)@.len() ==> r == Err::<(), RopeError>(RopeError::IndexOutOfRange)
                && *final(self) == *old(self),
            (*old(self)) is Trunk && i <= old(self)@.len() ==> final(self).routed(*old(self), i as int),
    {
        let one: Vec<u8> = vec![byte];
        assert(one@ == seq![byte]);
        self.insert_bytes(one.as_slice(), i)
    }

    /// An independent copy of this subtree, with the same shape and content.
    pub fn deep_copy(&self) -> (r: RopeNode)
        requires
            self.wf(),
        ensures
            r.wf(),
            r@ == self@,
        decreases self,
    {
        match self {
            RopeNode::Leaf(l) => {
                let mut run: Vec<u8> = Vec::new();
                extend_bytes(&mut run, l.0.as_slice());
                RopeNode::Leaf(RopeLeafNode(run))
            },
            RopeNode::Trunk(t) => RopeNode::Trunk(
                RopeTrunkNode {
                    child0: Box::new(t.child0.deep_copy()),
                    child1: Box::new(t.child1.deep_copy()),
                    length: t.length,
                },
            ),
            RopeNode::Empty => RopeNode::Empty,
        }
    }

    /// Flattens this subtree into one buffer, in document order.
    pub fn collapse(self) -> (r: Vec<u8>)
        ensures
            r@ == self@,
        decreases self,
    {
        match self {
            RopeNode::Leaf(l) => l.0,
            RopeNode::Trunk(t) => {
                let mut out = t.child0.collapse();
                let mut rest = t.child1.collapse();
                out.append(&mut rest);
                out
            },
            RopeNode::Empty => Vec::new(),
        }
    }
}

impl From<Vec<u8>> for RopeNode {
    /// A leaf that holds `value` as its run.
    fn from(value: Vec<u8>) -> (r: RopeNode) {
        RopeNode::Leaf(RopeLeafNode(value))
    }
}

impl vstd::std_specs::convert::FromSpecImpl<Vec<u8>> for RopeNode {
    open spec fn obeys_from_spec() -> bool {
        true
    }

    open spec fn from_spec(value: Vec<u8>) -> RopeNode {
        RopeNode::Leaf(RopeLeafNode(value))
    }
}

/// An editable byte sequence, stored as a tree of runs.
#[derive(Debug)]
pub struct Rope {
    head: Box<RopeNode>,
}

impl View for Rope {
    type V = Seq<u8>;

    closed spec fn view(&self) -> Seq<u8> {
        self.head@
    }
}

impl Rope {
    /// Every trunk of the tree caches the true length of its content.
    #[verifier::type_invariant]
    spec fn inv(self) -> bool {
        self.head.wf()
    }

    /// An empty rope.
    pub fn new() -> (r: Self)
        ensures
            r@ == Seq::<u8>::empty(),
    {
        Rope { head: Box::new(RopeNode::Empty) }
    }

    /// The byte at offset `i`.
    pub fn byte_at(&self, i: usize) -> (r: Result<u8, RopeError>)
        ensures
            i < self@.len() ==> r == Ok::<u8, RopeError>(self@[i as int]),
            i >= self@.len() ==> r == Err::<u8, RopeError>(RopeError::IndexOutOfRange),
    {
        proof {
            use_type_invariant(self);
        }
        self.head.byte_at(i)
    }

    /// Inserts the single byte `byte` at offset `i`; offset `len()` appends.
    pub fn insert_byte(&mut self, byte: u8, i: usize) -> (r: Result<(), RopeError>)
        requires
            old(self)@.len() + 1 <= usize::MAX,
        ensures
            i <= old(self)@.len() ==> r is Ok && final(self)@ == splice(old(self)@, i as int, seq![byte]),
            i > old(self)@.len() ==> r == Err::<(), RopeError>(RopeError::IndexOutOfRange)
                && final(self)@ == old(self)@,
    {
        proof {
            use_type_invariant(&*self);
        }
        let mut head = Box::new(RopeNode::Empty);
        std::mem::swap(&mut head, &mut self.head);
        let r = head.insert_byte(byte, i);
        self.head = head;
        r
    }

    /// Inserts `bytes` so that its first byte lands at offset `i`; offset `len()` appends.
    pub fn insert_bytes(&mut self, bytes: &[u8], i: usize) -> (r: Result<(), RopeError>)
        requires
            old(self)@.len() + bytes@.len() <= usize::MAX,
        ensures
            i <= old(self)@.len() ==> r is Ok && final(self)@ == splice(old(self)@, i as int, bytes@),
            i > old(self)@.len() ==> r == Err::<(), RopeError>(RopeError::IndexOutOfRange)
                && final(self)@ == old(self)@,
    {
        proof {
            use_type_invariant(&*self);
        }
        let mut head = Box::new(RopeNode::Empty);
        std::mem::swap(&mut head, &mut self.head);
        let r = head.insert_bytes(bytes, i);
        self.head = head;
        r
    }

    /// The number of bytes held.
    pub fn len(&self) -> (r: usize)
        ensures
            r == self@.len(),
    {
        proof {
            use_type_invariant(self);
        }
        self.head.len()
    }

    /// Consumes the rope and returns its content as one buffer.
    pub fn collapse(self) -> (r: Vec<u8>)
        ensures
            r@ == self@,
    {
        self.head.collapse()
    }

    /// The content as one buffer, leaving the rope as it is.
    pub fn to_bytes(&self) -> (r: Vec<u8>)
        ensures
            r@ == self@,
    {
        proof {
            use_type_invariant(self);
        }
        self.head.deep_copy().collapse()
    }

    /// A forward iterator over the bytes, starting at offset 0.
    pub fn iter(&self) -> (r: RopeIterator<'_>)
        ensures
            r.source() == self@,
            r.position() == 0,
    {
        RopeIterator { rope: self, index: 0 }
    }
}

impl Clone for Rope {
    /// A deep copy: no content is shared with `self`.
    fn clone(&self) -> (r: Self)
        ensures
            r@ == self@,
    {
        proof {
            use_type_invariant(self);
        }
        Rope { head: Box::new(self.head.deep_copy()) }
    }
}

/// A forward cursor over the bytes of a rope.
pub struct RopeIterator<'a> {
    rope: &'a Rope,
    index: usize,
}

impl<'a> RopeIterator<'a> {
    /// The bytes that this iterator walks over.
    pub closed spec fn source(&self) -> Seq<u8> {
        self.rope@
    }

    /// The offset of the next byte to be read.
    pub closed spec fn position(&self) -> int {
        self.index as int
    }

    /// The bytes still to come.
    pub open spec fn remaining(&self) -> Seq<u8> {
        if self.position() < self.source().len() {
            self.source().skip(self.position())
        } else {
            Seq::empty()
        }
    }

    /// The next byte, or `None` once every byte has been read.
    pub fn next(&mut self) -> (r: Option<u8>)
        ensures
            final(self).source() == old(self).source(),
            old(self).position() < old(self).source().len() ==> r == Some(
                old(self).source()[old(self).position()],
            ) && final(self).position() == old(self).position() + 1,
            old(self).position() >= old(self).source().len() ==> r is None && final(self).position()
                == old(self).position(),
    {
        if self.index < self.rope.len() {
            match self.rope.byte_at(self.index) {
                Ok(v) => {
                    self.index = self.index + 1;
                    Some(v)
                },
                Err(_) => None,
            }
        } else {
            None
        }
    }

    /// Reads every byte still to come, in order; afterwards `next` returns `None`.
    pub fn rest(&mut self) -> (r: Vec<u8>)
        ensures
            r@ == old(self).remaining(),
            final(self).source() == old(self).source(),
            final(self).position() >= final(self).source().len(),
    {
        let mut out: Vec<u8> = Vec::new();
        loop
            invariant
                self.source() == old(self).source(),
                old(self).position() <= self.position() <= self.source().len() || (
                    self.position() == old(self).position() && out@.len() == 0),
                out@ + self.remaining() == old(self).remaining(),
            decreases self.source().len() - self.position(),
        {
            let ghost before = self.remaining();
            match self.next() {
                Some(b) => {
                    assert(before == seq![b] + self.remaining());
                    out.push(b);
                },
                None => {
                    assert(self.remaining() =~= Seq::<u8>::empty());
                    return out;
                },
            }
        }
    }
}

/// The content that a flat buffer holds after `edits` are applied to it in order, starting
/// empty: each edit puts its bytes in at its offset.
pub open spec fn replay(edits: Seq<(int, Seq<u8>)>) -> Seq<u8>
    decreases edits.len(),
{
    if edits.len() == 0 {
        Seq::empty()
    } else {
        splice(replay(edits.drop_last()), edits.last().0, edits.last().1)
    }
}

/// Each edit's offset lies within the content that the edits before it leave.
pub open spec fn edits_in_range(edits: Seq<(int, Seq<u8>)>) -> bool {
    forall|k: int|
        0 <= k < edits.len() ==> 0 <= #[trigger] edits[k].0 <= replay(edits.take(k)).len()
}

/// The number of bytes that `edits` put in, all together.
pub open spec fn inserted_total(edits: Seq<(int, Seq<u8>)>) -> int
    decreases edits.len(),
{
    if edits.len() == 0 {
        0
    } else {
        inserted_total(edits.drop_last()) + edits.last().1.len()
    }
}

/// After any sequence of insertions into an empty buffer, the length is the number of bytes
/// inserted.
pub proof fn lemma_length_is_total_inserted(edits: Seq<(int, Seq<u8>)>)
    requires
        edits_in_range(edits),
    ensures
        replay(edits).len() == inserted_total(edits),
    decreases edits.len(),
{
    if edits.len() > 0 {
        let prefix = edits.drop_last();
        assert forall|k: int| 0 <= k < prefix.len() implies 0 <= #[trigger] prefix[k].0 <= replay(
            prefix.take(k),
        ).len() by {
            assert(prefix.take(k) == edits.take(k));
            assert(prefix[k] == edits[k]);
        }
        lemma_length_is_total_inserted(prefix);
        assert(edits.take(edits.len() - 1) == prefix);
        assert(edits[edits.len() - 1] == edits.last());
    }
}

/// A rope that starts empty and takes the same insertions, in the same order, as a flat
/// buffer holds the same bytes as the buffer after each of them, and so the same length and
/// the same byte at every offset. `history[k]` is the rope's content after `k` insertions, as
/// the contract of `Rope::insert_bytes` gives it.
pub proof fn lemma_rope_matches_flat_buffer(
    history: Seq<Seq<u8>>,
    edits: Seq<(int, Seq<u8>)>,
)
    requires
        history.len() == edits.len() + 1,
        history[0] == Seq::<u8>::empty(),
        edits_in_range(edits),
        forall|k: int|
            0 <= k < edits.len() ==> #[trigger] history[k + 1] == splice(
                history[k],
                edits[k].0,
                edits[k].1,
            ),
    ensures
        history.last() == replay(edits),
        history.last().len() == inserted_total(edits),
        forall|i: int| 0 <= i < history.last().len() ==> history.last()[i] == replay(edits)[i],
    decreases edits.len(),
{
    if edits.len() > 0 {
        let prefix = edits.drop_last();
        let earlier = history.drop_last();
        assert forall|k: int| 0 <= k < prefix.len() implies 0 <= #[trigger] prefix[k].0 <= replay(
            prefix.take(k),
        ).len() by {
            assert(prefix.take(k) == edits.take(k));
            assert(prefix[k] == edits[k]);
        }
        assert forall|k: int| 0 <= k < prefix.len() implies #[trigger] earlier[k + 1] == splice(
            earlier[k],
            prefix[k].0,
            prefix[k].1,
        ) by {
            assert(history[k + 1] == splice(history[k], edits[k].0, edits[k].1));
        }
        lemma_rope_matches_flat_buffer(earlier, prefix);
        let n = edits.len() - 1;
        assert(history[n + 1] == splice(history[n], edits[n].0, edits[n].1));
    }
    lemma_length_is_total_inserted(edits);
}

/// In a trunk, the offset where the first child ends holds the second child's first byte.
pub proof fn lemma_boundary_in_second_child(t: RopeTrunkNode)
    requires
        t.child1@.len() > 0,
    ensures
        RopeNode::Trunk(t)@[t.child0@.len() as int] == t.child1@[0],
{
}

/// Two iterators freshly made over the same rope walk the same bytes: all of the rope's
/// content, in order, and nothing more.
pub proof fn lemma_fresh_iterators_agree(a: RopeIterator, b: RopeIterator)
    requires
        a.source() == b.source(),
        a.position() == 0,
        b.position() == 0,
    ensures
        a.remaining() == b.remaining(),
        a.remaining() == a.source(),
        a.remaining().len() == a.source().len(),
{
    if a.source().len() == 0 {
        assert(a.source() =~= Seq::<u8>::empty());
    } else {
        assert(a.source().skip(0) =~= a.source());
    }
}

} // verus!
