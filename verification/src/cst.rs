//! A concrete syntax tree, as a MiniZinc parser produces it, held as plain
//! values: each node has its kind, whether it is named, the field under which
//! its parent holds it, its source text and its children in order.
use vstd::prelude::*;
use crate::text::text_eq;

verus! {

/// A node of a concrete syntax tree.
pub struct SyntaxNode {
    /// The grammar symbol of the node, such as `"identifier"` or `","`.
    pub kind: String,
    /// Named nodes stand for grammar rules, anonymous ones for literal tokens.
    pub named: bool,
    /// The field name under which the parent holds this node, if any.
    pub field: Option<String>,
    /// The source text that the node spans.
    pub text: String,
    /// The byte offset in the source where the node starts.
    pub start_byte: usize,
    /// The byte offset in the source where the node ends.
    pub end_byte: usize,
    /// The row and column (in bytes) where the node starts, counting from 0.
    pub start_point: (usize, usize),
    /// The row and column (in bytes) where the node ends, counting from 0.
    pub end_point: (usize, usize),
    /// The children, in source order.
    pub children: Vec<SyntaxNode>,
}

/// Whether the parent of `n` holds it under the field `f`.
pub open spec fn has_field(n: SyntaxNode, f: Seq<char>) -> bool {
    match n.field {
        Some(s) => s@ == f,
        None => false,
    }
}

/// The number of named nodes in `cs`.
pub open spec fn named_count(cs: Seq<SyntaxNode>) -> nat
    decreases cs.len(),
{
    if cs.len() == 0 {
        0
    } else {
        named_count(cs.drop_last()) + if cs.last().named {
            1nat
        } else {
            0nat
        }
    }
}

/// The position in `cs` of its `k`-th named node (counting from 0), or
/// `cs.len()` when there are not that many.
pub open spec fn named_pos(cs: Seq<SyntaxNode>, k: int) -> int
    decreases cs.len(),
{
    if cs.len() == 0 {
        0
    } else if cs[0].named {
        if k == 0 {
            0
        } else {
            1 + named_pos(cs.drop_first(), k - 1)
        }
    } else {
        1 + named_pos(cs.drop_first(), k)
    }
}

/// The position in `cs` of the first node held under the field `f`, or
/// `cs.len()` when there is none.
pub open spec fn field_pos(cs: Seq<SyntaxNode>, f: Seq<char>) -> int
    decreases cs.len(),
{
    if cs.len() == 0 {
        0
    } else if has_field(cs[0], f) {
        0
    } else {
        1 + field_pos(cs.drop_first(), f)
    }
}

/// Counting the named nodes from the front.
pub proof fn lemma_named_count_front(cs: Seq<SyntaxNode>)
    requires
        cs.len() > 0,
    ensures
        named_count(cs) == named_count(cs.drop_first()) + if cs[0].named {
            1nat
        } else {
            0nat
        },
    decreases cs.len(),
{
    if cs.len() > 1 {
        lemma_named_count_front(cs.drop_last());
        assert(cs.drop_last().drop_first() =~= cs.drop_first().drop_last());
        assert(cs.drop_last()[0] == cs[0]);
        assert(cs.drop_first().last() == cs.last());
        assert(named_count(cs.drop_first()) == named_count(cs.drop_first().drop_last()) + if cs.last().named {
            1nat
        } else {
            0nat
        });
    } else {
        assert(cs.drop_last().len() == 0);
        assert(cs.drop_first().len() == 0);
        assert(named_count(cs.drop_last()) == 0);
        assert(named_count(cs.drop_first()) == 0);
        assert(cs.last() == cs[0]);
    }
}

/// The `k`-th named node exists exactly when there are more than `k` named
/// nodes, and it is named.
pub proof fn lemma_named_pos(cs: Seq<SyntaxNode>, k: int)
    requires
        k >= 0,
    ensures
        k < named_count(cs) ==> 0 <= named_pos(cs, k) < cs.len() && cs[named_pos(cs, k)].named,
        k >= named_count(cs) ==> named_pos(cs, k) == cs.len(),
    decreases cs.len(),
{
    if cs.len() > 0 {
        lemma_named_count_front(cs);
        if cs[0].named {
            if k > 0 {
                lemma_named_pos(cs.drop_first(), k - 1);
            }
        } else {
            lemma_named_pos(cs.drop_first(), k);
        }
    }
}

impl SyntaxNode {
    /// Whether the kind of this node is `k`.
    pub fn is_kind(&self, k: &str) -> (b: bool)
        ensures
            b == (self.kind@ == k@),
    {
        text_eq(&self.kind, k)
    }

    /// Whether the parent holds this node under the field `f`.
    pub fn has_field(&self, f: &str) -> (b: bool)
        ensures
            b == has_field(*self, f@),
    {
        match &self.field {
            Some(s) => text_eq(s, f),
            None => false,
        }
    }

    /// The number of children.
    pub fn child_count(&self) -> (r: usize)
        ensures
            r == self.children@.len(),
    {
        self.children.len()
    }

    /// The `i`-th child, if there is one.
    pub fn child(&self, i: usize) -> (r: Option<&SyntaxNode>)
        ensures
            r matches Some(c) ==> i < self.children@.len() && *c == self.children@[i as int],
            r is None ==> i >= self.children@.len(),
    {
        if i < self.children.len() {
            Some(&self.children[i])
        } else {
            None
        }
    }

    /// The number of named children.
    pub fn named_child_count(&self) -> (r: usize)
        ensures
            r == named_count(self.children@),
    {
        let ghost cs = self.children@;
        let mut c: usize = 0;
        let mut i: usize = 0;
        while i < self.children.len()
            invariant
                0 <= i <= cs.len(),
                cs == self.children@,
                c == named_count(cs.take(i as int)),
                c <= i,
            decreases cs.len() - i,
        {
            assert(cs.take(i + 1).drop_last() =~= cs.take(i as int));
            if self.children[i].named {
                c = c + 1;
            }
            i = i + 1;
        }
        assert(cs.take(cs.len() as int) =~= cs);
        c
    }

    /// The `k`-th named child (counting from 0), if there is one.
    pub fn named_child(&self, k: usize) -> (r: Option<&SyntaxNode>)
        ensures
            r matches Some(c) ==> 0 <= named_pos(self.children@, k as int) < self.children@.len()
                && *c == self.children@[named_pos(self.children@, k as int)],
            r is None ==> named_pos(self.children@, k as int) == self.children@.len(),
    {
        let ghost cs = self.children@;
        let mut seen: usize = 0;
        let mut i: usize = 0;
        assert(cs.skip(0) =~= cs);
        while i < self.children.len()
            invariant
                0 <= i <= cs.len(),
                cs == self.children@,
                seen <= k,
                named_pos(cs, k as int) == i + named_pos(cs.skip(i as int), k - seen),
            decreases cs.len() - i,
        {
            assert(cs.skip(i as int).drop_first() =~= cs.skip(i + 1));
            assert(cs.skip(i as int)[0] == cs[i as int]);
            if self.children[i].named {
                if seen == k {
                    return Some(&self.children[i]);
                }
                seen = seen + 1;
            }
            i = i + 1;
        }
        assert(cs.skip(cs.len() as int).len() == 0);
        None
    }

    /// The first child held under the field `f`, if there is one.
    pub fn child_by_field_name(&self, f: &str) -> (r: Option<&SyntaxNode>)
        ensures
            r matches Some(c) ==> 0 <= field_pos(self.children@, f@) < self.children@.len()
                && *c == self.children@[field_pos(self.children@, f@)],
            r is None ==> field_pos(self.children@, f@) == self.children@.len(),
    {
        let ghost cs = self.children@;
        let mut i: usize = 0;
        assert(cs.skip(0) =~= cs);
        while i < self.children.len()
            invariant
                0 <= i <= cs.len(),
                cs == self.children@,
                field_pos(cs, f@) == i + field_pos(cs.skip(i as int), f@),
            decreases cs.len() - i,
        {
            assert(cs.skip(i as int).drop_first() =~= cs.skip(i + 1));
            assert(cs.skip(i as int)[0] == cs[i as int]);
            if self.children[i].has_field(f) {
                return Some(&self.children[i]);
            }
            i = i + 1;
        }
        assert(cs.skip(cs.len() as int).len() == 0);
        None
    }
}

} // verus!
