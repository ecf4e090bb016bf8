//! The rope node itself: a binary tree that is at each moment either a leaf
//! holding a literal chunk of text or an internal node holding two child
//! sub-ropes, together with the self-adjustment rule that keeps every leaf
//! small and every internal node worth its bookkeeping.

use vstd::prelude::*;

use crate::units::{append_range, copy_range, insert_text, remove_range, substring_text};

verus! {

/// A leaf holding more than this many units is split in two by `adjust`.
pub const SPLIT_LENGTH: usize = 1000;

/// An internal node representing fewer than this many units collapses back
/// into a single leaf in `adjust`.
pub const JOIN_LENGTH: usize = 500;

enum Node {
    Leaf(Vec<char>),
    Internal(Box<ComponentRope>, Box<ComponentRope>),
}

/// A rope node, which doubles as the public rope handle.  Its view is the
/// flattened sequence of units its subtree represents.
pub struct ComponentRope {
    length: usize,
    node: Node,
}

impl ComponentRope {
    /// The flattened text this subtree represents: leaf contents
    /// concatenated in left-to-right order.
    pub closed spec fn text(self) -> Seq<char>
        decreases self,
    {
        match self.node {
            Node::Leaf(t) => t@,
            Node::Internal(l, r) => l.text() + r.text(),
        }
    }

    /// `length` caches the exact size of the flattened text, at every node
    /// of the tree.
    pub closed spec fn wf(self) -> bool
        decreases self,
    {
        &&& self.length == self.text().len()
        &&& match self.node {
            Node::Leaf(_) => true,
            Node::Internal(l, r) => l.wf() && r.wf(),
        }
    }

    /// The mode thresholds hold at every node: no leaf is longer than
    /// `SPLIT_LENGTH`, and no internal node represents fewer than
    /// `JOIN_LENGTH` units.
    pub closed spec fn modes_ok(self) -> bool
        decreases self,
    {
        match self.node {
            Node::Leaf(_) => self.length <= SPLIT_LENGTH,
            Node::Internal(l, r) => self.length >= JOIN_LENGTH && l.modes_ok() && r.modes_ok(),
        }
    }

    /// Well-formedness: established by the constructor and preserved by
    /// every public operation.
    pub closed spec fn inv(self) -> bool {
        self.wf() && self.modes_ok()
    }

    /// Whether this node is in leaf mode.
    pub closed spec fn spec_is_leaf(self) -> bool {
        self.node is Leaf
    }

    /// At every internal node of the tree the children sizes are within a
    /// ratio of six fifths of one another.
    pub closed spec fn balanced(self) -> bool
        decreases self,
    {
        match self.node {
            Node::Leaf(_) => true,
            Node::Internal(l, r) => 5 * l.length <= 6 * r.length && 5 * r.length <= 6 * l.length
                && l.balanced() && r.balanced(),
        }
    }

    /// A well-formed rope that is shorter than the join threshold is a
    /// leaf, and one longer than the split threshold is an internal node.
    pub proof fn lemma_mode_thresholds(self)
        requires
            self.inv(),
        ensures
            self.text().len() < JOIN_LENGTH ==> self.spec_is_leaf(),
            self.text().len() > SPLIT_LENGTH ==> !self.spec_is_leaf(),
    {
    }

    /// Wraps `text` as a rope.  Text longer than `SPLIT_LENGTH` is split at
    /// its midpoint, recursively, so the result is immediately adjusted and
    /// balanced.
    pub fn new(text: Vec<char>) -> (rope: Self)
        ensures
            rope.inv(),
            rope.balanced(),
            rope.text() == text@,
            rope.spec_is_leaf() <==> text@.len() <= SPLIT_LENGTH,
        decreases text@.len(),
    {
        let n: usize = text.len();
        if n <= SPLIT_LENGTH {
            ComponentRope { length: n, node: Node::Leaf(text) }
        } else {
            let divide: usize = n / 2;
            let left_text = copy_range(&text, 0, divide);
            let right_text = copy_range(&text, divide, n);
            let left = Self::new(left_text);
            let right = Self::new(right_text);
            let rope = ComponentRope {
                length: n,
                node: Node::Internal(Box::new(left), Box::new(right)),
            };
            proof {
                assert(rope.text() =~= text@);
            }
            rope
        }
    }
    /// The children of an internal node are themselves well-formed ropes;
    /// a leaf has no such obligation.  This is what a mutation leaves
    /// standing just before the node re-adjusts itself.
    spec fn children_ok(self) -> bool {
        match self.node {
            Node::Leaf(_) => true,
            Node::Internal(l, r) => l.inv() && r.inv(),
        }
    }

    /// The total size of the text this rope represents.
    pub fn len(&self) -> (n: usize)
        requires
            self.inv(),
        ensures
            n == self@.len(),
    {
        self.length
    }

    /// Whether this node is in leaf mode.
    pub fn is_leaf(&self) -> (b: bool)
        ensures
            b == self.spec_is_leaf(),
    {
        match &self.node {
            Node::Leaf(_) => true,
            Node::Internal(_, _) => false,
        }
    }

    /// Materializes the full flattened text, concatenating leaf contents
    /// in left-to-right order.
    pub fn flatten(&self) -> (r: Vec<char>)
        ensures
            r@ == self@,
        decreases *self,
    {
        match &self.node {
            Node::Leaf(t) => {
                let r = copy_range(t, 0, t.len());
                proof {
                    assert(t@.subrange(0, t@.len() as int) =~= t@);
                }
                r
            }
            Node::Internal(l, r) => {
                let mut a = l.flatten();
                let mut b = r.flatten();
                a.append(&mut b);
                a
            }
        }
    }

    /// Restores the mode thresholds at this node after a mutation: an
    /// oversized leaf is split, an undersized internal node is joined back
    /// into a leaf, and any other node is left as it is.  The flattened
    /// text never changes.
    fn adjust(self) -> (r: Self)
        requires
            self.wf(),
            self.children_ok(),
        ensures
            r.inv(),
            r.text() == self.text(),
    {
        let ghost g = self;
        let ComponentRope { length, node } = self;
        match node {
            Node::Leaf(t) => {
                if length > SPLIT_LENGTH {
                    Self::new(t)
                } else {
                    ComponentRope { length, node: Node::Leaf(t) }
                }
            }
            Node::Internal(left, right) => {
                if length < JOIN_LENGTH {
                    let mut t = left.flatten();
                    let mut t2 = right.flatten();
                    t.append(&mut t2);
                    ComponentRope { length, node: Node::Leaf(t) }
                } else {
                    ComponentRope { length, node: Node::Internal(left, right) }
                }
            }
        }
    }
    /// Recursive insertion on an owned subtree.  A leaf splices the new
    /// text directly; an internal node routes the position to the left
    /// child when it falls strictly inside it and to the right child
    /// otherwise, so insertion at a split point always lands in the right
    /// subtree.
    fn insert_rec(self, position: usize, value: &Vec<char>) -> (r: Self)
        requires
            self.inv(),
            position <= self.text().len(),
            self.text().len() + value@.len() <= usize::MAX,
        ensures
            r.inv(),
            r.text() == insert_text(self.text(), position as int, value@),
        decreases self,
    {
        let ghost g = self;
        let ComponentRope { length, node } = self;
        match node {
            Node::Leaf(t) => {
                let mut out: Vec<char> = Vec::new();
                append_range(&mut out, &t, 0, position);
                append_range(&mut out, value, 0, value.len());
                append_range(&mut out, &t, position, t.len());
                let n: usize = out.len();
                let spliced = ComponentRope { length: n, node: Node::Leaf(out) };
                proof {
                    assert(spliced.text() =~= insert_text(g.text(), position as int, value@));
                }
                spliced.adjust()
            }
            Node::Internal(left, right) => {
                let l: ComponentRope = *left;
                let r_child: ComponentRope = *right;
                let ghost lt = l.text();
                let ghost rt = r_child.text();
                let left_length: usize = l.length;
                proof {
                    assert(g.text() == lt + rt);
                    assert(l.inv() && r_child.inv());
                    assert(l.length == lt.len() && r_child.length == rt.len());
                }
                if position < left_length {
                    let l2 = l.insert_rec(position, value);
                    let n: usize = l2.length + r_child.length;
                    let grown = ComponentRope {
                        length: n,
                        node: Node::Internal(Box::new(l2), Box::new(r_child)),
                    };
                    proof {
                        assert(grown.text() =~= insert_text(g.text(), position as int, value@));
                    }
                    grown.adjust()
                } else {
                    let r2 = r_child.insert_rec(position - left_length, value);
                    let n: usize = l.length + r2.length;
                    let grown = ComponentRope {
                        length: n,
                        node: Node::Internal(Box::new(l), Box::new(r2)),
                    };
                    proof {
                        assert(grown.text() =~= insert_text(g.text(), position as int, value@));
                    }
                    grown.adjust()
                }
            }
        }
    }

    /// Inserts `value` so that it begins at offset `position` of the
    /// flattened text.  A position beyond the end of the rope is a
    /// precondition violation: mutation offsets are never silently
    /// corrected.
    pub fn insert(&mut self, position: usize, value: &Vec<char>)
        requires
            old(self).inv(),
            position <= old(self)@.len(),
            old(self)@.len() + value@.len() <= usize::MAX,
        ensures
            final(self).inv(),
            final(self)@ == insert_text(old(self)@, position as int, value@),
    {
        let mut tmp = ComponentRope { length: 0, node: Node::Leaf(Vec::new()) };
        core::mem::swap(self, &mut tmp);
        *self = tmp.insert_rec(position, value);
    }
    /// Recursive removal on an owned subtree.  An internal node clamps the
    /// range to each child's local span and recurses only into a child
    /// whose clamped range is non-empty.
    fn remove_rec(self, start: usize, end: usize) -> (r: Self)
        requires
            self.inv(),
            start <= end,
            end <= self.text().len(),
        ensures
            r.inv(),
            r.text() == remove_range(self.text(), start as int, end as int),
        decreases self,
    {
        let ghost g = self;
        let ComponentRope { length, node } = self;
        match node {
            Node::Leaf(t) => {
                let mut out: Vec<char> = Vec::new();
                append_range(&mut out, &t, 0, start);
                append_range(&mut out, &t, end, t.len());
                let n: usize = out.len();
                let spliced = ComponentRope { length: n, node: Node::Leaf(out) };
                proof {
                    assert(spliced.text() =~= remove_range(g.text(), start as int, end as int));
                }
                spliced.adjust()
            }
            Node::Internal(left, right) => {
                let l: ComponentRope = *left;
                let r_child: ComponentRope = *right;
                let ghost lt = l.text();
                let ghost rt = r_child.text();
                let left_length: usize = l.length;
                let right_length: usize = r_child.length;
                proof {
                    assert(g.text() == lt + rt);
                    assert(l.inv() && r_child.inv());
                    assert(l.length == lt.len() && r_child.length == rt.len());
                }
                let left_start: usize = if start < left_length { start } else { left_length };
                let left_end: usize = if end < left_length { end } else { left_length };
                let right_start_raw: usize = if start > left_length { start - left_length } else { 0 };
                let right_end_raw: usize = if end > left_length { end - left_length } else { 0 };
                let right_start: usize =
                    if right_start_raw < right_length { right_start_raw } else { right_length };
                let right_end: usize =
                    if right_end_raw < right_length { right_end_raw } else { right_length };
                let l2 = if left_start < left_length {
                    l.remove_rec(left_start, left_end)
                } else {
                    l
                };
                let r2 = if right_end > 0 {
                    r_child.remove_rec(right_start, right_end)
                } else {
                    r_child
                };
                proof {
                    assert(l2.text() =~= lt.take(left_start as int) + lt.skip(left_end as int));
                    assert(r2.text() =~= rt.take(right_start as int) + rt.skip(right_end as int));
                }
                let n: usize = l2.length + r2.length;
                let shrunk = ComponentRope {
                    length: n,
                    node: Node::Internal(Box::new(l2), Box::new(r2)),
                };
                proof {
                    assert(shrunk.text() =~= remove_range(g.text(), start as int, end as int));
                }
                shrunk.adjust()
            }
        }
    }

    /// Removes the half-open range `[start, end)` from the flattened text.
    /// An inverted or out-of-range pair is a precondition violation:
    /// mutation offsets are never silently corrected.
    pub fn remove(&mut self, start: usize, end: usize)
        requires
            old(self).inv(),
            start <= end,
            end <= old(self)@.len(),
        ensures
            final(self).inv(),
            final(self)@ == remove_range(old(self)@, start as int, end as int),
    {
        let mut tmp = ComponentRope { length: 0, node: Node::Leaf(Vec::new()) };
        core::mem::swap(self, &mut tmp);
        *self = tmp.remove_rec(start, end);
    }
    /// Flattens the whole subtree into a single leaf and re-adjusts it,
    /// regardless of the join threshold.  On a leaf this is a no-op.  The
    /// flattened text never changes, and the result is maximally shallow:
    /// a leaf exactly when the text fits within the split threshold.
    pub fn rebuild(&mut self)
        requires
            old(self).inv(),
        ensures
            final(self).inv(),
            final(self).balanced(),
            final(self)@ == old(self)@,
            final(self).spec_is_leaf() <==> final(self)@.len() <= SPLIT_LENGTH,
    {
        if !self.is_leaf() {
            let flat = self.flatten();
            *self = Self::new(flat);
        }
    }

    /// Recursive rebalancing on an owned subtree: a node whose children
    /// sizes differ by more than a ratio of six fifths is rebuilt in one
    /// shot; otherwise both children are rebalanced independently.
    fn rebalance_rec(self) -> (r: Self)
        requires
            self.inv(),
        ensures
            r.inv(),
            r.balanced(),
            r.text() == self.text(),
        decreases self,
    {
        let ghost g = self;
        let ComponentRope { length, node } = self;
        match node {
            Node::Leaf(t) => ComponentRope { length, node: Node::Leaf(t) },
            Node::Internal(left, right) => {
                let left_length: usize = left.length;
                let right_length: usize = right.length;
                if (left_length as u128) * 5 > (right_length as u128) * 6
                    || (right_length as u128) * 5 > (left_length as u128) * 6 {
                    let whole = ComponentRope { length, node: Node::Internal(left, right) };
                    let flat = whole.flatten();
                    Self::new(flat)
                } else {
                    let l: ComponentRope = *left;
                    let r_child: ComponentRope = *right;
                    proof {
                        assert(l.inv() && r_child.inv());
                    }
                    let l2 = l.rebalance_rec();
                    let r2 = r_child.rebalance_rec();
                    ComponentRope { length, node: Node::Internal(Box::new(l2), Box::new(r2)) }
                }
            }
        }
    }

    /// Restores depth balance: after the call, the children of every
    /// internal node in the tree are within a size ratio of six fifths of
    /// one another.  The flattened text never changes.
    pub fn rebalance(&mut self)
        requires
            old(self).inv(),
        ensures
            final(self).inv(),
            final(self).balanced(),
            final(self)@ == old(self)@,
    {
        let mut tmp = ComponentRope { length: 0, node: Node::Leaf(Vec::new()) };
        core::mem::swap(self, &mut tmp);
        *self = tmp.rebalance_rec();
    }
    /// Recursive range read over already-validated unit offsets.  An
    /// internal node clamps the range to each child's local span, reads
    /// each side whose clamped range is non-empty, and concatenates.
    fn substring_units(&self, start: usize, end: usize) -> (r: Vec<char>)
        requires
            self.inv(),
            start <= end,
            end <= self@.len(),
        ensures
            r@ == self@.subrange(start as int, end as int),
        decreases *self,
    {
        match &self.node {
            Node::Leaf(t) => copy_range(t, start, end),
            Node::Internal(l, r_child) => {
                let ghost lt = l.text();
                let ghost rt = r_child.text();
                let left_length: usize = l.length;
                let right_length: usize = r_child.length;
                proof {
                    assert(self@ == lt + rt);
                    assert(l.inv() && r_child.inv());
                    assert(l.length == lt.len() && r_child.length == rt.len());
                }
                let left_start: usize = if start < left_length { start } else { left_length };
                let left_end: usize = if end < left_length { end } else { left_length };
                let right_start_raw: usize = if start > left_length { start - left_length } else { 0 };
                let right_end_raw: usize = if end > left_length { end - left_length } else { 0 };
                let right_start: usize =
                    if right_start_raw < right_length { right_start_raw } else { right_length };
                let right_end: usize =
                    if right_end_raw < right_length { right_end_raw } else { right_length };
                let ghost goal = self@.subrange(start as int, end as int);
                if left_start < left_end && right_start < right_end {
                    let mut a = l.substring_units(left_start, left_end);
                    let mut b = r_child.substring_units(right_start, right_end);
                    a.append(&mut b);
                    proof {
                        assert(a@ =~= goal);
                    }
                    a
                } else if left_start < left_end {
                    let a = l.substring_units(left_start, left_end);
                    proof {
                        assert(a@ =~= goal);
                    }
                    a
                } else if right_start < right_end {
                    let b = r_child.substring_units(right_start, right_end);
                    proof {
                        assert(b@ =~= goal);
                    }
                    b
                } else {
                    let empty: Vec<char> = Vec::new();
                    proof {
                        assert(empty@ =~= goal);
                    }
                    empty
                }
            }
        }
    }

    /// Returns the flattened text over `[start, end)`, with forgiving
    /// bounds: both endpoints are clamped into the rope, `end` omitted
    /// means the end of the rope, and an inverted range yields the empty
    /// text.  Queries never fail.
    pub fn substring(&self, start: isize, end: Option<isize>) -> (r: Vec<char>)
        requires
            self.inv(),
        ensures
            r@ == substring_text(
                self@,
                start as int,
                match end {
                    Some(e) => e as int,
                    None => self@.len() as int,
                },
            ),
    {
        let n: usize = self.len();
        let s: usize = if start < 0 {
            0
        } else if (start as usize) < n {
            start as usize
        } else {
            n
        };
        let e: usize = match end {
            None => n,
            Some(ev) => if ev < 0 {
                0
            } else if (ev as usize) < n {
                ev as usize
            } else {
                n
            },
        };
        if s <= e {
            self.substring_units(s, e)
        } else {
            Vec::new()
        }
    }

    /// Returns `length` units starting at `start`.  A negative `start`
    /// counts back from the end of the rope, `length` omitted means "to
    /// the end", and a negative `length` yields the empty text.  Queries
    /// never fail.
    pub fn substr(&self, start: isize, length: Option<isize>) -> (r: Vec<char>)
        requires
            self.inv(),
        ensures
            r@ == ({
                let s = if start < 0 {
                    if self@.len() + start > 0 {
                        self@.len() + start
                    } else {
                        0
                    }
                } else {
                    start as int
                };
                let e = match length {
                    None => self@.len() as int,
                    Some(l) => if l < 0 {
                        0
                    } else {
                        s + l
                    },
                };
                substring_text(self@, s, e)
            }),
    {
        let n: usize = self.len();
        let start_wide: i128 = if start < 0 {
            let shifted: i128 = n as i128 + start as i128;
            if shifted > 0 {
                shifted
            } else {
                0
            }
        } else {
            start as i128
        };
        let end_wide: i128 = match length {
            None => n as i128,
            Some(l) => if l < 0 {
                0
            } else {
                start_wide + l as i128
            },
        };
        let s: usize = if start_wide > n as i128 {
            n
        } else {
            start_wide as usize
        };
        let e: usize = if end_wide > n as i128 {
            n
        } else {
            end_wide as usize
        };
        if s <= e {
            self.substring_units(s, e)
        } else {
            Vec::new()
        }
    }

    /// Returns the unit at `position` as a text of length one, or the
    /// empty text when the position lies outside the rope.
    pub fn char_at(&self, position: isize) -> (r: Vec<char>)
        requires
            self.inv(),
        ensures
            r@ == (if 0 <= position && (position as int) < self@.len() {
                seq![self@[position as int]]
            } else {
                Seq::<char>::empty()
            }),
    {
        let n: usize = self.len();
        if position >= 0 && (position as usize) < n {
            let p: usize = position as usize;
            let r = self.substring_units(p, p + 1);
            proof {
                assert(r@ =~= seq![self@[position as int]]);
            }
            r
        } else {
            Vec::new()
        }
    }

    /// Returns the code point of the unit at `position`.  A position that
    /// resolves to no unit is a precondition violation.
    pub fn char_code_at(&self, position: isize) -> (code: u32)
        requires
            self.inv(),
            0 <= position,
            (position as int) < self@.len(),
        ensures
            code == self@[position as int] as u32,
    {
        let unit = self.char_at(position);
        let c: char = unit[0];
        c as u32
    }
}

impl View for ComponentRope {
    type V = Seq<char>;

    open spec fn view(&self) -> Seq<char> {
        self.text()
    }
}

} // verus!
