//! A generic boolean-expression tree built incrementally from a token stream.
//!
//! The tree is grown left to right by pushing operators, atoms and
//! parentheses; the insertion point is kept as a stack of still-open
//! enclosing nodes ([`Frame`]) under the current node. Leaves are stored in
//! a side vector of atoms and referenced by index, so that the atom
//! currently being accumulated can be extended character by character (see
//! [`BeTree::push_atom_char`]).
//!
//! Construction never fails: unmatched parentheses and misplaced tokens
//! produce a tree whose evaluation may yield an arity error, but building
//! is total. Each operation's contract states the exact transition on the
//! tree's abstract state ([`BuildState`]).

use vstd::prelude::*;

verus! {

/// The kind of the last token pushed: it decides whether an operator is
/// unary or binary, and whether atom text extends the previous atom.
#[derive(Clone, Copy, Debug, PartialEq, Eq, Structural)]
pub enum LastToken {
    Nothing,
    Atom,
    Operator,
    OpeningPar,
    ClosingPar,
}

/// One child slot of a tree node: empty, a leaf (an index into the atom
/// vector), or a nested subtree.
#[derive(Debug)]
pub enum Child<Op> {
    Empty,
    Leaf(usize),
    Branch(Box<Node<Op>>),
}

/// A tree node: an optional operator applied to up to two children. `unary`
/// marks an operator pushed in prefix position, which takes its single
/// operand on the left.
#[derive(Debug)]
pub struct Node<Op> {
    pub op: Option<Op>,
    pub unary: bool,
    pub left: Child<Op>,
    pub right: Child<Op>,
}

/// An enclosing node still open for insertion. `open_right` tells on which
/// side the subtree being built below will be attached when this node is
/// closed: the right slot if the left one was already occupied when the
/// subtree was opened, the left slot otherwise.
#[derive(Debug)]
pub struct Frame<Op> {
    pub node: Node<Op>,
    pub open_right: bool,
}

/// An expression tree under construction, generic over the operator type
/// `Op` and the atom (leaf) type `A`.
#[derive(Debug)]
pub struct BeTree<Op, A> {
    pub atoms: Vec<A>,
    pub parents: Vec<Frame<Op>>,
    pub cur: Node<Op>,
    pub last: LastToken,
}

/// The abstract state of a tree under construction, with atoms abstracted
/// to their deep views.
#[verifier::ext_equal]
pub ghost struct BuildState<Op, V> {
    pub atoms: Seq<V>,
    pub parents: Seq<Frame<Op>>,
    pub cur: Node<Op>,
    pub last: LastToken,
}

impl<Op, A: DeepView> View for BeTree<Op, A> {
    type V = BuildState<Op, A::V>;

    open spec fn view(&self) -> BuildState<Op, A::V> {
        BuildState {
            atoms: self.atoms.deep_view(),
            parents: self.parents@,
            cur: self.cur,
            last: self.last,
        }
    }
}

pub open spec fn empty_node<Op>() -> Node<Op> {
    Node { op: None, unary: false, left: Child::Empty, right: Child::Empty }
}

/// A node is full when no further child can be attached to it directly: a
/// unary node needs only its left operand, a binary one both.
pub open spec fn node_is_full<Op>(n: Node<Op>) -> bool {
    if n.unary {
        !(n.left is Empty)
    } else {
        !(n.right is Empty)
    }
}

/// The state of a freshly created tree.
pub open spec fn init_state<Op, V>() -> BuildState<Op, V> {
    BuildState {
        atoms: Seq::empty(),
        parents: Seq::empty(),
        cur: empty_node(),
        last: LastToken::Nothing,
    }
}

/// Attach leaf `idx` to the nearest enclosing node (topmost frame first)
/// whose right slot is free; if every right slot is taken, the stack is
/// unchanged and the leaf stays outside the tree.
pub open spec fn spec_fill_right<Op>(parents: Seq<Frame<Op>>, idx: usize) -> Seq<Frame<Op>>
    decreases parents.len(),
{
    if parents.len() == 0 {
        parents
    } else {
        let f = parents.last();
        if !f.open_right && f.node.right is Empty {
            parents.update(
                parents.len() - 1,
                Frame { node: Node { right: Child::Leaf(idx), ..f.node }, ..f },
            )
        } else {
            spec_fill_right(parents.drop_last(), idx).push(f)
        }
    }
}

/// Transition for pushing one whole atom: it becomes the current node's
/// left child if that is free, then its right child, and otherwise fills
/// the nearest free right slot of an enclosing node.
pub open spec fn spec_push_atom<Op, V>(st: BuildState<Op, V>, v: V) -> BuildState<Op, V> {
    let idx = st.atoms.len() as usize;
    let atoms2 = st.atoms.push(v);
    if st.cur.left is Empty {
        BuildState {
            atoms: atoms2,
            cur: Node { left: Child::Leaf(idx), ..st.cur },
            last: LastToken::Atom,
            ..st
        }
    } else if st.cur.right is Empty {
        BuildState {
            atoms: atoms2,
            cur: Node { right: Child::Leaf(idx), ..st.cur },
            last: LastToken::Atom,
            ..st
        }
    } else {
        BuildState {
            atoms: atoms2,
            parents: spec_fill_right(st.parents, idx),
            last: LastToken::Atom,
            ..st
        }
    }
}

/// Transition for pushing an operator. After an atom or a closing
/// parenthesis the operator is binary: it either completes the current
/// node or wraps it as the left operand of a new node. Anywhere else it is
/// unary and opens a new node below the current one.
pub open spec fn spec_push_operator<Op, V>(st: BuildState<Op, V>, op: Op) -> BuildState<Op, V> {
    if st.last is Atom || st.last is ClosingPar {
        if !node_is_full(st.cur) {
            BuildState { cur: Node { op: Some(op), ..st.cur }, last: LastToken::Operator, ..st }
        } else {
            BuildState {
                cur: Node {
                    op: Some(op),
                    unary: false,
                    left: Child::Branch(Box::new(st.cur)),
                    right: Child::Empty,
                },
                last: LastToken::Operator,
                ..st
            }
        }
    } else {
        BuildState {
            parents: st.parents.push(Frame { node: st.cur, open_right: !(st.cur.left is Empty) }),
            cur: Node { op: Some(op), unary: true, left: Child::Empty, right: Child::Empty },
            last: LastToken::Operator,
            ..st
        }
    }
}

/// Transition for an opening parenthesis: the current node is pushed on
/// the stack and a fresh node becomes the insertion point.
pub open spec fn spec_open_par<Op, V>(st: BuildState<Op, V>) -> BuildState<Op, V> {
    BuildState {
        parents: st.parents.push(Frame { node: st.cur, open_right: !(st.cur.left is Empty) }),
        cur: empty_node(),
        last: LastToken::OpeningPar,
        ..st
    }
}

/// Transition for a closing parenthesis: the current node is attached to
/// the enclosing one, which becomes the insertion point again. A closing
/// parenthesis with no enclosing node is ignored.
pub open spec fn spec_close_par<Op, V>(st: BuildState<Op, V>) -> BuildState<Op, V> {
    if st.parents.len() == 0 {
        BuildState { last: LastToken::ClosingPar, ..st }
    } else {
        let f = st.parents.last();
        let merged = if f.open_right {
            Node { right: Child::Branch(Box::new(st.cur)), ..f.node }
        } else {
            Node { left: Child::Branch(Box::new(st.cur)), ..f.node }
        };
        BuildState {
            parents: st.parents.drop_last(),
            cur: merged,
            last: LastToken::ClosingPar,
            ..st
        }
    }
}

/// Transition for one character of atom text: it extends the atom pushed
/// last, or starts a new empty atom first if the last token was not atom
/// text.
pub open spec fn spec_push_atom_char<Op>(st: BuildState<Op, Seq<char>>, c: char) -> BuildState<
    Op,
    Seq<char>,
> {
    let st1 = if !(st.last is Atom) {
        spec_push_atom(st, Seq::empty())
    } else {
        st
    };
    BuildState { atoms: st1.atoms.update(st1.atoms.len() - 1, st1.atoms.last().push(c)), ..st1 }
}

/// The finished tree: the current node attached upward through every frame
/// still open, as if the missing closing parentheses were supplied.
pub open spec fn spec_root<Op, V>(st: BuildState<Op, V>) -> Node<Op>
    decreases st.parents.len(),
{
    if st.parents.len() == 0 {
        st.cur
    } else {
        spec_root(spec_close_par(st))
    }
}

/// Every leaf index in the child refers into an atom vector of length `m`.
pub open spec fn child_wf<Op>(c: Child<Op>, m: nat) -> bool
    decreases c,
{
    match c {
        Child::Empty => true,
        Child::Leaf(i) => (i as nat) < m,
        Child::Branch(b) => node_wf(*b, m),
    }
}

/// Every leaf index in the node's subtree refers into an atom vector of
/// length `m`.
pub open spec fn node_wf<Op>(n: Node<Op>, m: nat) -> bool
    decreases n,
{
    child_wf(n.left, m) && child_wf(n.right, m)
}

/// Well-formedness of a tree under construction: all leaf indices are in
/// bounds, and an atom is available for extension whenever the last token
/// was atom text.
pub open spec fn state_wf<Op, V>(st: BuildState<Op, V>) -> bool {
    &&& node_wf(st.cur, st.atoms.len())
    &&& forall|i: int|
        0 <= i < st.parents.len() ==> node_wf(#[trigger] st.parents[i].node, st.atoms.len())
    &&& (st.last is Atom ==> st.atoms.len() > 0)
}

pub proof fn lemma_child_wf_mono<Op>(c: Child<Op>, m1: nat, m2: nat)
    requires
        child_wf(c, m1),
        m1 <= m2,
    ensures
        child_wf(c, m2),
    decreases c,
{
    match c {
        Child::Empty => {}
        Child::Leaf(_) => {}
        Child::Branch(b) => {
            lemma_child_wf_mono(b.left, m1, m2);
            lemma_child_wf_mono(b.right, m1, m2);
        }
    }
}

pub proof fn lemma_node_wf_mono<Op>(n: Node<Op>, m1: nat, m2: nat)
    requires
        node_wf(n, m1),
        m1 <= m2,
    ensures
        node_wf(n, m2),
{
    lemma_child_wf_mono(n.left, m1, m2);
    lemma_child_wf_mono(n.right, m1, m2);
}

impl<Op: Copy> Clone for Child<Op> {
    /// An equal child: leaves and nested nodes are reproduced exactly.
    fn clone(&self) -> (r: Self)
        ensures
            r == *self,
        decreases *self,
    {
        match self {
            Child::Empty => Child::Empty,
            Child::Leaf(i) => Child::Leaf(*i),
            Child::Branch(b) => Child::Branch(Box::new((**b).clone())),
        }
    }
}

impl<Op: Copy> Clone for Node<Op> {
    /// An equal node: operator, arity mark and both children are kept.
    fn clone(&self) -> (r: Self)
        ensures
            r == *self,
        decreases *self,
    {
        Node { op: self.op, unary: self.unary, left: self.left.clone(), right: self.right.clone() }
    }
}

/// Relies on `String::push` from std: appends the given character to the
/// end of the string.
#[verifier::external_body]
fn string_push_char(s: &mut String, c: char)
    ensures
        final(s)@ == old(s)@.push(c),
{
    s.push(c);
}

impl<Op, A: DeepView> BeTree<Op, A> {
    /// Create an empty tree, ready to receive tokens.
    pub fn new() -> (r: Self)
        ensures
            r@ == init_state::<Op, A::V>(),
            state_wf(r@),
    {
        let r = BeTree {
            atoms: Vec::new(),
            parents: Vec::new(),
            cur: Node { op: None, unary: false, left: Child::Empty, right: Child::Empty },
            last: LastToken::Nothing,
        };
        proof {
            assert(r@ =~= init_state::<Op, A::V>());
        }
        r
    }

    /// Append a complete atom at the current insertion point.
    pub fn push_atom(&mut self, atom: A)
        requires
            state_wf(old(self)@),
        ensures
            final(self)@ == spec_push_atom(old(self)@, atom.deep_view()),
            state_wf(final(self)@),
    {
        let ghost m0 = old(self)@.atoms.len();
        let ghost v = atom.deep_view();
        let idx: usize = self.atoms.len();
        self.atoms.push(atom);
        self.last = LastToken::Atom;
        proof {
            assert(self@.atoms =~= old(self)@.atoms.push(v));
            lemma_node_wf_mono(self.cur, m0, self@.atoms.len());
            assert forall|i: int| 0 <= i < self.parents@.len() implies node_wf(
                #[trigger] self.parents@[i].node,
                self@.atoms.len(),
            ) by {
                lemma_node_wf_mono(self.parents@[i].node, m0, self@.atoms.len());
            }
        }
        let ghost m = self@.atoms.len();
        if matches!(self.cur.left, Child::Empty) {
            self.cur.left = Child::Leaf(idx);
            proof {
                assert(self@ =~= spec_push_atom(old(self)@, v));
            }
        } else if matches!(self.cur.right, Child::Empty) {
            self.cur.right = Child::Leaf(idx);
            proof {
                assert(self@ =~= spec_push_atom(old(self)@, v));
            }
        } else {
            let mut j: usize = self.parents.len();
            proof {
                assert(self.parents@.take(j as int) =~= self.parents@);
                assert(self.parents@.skip(j as int) =~= Seq::<Frame<Op>>::empty());
                assert(spec_fill_right(self.parents@.take(j as int), idx)
                    + self.parents@.skip(j as int) =~= spec_fill_right(self.parents@, idx));
            }
            #[verifier::loop_isolation(false)]
            loop
                invariant
                    j <= self.parents.len(),
                    self@.atoms == old(self)@.atoms.push(v),
                    self.parents@ == old(self)@.parents,
                    self.cur == old(self)@.cur,
                    self.last is Atom,
                    !(self.cur.left is Empty),
                    !(self.cur.right is Empty),
                    (idx as nat) == old(self)@.atoms.len(),
                    (idx as nat) < m,
                    m == self@.atoms.len(),
                    state_wf(old(self)@),
                    node_wf(self.cur, m),
                    forall|i: int|
                        0 <= i < self.parents@.len() ==> node_wf(
                            #[trigger] self.parents@[i].node,
                            m,
                        ),
                    spec_fill_right(self.parents@, idx) == spec_fill_right(
                        self.parents@.take(j as int),
                        idx,
                    ) + self.parents@.skip(j as int),
                decreases j,
            {
                if j == 0 {
                    proof {
                        assert(self.parents@.take(0int) =~= Seq::<Frame<Op>>::empty());
                        assert(spec_fill_right(self.parents@.take(0int), idx)
                            + self.parents@.skip(0int) =~= self.parents@);
                        assert(self@ =~= spec_push_atom(old(self)@, v));
                    }
                    return ;
                }
                let jj: usize = j - 1;
                proof {
                    assert(self.parents@.take(j as int).last() == self.parents@[jj as int]);
                    assert(self.parents@.take(j as int).drop_last() =~= self.parents@.take(
                        jj as int,
                    ));
                }
                if !self.parents[jj].open_right && matches!(self.parents[jj].node.right, Child::Empty) {
                    let ghost oldp = self.parents@;
                    let old_frame = self.parents.remove(jj);
                    let new_frame = Frame {
                        node: Node { right: Child::Leaf(idx), ..old_frame.node },
                        ..old_frame
                    };
                    self.parents.insert(jj, new_frame);
                    proof {
                        let filled = Frame {
                            node: Node { right: Child::Leaf(idx), ..oldp[jj as int].node },
                            ..oldp[jj as int]
                        };
                        assert(self.parents@ =~= oldp.update(jj as int, filled));
                        assert(spec_fill_right(oldp.take(j as int), idx) == oldp.take(
                            j as int,
                        ).update(jj as int, filled));
                        assert(oldp.take(j as int).update(jj as int, filled) + oldp.skip(j as int)
                            =~= oldp.update(jj as int, filled));
                        assert(self@ =~= spec_push_atom(old(self)@, v));
                        assert forall|i: int| 0 <= i < self.parents@.len() implies node_wf(
                            #[trigger] self.parents@[i].node,
                            m,
                        ) by {
                            if i != jj as int {
                                assert(self.parents@[i] == oldp[i]);
                            }
                        }
                    }
                    return ;
                }
                proof {
                    assert(spec_fill_right(self.parents@.take(j as int), idx) == spec_fill_right(
                        self.parents@.take(jj as int),
                        idx,
                    ).push(self.parents@[jj as int]));
                    assert(spec_fill_right(self.parents@.take(jj as int), idx).push(
                        self.parents@[jj as int],
                    ) + self.parents@.skip(j as int) =~= spec_fill_right(
                        self.parents@.take(jj as int),
                        idx,
                    ) + self.parents@.skip(jj as int));
                }
                j = jj;
            }
        }
    }

    /// Append an operator at the current insertion point; whether it is
    /// unary or binary follows from the token pushed before it.
    pub fn push_operator(&mut self, op: Op)
        requires
            state_wf(old(self)@),
        ensures
            final(self)@ == spec_push_operator(old(self)@, op),
            state_wf(final(self)@),
    {
        if matches!(self.last, LastToken::Atom | LastToken::ClosingPar) {
            let full = if self.cur.unary {
                !matches!(self.cur.left, Child::Empty)
            } else {
                !matches!(self.cur.right, Child::Empty)
            };
            if !full {
                self.cur.op = Some(op);
            } else {
                let mut node = Node {
                    op: Some(op),
                    unary: false,
                    left: Child::Empty,
                    right: Child::Empty,
                };
                core::mem::swap(&mut node, &mut self.cur);
                self.cur.left = Child::Branch(Box::new(node));
            }
        } else {
            let open_right = !matches!(self.cur.left, Child::Empty);
            let mut node = Node { op: Some(op), unary: true, left: Child::Empty, right: Child::Empty };
            core::mem::swap(&mut node, &mut self.cur);
            self.parents.push(Frame { node, open_right });
        }
        self.last = LastToken::Operator;
        proof {
            assert(self@ =~= spec_push_operator(old(self)@, op));
        }
    }

    /// Open a parenthesized group at the current insertion point.
    pub fn open_par(&mut self)
        requires
            state_wf(old(self)@),
        ensures
            final(self)@ == spec_open_par(old(self)@),
            state_wf(final(self)@),
    {
        let open_right = !matches!(self.cur.left, Child::Empty);
        let mut node = Node { op: None, unary: false, left: Child::Empty, right: Child::Empty };
        core::mem::swap(&mut node, &mut self.cur);
        self.parents.push(Frame { node, open_right });
        self.last = LastToken::OpeningPar;
        proof {
            assert(self@ =~= spec_open_par(old(self)@));
        }
    }

    /// Close the innermost parenthesized group; a closing parenthesis with
    /// no open group is ignored.
    pub fn close_par(&mut self)
        requires
            state_wf(old(self)@),
        ensures
            final(self)@ == spec_close_par(old(self)@),
            state_wf(final(self)@),
    {
        self.last = LastToken::ClosingPar;
        if self.parents.len() > 0 {
            let f = self.parents.pop().unwrap();
            let open_right = f.open_right;
            let mut node = f.node;
            core::mem::swap(&mut node, &mut self.cur);
            if open_right {
                self.cur.right = Child::Branch(Box::new(node));
            } else {
                self.cur.left = Child::Branch(Box::new(node));
            }
        }
        proof {
            assert(self@ =~= spec_close_par(old(self)@));
        }
    }

    /// Consume the tree and return its atoms together with the root of the
    /// finished node structure, closing any still-open groups.
    pub fn finish(self) -> (r: (Vec<A>, Node<Op>))
        requires
            state_wf(self@),
        ensures
            r.0.deep_view() == self@.atoms,
            r.1 == spec_root(self@),
            node_wf(r.1, self@.atoms.len()),
    {
        let BeTree { atoms, mut parents, mut cur, last: _ } = self;
        let ghost m = atoms.deep_view().len();
        loop
            invariant
                atoms.deep_view() == self@.atoms,
                m == self@.atoms.len(),
                node_wf(cur, m),
                forall|i: int|
                    0 <= i < parents@.len() ==> node_wf(#[trigger] parents@[i].node, m),
                spec_root(
                    BuildState { atoms: self@.atoms, parents: parents@, cur, last: LastToken::ClosingPar },
                ) == spec_root(self@),
            decreases parents@.len(),
        {
            let ghost st = BuildState {
                atoms: self@.atoms,
                parents: parents@,
                cur,
                last: LastToken::ClosingPar,
            };
            if parents.len() == 0 {
                return (atoms, cur);
            }
            let f = parents.pop().unwrap();
            let open_right = f.open_right;
            let mut node = f.node;
            core::mem::swap(&mut node, &mut cur);
            if open_right {
                cur.right = Child::Branch(Box::new(node));
            } else {
                cur.left = Child::Branch(Box::new(node));
            }
            proof {
                assert(BuildState {
                    atoms: self@.atoms,
                    parents: parents@,
                    cur,
                    last: LastToken::ClosingPar,
                } =~= spec_close_par(st));
            }
        }
    }
}

impl<Op, A: DeepView> BeTree<Op, A> {
    /// Produce a new tree by transforming every atom, keeping the node
    /// structure as it is; the first failing atom aborts the operation and
    /// its error is returned.
    pub fn try_map_atoms<B: DeepView, E, F: Fn(&A) -> Result<B, E>>(self, f: F) -> (r: Result<
        BeTree<Op, B>,
        E,
    >)
        requires
            forall|i: int| 0 <= i < self.atoms@.len() ==> call_requires(f, (&self.atoms@[i],)),
        ensures
            r matches Ok(t) ==> {
                &&& t@.parents == self@.parents
                &&& t@.cur == self@.cur
                &&& t@.last == self@.last
                &&& t.atoms@.len() == self.atoms@.len()
                &&& forall|i: int|
                    0 <= i < self.atoms@.len() ==> call_ensures(
                        f,
                        (&self.atoms@[i],),
                        Ok(#[trigger] t.atoms@[i]),
                    )
            },
            r matches Err(e) ==> exists|i: int|
                0 <= i < self.atoms@.len() && call_ensures(f, (&self.atoms@[i],), Err(e)),
    {
        let BeTree { atoms, parents, cur, last } = self;
        let mut mapped: Vec<B> = Vec::new();
        let mut i: usize = 0;
        #[verifier::loop_isolation(false)]
        while i < atoms.len()
            invariant
                i <= atoms.len(),
                mapped@.len() == i,
                forall|j: int|
                    0 <= j < i ==> call_ensures(f, (&atoms@[j],), Ok(#[trigger] mapped@[j])),
            decreases atoms.len() - i,
        {
            match f(&atoms[i]) {
                Ok(b) => mapped.push(b),
                Err(e) => {
                    return Err(e);
                },
            }
            i = i + 1;
        }
        Ok(BeTree { atoms: mapped, parents, cur, last })
    }
}

impl<Op> BeTree<Op, String> {
    /// Append one character of atom text: it extends the atom pushed last,
    /// or starts a new atom if the last token was not atom text.
    pub fn push_atom_char(&mut self, c: char)
        requires
            state_wf(old(self)@),
        ensures
            final(self)@ == spec_push_atom_char(old(self)@, c),
            state_wf(final(self)@),
    {
        if !matches!(self.last, LastToken::Atom) {
            self.push_atom(String::new());
        }
        let ghost st1 = self@;
        let mut s = self.atoms.pop().unwrap();
        string_push_char(&mut s, c);
        self.atoms.push(s);
        proof {
            assert(self@.atoms =~= st1.atoms.update(st1.atoms.len() - 1, st1.atoms.last().push(c)));
            assert(self@ =~= spec_push_atom_char(old(self)@, c));
        }
    }
}

} // verus!
