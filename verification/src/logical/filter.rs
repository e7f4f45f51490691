//! The logical filter: one pass over the expression string drives the tree
//! builder, and evaluation folds the tree with short-circuit semantics,
//! resolving each leaf through the caller's [`Context`].

use vstd::prelude::*;

verus! {

use vstd::string::StrSliceExecFns;
use crate::betree::BeTree;
use crate::betree::BuildState;
use crate::betree::Child;
use crate::betree::Node;
use crate::betree::init_state;
use crate::betree::node_wf;
use crate::betree::spec_close_par;
use crate::betree::spec_open_par;
use crate::betree::spec_push_atom_char;
use crate::betree::spec_push_operator;
use crate::betree::spec_root;
use crate::betree::state_wf;
use crate::errors::EvalError;
use crate::errors::ParseError;
use crate::logical::bool_operator::BoolOperator;
use crate::logical::bool_operator::spec_combine;
use crate::logical::bool_operator::spec_short_circuits;
use crate::logical::context::Context;

/// The characters that `str::trim` removes: those with the Unicode
/// `White_Space` property.
pub open spec fn is_space(c: char) -> bool {
    let u = c as u32;
    (9 <= u && u <= 13) || u == 32 || u == 0x85 || u == 0xa0 || u == 0x1680 || (0x2000 <= u && u
        <= 0x200a) || u == 0x2028 || u == 0x2029 || u == 0x202f || u == 0x205f || u == 0x3000
}

fn is_space_char(c: char) -> (r: bool)
    ensures
        r == is_space(c),
{
    let u = c as u32;
    (9 <= u && u <= 13) || u == 32 || u == 0x85 || u == 0xa0 || u == 0x1680 || (0x2000 <= u && u
        <= 0x200a) || u == 0x2028 || u == 0x2029 || u == 0x202f || u == 0x205f || u == 0x3000
}

pub open spec fn spec_trim_start(s: Seq<char>) -> Seq<char>
    decreases s.len(),
{
    if s.len() > 0 && is_space(s[0]) {
        spec_trim_start(s.skip(1))
    } else {
        s
    }
}

pub open spec fn spec_trim_end(s: Seq<char>) -> Seq<char>
    decreases s.len(),
{
    if s.len() > 0 && is_space(s.last()) {
        spec_trim_end(s.drop_last())
    } else {
        s
    }
}

/// `s` without leading and trailing whitespace.
pub open spec fn spec_trim(s: Seq<char>) -> Seq<char> {
    spec_trim_end(spec_trim_start(s))
}

fn trim_str<'a>(s: &'a str) -> (r: &'a str)
    ensures
        r@ == spec_trim(s@),
{
    let n = s.unicode_len();
    let mut a: usize = 0;
    proof {
        assert(s@.skip(0) =~= s@);
    }
    #[verifier::loop_isolation(false)]
    while a < n && is_space_char(s.get_char(a))
        invariant
            a <= n,
            spec_trim_start(s@) == spec_trim_start(s@.skip(a as int)),
        decreases n - a,
    {
        proof {
            assert(s@.skip(a as int).skip(1) =~= s@.skip(a + 1));
            assert(s@.skip(a as int)[0] == s@[a as int]);
        }
        a = a + 1;
    }
    let ghost t = s@.skip(a as int);
    proof {
        if a < n {
            assert(t[0] == s@[a as int]);
        }
        assert(spec_trim_start(s@) == t);
    }
    let mut b: usize = n;
    proof {
        assert(t.take(n - a) =~= t);
    }
    #[verifier::loop_isolation(false)]
    while b > a && is_space_char(s.get_char(b - 1))
        invariant
            a <= b <= n,
            spec_trim_end(t) == spec_trim_end(t.take(b - a)),
        decreases b,
    {
        proof {
            assert(t.take(b - a).last() == s@[b - 1]);
            assert(t.take(b - a).drop_last() =~= t.take(b - 1 - a));
        }
        b = b - 1;
    }
    proof {
        if b > a {
            assert(t.take(b - a).last() == s@[b - 1]);
        }
        assert(spec_trim_end(t.take(b - a)) == t.take(b - a));
        assert(s@.subrange(a as int, b as int) =~= t.take(b - a));
    }
    s.substring_char(a, b)
}

/// The characters that separate a variable name from its comparison.
pub open spec fn is_cmp_char(c: char) -> bool {
    c == '=' || c == '>' || c == '<' || c == '^'
}

/// The position of the first comparison character of `s`, if any.
pub open spec fn spec_find_cmp(s: Seq<char>) -> Option<int>
    decreases s.len(),
{
    if s.len() == 0 {
        None
    } else if is_cmp_char(s[0]) {
        Some(0)
    } else {
        match spec_find_cmp(s.skip(1)) {
            Some(i) => Some(i + 1),
            None => None,
        }
    }
}

proof fn lemma_find_cmp_from(s: Seq<char>, i: int)
    requires
        0 <= i <= s.len(),
        forall|k: int| 0 <= k < i ==> !is_cmp_char(#[trigger] s[k]),
    ensures
        i == s.len() ==> spec_find_cmp(s) is None,
        i < s.len() && is_cmp_char(s[i]) ==> spec_find_cmp(s) == Some(i),
    decreases i,
{
    if i == 0 {
    } else {
        assert(!is_cmp_char(s[0]));
        let s1 = s.skip(1);
        assert forall|k: int| 0 <= k < i - 1 implies !is_cmp_char(#[trigger] s1[k]) by {
            assert(s1[k] == s[k + 1]);
        }
        lemma_find_cmp_from(s1, i - 1);
        if i < s.len() {
            assert(s1[i - 1] == s[i]);
        }
    }
}

fn find_cmp_char(s: &str) -> (r: Option<usize>)
    ensures
        r matches Some(i) ==> spec_find_cmp(s@) == Some(i as int) && (i as nat) < s@.len(),
        r is None ==> spec_find_cmp(s@) is None,
{
    let n = s.unicode_len();
    let mut i: usize = 0;
    #[verifier::loop_isolation(false)]
    while i < n
        invariant
            i <= n,
            forall|k: int| 0 <= k < i ==> !is_cmp_char(#[trigger] s@[k]),
        decreases n - i,
    {
        let c = s.get_char(i);
        if c == '=' || c == '>' || c == '<' || c == '^' {
            proof {
                lemma_find_cmp_from(s@, i as int);
            }
            return Some(i);
        }
        i = i + 1;
    }
    proof {
        lemma_find_cmp_from(s@, n as int);
    }
    None
}

/// The outcome of resolving one atom over the context's model: the text
/// before the first comparison character, trimmed, is the variable name;
/// the rest, trimmed, the raw comparison. An atom without a comparison
/// character fails, as does a resolution the context fails on. `Err(())`
/// stands for any failure.
pub open spec fn spec_resolve_atom<C: Context>(s: Seq<char>, ctx: &C) -> Result<bool, ()> {
    match spec_find_cmp(s) {
        None => Err(()),
        Some(i) => {
            let key = spec_trim(s.take(i));
            let expr = spec_trim(s.skip(i));
            match ctx.spec_evaluate(key, expr) {
                Some(b) => Ok(b),
                None => Err(()),
            }
        },
    }
}

fn resolve_atom<C: Context>(atom: &String, ctx: &C) -> (r: Result<bool, EvalError>)
    ensures
        spec_resolve_atom(atom@, ctx) matches Ok(v) ==> r == Ok::<bool, EvalError>(v),
        spec_resolve_atom(atom@, ctx) is Err ==> r is Err,
{
    let s = atom.as_str();
    match find_cmp_char(s) {
        None => Err(EvalError::NoComparison),
        Some(i) => {
            let n = s.unicode_len();
            proof {
                assert(s@.subrange(0, i as int) =~= s@.take(i as int));
                assert(s@.subrange(i as int, n as int) =~= s@.skip(i as int));
            }
            let key = trim_str(s.substring_char(0, i));
            let expr = trim_str(s.substring_char(i, n));
            ctx.evaluate(key, expr)
        },
    }
}

/// What evaluating a subtree yields over the context's model: `Ok(None)`
/// is the value of an empty slot, `Err(())` any failure. A node whose
/// operator is decided by its left operand keeps that operand's value and
/// leaves its right operand untouched.
pub open spec fn spec_eval_node<C: Context>(
    n: Node<BoolOperator>,
    atoms: Seq<Seq<char>>,
    ctx: &C,
) -> Result<Option<bool>, ()>
    decreases n,
{
    match spec_eval_child(n.left, atoms, ctx) {
        Err(e) => Err(e),
        Ok(leftv) => match n.op {
            None => Ok(leftv),
            Some(op) => match leftv {
                None => Ok(None),
                Some(lv) => if spec_short_circuits(op, lv) {
                    Ok(Some(lv))
                } else {
                    match spec_eval_child(n.right, atoms, ctx) {
                        Err(e) => Err(e),
                        Ok(rightv) => match spec_combine(op, lv, rightv) {
                            Ok(b) => Ok(Some(b)),
                            Err(e2) => Err(e2),
                        },
                    }
                },
            },
        },
    }
}

/// What evaluating one child slot yields over the context's model.
pub open spec fn spec_eval_child<C: Context>(
    c: Child<BoolOperator>,
    atoms: Seq<Seq<char>>,
    ctx: &C,
) -> Result<Option<bool>, ()>
    decreases c,
{
    match c {
        Child::Empty => Ok(None),
        Child::Leaf(i) => if (i as nat) < atoms.len() {
            match spec_resolve_atom(atoms[i as int], ctx) {
                Ok(b) => Ok(Some(b)),
                Err(e) => Err(e),
            }
        } else {
            Err(())
        },
        Child::Branch(b) => spec_eval_node(*b, atoms, ctx),
    }
}

fn eval_node<C: Context>(n: &Node<BoolOperator>, atoms: &Vec<String>, ctx: &C) -> (r: Result<
    Option<bool>,
    EvalError,
>)
    ensures
        spec_eval_node(*n, atoms.deep_view(), ctx) matches Ok(v) ==> r == Ok::<
            Option<bool>,
            EvalError,
        >(v),
        spec_eval_node(*n, atoms.deep_view(), ctx) is Err ==> r is Err,
    decreases *n,
{
    let left = match eval_child(&n.left, atoms, ctx) {
        Ok(v) => v,
        Err(e) => {
            return Err(e);
        },
    };
    let op = match &n.op {
        Some(op) => *op,
        None => {
            return Ok(left);
        },
    };
    let lv = match left {
        Some(lv) => lv,
        None => {
            return Ok(None);
        },
    };
    if op.short_circuits(lv) {
        return Ok(Some(lv));
    }
    let rightv = match eval_child(&n.right, atoms, ctx) {
        Ok(v) => v,
        Err(e) => {
            return Err(e);
        },
    };
    match op.combine(lv, rightv) {
        Ok(b) => Ok(Some(b)),
        Err(e) => Err(e),
    }
}

fn eval_child<C: Context>(c: &Child<BoolOperator>, atoms: &Vec<String>, ctx: &C) -> (r: Result<
    Option<bool>,
    EvalError,
>)
    ensures
        spec_eval_child(*c, atoms.deep_view(), ctx) matches Ok(v) ==> r == Ok::<
            Option<bool>,
            EvalError,
        >(v),
        spec_eval_child(*c, atoms.deep_view(), ctx) is Err ==> r is Err,
    decreases *c,
{
    match c {
        Child::Empty => Ok(None),
        Child::Leaf(i) => {
            if *i < atoms.len() {
                proof {
                    assert(atoms.deep_view()[*i as int] == atoms@[*i as int]@);
                }
                match resolve_atom(&atoms[*i], ctx) {
                    Ok(b) => Ok(Some(b)),
                    Err(e) => Err(e),
                }
            } else {
                Err(EvalError::InvalidOperands)
            }
        },
        Child::Branch(b) => eval_node(b, atoms, ctx),
    }
}

/// One tokenizer step: `&`, `|` and `!` push operators, parentheses open
/// and close groups, a space is dropped, and every other character is atom
/// text.
pub open spec fn spec_token_step(st: BuildState<BoolOperator, Seq<char>>, c: char) -> BuildState<
    BoolOperator,
    Seq<char>,
> {
    if c == '&' {
        spec_push_operator(st, BoolOperator::And)
    } else if c == '|' {
        spec_push_operator(st, BoolOperator::Or)
    } else if c == '!' {
        spec_push_operator(st, BoolOperator::Not)
    } else if c == ' ' {
        st
    } else if c == '(' {
        spec_open_par(st)
    } else if c == ')' {
        spec_close_par(st)
    } else {
        spec_push_atom_char(st, c)
    }
}

/// The tree-building state after feeding the whole of `s` to the
/// tokenizer.
pub open spec fn spec_build(s: Seq<char>) -> BuildState<BoolOperator, Seq<char>>
    decreases s.len(),
{
    if s.len() == 0 {
        init_state()
    } else {
        spec_token_step(spec_build(s.drop_last()), s.last())
    }
}

/// A parsed logical filter: a boolean expression tree whose leaves are raw
/// `key comparison` strings, evaluated against a [`Context`] on demand.
/// Immutable once built; a failed evaluation leaves it reusable.
#[derive(Debug)]
pub struct Filter {
    pub atoms: Vec<String>,
    pub root: Node<BoolOperator>,
}

impl Filter {
    /// The atoms of the filter, as character sequences.
    pub open spec fn spec_atoms(&self) -> Seq<Seq<char>> {
        self.atoms.deep_view()
    }

    /// Every leaf of the tree points into the atom vector.
    pub open spec fn wf(&self) -> bool {
        node_wf(self.root, self.atoms.deep_view().len())
    }

    /// Parse a full expression string. Parsing is total: every string
    /// builds a tree; malformed structure surfaces at evaluation time.
    pub fn parse(input: &str) -> (r: Result<Filter, ParseError>)
        ensures
            r is Ok,
            r matches Ok(f) ==> f.wf() && f.spec_atoms() == spec_build(input@).atoms && f.root
                == spec_root(spec_build(input@)),
    {
        let mut tree: BeTree<BoolOperator, String> = BeTree::new();
        let n = input.unicode_len();
        let mut i: usize = 0;
        proof {
            assert(input@.take(0) =~= Seq::<char>::empty());
        }
        #[verifier::loop_isolation(false)]
        while i < n
            invariant
                i <= n,
                state_wf(tree@),
                tree@ == spec_build(input@.take(i as int)),
            decreases n - i,
        {
            let c = input.get_char(i);
            if c == '&' {
                tree.push_operator(BoolOperator::And);
            } else if c == '|' {
                tree.push_operator(BoolOperator::Or);
            } else if c == '!' {
                tree.push_operator(BoolOperator::Not);
            } else if c == ' ' {
            } else if c == '(' {
                tree.open_par();
            } else if c == ')' {
                tree.close_par();
            } else {
                tree.push_atom_char(c);
            }
            proof {
                assert(input@.take(i + 1).drop_last() =~= input@.take(i as int));
                assert(input@.take(i + 1).last() == input@[i as int]);
            }
            i = i + 1;
        }
        proof {
            assert(input@.take(n as int) =~= input@);
        }
        let (atoms, root) = tree.finish();
        Ok(Filter { atoms, root })
    }

    /// What `evaluate` returns over the context's model: the tree's value,
    /// where an empty value stands for "no predicate" and matches
    /// everything.
    pub open spec fn spec_evaluate<C: Context>(&self, ctx: &C) -> Result<bool, ()> {
        match spec_eval_node(self.root, self.spec_atoms(), ctx) {
            Ok(Some(b)) => Ok(b),
            Ok(None) => Ok(true),
            Err(e) => Err(e),
        }
    }

    /// Evaluate the filter against a context, resolving each leaf through
    /// it. Short-circuit semantics: a leaf elided by `&`/`|`
    /// short-circuiting is never resolved. Fails on the first failing
    /// leaf, on an operator with the wrong arity of operands, and on an
    /// atom without a comparison character.
    pub fn evaluate<C: Context>(&self, ctx: &C) -> (r: Result<bool, EvalError>)
        ensures
            self.spec_evaluate(ctx) matches Ok(b) ==> r == Ok::<bool, EvalError>(b),
            self.spec_evaluate(ctx) is Err ==> r is Err,
    {
        match eval_node(&self.root, &self.atoms, ctx) {
            Ok(Some(b)) => Ok(b),
            Ok(None) => Ok(true),
            Err(e) => Err(e),
        }
    }
}

impl Clone for Filter {
    /// An equal filter: the same atoms, character for character, and the
    /// same tree.
    fn clone(&self) -> (r: Self)
        ensures
            r.atoms@ == self.atoms@,
            r.root == self.root,
    {
        let mut atoms: Vec<String> = Vec::new();
        let mut i: usize = 0;
        proof {
            assert(atoms@ =~= self.atoms@.take(0));
        }
        #[verifier::loop_isolation(false)]
        while i < self.atoms.len()
            invariant
                i <= self.atoms.len(),
                atoms@ == self.atoms@.take(i as int),
            decreases self.atoms.len() - i,
        {
            atoms.push(self.atoms[i].clone());
            proof {
                assert(atoms@ =~= self.atoms@.take(i + 1));
            }
            i = i + 1;
        }
        proof {
            assert(atoms@ =~= self.atoms@);
        }
        Filter { atoms, root: self.root.clone() }
    }
}

impl core::str::FromStr for Filter {
    type Err = ParseError;

    fn from_str(input: &str) -> Result<Self, Self::Err> {
        Filter::parse(input)
    }
}

/// Short-circuit for `|`: when the left operand of a binary `|` resolves
/// to true, the node evaluates to true whatever stands on the right — even
/// an operand whose resolution would fail.
pub proof fn lemma_or_short_circuit<C: Context>(
    n: Node<BoolOperator>,
    atoms: Seq<Seq<char>>,
    ctx: &C,
)
    requires
        n.op == Some(BoolOperator::Or),
        spec_eval_child(n.left, atoms, ctx) == Ok::<Option<bool>, ()>(Some(true)),
    ensures
        spec_eval_node(n, atoms, ctx) == Ok::<Option<bool>, ()>(Some(true)),
{
}

/// Short-circuit for `&`: when the left operand of a binary `&` resolves
/// to false, the node evaluates to false whatever stands on the right —
/// even an operand whose resolution would fail.
pub proof fn lemma_and_short_circuit<C: Context>(
    n: Node<BoolOperator>,
    atoms: Seq<Seq<char>>,
    ctx: &C,
)
    requires
        n.op == Some(BoolOperator::And),
        spec_eval_child(n.left, atoms, ctx) == Ok::<Option<bool>, ()>(Some(false)),
    ensures
        spec_eval_node(n, atoms, ctx) == Ok::<Option<bool>, ()>(Some(false)),
{
}

/// Negation: a unary `!` whose operand resolves to `b` evaluates to the
/// complement of `b`.
pub proof fn lemma_not_complement<C: Context>(
    n: Node<BoolOperator>,
    atoms: Seq<Seq<char>>,
    ctx: &C,
    b: bool,
)
    requires
        n.op == Some(BoolOperator::Not),
        n.right is Empty,
        spec_eval_child(n.left, atoms, ctx) == Ok::<Option<bool>, ()>(Some(b)),
    ensures
        spec_eval_node(n, atoms, ctx) == Ok::<Option<bool>, ()>(Some(!b)),
{
}

/// `s` without its space characters. Only the plain space is dropped by
/// the tokenizer; other whitespace becomes atom text and is trimmed away
/// at resolution time.
pub open spec fn non_space_chars(s: Seq<char>) -> Seq<char> {
    s.filter(|c: char| c != ' ')
}

/// Spaces are transparent to construction: a space produces no transition
/// at all, so a string builds exactly the tree that the same string with
/// every space removed builds.
pub proof fn lemma_spaces_ignored(s: Seq<char>)
    ensures
        spec_build(non_space_chars(s)) == spec_build(s),
    decreases s.len(),
{
    reveal(Seq::filter);
    if s.len() == 0 {
        assert(non_space_chars(s) =~= s);
    } else {
        lemma_spaces_ignored(s.drop_last());
        let c = s.last();
        if c == ' ' {
            assert(non_space_chars(s) == non_space_chars(s.drop_last()));
        } else {
            assert(non_space_chars(s) == non_space_chars(s.drop_last()).push(c));
            if non_space_chars(s).len() > 0 {
                assert(non_space_chars(s).drop_last() =~= non_space_chars(s.drop_last()));
                assert(non_space_chars(s).last() == c);
            }
        }
    }
}

/// Corollary at the expression level: two expression strings with the
/// same characters apart from spaces build the same atoms and the same
/// tree, and so evaluate identically against every context.
pub proof fn lemma_spaces_ignored_between(s1: Seq<char>, s2: Seq<char>)
    requires
        non_space_chars(s1) == non_space_chars(s2),
    ensures
        spec_build(s1) == spec_build(s2),
{
    lemma_spaces_ignored(s1);
    lemma_spaces_ignored(s2);
}

} // verus!
