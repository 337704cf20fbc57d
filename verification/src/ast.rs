//! The abstract syntax tree produced by the parser, together with its
//! mathematical model ([`AstView`]) and structural equality.

use vstd::prelude::*;

verus! {

broadcast use
    vstd::std_specs::vec::axiom_vec_index_decreases,
    vstd::std_specs::vec::axiom_vec_decreases_to_view,
    vstd::seq::axiom_seq_index_decreases,
    vstd::seq::axiom_seq_subrange_decreases;

/// A JSON scalar value embedded in an expression through a backtick literal.
///
/// Literal tokens carry one of these values verbatim; the parser itself also
/// builds `Json::String` keys for multi-select hashes.
#[derive(Debug)]
pub enum Json {
    Null,
    Boolean(bool),
    Number(i64),
    String(String),
}

/// The model of a [`Json`] value: numbers as unbounded integers, strings as
/// character sequences.
pub enum JsonView {
    Null,
    Boolean(bool),
    Number(int),
    String(Seq<char>),
}

/// The model of a [`Json`] value.
pub open spec fn json_view(j: Json) -> JsonView {
    match j {
        Json::Null => JsonView::Null,
        Json::Boolean(b) => JsonView::Boolean(b),
        Json::Number(n) => JsonView::Number(n as int),
        Json::String(s) => JsonView::String(s@),
    }
}

impl Clone for Json {
    /// An exact copy: the clone has the same model as the original.
    fn clone(&self) -> (r: Self)
        ensures
            json_view(r) == json_view(*self),
    {
        match self {
            Json::Null => Json::Null,
            Json::Boolean(b) => Json::Boolean(*b),
            Json::Number(n) => Json::Number(*n),
            Json::String(s) => Json::String(s.clone()),
        }
    }
}

/// Comparators of the reserved `Comparison` node (less than, greater than,
/// and so on). No grammar path constructs one yet.
#[derive(Clone, Debug, PartialEq, Eq, Structural)]
pub enum Comparator {
    Eq,
    Lt,
    Le,
    Ne,
    Ge,
    Gt,
}

/// The abstract syntax tree of a query expression.
///
/// Every boxed child is a fully parsed subtree owned by its parent; there is
/// no sharing and no cycle. `Comparison`, `Function` and `Expref` are
/// reserved extension points that no current grammar path produces.
#[derive(Debug)]
pub enum Ast {
    Comparison(Comparator, Box<Ast>, Box<Ast>),
    CurrentNode,
    Expref(Box<Ast>),
    Flatten(Box<Ast>),
    Function(char, Vec<Box<Ast>>),
    Identifier(String),
    Index(i32),
    Literal(Json),
    MultiList(Vec<Box<Ast>>),
    MultiHash(Vec<KeyValuePair>),
    ArrayProjection(Box<Ast>, Box<Ast>),
    ObjectProjection(Box<Ast>, Box<Ast>),
    Or(Box<Ast>, Box<Ast>),
    Slice(Option<i32>, Option<i32>, Option<i32>),
    Subexpr(Box<Ast>, Box<Ast>),
}

/// A key-value pair of a multi-select hash. The key is always a
/// `Literal(Json::String(..))` subtree.
#[derive(Debug)]
pub struct KeyValuePair {
    pub key: Box<Ast>,
    pub value: Box<Ast>,
}

/// The mathematical model of an [`Ast`]: strings become character sequences,
/// machine integers become unbounded integers, and vectors become sequences.
/// Equality of `AstView` values is structural.
pub enum AstView {
    Comparison(Comparator, Box<AstView>, Box<AstView>),
    CurrentNode,
    Expref(Box<AstView>),
    Flatten(Box<AstView>),
    Function(char, Seq<AstView>),
    Identifier(Seq<char>),
    Index(int),
    Literal(JsonView),
    MultiList(Seq<AstView>),
    MultiHash(Seq<(AstView, AstView)>),
    ArrayProjection(Box<AstView>, Box<AstView>),
    ObjectProjection(Box<AstView>, Box<AstView>),
    Or(Box<AstView>, Box<AstView>),
    Slice(Option<int>, Option<int>, Option<int>),
    Subexpr(Box<AstView>, Box<AstView>),
}

/// The model of an optional signed slice part.
pub open spec fn opt_view(o: Option<i32>) -> Option<int> {
    match o {
        Option::Some(v) => Option::Some(v as int),
        Option::None => Option::None,
    }
}

/// The model of an [`Ast`].
pub open spec fn ast_view(a: Ast) -> AstView
    decreases a,
{
    match a {
        Ast::Comparison(c, l, r) => AstView::Comparison(
            c,
            Box::new(ast_view(*l)),
            Box::new(ast_view(*r)),
        ),
        Ast::CurrentNode => AstView::CurrentNode,
        Ast::Expref(e) => AstView::Expref(Box::new(ast_view(*e))),
        Ast::Flatten(e) => AstView::Flatten(Box::new(ast_view(*e))),
        Ast::Function(name, args) => AstView::Function(name, ast_seq_view(args@)),
        Ast::Identifier(s) => AstView::Identifier(s@),
        Ast::Index(i) => AstView::Index(i as int),
        Ast::Literal(j) => AstView::Literal(json_view(j)),
        Ast::MultiList(elems) => AstView::MultiList(ast_seq_view(elems@)),
        Ast::MultiHash(pairs) => AstView::MultiHash(kvp_seq_view(pairs@)),
        Ast::ArrayProjection(l, r) => AstView::ArrayProjection(
            Box::new(ast_view(*l)),
            Box::new(ast_view(*r)),
        ),
        Ast::ObjectProjection(l, r) => AstView::ObjectProjection(
            Box::new(ast_view(*l)),
            Box::new(ast_view(*r)),
        ),
        Ast::Or(l, r) => AstView::Or(Box::new(ast_view(*l)), Box::new(ast_view(*r))),
        Ast::Slice(a0, a1, a2) => AstView::Slice(opt_view(a0), opt_view(a1), opt_view(a2)),
        Ast::Subexpr(l, r) => AstView::Subexpr(Box::new(ast_view(*l)), Box::new(ast_view(*r))),
    }
}

/// The models of a sequence of subtrees, in order.
pub open spec fn ast_seq_view(s: Seq<Box<Ast>>) -> Seq<AstView>
    decreases s,
{
    if s.len() == 0 {
        Seq::empty()
    } else {
        seq![ast_view(*s[0])] + ast_seq_view(s.subrange(1, s.len() as int))
    }
}

/// The models of a sequence of key-value pairs, in order.
pub open spec fn kvp_seq_view(s: Seq<KeyValuePair>) -> Seq<(AstView, AstView)>
    decreases s,
{
    if s.len() == 0 {
        Seq::empty()
    } else {
        seq![(ast_view(*s[0].key), ast_view(*s[0].value))] + kvp_seq_view(
            s.subrange(1, s.len() as int),
        )
    }
}

impl vstd::std_specs::cmp::PartialEqSpecImpl for Json {
    open spec fn obeys_eq_spec() -> bool {
        true
    }

    open spec fn eq_spec(&self, other: &Json) -> bool {
        json_view(*self) == json_view(*other)
    }
}

impl PartialEq for Json {
    /// Structural equality: two values are equal exactly when their models
    /// are.
    fn eq(&self, other: &Json) -> (r: bool)
        ensures
            r == (json_view(*self) == json_view(*other)),
    {
        match (self, other) {
            (Json::Null, Json::Null) => true,
            (Json::Boolean(a), Json::Boolean(b)) => *a == *b,
            (Json::Number(a), Json::Number(b)) => *a == *b,
            (Json::String(a), Json::String(b)) => a.eq(b),
            _ => false,
        }
    }
}

/// Equality of optional slice parts.
fn opt_i32_eq(a: &Option<i32>, b: &Option<i32>) -> (r: bool)
    ensures
        r == (opt_view(*a) == opt_view(*b)),
{
    match (a, b) {
        (Option::None, Option::None) => true,
        (Option::Some(x), Option::Some(y)) => *x == *y,
        _ => false,
    }
}

/// Elementwise equality of subtree vectors.
fn ast_vec_eq(a: &Vec<Box<Ast>>, b: &Vec<Box<Ast>>) -> (r: bool)
    ensures
        r == (ast_seq_view(a@) == ast_seq_view(b@)),
    decreases *a,
{
    proof {
        lemma_ast_seq_view(a@);
        lemma_ast_seq_view(b@);
    }
    if a.len() != b.len() {
        return false;
    }
    let n = a.len();
    let mut i: usize = 0;
    while i < n
        invariant
            n == a@.len() == b@.len(),
            0 <= i <= n,
            forall|k: int| 0 <= k < i ==> ast_view(*a@[k]) == ast_view(*b@[k]),
            ast_seq_view(a@).len() == ast_seq_view(b@).len() == n,
            forall|k: int| 0 <= k < n ==> ast_seq_view(a@)[k] == ast_view(*a@[k]),
            forall|k: int| 0 <= k < n ==> ast_seq_view(b@)[k] == ast_view(*b@[k]),
        decreases n - i,
    {
        if !(*a[i]).eq(&*b[i]) {
            proof {
                assert(ast_seq_view(a@)[i as int] != ast_seq_view(b@)[i as int]);
            }
            return false;
        }
        i = i + 1;
    }
    proof {
        assert(ast_seq_view(a@) =~= ast_seq_view(b@));
    }
    true
}

/// Elementwise equality of key-value pair vectors.
fn kvp_vec_eq(a: &Vec<KeyValuePair>, b: &Vec<KeyValuePair>) -> (r: bool)
    ensures
        r == (kvp_seq_view(a@) == kvp_seq_view(b@)),
    decreases *a,
{
    proof {
        lemma_kvp_seq_view(a@);
        lemma_kvp_seq_view(b@);
    }
    if a.len() != b.len() {
        return false;
    }
    let n = a.len();
    let mut i: usize = 0;
    while i < n
        invariant
            n == a@.len() == b@.len(),
            0 <= i <= n,
            forall|k: int| 0 <= k < i ==> (ast_view(*a@[k].key), ast_view(*a@[k].value)) == (
                ast_view(*b@[k].key),
                ast_view(*b@[k].value),
            ),
            kvp_seq_view(a@).len() == kvp_seq_view(b@).len() == n,
            forall|k: int| 0 <= k < n ==> kvp_seq_view(a@)[k] == (
                ast_view(*a@[k].key),
                ast_view(*a@[k].value),
            ),
            forall|k: int| 0 <= k < n ==> kvp_seq_view(b@)[k] == (
                ast_view(*b@[k].key),
                ast_view(*b@[k].value),
            ),
        decreases n - i,
    {
        if !(*a[i].key).eq(&*b[i].key) {
            proof {
                assert(kvp_seq_view(a@)[i as int] != kvp_seq_view(b@)[i as int]);
            }
            return false;
        }
        if !(*a[i].value).eq(&*b[i].value) {
            proof {
                assert(kvp_seq_view(a@)[i as int] != kvp_seq_view(b@)[i as int]);
            }
            return false;
        }
        i = i + 1;
    }
    proof {
        assert(kvp_seq_view(a@) =~= kvp_seq_view(b@));
    }
    true
}

impl vstd::std_specs::cmp::PartialEqSpecImpl for Ast {
    open spec fn obeys_eq_spec() -> bool {
        true
    }

    open spec fn eq_spec(&self, other: &Ast) -> bool {
        ast_view(*self) == ast_view(*other)
    }
}

impl PartialEq for Ast {
    /// Structural equality: two trees are equal exactly when their models
    /// are, never by reference.
    fn eq(&self, other: &Ast) -> (r: bool)
        ensures
            r == (ast_view(*self) == ast_view(*other)),
        decreases *self,
    {
        match (self, other) {
            (Ast::CurrentNode, Ast::CurrentNode) => true,
            (Ast::Identifier(a), Ast::Identifier(b)) => a.eq(b),
            (Ast::Index(a), Ast::Index(b)) => *a == *b,
            (Ast::Literal(a), Ast::Literal(b)) => a.eq(b),
            (Ast::Slice(a0, a1, a2), Ast::Slice(b0, b1, b2)) => opt_i32_eq(a0, b0) && opt_i32_eq(
                a1,
                b1,
            ) && opt_i32_eq(a2, b2),
            (Ast::Comparison(c1, l1, r1), Ast::Comparison(c2, l2, r2)) => *c1 == *c2 && (**l1).eq(
                &**l2,
            ) && (**r1).eq(&**r2),
            (Ast::Expref(a), Ast::Expref(b)) => (**a).eq(&**b),
            (Ast::Flatten(a), Ast::Flatten(b)) => (**a).eq(&**b),
            (Ast::Function(n1, v1), Ast::Function(n2, v2)) => *n1 == *n2 && ast_vec_eq(v1, v2),
            (Ast::MultiList(v1), Ast::MultiList(v2)) => ast_vec_eq(v1, v2),
            (Ast::MultiHash(p1), Ast::MultiHash(p2)) => kvp_vec_eq(p1, p2),
            (Ast::ArrayProjection(l1, r1), Ast::ArrayProjection(l2, r2)) => (**l1).eq(&**l2)
                && (**r1).eq(&**r2),
            (Ast::ObjectProjection(l1, r1), Ast::ObjectProjection(l2, r2)) => (**l1).eq(&**l2)
                && (**r1).eq(&**r2),
            (Ast::Or(l1, r1), Ast::Or(l2, r2)) => (**l1).eq(&**l2) && (**r1).eq(&**r2),
            (Ast::Subexpr(l1, r1), Ast::Subexpr(l2, r2)) => (**l1).eq(&**l2) && (**r1).eq(&**r2),
            _ => false,
        }
    }
}

impl vstd::std_specs::cmp::PartialEqSpecImpl for KeyValuePair {
    open spec fn obeys_eq_spec() -> bool {
        true
    }

    open spec fn eq_spec(&self, other: &KeyValuePair) -> bool {
        (ast_view(*self.key), ast_view(*self.value)) == (ast_view(*other.key), ast_view(
            *other.value,
        ))
    }
}

impl PartialEq for KeyValuePair {
    /// Structural equality of a pair: key and value models must both agree.
    fn eq(&self, other: &KeyValuePair) -> (r: bool)
        ensures
            r == ((ast_view(*self.key), ast_view(*self.value)) == (
                ast_view(*other.key),
                ast_view(*other.value),
            )),
    {
        (*self.key).eq(&*other.key) && (*self.value).eq(&*other.value)
    }
}

/// Pointwise description of [`ast_seq_view`].
pub proof fn lemma_ast_seq_view(s: Seq<Box<Ast>>)
    ensures
        ast_seq_view(s).len() == s.len(),
        forall|i: int| 0 <= i < s.len() ==> ast_seq_view(s)[i] == ast_view(*s[i]),
    decreases s.len(),
{
    if s.len() > 0 {
        lemma_ast_seq_view(s.subrange(1, s.len() as int));
    }
}

/// Pointwise description of [`kvp_seq_view`].
pub proof fn lemma_kvp_seq_view(s: Seq<KeyValuePair>)
    ensures
        kvp_seq_view(s).len() == s.len(),
        forall|i: int| 0 <= i < s.len() ==> kvp_seq_view(s)[i] == (
            ast_view(*s[i].key),
            ast_view(*s[i].value),
        ),
    decreases s.len(),
{
    if s.len() > 0 {
        lemma_kvp_seq_view(s.subrange(1, s.len() as int));
    }
}

} // verus!
