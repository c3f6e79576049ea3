use vstd::prelude::*;

verus! {

broadcast use vstd::std_specs::vec::group_vec_axioms, vstd::seq::group_seq_axioms;

/// An expression embedded in a statement. Expression parsing is a sibling
/// grammar layer; at this layer an expression is carried as the source text
/// it covered.
#[derive(Clone, PartialEq, Eq, Debug)]
pub struct Expr {
    pub text: Vec<char>,
}

impl View for Expr {
    type V = Seq<char>;

    open spec fn view(&self) -> Seq<char> {
        self.text@
    }
}

/// A statement node: the closed set of statement forms this grammar produces.
/// Each variant owns its sub-nodes exclusively; the tree is a strict forest.
#[derive(PartialEq, Eq, Debug)]
pub enum Statement {
    Continue,
    Break,
    Return(Option<Expr>),
    Block(Vec<Statement>),
    If(Expr, Vec<Statement>, Option<Vec<Statement>>),
    While(Expr, Vec<Statement>),
    ExprStmt(Expr),
    Let(Vec<char>, Expr),
}

/// The mathematical shape of a statement tree: expressions as the character
/// sequences they covered, statement lists as sequences.
pub enum SStmt {
    Continue,
    Break,
    Return(Option<Seq<char>>),
    Block(Seq<SStmt>),
    If(Seq<char>, Seq<SStmt>, Option<Seq<SStmt>>),
    While(Seq<char>, Seq<SStmt>),
    ExprStmt(Seq<char>),
    Let(Seq<char>, Seq<char>),
}

impl Statement {
    /// The mathematical value of this node.
    pub open spec fn model(self) -> SStmt
        decreases self,
    {
        match self {
            Statement::Continue => SStmt::Continue,
            Statement::Break => SStmt::Break,
            Statement::Return(None) => SStmt::Return(None),
            Statement::Return(Some(e)) => SStmt::Return(Some(e@)),
            Statement::Block(v) => SStmt::Block(model_seq(v@)),
            Statement::If(e, b, None) => SStmt::If(e@, model_seq(b@), None),
            Statement::If(e, b, Some(eb)) => SStmt::If(e@, model_seq(b@), Some(model_seq(eb@))),
            Statement::While(e, b) => SStmt::While(e@, model_seq(b@)),
            Statement::ExprStmt(e) => SStmt::ExprStmt(e@),
            Statement::Let(n, e) => SStmt::Let(n@, e@),
        }
    }
}

/// The mathematical value of a list of statement nodes, element by element.
pub open spec fn model_seq(s: Seq<Statement>) -> Seq<SStmt>
    decreases s,
{
    if s.len() == 0 {
        Seq::empty()
    } else {
        model_seq(s.drop_last()).push(s.last().model())
    }
}

/// Appending a node appends its model.
pub proof fn lemma_model_seq_push(s: Seq<Statement>, x: Statement)
    ensures
        model_seq(s.push(x)) == model_seq(s).push(x.model()),
{
    assert(s.push(x).drop_last() =~= s);
}

/// `model_seq` maps each element through `Statement::model`.
pub proof fn lemma_model_seq(s: Seq<Statement>)
    ensures
        model_seq(s).len() == s.len(),
        forall|i: int| 0 <= i < s.len() ==> model_seq(s)[i] == s[i].model(),
    decreases s.len(),
{
    if s.len() > 0 {
        lemma_model_seq(s.drop_last());
    }
}

} // verus!
