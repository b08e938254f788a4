//! The syntax tree a successful parse produces. Every enum corresponds to
//! exactly one grammar production and carries exactly the children that
//! production accumulates; a parent owns its children outright.
//!
//! Beside each tree type stands its mathematical value (the `...V` enum, with
//! text as `Seq<char>` and lists as `Seq`), reached through `deep_view`; the
//! parser's contracts are stated over those values.

use vstd::prelude::*;

verus! {

/// A name is the text of an identifier token.
pub type Name = String;

/// Root of the tree: the program's statement list.
#[derive(Debug, PartialEq)]
pub enum AST {
    AStatements(Vec<AStatement>),
}

pub ghost enum ASTV {
    AStatements(Seq<AStatementV>),
}

/// One statement: a jump, a loop, a conditional, or an assignment form.
#[derive(Debug, PartialEq)]
pub enum AStatement {
    ABreak,
    AContinue,
    AFor(AVarPrefix, ABinexpr, ABlock),
    AIf(AIfStmt),
    AElse(AElseStmt),
    AAssign(AAssnPrefix, ACompound),
    AAssignPrefix(AAssnPrefix),
}

pub ghost enum AStatementV {
    ABreak,
    AContinue,
    AFor(AVarPrefixV, ABinexprV, ABlockV),
    AIf(AIfStmtV),
    AElse(AElseStmtV),
    AAssign(AAssnPrefixV, ACompoundV),
    AAssignPrefix(AAssnPrefixV),
}

/// Left side of an assignment: a bare expression or a bracketed,
/// arbitrarily nested destructuring list with at least one element.
#[derive(Debug, PartialEq)]
pub enum AAssnPrefix {
    AAssnPrefixB(ABinexpr),
    AAssnPrefix(Box<AAssnPrefix>, Vec<AAssnPrefix>),
}

pub ghost enum AAssnPrefixV {
    AAssnPrefixB(ABinexprV),
    AAssnPrefix(Box<AAssnPrefixV>, Seq<AAssnPrefixV>),
}

/// Right side of an assignment: a function literal, a catch block, or an
/// expression.
#[derive(Debug, PartialEq)]
pub enum ACompound {
    ACompoundF(AFnparams, ACompoundFBody),
    ACompoundC(ABlock),
    ACompoundB(ABinexpr),
}

pub ghost enum ACompoundV {
    ACompoundF(AFnparamsV, ACompoundFBodyV),
    ACompoundC(ABlockV),
    ACompoundB(ABinexprV),
}

/// Body of a function literal: an arrow expression or a block.
#[derive(Debug, PartialEq)]
pub enum ACompoundFBody {
    ABinexpr(ABinexpr),
    ABlock(ABlock),
}

pub ghost enum ACompoundFBodyV {
    ABinexpr(ABinexprV),
    ABlock(ABlockV),
}

/// Parenthesized, comma-separated, possibly empty parameter name list.
#[derive(Debug, PartialEq)]
pub enum AFnparams {
    AFnparams(Vec<Name>),
}

pub ghost enum AFnparamsV {
    AFnparams(Seq<Seq<char>>),
}

/// Condition and block of an `if`.
#[derive(Debug, PartialEq)]
pub enum AIfStmt {
    AIfStmt(ABinexpr, ABlock),
}

pub ghost enum AIfStmtV {
    AIfStmt(ABinexprV, ABlockV),
}

/// An `else` branch: either `else if ...` or a plain block.
#[derive(Debug, PartialEq)]
pub enum AElseStmt {
    AElseStmtI(AIfStmt),
    AElseStmtB(ABlock),
}

pub ghost enum AElseStmtV {
    AElseStmtI(AIfStmtV),
    AElseStmtB(ABlockV),
}

/// Loop target: a name or a bracketed, arbitrarily nested destructuring list.
#[derive(Debug, PartialEq)]
pub enum AVarPrefix {
    AVarPrefixN(Name),
    AVarPrefix(Box<AVarPrefix>, Vec<AVarPrefix>),
}

pub ghost enum AVarPrefixV {
    AVarPrefixN(Seq<char>),
    AVarPrefix(Box<AVarPrefixV>, Seq<AVarPrefixV>),
}

/// An operator, kept as its textual symbol.
#[derive(Debug, PartialEq)]
pub enum Op {
    Op(Name),
}

pub ghost enum OpV {
    Op(Seq<char>),
}

/// A flat left-to-right operator chain with no precedence levels: a head
/// operand and a tail of (operator, operand) pairs.
#[derive(Debug, PartialEq)]
pub enum ABinexpr {
    ABinexpr(AUnexpr, Vec<(Op, AUnexpr)>),
}

pub ghost enum ABinexprV {
    ABinexpr(AUnexprV, Seq<(OpV, AUnexprV)>),
}

/// A prefix unary operator applied recursively, or a simple expression.
#[derive(Debug, PartialEq)]
pub enum AUnexpr {
    AUnexpr(Op, Box<AUnexpr>),
    AUnexprS(ASimple),
}

pub ghost enum AUnexprV {
    AUnexpr(OpV, Box<AUnexprV>),
    AUnexprS(ASimpleV),
}

/// A simple expression: a primary expression.
#[derive(Debug, PartialEq)]
pub enum ASimple {
    ASimpleP(APrimary),
}

pub ghost enum ASimpleV {
    ASimpleP(APrimaryV),
}

/// A base atom followed by its postfix chain.
#[derive(Debug, PartialEq)]
pub enum APrimary {
    APrimary(APrefix, Vec<APrimaryBody>),
}

pub ghost enum APrimaryV {
    APrimary(APrefixV, Seq<APrimaryBodyV>),
}

/// One postfix element: field access, named method call, indexed access, or
/// a call.
#[derive(Debug, PartialEq)]
pub enum APrimaryBody {
    AName(Name),
    ANameFnargs(Name, AFnargs),
    AFnargs(AFnargs),
    ABinexpr(ABinexpr),
}

pub ghost enum APrimaryBodyV {
    AName(Seq<char>),
    ANameFnargs(Seq<char>, AFnargsV),
    AFnargs(AFnargsV),
    ABinexpr(ABinexprV),
}

/// The base atom of a primary expression: a literal, a name, or a
/// parenthesized expression (already reduced to the inner chain).
#[derive(Debug, PartialEq)]
pub enum APrefix {
    APrefixNull,
    APrefixB(bool),
    APrefixN(Name),
    APrefixI(i64),
    /// A floating literal, kept as its raw digit text.
    APrefixF(String),
    APrefixS(String),
    /// A parenthesized expression.
    APrefixP(Box<ABinexpr>),
}

pub ghost enum APrefixV {
    APrefixNull,
    APrefixB(bool),
    APrefixN(Seq<char>),
    APrefixI(i64),
    APrefixF(Seq<char>),
    APrefixS(Seq<char>),
    APrefixP(Box<ABinexprV>),
}

/// Parenthesized, comma-separated, possibly empty argument list of a call.
#[derive(Debug, PartialEq)]
pub enum AFnargs {
    AFnargs(Vec<ABinexpr>),
}

pub ghost enum AFnargsV {
    AFnargs(Seq<ABinexprV>),
}

/// A block: block-start marker, one or more (statement, line end) pairs,
/// block-end marker.
#[derive(Debug, PartialEq)]
pub enum ABlock {
    ABlock(Vec<AStatement>),
}

pub ghost enum ABlockV {
    ABlock(Seq<AStatementV>),
}

/// Element-wise mathematical values of a statement list.
pub open spec fn stmts_view(l: Seq<AStatement>) -> Seq<AStatementV>
    decreases l,
{
    if l.len() == 0 {
        Seq::<AStatementV>::empty()
    } else {
        stmts_view(l.drop_last()).push(l.last().deep_view())
    }
}

/// Element-wise mathematical values of a destructuring-list tail.
pub open spec fn assn_list_view(l: Seq<AAssnPrefix>) -> Seq<AAssnPrefixV>
    decreases l,
{
    if l.len() == 0 {
        Seq::<AAssnPrefixV>::empty()
    } else {
        assn_list_view(l.drop_last()).push(l.last().deep_view())
    }
}

/// Element-wise mathematical values of a loop-target list tail.
pub open spec fn var_list_view(l: Seq<AVarPrefix>) -> Seq<AVarPrefixV>
    decreases l,
{
    if l.len() == 0 {
        Seq::<AVarPrefixV>::empty()
    } else {
        var_list_view(l.drop_last()).push(l.last().deep_view())
    }
}

/// Element-wise mathematical values of an operator-chain tail.
pub open spec fn pairs_view(l: Seq<(Op, AUnexpr)>) -> Seq<(OpV, AUnexprV)>
    decreases l,
{
    if l.len() == 0 {
        Seq::<(OpV, AUnexprV)>::empty()
    } else {
        pairs_view(l.drop_last()).push((l.last().0.deep_view(), l.last().1.deep_view()))
    }
}

/// Element-wise mathematical values of a postfix chain.
pub open spec fn bodies_view(l: Seq<APrimaryBody>) -> Seq<APrimaryBodyV>
    decreases l,
{
    if l.len() == 0 {
        Seq::<APrimaryBodyV>::empty()
    } else {
        bodies_view(l.drop_last()).push(l.last().deep_view())
    }
}

/// Element-wise mathematical values of an argument list.
pub open spec fn args_view(l: Seq<ABinexpr>) -> Seq<ABinexprV>
    decreases l,
{
    if l.len() == 0 {
        Seq::<ABinexprV>::empty()
    } else {
        args_view(l.drop_last()).push(l.last().deep_view())
    }
}

impl DeepView for AST {
    type V = ASTV;

    open spec fn deep_view(&self) -> ASTV
        decreases self,
    {
        match self {
            AST::AStatements(l) => ASTV::AStatements(stmts_view(l@)),
        }
    }
}

impl DeepView for AStatement {
    type V = AStatementV;

    open spec fn deep_view(&self) -> AStatementV
        decreases self,
    {
        match self {
            AStatement::ABreak => AStatementV::ABreak,
            AStatement::AContinue => AStatementV::AContinue,
            AStatement::AFor(vp, be, bl) => AStatementV::AFor(
                vp.deep_view(),
                be.deep_view(),
                bl.deep_view(),
            ),
            AStatement::AIf(i) => AStatementV::AIf(i.deep_view()),
            AStatement::AElse(e) => AStatementV::AElse(e.deep_view()),
            AStatement::AAssign(ap, c) => AStatementV::AAssign(ap.deep_view(), c.deep_view()),
            AStatement::AAssignPrefix(ap) => AStatementV::AAssignPrefix(ap.deep_view()),
        }
    }
}

impl DeepView for AAssnPrefix {
    type V = AAssnPrefixV;

    open spec fn deep_view(&self) -> AAssnPrefixV
        decreases self,
    {
        match self {
            AAssnPrefix::AAssnPrefixB(be) => AAssnPrefixV::AAssnPrefixB(be.deep_view()),
            AAssnPrefix::AAssnPrefix(h, t) => AAssnPrefixV::AAssnPrefix(
                Box::new((**h).deep_view()),
                assn_list_view(t@),
            ),
        }
    }
}

impl DeepView for ACompound {
    type V = ACompoundV;

    open spec fn deep_view(&self) -> ACompoundV
        decreases self,
    {
        match self {
            ACompound::ACompoundF(p, b) => ACompoundV::ACompoundF(p.deep_view(), b.deep_view()),
            ACompound::ACompoundC(bl) => ACompoundV::ACompoundC(bl.deep_view()),
            ACompound::ACompoundB(be) => ACompoundV::ACompoundB(be.deep_view()),
        }
    }
}

impl DeepView for ACompoundFBody {
    type V = ACompoundFBodyV;

    open spec fn deep_view(&self) -> ACompoundFBodyV
        decreases self,
    {
        match self {
            ACompoundFBody::ABinexpr(be) => ACompoundFBodyV::ABinexpr(be.deep_view()),
            ACompoundFBody::ABlock(bl) => ACompoundFBodyV::ABlock(bl.deep_view()),
        }
    }
}

impl DeepView for AFnparams {
    type V = AFnparamsV;

    open spec fn deep_view(&self) -> AFnparamsV
        decreases self,
    {
        match self {
            AFnparams::AFnparams(ns) => AFnparamsV::AFnparams(ns.deep_view()),
        }
    }
}

impl DeepView for AIfStmt {
    type V = AIfStmtV;

    open spec fn deep_view(&self) -> AIfStmtV
        decreases self,
    {
        match self {
            AIfStmt::AIfStmt(be, bl) => AIfStmtV::AIfStmt(be.deep_view(), bl.deep_view()),
        }
    }
}

impl DeepView for AElseStmt {
    type V = AElseStmtV;

    open spec fn deep_view(&self) -> AElseStmtV
        decreases self,
    {
        match self {
            AElseStmt::AElseStmtI(i) => AElseStmtV::AElseStmtI(i.deep_view()),
            AElseStmt::AElseStmtB(bl) => AElseStmtV::AElseStmtB(bl.deep_view()),
        }
    }
}

impl DeepView for AVarPrefix {
    type V = AVarPrefixV;

    open spec fn deep_view(&self) -> AVarPrefixV
        decreases self,
    {
        match self {
            AVarPrefix::AVarPrefixN(n) => AVarPrefixV::AVarPrefixN(n@),
            AVarPrefix::AVarPrefix(h, t) => AVarPrefixV::AVarPrefix(
                Box::new((**h).deep_view()),
                var_list_view(t@),
            ),
        }
    }
}

impl DeepView for Op {
    type V = OpV;

    open spec fn deep_view(&self) -> OpV
        decreases self,
    {
        match self {
            Op::Op(n) => OpV::Op(n@),
        }
    }
}

impl DeepView for ABinexpr {
    type V = ABinexprV;

    open spec fn deep_view(&self) -> ABinexprV
        decreases self,
    {
        match self {
            ABinexpr::ABinexpr(u, t) => ABinexprV::ABinexpr(u.deep_view(), pairs_view(t@)),
        }
    }
}

impl DeepView for AUnexpr {
    type V = AUnexprV;

    open spec fn deep_view(&self) -> AUnexprV
        decreases self,
    {
        match self {
            AUnexpr::AUnexpr(o, u) => AUnexprV::AUnexpr(o.deep_view(), Box::new((**u).deep_view())),
            AUnexpr::AUnexprS(sp) => AUnexprV::AUnexprS(sp.deep_view()),
        }
    }
}

impl DeepView for ASimple {
    type V = ASimpleV;

    open spec fn deep_view(&self) -> ASimpleV
        decreases self,
    {
        match self {
            ASimple::ASimpleP(p) => ASimpleV::ASimpleP(p.deep_view()),
        }
    }
}

impl DeepView for APrimary {
    type V = APrimaryV;

    open spec fn deep_view(&self) -> APrimaryV
        decreases self,
    {
        match self {
            APrimary::APrimary(p, b) => APrimaryV::APrimary(p.deep_view(), bodies_view(b@)),
        }
    }
}

impl DeepView for APrimaryBody {
    type V = APrimaryBodyV;

    open spec fn deep_view(&self) -> APrimaryBodyV
        decreases self,
    {
        match self {
            APrimaryBody::AName(n) => APrimaryBodyV::AName(n@),
            APrimaryBody::ANameFnargs(n, a) => APrimaryBodyV::ANameFnargs(n@, a.deep_view()),
            APrimaryBody::AFnargs(a) => APrimaryBodyV::AFnargs(a.deep_view()),
            APrimaryBody::ABinexpr(be) => APrimaryBodyV::ABinexpr(be.deep_view()),
        }
    }
}

impl DeepView for APrefix {
    type V = APrefixV;

    open spec fn deep_view(&self) -> APrefixV
        decreases self,
    {
        match self {
            APrefix::APrefixNull => APrefixV::APrefixNull,
            APrefix::APrefixB(b) => APrefixV::APrefixB(*b),
            APrefix::APrefixN(n) => APrefixV::APrefixN(n@),
            APrefix::APrefixI(i) => APrefixV::APrefixI(*i),
            APrefix::APrefixF(t) => APrefixV::APrefixF(t@),
            APrefix::APrefixS(t) => APrefixV::APrefixS(t@),
            APrefix::APrefixP(be) => APrefixV::APrefixP(Box::new((**be).deep_view())),
        }
    }
}

impl DeepView for AFnargs {
    type V = AFnargsV;

    open spec fn deep_view(&self) -> AFnargsV
        decreases self,
    {
        match self {
            AFnargs::AFnargs(l) => AFnargsV::AFnargs(args_view(l@)),
        }
    }
}

impl DeepView for ABlock {
    type V = ABlockV;

    open spec fn deep_view(&self) -> ABlockV
        decreases self,
    {
        match self {
            ABlock::ABlock(l) => ABlockV::ABlock(stmts_view(l@)),
        }
    }
}

} // verus!
