//! Recursive-descent parsing: a token sequence to a syntax tree.
//!
//! Every parsing function takes the token sequence and a cursor position and
//! returns its outcome together with the position the attempt reached; a
//! rejected first token is never consumed. Each function is proved to return
//! exactly what the corresponding grammar production (`sp_...` in `grammar`)
//! assigns to the tokens: the same tree value, the same position, success and
//! failure in exactly the same cases.

use vstd::prelude::*;
use vstd::string::*;

use crate::ast::{
    args_view, assn_list_view, bodies_view, pairs_view, stmts_view, var_list_view, AAssnPrefix,
    AAssnPrefixV, ABinexpr, ABinexprV, ABlock, ACompound, ACompoundFBody, AElseStmt, AFnargs, AFnparams,
    AIfStmt, APrefix, APrimary, APrimaryBody, APrimaryBodyV, ASimple, AStatement, AStatementV,
    AUnexpr, AUnexprV, AVarPrefix, AVarPrefixV, Name, Op, OpV, AST,
};
use crate::grammar::{
    sp_args, sp_assign, sp_assn_list, sp_assn_prefix, sp_bin_tail, sp_binexpr, sp_block,
    sp_block_stmts, sp_bodies, sp_compound, sp_else, sp_fnargs, sp_fnparams, sp_if, sp_names,
    sp_parse, sp_prefix, sp_primary, sp_primary_body, sp_simple, sp_simple_wrap, sp_statement,
    sp_statements, sp_unexpr, sp_var_list, sp_var_prefix, PErr, PRes,
};
use crate::lexer::{str_eq, Token, TokenV};

verus! {

/// The position an outcome reached, whichever way it went.
pub open spec fn pres_pos<A>(r: PRes<A>) -> int {
    match r {
        PRes::Done(_, q) => q,
        PRes::Fail(_, q) => q,
    }
}

/// The message of the distinguished end-of-input failure.
pub open spec fn eof_msg() -> Seq<char> {
    "unexpected end of input"@
}

/// Short rendering of a token for failure messages.
fn describe(t: &Token) -> String {
    match t {
        Token::Indent => String::from_str("block start"),
        Token::Dedent => String::from_str("block end"),
        Token::Bool(b) => {
            if *b {
                String::from_str("`true`")
            } else {
                String::from_str("`false`")
            }
        },
        Token::Int(_) => String::from_str("an integer literal"),
        Token::Float(_) => String::from_str("a floating literal"),
        Token::Str(_) => String::from_str("a string literal"),
        Token::Null => String::from_str("`null`"),
        Token::Keyword(k) => String::from_str("keyword `").concat(k.as_str()).concat("`"),
        Token::Identifier(n) => String::from_str("name `").concat(n.as_str()).concat("`"),
        Token::Symbol(s) => String::from_str("symbol `").concat(s.as_str()).concat("`"),
        Token::Operator(o) => String::from_str("operator `").concat(o.as_str()).concat("`"),
        Token::Newline => String::from_str("line end"),
    }
}

/// The failure message for position `pos`: the distinguished end-of-input
/// message past the last token, else one naming the token found and the
/// expectation.
fn fail_at(t: &Vec<Token>, pos: usize, expected: &str) -> (m: String)
    ensures
        pos as int >= t@.len() ==> m@ == eof_msg(),
{
    if pos >= t.len() {
        String::from_str("unexpected end of input")
    } else {
        String::from_str("unexpected ").concat(describe(&t[pos]).as_str()).concat(
            ", expected ",
        ).concat(expected)
    }
}

/// Whether the token at `pos` is the symbol `sym`.
fn at_symbol(t: &Vec<Token>, pos: usize, sym: &str) -> (r: bool)
    requires
        pos as int <= t@.len(),
    ensures
        r == (pos < t@.len() && (t.deep_view()[pos as int] matches TokenV::Symbol(sy) && sy
            == sym@)),
{
    if pos < t.len() {
        match &t[pos] {
            Token::Symbol(s) => str_eq(s.as_str(), sym),
            _ => false,
        }
    } else {
        false
    }
}

/// Whether the token at `pos` is the keyword `kw`.
fn at_keyword(t: &Vec<Token>, pos: usize, kw: &str) -> (r: bool)
    requires
        pos as int <= t@.len(),
    ensures
        r == (pos < t@.len() && (t.deep_view()[pos as int] matches TokenV::Keyword(k) && k
            == kw@)),
{
    if pos < t.len() {
        match &t[pos] {
            Token::Keyword(k) => str_eq(k.as_str(), kw),
            _ => false,
        }
    } else {
        false
    }
}

/// The identifier text at `pos`, if the token there is an identifier.
fn ident_at(t: &Vec<Token>, pos: usize) -> (r: Option<String>)
    requires
        pos as int <= t@.len(),
    ensures
        match r {
            Some(n) => pos < t@.len() && t.deep_view()[pos as int] == TokenV::Identifier(n@),
            None => !(pos < t@.len() && t.deep_view()[pos as int] matches TokenV::Identifier(_)),
        },
{
    if pos < t.len() {
        match &t[pos] {
            Token::Identifier(n) => Some(n.clone()),
            _ => None,
        }
    } else {
        None
    }
}

/// The operator text at `pos`, if the token there is an operator.
fn op_at(t: &Vec<Token>, pos: usize) -> (r: Option<String>)
    requires
        pos as int <= t@.len(),
    ensures
        match r {
            Some(o) => pos < t@.len() && t.deep_view()[pos as int] == TokenV::Operator(o@),
            None => !(pos < t@.len() && t.deep_view()[pos as int] matches TokenV::Operator(_)),
        },
{
    if pos < t.len() {
        match &t[pos] {
            Token::Operator(o) => Some(o.clone()),
            _ => None,
        }
    } else {
        None
    }
}

/// Whether the token at `pos` is the line-end marker.
fn at_newline(t: &Vec<Token>, pos: usize) -> (r: bool)
    requires
        pos as int <= t@.len(),
    ensures
        r == (pos < t@.len() && t.deep_view()[pos as int] == TokenV::Newline),
{
    pos < t.len() && matches!(&t[pos], Token::Newline)
}

/// Whether the token at `pos` is the block-start marker.
fn at_indent(t: &Vec<Token>, pos: usize) -> (r: bool)
    requires
        pos as int <= t@.len(),
    ensures
        r == (pos < t@.len() && t.deep_view()[pos as int] == TokenV::Indent),
{
    pos < t.len() && matches!(&t[pos], Token::Indent)
}

/// Whether the token at `pos` is the block-end marker.
fn at_dedent(t: &Vec<Token>, pos: usize) -> (r: bool)
    requires
        pos as int <= t@.len(),
    ensures
        r == (pos < t@.len() && t.deep_view()[pos as int] == TokenV::Dedent),
{
    pos < t.len() && matches!(&t[pos], Token::Dedent)
}

/// base atom: a parenthesized expression, a literal, or a name.
fn parse_prefix(t: &Vec<Token>, pos: usize) -> (r: (Result<APrefix, String>, usize))
    requires
        pos as int <= t@.len(),
    ensures
        pos <= r.1 && r.1 as int <= t@.len(),
        (r.0 matches Ok(_)) ==> pos < r.1,
        r.1 as int == pres_pos(sp_prefix(t.deep_view(), pos as int)),
        match sp_prefix(t.deep_view(), pos as int) {
            PRes::Done(v, q) => r.0 matches Ok(a) && a.deep_view() == v,
            PRes::Fail(e, qf) => r.0 matches Err(m) && (e == PErr::Eof ==> m@ == eof_msg()),
        },
    decreases t@.len() - pos, 2int,
{
    let n: usize = t.len();
    if pos >= n {
        return (Err(fail_at(t, pos, "an expression atom")), pos);
    }
    match &t[pos] {
        Token::Symbol(sy) => {
            if str_eq(sy.as_str(), "(") {
                let (b, p1) = parse_binexpr(t, pos + 1);
                match b {
                    Ok(be) => {
                        if at_symbol(t, p1, ")") {
                            (Ok(APrefix::APrefixP(Box::new(be))), p1 + 1)
                        } else {
                            (Err(fail_at(t, p1, "`)`")), p1)
                        }
                    },
                    Err(m) => (Err(m), p1),
                }
            } else {
                (Err(fail_at(t, pos, "an expression atom")), pos)
            }
        },
        Token::Str(sx) => (Ok(APrefix::APrefixS(sx.clone())), pos + 1),
        Token::Int(i) => (Ok(APrefix::APrefixI(*i)), pos + 1),
        Token::Float(f) => (Ok(APrefix::APrefixF(f.clone())), pos + 1),
        Token::Identifier(n) => (Ok(APrefix::APrefixN(n.clone())), pos + 1),
        Token::Bool(b) => (Ok(APrefix::APrefixB(*b)), pos + 1),
        Token::Null => (Ok(APrefix::APrefixNull), pos + 1),
        _ => (Err(fail_at(t, pos, "an expression atom")), pos),
    }
}

/// argument list: `(`, zero or more comma-separated expressions, `)`.
fn parse_fnargs(t: &Vec<Token>, pos: usize) -> (r: (Result<AFnargs, String>, usize))
    requires
        pos as int <= t@.len(),
    ensures
        pos <= r.1 && r.1 as int <= t@.len(),
        (r.0 matches Ok(_)) ==> pos < r.1,
        r.1 as int == pres_pos(sp_fnargs(t.deep_view(), pos as int)),
        match sp_fnargs(t.deep_view(), pos as int) {
            PRes::Done(v, q) => r.0 matches Ok(a) && a.deep_view() == v,
            PRes::Fail(e, qf) => r.0 matches Err(m) && (e == PErr::Eof ==> m@ == eof_msg()),
        },
    decreases t@.len() - pos, 1int,
{
    let n: usize = t.len();
    if at_symbol(t, pos, "(") {
        let (b0, p1) = parse_binexpr(t, pos + 1);
        match b0 {
            Ok(b) => {
                let ghost bv = b.deep_view();
                let mut acc: Vec<ABinexpr> = Vec::new();
                acc.push(b);
                proof {
                    assert(acc@.drop_last() =~= Seq::<ABinexpr>::empty());
                    assert(args_view(Seq::<ABinexpr>::empty()) =~= Seq::<ABinexprV>::empty());
                    assert(args_view(acc@) =~= seq![bv]);
                }
                let (l, p2) = parse_args(t, p1, acc);
                if at_symbol(t, p2, ")") {
                    (Ok(AFnargs::AFnargs(l)), p2 + 1)
                } else {
                    (Err(fail_at(t, p2, "`)`")), p2)
                }
            },
            Err(_) => {
                if at_symbol(t, p1, ")") {
                    proof {
                        assert(args_view(Seq::<ABinexpr>::empty()) =~= Seq::<ABinexprV>::empty());
                    }
                    (Ok(AFnargs::AFnargs(Vec::new())), p1 + 1)
                } else {
                    (Err(fail_at(t, p1, "`)`")), p1)
                }
            },
        }
    } else {
        (Err(fail_at(t, pos, "`(`")), pos)
    }
}

/// Zero or more of (comma, expression), collected onto `acc`.
fn parse_args(t: &Vec<Token>, pos: usize, acc: Vec<ABinexpr>) -> (r: (Vec<ABinexpr>, usize))
    requires
        pos as int <= t@.len(),
    ensures
        pos <= r.1 && r.1 as int <= t@.len(),
        sp_args(t.deep_view(), pos as int, args_view(acc@)) == PRes::Done(
            args_view(r.0@),
            r.1 as int,
        ),
    decreases t@.len() - pos, 1int,
{
    let n: usize = t.len();
    if at_symbol(t, pos, ",") {
        let (x, q) = parse_binexpr(t, pos + 1);
        match x {
            Ok(b) => {
                let mut acc2 = acc;
                acc2.push(b);
                proof {
                    assert(acc2@.drop_last() =~= acc@);
                }
                parse_args(t, q, acc2)
            },
            Err(_) => (acc, q),
        }
    } else {
        (acc, pos)
    }
}

/// one postfix element: `:` name arguments, `.` name, `[` expression `]`, or
/// an argument list.
fn parse_primary_body(t: &Vec<Token>, pos: usize) -> (r: (Result<APrimaryBody, String>, usize))
    requires
        pos as int <= t@.len(),
    ensures
        pos <= r.1 && r.1 as int <= t@.len(),
        (r.0 matches Ok(_)) ==> pos < r.1,
        r.1 as int == pres_pos(sp_primary_body(t.deep_view(), pos as int)),
        match sp_primary_body(t.deep_view(), pos as int) {
            PRes::Done(v, q) => r.0 matches Ok(a) && a.deep_view() == v,
            PRes::Fail(e, qf) => r.0 matches Err(m) && (e == PErr::Eof ==> m@ == eof_msg()),
        },
    decreases t@.len() - pos, 2int,
{
    let n: usize = t.len();
    if pos >= n {
        return (Err(fail_at(t, pos, "a postfix element")), pos);
    }
    match &t[pos] {
        Token::Symbol(sy) => {
            if str_eq(sy.as_str(), ":") {
                match ident_at(t, pos + 1) {
                    Some(n) => {
                        let (a, q) = parse_fnargs(t, pos + 2);
                        match a {
                            Ok(av) => (Ok(APrimaryBody::ANameFnargs(n, av)), q),
                            Err(m) => (Err(m), q),
                        }
                    },
                    None => (Err(fail_at(t, pos + 1, "a name")), pos + 1),
                }
            } else if str_eq(sy.as_str(), ".") {
                match ident_at(t, pos + 1) {
                    Some(n) => (Ok(APrimaryBody::AName(n)), pos + 2),
                    None => (Err(fail_at(t, pos + 1, "a name")), pos + 1),
                }
            } else if str_eq(sy.as_str(), "[") {
                let (b, q) = parse_binexpr(t, pos + 1);
                match b {
                    Ok(be) => {
                        if at_symbol(t, q, "]") {
                            (Ok(APrimaryBody::ABinexpr(be)), q + 1)
                        } else {
                            (Err(fail_at(t, q, "`]`")), q)
                        }
                    },
                    Err(m) => (Err(m), q),
                }
            } else if str_eq(sy.as_str(), "(") {
                let (a, q) = parse_fnargs(t, pos);
                match a {
                    Ok(av) => (Ok(APrimaryBody::AFnargs(av)), q),
                    Err(m) => (Err(m), q),
                }
            } else {
                (Err(fail_at(t, pos, "a postfix element")), pos)
            }
        },
        _ => (Err(fail_at(t, pos, "a postfix element")), pos),
    }
}

/// Zero or more postfix elements, collected onto `acc`.
fn parse_bodies(t: &Vec<Token>, pos: usize, acc: Vec<APrimaryBody>) -> (r: (
    Vec<APrimaryBody>,
    usize,
))
    requires
        pos as int <= t@.len(),
    ensures
        pos <= r.1 && r.1 as int <= t@.len(),
        sp_bodies(t.deep_view(), pos as int, bodies_view(acc@)) == PRes::Done(
            bodies_view(r.0@),
            r.1 as int,
        ),
    decreases t@.len() - pos, 3int,
{
    let (b, p1) = parse_primary_body(t, pos);
    match b {
        Ok(bv) => {
            let mut acc2 = acc;
            acc2.push(bv);
            proof {
                assert(acc2@.drop_last() =~= acc@);
            }
            parse_bodies(t, p1, acc2)
        },
        Err(_) => (acc, p1),
    }
}

/// primary expression: a base atom and its postfix chain.
fn parse_primary(t: &Vec<Token>, pos: usize) -> (r: (Result<APrimary, String>, usize))
    requires
        pos as int <= t@.len(),
    ensures
        pos <= r.1 && r.1 as int <= t@.len(),
        (r.0 matches Ok(_)) ==> pos < r.1,
        r.1 as int == pres_pos(sp_primary(t.deep_view(), pos as int)),
        match sp_primary(t.deep_view(), pos as int) {
            PRes::Done(v, q) => r.0 matches Ok(a) && a.deep_view() == v,
            PRes::Fail(e, qf) => r.0 matches Err(m) && (e == PErr::Eof ==> m@ == eof_msg()),
        },
    decreases t@.len() - pos, 4int,
{
    let (pf, p1) = parse_prefix(t, pos);
    match pf {
        Ok(pv) => {
            let (bs, p2) = parse_bodies(t, p1, Vec::new());
            proof {
                assert(bodies_view(Seq::<APrimaryBody>::empty()) =~= Seq::<APrimaryBodyV>::empty());
            }
            (Ok(APrimary::APrimary(pv, bs)), p2)
        },
        Err(m) => (Err(m), p1),
    }
}

/// simple expression: a primary expression.
fn parse_simple(t: &Vec<Token>, pos: usize) -> (r: (Result<ASimple, String>, usize))
    requires
        pos as int <= t@.len(),
    ensures
        pos <= r.1 && r.1 as int <= t@.len(),
        (r.0 matches Ok(_)) ==> pos < r.1,
        r.1 as int == pres_pos(sp_simple(t.deep_view(), pos as int)),
        match sp_simple(t.deep_view(), pos as int) {
            PRes::Done(v, q) => r.0 matches Ok(a) && a.deep_view() == v,
            PRes::Fail(e, qf) => r.0 matches Err(m) && (e == PErr::Eof ==> m@ == eof_msg()),
        },
    decreases t@.len() - pos, 5int,
{
    let (p, p1) = parse_primary(t, pos);
    match p {
        Ok(pv) => (Ok(ASimple::ASimpleP(pv)), p1),
        Err(m) => (Err(m), p1),
    }
}

/// unary expression: one of the four prefix operators applied recursively,
/// or a simple expression.
fn parse_unexpr(t: &Vec<Token>, pos: usize) -> (r: (Result<AUnexpr, String>, usize))
    requires
        pos as int <= t@.len(),
    ensures
        pos <= r.1 && r.1 as int <= t@.len(),
        (r.0 matches Ok(_)) ==> pos < r.1,
        r.1 as int == pres_pos(sp_unexpr(t.deep_view(), pos as int)),
        match sp_unexpr(t.deep_view(), pos as int) {
            PRes::Done(v, q) => r.0 matches Ok(a) && a.deep_view() == v,
            PRes::Fail(e, qf) => r.0 matches Err(m) && (e == PErr::Eof ==> m@ == eof_msg()),
        },
    decreases t@.len() - pos, 6int,
{
    let n: usize = t.len();
    if pos >= n {
        return (Err(fail_at(t, pos, "an expression")), pos);
    }
    match &t[pos] {
        Token::Operator(o) => {
            if str_eq(o.as_str(), "-") || str_eq(o.as_str(), "!") || str_eq(o.as_str(), "$")
                || str_eq(o.as_str(), "~") {
                let o2 = o.clone();
                let (u, p1) = parse_unexpr(t, pos + 1);
                match u {
                    Ok(uv) => (Ok(AUnexpr::AUnexpr(Op::Op(o2), Box::new(uv))), p1),
                    Err(m) => (Err(m), p1),
                }
            } else {
                proof {
                    assert(sp_unexpr(t.deep_view(), pos as int) == sp_simple_wrap(
                        t.deep_view(),
                        pos as int,
                    ));
                }
                let (s, p1) = parse_simple(t, pos);
                match s {
                    Ok(sv) => (Ok(AUnexpr::AUnexprS(sv)), p1),
                    Err(m) => (Err(m), p1),
                }
            }
        },
        _ => {
            proof {
                assert(sp_unexpr(t.deep_view(), pos as int) == sp_simple_wrap(
                    t.deep_view(),
                    pos as int,
                ));
            }
            let (s, p1) = parse_simple(t, pos);
            match s {
                Ok(sv) => (Ok(AUnexpr::AUnexprS(sv)), p1),
                Err(m) => (Err(m), p1),
            }
        },
    }
}

/// Zero or more of (operator, unary expression), collected onto `acc`.
fn parse_bin_tail(t: &Vec<Token>, pos: usize, acc: Vec<(Op, AUnexpr)>) -> (r: (
    Vec<(Op, AUnexpr)>,
    usize,
))
    requires
        pos as int <= t@.len(),
    ensures
        pos <= r.1 && r.1 as int <= t@.len(),
        sp_bin_tail(t.deep_view(), pos as int, pairs_view(acc@)) == PRes::Done(
            pairs_view(r.0@),
            r.1 as int,
        ),
    decreases t@.len() - pos, 7int,
{
    let n: usize = t.len();
    match op_at(t, pos) {
        Some(o) => {
            let (u, q) = parse_unexpr(t, pos + 1);
            match u {
                Ok(uv) => {
                    let mut acc2 = acc;
                    acc2.push((Op::Op(o), uv));
                    proof {
                        assert(acc2@.drop_last() =~= acc@);
                    }
                    parse_bin_tail(t, q, acc2)
                },
                Err(_) => (acc, q),
            }
        },
        None => (acc, pos),
    }
}

/// parameter list: `(`, zero or more comma-separated names, `)`.
fn parse_fnparams(t: &Vec<Token>, pos: usize) -> (r: (Result<AFnparams, String>, usize))
    requires
        pos as int <= t@.len(),
    ensures
        pos <= r.1 && r.1 as int <= t@.len(),
        (r.0 matches Ok(_)) ==> pos < r.1,
        r.1 as int == pres_pos(sp_fnparams(t.deep_view(), pos as int)),
        match sp_fnparams(t.deep_view(), pos as int) {
            PRes::Done(v, q) => r.0 matches Ok(a) && a.deep_view() == v,
            PRes::Fail(e, qf) => r.0 matches Err(m) && (e == PErr::Eof ==> m@ == eof_msg()),
        },
    decreases t@.len() - pos, 1int,
{
    let n: usize = t.len();
    if at_symbol(t, pos, "(") {
        match ident_at(t, pos + 1) {
            Some(nm) => {
                let ghost nv = nm@;
                let mut acc: Vec<Name> = Vec::new();
                acc.push(nm);
                proof {
                    assert(acc.deep_view() =~= seq![nv]);
                }
                let (ns, q) = parse_names(t, pos + 2, acc);
                if at_symbol(t, q, ")") {
                    (Ok(AFnparams::AFnparams(ns)), q + 1)
                } else {
                    (Err(fail_at(t, q, "`)`")), q)
                }
            },
            None => {
                if at_symbol(t, pos + 1, ")") {
                    let e: Vec<Name> = Vec::new();
                    proof {
                        assert(e.deep_view() =~= Seq::<Seq<char>>::empty());
                    }
                    (Ok(AFnparams::AFnparams(e)), pos + 2)
                } else {
                    (Err(fail_at(t, pos + 1, "a parameter name or `)`")), pos + 1)
                }
            },
        }
    } else {
        (Err(fail_at(t, pos, "`(`")), pos)
    }
}

/// Zero or more of (comma, name), collected onto `acc`.
fn parse_names(t: &Vec<Token>, pos: usize, acc: Vec<Name>) -> (r: (Vec<Name>, usize))
    requires
        pos as int <= t@.len(),
    ensures
        pos <= r.1 && r.1 as int <= t@.len(),
        sp_names(t.deep_view(), pos as int, acc.deep_view()) == PRes::Done(
            r.0.deep_view(),
            r.1 as int,
        ),
    decreases t@.len() - pos, 1int,
{
    let n: usize = t.len();
    if at_symbol(t, pos, ",") {
        match ident_at(t, pos + 1) {
            Some(nm) => {
                let ghost pre = acc.deep_view();
                let ghost nv = nm@;
                let mut acc2 = acc;
                acc2.push(nm);
                proof {
                    assert(acc2.deep_view() =~= pre.push(nv));
                }
                parse_names(t, pos + 2, acc2)
            },
            None => (acc, pos + 1),
        }
    } else {
        (acc, pos)
    }
}

/// loop target: a bracketed destructuring list, or a name.
fn parse_var_prefix(t: &Vec<Token>, pos: usize) -> (r: (Result<AVarPrefix, String>, usize))
    requires
        pos as int <= t@.len(),
    ensures
        pos <= r.1 && r.1 as int <= t@.len(),
        (r.0 matches Ok(_)) ==> pos < r.1,
        r.1 as int == pres_pos(sp_var_prefix(t.deep_view(), pos as int)),
        match sp_var_prefix(t.deep_view(), pos as int) {
            PRes::Done(v, q) => r.0 matches Ok(a) && a.deep_view() == v,
            PRes::Fail(e, qf) => r.0 matches Err(m) && (e == PErr::Eof ==> m@ == eof_msg()),
        },
    decreases t@.len() - pos, 9int,
{
    let n: usize = t.len();
    if at_symbol(t, pos, "[") {
        let (h, q1) = parse_var_prefix(t, pos + 1);
        match h {
            Ok(hv) => {
                let (tail, q2) = parse_var_list(t, q1, Vec::new());
                proof {
                    assert(var_list_view(Seq::<AVarPrefix>::empty())
                        =~= Seq::<AVarPrefixV>::empty());
                }
                if at_symbol(t, q2, "]") {
                    (Ok(AVarPrefix::AVarPrefix(Box::new(hv), tail)), q2 + 1)
                } else {
                    (Err(fail_at(t, q2, "`]`")), q2)
                }
            },
            Err(m) => (Err(m), q1),
        }
    } else {
        match ident_at(t, pos) {
            Some(nm) => (Ok(AVarPrefix::AVarPrefixN(nm)), pos + 1),
            None => (Err(fail_at(t, pos, "a name")), pos),
        }
    }
}

/// Zero or more of (comma, loop target), collected onto `acc`.
fn parse_var_list(t: &Vec<Token>, pos: usize, acc: Vec<AVarPrefix>) -> (r: (Vec<AVarPrefix>, usize))
    requires
        pos as int <= t@.len(),
    ensures
        pos <= r.1 && r.1 as int <= t@.len(),
        sp_var_list(t.deep_view(), pos as int, var_list_view(acc@)) == PRes::Done(
            var_list_view(r.0@),
            r.1 as int,
        ),
    decreases t@.len() - pos, 9int,
{
    let n: usize = t.len();
    if at_symbol(t, pos, ",") {
        let (x, q) = parse_var_prefix(t, pos + 1);
        match x {
            Ok(xv) => {
                let mut acc2 = acc;
                acc2.push(xv);
                proof {
                    assert(acc2@.drop_last() =~= acc@);
                }
                parse_var_list(t, q, acc2)
            },
            Err(_) => (acc, q),
        }
    } else {
        (acc, pos)
    }
}

/// assignment prefix: a bracketed destructuring list, or an expression.
fn parse_assn_prefix(t: &Vec<Token>, pos: usize) -> (r: (Result<AAssnPrefix, String>, usize))
    requires
        pos as int <= t@.len(),
    ensures
        pos <= r.1 && r.1 as int <= t@.len(),
        (r.0 matches Ok(_)) ==> pos < r.1,
        r.1 as int == pres_pos(sp_assn_prefix(t.deep_view(), pos as int)),
        match sp_assn_prefix(t.deep_view(), pos as int) {
            PRes::Done(v, q) => r.0 matches Ok(a) && a.deep_view() == v,
            PRes::Fail(e, qf) => r.0 matches Err(m) && (e == PErr::Eof ==> m@ == eof_msg()),
        },
    decreases t@.len() - pos, 9int,
{
    let n: usize = t.len();
    if at_symbol(t, pos, "[") {
        let (h, q1) = parse_assn_prefix(t, pos + 1);
        match h {
            Ok(hv) => {
                let (tail, q2) = parse_assn_list(t, q1, Vec::new());
                proof {
                    assert(assn_list_view(Seq::<AAssnPrefix>::empty())
                        =~= Seq::<AAssnPrefixV>::empty());
                }
                if at_symbol(t, q2, "]") {
                    (Ok(AAssnPrefix::AAssnPrefix(Box::new(hv), tail)), q2 + 1)
                } else {
                    (Err(fail_at(t, q2, "`]`")), q2)
                }
            },
            Err(m) => (Err(m), q1),
        }
    } else {
        let (b, q) = parse_binexpr(t, pos);
        match b {
            Ok(bv) => (Ok(AAssnPrefix::AAssnPrefixB(bv)), q),
            Err(m) => (Err(m), q),
        }
    }
}

/// Zero or more of (comma, assignment prefix), collected onto `acc`.
fn parse_assn_list(t: &Vec<Token>, pos: usize, acc: Vec<AAssnPrefix>) -> (r: (
    Vec<AAssnPrefix>,
    usize,
))
    requires
        pos as int <= t@.len(),
    ensures
        pos <= r.1 && r.1 as int <= t@.len(),
        sp_assn_list(t.deep_view(), pos as int, assn_list_view(acc@)) == PRes::Done(
            assn_list_view(r.0@),
            r.1 as int,
        ),
    decreases t@.len() - pos, 9int,
{
    let n: usize = t.len();
    if at_symbol(t, pos, ",") {
        let (x, q) = parse_assn_prefix(t, pos + 1);
        match x {
            Ok(xv) => {
                let mut acc2 = acc;
                acc2.push(xv);
                proof {
                    assert(acc2@.drop_last() =~= acc@);
                }
                parse_assn_list(t, q, acc2)
            },
            Err(_) => (acc, q),
        }
    } else {
        (acc, pos)
    }
}

/// block: block-start marker, one or more (statement, line end) pairs,
/// block-end marker.
fn parse_block(t: &Vec<Token>, pos: usize) -> (r: (Result<ABlock, String>, usize))
    requires
        pos as int <= t@.len(),
    ensures
        pos <= r.1 && r.1 as int <= t@.len(),
        (r.0 matches Ok(_)) ==> pos < r.1,
        r.1 as int == pres_pos(sp_block(t.deep_view(), pos as int)),
        match sp_block(t.deep_view(), pos as int) {
            PRes::Done(v, q) => r.0 matches Ok(a) && a.deep_view() == v,
            PRes::Fail(e, qf) => r.0 matches Err(m) && (e == PErr::Eof ==> m@ == eof_msg()),
        },
    decreases t@.len() - pos, 1int,
{
    let n: usize = t.len();
    if at_indent(t, pos) {
        let (sts, q) = parse_block_stmts(t, pos + 1, Vec::new());
        proof {
            assert(stmts_view(Seq::<AStatement>::empty()) =~= Seq::<AStatementV>::empty());
        }
        if at_dedent(t, q) {
            (Ok(ABlock::ABlock(sts)), q + 1)
        } else {
            (Err(fail_at(t, q, "block end")), q)
        }
    } else {
        (Err(fail_at(t, pos, "block start")), pos)
    }
}

/// Zero or more of (statement, line end) inside a block, collected onto
/// `acc`.
fn parse_block_stmts(t: &Vec<Token>, pos: usize, acc: Vec<AStatement>) -> (r: (
    Vec<AStatement>,
    usize,
))
    requires
        pos as int <= t@.len(),
    ensures
        pos <= r.1 && r.1 as int <= t@.len(),
        sp_block_stmts(t.deep_view(), pos as int, stmts_view(acc@)) == PRes::Done(
            stmts_view(r.0@),
            r.1 as int,
        ),
    decreases t@.len() - pos, 12int,
{
    let n: usize = t.len();
    let (st, q) = parse_statement(t, pos);
    match st {
        Ok(sv) => {
            if at_newline(t, q) {
                let mut acc2 = acc;
                acc2.push(sv);
                proof {
                    assert(acc2@.drop_last() =~= acc@);
                }
                parse_block_stmts(t, q + 1, acc2)
            } else {
                (acc, q)
            }
        },
        Err(_) => (acc, q),
    }
}

/// body of an `if`, after its keyword: a condition and a block.
fn parse_if(t: &Vec<Token>, pos: usize) -> (r: (Result<AIfStmt, String>, usize))
    requires
        pos as int <= t@.len(),
    ensures
        pos <= r.1 && r.1 as int <= t@.len(),
        (r.0 matches Ok(_)) ==> pos < r.1,
        r.1 as int == pres_pos(sp_if(t.deep_view(), pos as int)),
        match sp_if(t.deep_view(), pos as int) {
            PRes::Done(v, q) => r.0 matches Ok(a) && a.deep_view() == v,
            PRes::Fail(e, qf) => r.0 matches Err(m) && (e == PErr::Eof ==> m@ == eof_msg()),
        },
    decreases t@.len() - pos, 9int,
{
    let (be, q) = parse_binexpr(t, pos);
    match be {
        Ok(bev) => {
            let (bl, q2) = parse_block(t, q);
            match bl {
                Ok(blv) => (Ok(AIfStmt::AIfStmt(bev, blv)), q2),
                Err(m) => (Err(m), q2),
            }
        },
        Err(m) => (Err(m), q),
    }
}

/// body of an `else`, after its keyword: `if ...` again, or a plain block.
fn parse_else(t: &Vec<Token>, pos: usize) -> (r: (Result<AElseStmt, String>, usize))
    requires
        pos as int <= t@.len(),
    ensures
        pos <= r.1 && r.1 as int <= t@.len(),
        (r.0 matches Ok(_)) ==> pos < r.1,
        r.1 as int == pres_pos(sp_else(t.deep_view(), pos as int)),
        match sp_else(t.deep_view(), pos as int) {
            PRes::Done(v, q) => r.0 matches Ok(a) && a.deep_view() == v,
            PRes::Fail(e, qf) => r.0 matches Err(m) && (e == PErr::Eof ==> m@ == eof_msg()),
        },
    decreases t@.len() - pos, 9int,
{
    let n: usize = t.len();
    if pos >= n {
        return (Err(fail_at(t, pos, "`if` or a block")), pos);
    }
    if at_keyword(t, pos, "if") {
        let (i, q) = parse_if(t, pos + 1);
        match i {
            Ok(iv) => (Ok(AElseStmt::AElseStmtI(iv)), q),
            Err(m) => (Err(m), q),
        }
    } else {
        let (bl, q) = parse_block(t, pos);
        match bl {
            Ok(blv) => (Ok(AElseStmt::AElseStmtB(blv)), q),
            Err(m) => (Err(m), q),
        }
    }
}

/// compound value: a function literal, a catch block, or an expression.
fn parse_compound(t: &Vec<Token>, pos: usize) -> (r: (Result<ACompound, String>, usize))
    requires
        pos as int <= t@.len(),
    ensures
        pos <= r.1 && r.1 as int <= t@.len(),
        (r.0 matches Ok(_)) ==> pos < r.1,
        r.1 as int == pres_pos(sp_compound(t.deep_view(), pos as int)),
        match sp_compound(t.deep_view(), pos as int) {
            PRes::Done(v, q) => r.0 matches Ok(a) && a.deep_view() == v,
            PRes::Fail(e, qf) => r.0 matches Err(m) && (e == PErr::Eof ==> m@ == eof_msg()),
        },
    decreases t@.len() - pos, 9int,
{
    let n: usize = t.len();
    if at_keyword(t, pos, "func") {
        let (ps, q) = parse_fnparams(t, pos + 1);
        match ps {
            Ok(pv) => {
                if at_symbol(t, q, "->") {
                    let (b, q2) = parse_binexpr(t, q + 1);
                    match b {
                        Ok(bv) => (
                            Ok(ACompound::ACompoundF(pv, ACompoundFBody::ABinexpr(bv))),
                            q2,
                        ),
                        Err(m) => (Err(m), q2),
                    }
                } else {
                    let (bl, q2) = parse_block(t, q);
                    match bl {
                        Ok(blv) => (
                            Ok(ACompound::ACompoundF(pv, ACompoundFBody::ABlock(blv))),
                            q2,
                        ),
                        Err(m) => (Err(m), q2),
                    }
                }
            },
            Err(m) => (Err(m), q),
        }
    } else if at_keyword(t, pos, "catch") {
        let (bl, q) = parse_block(t, pos + 1);
        match bl {
            Ok(blv) => (Ok(ACompound::ACompoundC(blv)), q),
            Err(m) => (Err(m), q),
        }
    } else {
        let (b, q) = parse_binexpr(t, pos);
        match b {
            Ok(bv) => (Ok(ACompound::ACompoundB(bv)), q),
            Err(m) => (Err(m), q),
        }
    }
}

/// The assignment form a statement falls through to: an assignment prefix,
/// then — only if an `=` symbol follows — a compound value.
fn parse_assign(t: &Vec<Token>, pos: usize) -> (r: (Result<AStatement, String>, usize))
    requires
        pos as int <= t@.len(),
    ensures
        pos <= r.1 && r.1 as int <= t@.len(),
        (r.0 matches Ok(_)) ==> pos < r.1,
        r.1 as int == pres_pos(sp_assign(t.deep_view(), pos as int)),
        match sp_assign(t.deep_view(), pos as int) {
            PRes::Done(v, q) => r.0 matches Ok(a) && a.deep_view() == v,
            PRes::Fail(e, qf) => r.0 matches Err(m) && (e == PErr::Eof ==> m@ == eof_msg()),
        },
    decreases t@.len() - pos, 10int,
{
    let n: usize = t.len();
    let (ap, q) = parse_assn_prefix(t, pos);
    match ap {
        Ok(apv) => {
            if at_symbol(t, q, "=") {
                let (c, q2) = parse_compound(t, q + 1);
                match c {
                    Ok(cv) => (Ok(AStatement::AAssign(apv, cv)), q2),
                    Err(m) => (Err(m), q2),
                }
            } else {
                (Ok(AStatement::AAssignPrefix(apv)), q)
            }
        },
        Err(m) => (Err(m), q),
    }
}

/// statement: a jump keyword, a `for` loop, an `if`, an `else`, or an
/// assignment form.
fn parse_statement(t: &Vec<Token>, pos: usize) -> (r: (Result<AStatement, String>, usize))
    requires
        pos as int <= t@.len(),
    ensures
        pos <= r.1 && r.1 as int <= t@.len(),
        (r.0 matches Ok(_)) ==> pos < r.1,
        r.1 as int == pres_pos(sp_statement(t.deep_view(), pos as int)),
        match sp_statement(t.deep_view(), pos as int) {
            PRes::Done(v, q) => r.0 matches Ok(a) && a.deep_view() == v,
            PRes::Fail(e, qf) => r.0 matches Err(m) && (e == PErr::Eof ==> m@ == eof_msg()),
        },
    decreases t@.len() - pos, 11int,
{
    let n: usize = t.len();
    if pos >= n {
        return (Err(fail_at(t, pos, "a statement")), pos);
    }
    match &t[pos] {
        Token::Keyword(kw) => {
            if str_eq(kw.as_str(), "break") {
                (Ok(AStatement::ABreak), pos + 1)
            } else if str_eq(kw.as_str(), "continue") {
                (Ok(AStatement::AContinue), pos + 1)
            } else if str_eq(kw.as_str(), "for") {
                let (vp, q1) = parse_var_prefix(t, pos + 1);
                match vp {
                    Ok(vpv) => {
                        if at_keyword(t, q1, "in") {
                            let (be, q2) = parse_binexpr(t, q1 + 1);
                            match be {
                                Ok(bev) => {
                                    let (bl, q3) = parse_block(t, q2);
                                    match bl {
                                        Ok(blv) => (Ok(AStatement::AFor(vpv, bev, blv)), q3),
                                        Err(m) => (Err(m), q3),
                                    }
                                },
                                Err(m) => (Err(m), q2),
                            }
                        } else {
                            (Err(fail_at(t, q1, "`in`")), q1)
                        }
                    },
                    Err(m) => (Err(m), q1),
                }
            } else if str_eq(kw.as_str(), "if") {
                let (i, q) = parse_if(t, pos + 1);
                match i {
                    Ok(iv) => (Ok(AStatement::AIf(iv)), q),
                    Err(m) => (Err(m), q),
                }
            } else if str_eq(kw.as_str(), "else") {
                let (e, q) = parse_else(t, pos + 1);
                match e {
                    Ok(ev) => (Ok(AStatement::AElse(ev)), q),
                    Err(m) => (Err(m), q),
                }
            } else {
                parse_assign(t, pos)
            }
        },
        _ => parse_assign(t, pos),
    }
}

/// One or more of (statement, line end), to the end of input, collected onto
/// `acc`; a failing statement or a missing line end is a hard failure.
fn parse_statements(t: &Vec<Token>, pos: usize, acc: Vec<AStatement>) -> (r: (
    Result<Vec<AStatement>, String>,
    usize,
))
    requires
        pos as int <= t@.len(),
    ensures
        pos <= r.1 && r.1 as int <= t@.len(),
        r.1 as int == pres_pos(sp_statements(t.deep_view(), pos as int, stmts_view(acc@))),
        match sp_statements(t.deep_view(), pos as int, stmts_view(acc@)) {
            PRes::Done(l, q) => r.0 matches Ok(v) && stmts_view(v@) == l,
            PRes::Fail(e, qf) => r.0 matches Err(m) && (e == PErr::Eof ==> m@ == eof_msg()),
        },
    decreases t@.len() - pos, 12int,
{
    let n: usize = t.len();
    if pos >= n {
        return (Ok(acc), pos);
    }
    let (st, q) = parse_statement(t, pos);
    match st {
        Ok(sv) => {
            if at_newline(t, q) {
                let mut acc2 = acc;
                acc2.push(sv);
                proof {
                    assert(acc2@.drop_last() =~= acc@);
                }
                parse_statements(t, q + 1, acc2)
            } else {
                (Err(fail_at(t, q, "line end")), q)
            }
        },
        Err(m) => (Err(m), q),
    }
}

/// A token sequence from which the grammar derives a whole program: the
/// program production succeeds and consumes every token.
pub open spec fn valid_program(ts: Seq<TokenV>) -> bool {
    sp_parse(ts, 0) matches PRes::Done(_, q) && q == ts.len()
}

/// Parse a whole program from the cursor position on. The cursor is shared
/// by reference: after a successful parse the caller must inspect it for
/// unread tokens — trailing tokens are the caller's to surface, not a
/// failure of the parser. The result is exactly what the grammar
/// (`sp_parse`) assigns to the tokens; in particular, on any token sequence
/// from which the grammar derives a whole program, parsing from the start
/// succeeds and leaves no unread tokens.
pub fn parse(t: &Vec<Token>, pos: &mut usize) -> (r: Result<AST, String>)
    requires
        *old(pos) as int <= t@.len(),
    ensures
        *old(pos) <= *final(pos) && *final(pos) as int <= t@.len(),
        *final(pos) as int == pres_pos(sp_parse(t.deep_view(), *old(pos) as int)),
        match sp_parse(t.deep_view(), *old(pos) as int) {
            PRes::Done(v, q) => r matches Ok(a) && a.deep_view() == v,
            PRes::Fail(e, qf) => r matches Err(m) && (e == PErr::Eof ==> m@ == eof_msg()),
        },
        valid_program(t.deep_view()) && *old(pos) == 0 ==> ((r matches Ok(_)) && *final(pos) as int
            == t@.len()),
{
    let start = *pos;
    proof {
        assert(stmts_view(Seq::<AStatement>::empty()) =~= Seq::<AStatementV>::empty());
    }
    let (l, q) = parse_statements(t, start, Vec::new());
    *pos = q;
    match l {
        Ok(v) => Ok(AST::AStatements(v)),
        Err(m) => Err(m),
    }
}

/// expression: a unary expression and a flat tail of (operator, unary
/// expression) pairs, with no precedence levels.
fn parse_binexpr(t: &Vec<Token>, pos: usize) -> (r: (Result<ABinexpr, String>, usize))
    requires
        pos as int <= t@.len(),
    ensures
        pos <= r.1 && r.1 as int <= t@.len(),
        (r.0 matches Ok(_)) ==> pos < r.1,
        r.1 as int == pres_pos(sp_binexpr(t.deep_view(), pos as int)),
        match sp_binexpr(t.deep_view(), pos as int) {
            PRes::Done(v, q) => r.0 matches Ok(a) && a.deep_view() == v,
            PRes::Fail(e, qf) => r.0 matches Err(m) && (e == PErr::Eof ==> m@ == eof_msg()),
        },
    decreases t@.len() - pos, 8int,
{
    let (u, p1) = parse_unexpr(t, pos);
    match u {
        Ok(uv) => {
            let (tail, p2) = parse_bin_tail(t, p1, Vec::new());
            proof {
                assert(pairs_view(Seq::<(Op, AUnexpr)>::empty()) =~= Seq::<(OpV, AUnexprV)>::empty());
            }
            (Ok(ABinexpr::ABinexpr(uv, tail)), p2)
        },
        Err(m) => (Err(m), p1),
    }
}

} // verus!
