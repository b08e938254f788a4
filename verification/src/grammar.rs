//! The grammar, as mathematics: one specification function per production,
//! consuming a prefix of a token-value sequence and yielding the tree value
//! the production builds, together with the position reached — or a failure,
//! again with the position the attempt stopped at.
//!
//! Leaf productions never move past a token they reject; repetition stops,
//! keeping what was collected, exactly where its last attempt stopped. The
//! bound checks (`step`) guarding each recursive continuation make the
//! recursion's termination evident; the executable parser is proved to take
//! only paths on which they hold.

use vstd::prelude::*;

use crate::ast::{
    AAssnPrefixV, ABinexprV, ABlockV, ACompoundFBodyV, ACompoundV, AElseStmtV, AFnargsV,
    AFnparamsV, AIfStmtV, APrefixV, APrimaryBodyV, APrimaryV, ASTV, ASimpleV, AStatementV,
    AUnexprV, AVarPrefixV, OpV,
};
use crate::lexer::TokenV;

verus! {

/// Which way a production failed: the input ended where a token was needed,
/// or the token found did not fit.
pub ghost enum PErr {
    Eof,
    Mismatch,
}

/// Outcome of a production at a position: the value built and the position
/// after it, or a failure and the position where the attempt stopped.
pub ghost enum PRes<A> {
    Done(A, int),
    Fail(PErr, int),
}

/// The text of an identifier token; meaningful only on that variant.
pub open spec fn token_ident(tok: TokenV) -> Seq<char> {
    match tok {
        TokenV::Identifier(n) => n,
        _ => Seq::<char>::empty(),
    }
}

/// The failure a missing token gets: the distinguished end-of-input failure
/// past the last token, a mismatch otherwise.
pub open spec fn miss(t: Seq<TokenV>, q: int) -> PErr {
    if q >= t.len() {
        PErr::Eof
    } else {
        PErr::Mismatch
    }
}

/// A production starting at `p` consumed at least one token and stayed
/// within the sequence.
pub open spec fn step(p: int, q: int, n: int) -> bool {
    p < q <= n
}

/// program: one or more (statement, line end) pairs, to the end of input.
/// A failing statement is a hard failure of the whole program, never a
/// silent truncation.
pub open spec fn sp_statements(t: Seq<TokenV>, p: int, acc: Seq<AStatementV>) -> PRes<
    Seq<AStatementV>,
>
    decreases t.len() - p, 12int,
{
    if p >= t.len() {
        PRes::Done(acc, p)
    } else {
        match sp_statement(t, p) {
            PRes::Done(st, q) => {
                if q < t.len() && t[q] == TokenV::Newline {
                    if step(p, q, t.len() as int) {
                        sp_statements(t, q + 1, acc.push(st))
                    } else {
                        PRes::Fail(PErr::Mismatch, q)
                    }
                } else {
                    PRes::Fail(miss(t, q), q)
                }
            },
            PRes::Fail(e, qf) => PRes::Fail(e, qf),
        }
    }
}

/// statement: a jump keyword, a `for` loop, an `if`, an `else`, or an
/// assignment prefix optionally followed by `=` and a compound value.
pub open spec fn sp_statement(t: Seq<TokenV>, p: int) -> PRes<AStatementV>
    decreases t.len() - p, 11int,
{
    if p >= t.len() {
        PRes::Fail(PErr::Eof, p)
    } else {
        match t[p] {
            TokenV::Keyword(kw) => {
                if kw == "break"@ {
                    PRes::Done(AStatementV::ABreak, p + 1)
                } else if kw == "continue"@ {
                    PRes::Done(AStatementV::AContinue, p + 1)
                } else if kw == "for"@ {
                    match sp_var_prefix(t, p + 1) {
                        PRes::Done(vp, q1) => {
                            if step(p + 1, q1, t.len() as int) {
                                if q1 < t.len() && (t[q1] matches TokenV::Keyword(k2) && k2
                                    == "in"@) {
                                    match sp_binexpr(t, q1 + 1) {
                                        PRes::Done(be, q2) => {
                                            if step(q1 + 1, q2, t.len() as int) {
                                                match sp_block(t, q2) {
                                                    PRes::Done(bl, q3) => PRes::Done(
                                                        AStatementV::AFor(vp, be, bl),
                                                        q3,
                                                    ),
                                                    PRes::Fail(e, qf) => PRes::Fail(e, qf),
                                                }
                                            } else {
                                                PRes::Fail(PErr::Mismatch, q2)
                                            }
                                        },
                                        PRes::Fail(e, qf) => PRes::Fail(e, qf),
                                    }
                                } else {
                                    PRes::Fail(miss(t, q1), q1)
                                }
                            } else {
                                PRes::Fail(PErr::Mismatch, q1)
                            }
                        },
                        PRes::Fail(e, qf) => PRes::Fail(e, qf),
                    }
                } else if kw == "if"@ {
                    match sp_if(t, p + 1) {
                        PRes::Done(i, q) => PRes::Done(AStatementV::AIf(i), q),
                        PRes::Fail(e, qf) => PRes::Fail(e, qf),
                    }
                } else if kw == "else"@ {
                    match sp_else(t, p + 1) {
                        PRes::Done(e, q) => PRes::Done(AStatementV::AElse(e), q),
                        PRes::Fail(er, qf) => PRes::Fail(er, qf),
                    }
                } else {
                    sp_assign(t, p)
                }
            },
            _ => sp_assign(t, p),
        }
    }
}

/// The assignment form a statement falls through to: an assignment prefix,
/// then — only if an `=` symbol follows — a compound value.
pub open spec fn sp_assign(t: Seq<TokenV>, p: int) -> PRes<AStatementV>
    decreases t.len() - p, 10int,
{
    match sp_assn_prefix(t, p) {
        PRes::Done(ap, q) => {
            if q < t.len() && (t[q] matches TokenV::Symbol(sy) && sy == "="@) {
                if step(p, q, t.len() as int) {
                    match sp_compound(t, q + 1) {
                        PRes::Done(c, q2) => PRes::Done(AStatementV::AAssign(ap, c), q2),
                        PRes::Fail(e, qf) => PRes::Fail(e, qf),
                    }
                } else {
                    PRes::Fail(PErr::Mismatch, q)
                }
            } else {
                PRes::Done(AStatementV::AAssignPrefix(ap), q)
            }
        },
        PRes::Fail(e, qf) => PRes::Fail(e, qf),
    }
}

/// assignment prefix: a bracketed destructuring list, or an expression.
pub open spec fn sp_assn_prefix(t: Seq<TokenV>, p: int) -> PRes<AAssnPrefixV>
    decreases t.len() - p, 9int,
{
    if p < t.len() && (t[p] matches TokenV::Symbol(sy) && sy == "["@) {
        match sp_assn_prefix(t, p + 1) {
            PRes::Done(h, q1) => {
                if step(p + 1, q1, t.len() as int) {
                    match sp_assn_list(t, q1, Seq::<AAssnPrefixV>::empty()) {
                        PRes::Done(tail, q2) => {
                            if q2 < t.len() && (t[q2] matches TokenV::Symbol(s2) && s2 == "]"@) {
                                PRes::Done(AAssnPrefixV::AAssnPrefix(Box::new(h), tail), q2 + 1)
                            } else {
                                PRes::Fail(miss(t, q2), q2)
                            }
                        },
                        PRes::Fail(e, qf) => PRes::Fail(e, qf),
                    }
                } else {
                    PRes::Fail(PErr::Mismatch, q1)
                }
            },
            PRes::Fail(e, qf) => PRes::Fail(e, qf),
        }
    } else {
        match sp_binexpr(t, p) {
            PRes::Done(be, q) => PRes::Done(AAssnPrefixV::AAssnPrefixB(be), q),
            PRes::Fail(e, qf) => PRes::Fail(e, qf),
        }
    }
}

/// Zero or more of (comma, assignment prefix), collected; stops, keeping the
/// collection, where the next attempt fails.
pub open spec fn sp_assn_list(t: Seq<TokenV>, p: int, acc: Seq<AAssnPrefixV>) -> PRes<
    Seq<AAssnPrefixV>,
>
    decreases t.len() - p, 9int,
{
    if p < t.len() && (t[p] matches TokenV::Symbol(sy) && sy == ","@) {
        match sp_assn_prefix(t, p + 1) {
            PRes::Done(x, q) => {
                if step(p + 1, q, t.len() as int) {
                    sp_assn_list(t, q, acc.push(x))
                } else {
                    PRes::Done(acc.push(x), q)
                }
            },
            PRes::Fail(_, qf) => PRes::Done(acc, qf),
        }
    } else {
        PRes::Done(acc, p)
    }
}

/// parameter list: `(`, zero or more comma-separated names, `)`.
pub open spec fn sp_fnparams(t: Seq<TokenV>, p: int) -> PRes<AFnparamsV>
    decreases t.len() - p, 1int,
{
    if p < t.len() && (t[p] matches TokenV::Symbol(sy) && sy == "("@) {
        if p + 1 < t.len() && (t[p + 1] matches TokenV::Identifier(_)) {
            match sp_names(t, p + 2, seq![token_ident(t[p + 1])]) {
                PRes::Done(ns, q) => {
                    if q < t.len() && (t[q] matches TokenV::Symbol(s2) && s2 == ")"@) {
                        PRes::Done(AFnparamsV::AFnparams(ns), q + 1)
                    } else {
                        PRes::Fail(miss(t, q), q)
                    }
                },
                PRes::Fail(e, qf) => PRes::Fail(e, qf),
            }
        } else {
            if p + 1 < t.len() && (t[p + 1] matches TokenV::Symbol(s2) && s2 == ")"@) {
                PRes::Done(AFnparamsV::AFnparams(Seq::<Seq<char>>::empty()), p + 2)
            } else {
                PRes::Fail(miss(t, p + 1), p + 1)
            }
        }
    } else {
        PRes::Fail(miss(t, p), p)
    }
}

/// Zero or more of (comma, name), collected.
pub open spec fn sp_names(t: Seq<TokenV>, p: int, acc: Seq<Seq<char>>) -> PRes<Seq<Seq<char>>>
    decreases t.len() - p, 1int,
{
    if p < t.len() && (t[p] matches TokenV::Symbol(sy) && sy == ","@) {
        if p + 1 < t.len() && (t[p + 1] matches TokenV::Identifier(_)) {
            sp_names(t, p + 2, acc.push(token_ident(t[p + 1])))
        } else {
            PRes::Done(acc, p + 1)
        }
    } else {
        PRes::Done(acc, p)
    }
}

/// compound value: a function literal, a catch block, or an expression.
pub open spec fn sp_compound(t: Seq<TokenV>, p: int) -> PRes<ACompoundV>
    decreases t.len() - p, 9int,
{
    if p < t.len() && (t[p] matches TokenV::Keyword(kw) && kw == "func"@) {
        match sp_fnparams(t, p + 1) {
            PRes::Done(ps, q) => {
                if step(p + 1, q, t.len() as int) {
                    if q < t.len() && (t[q] matches TokenV::Symbol(sy) && sy == "->"@) {
                        match sp_binexpr(t, q + 1) {
                            PRes::Done(be, q2) => PRes::Done(
                                ACompoundV::ACompoundF(ps, ACompoundFBodyV::ABinexpr(be)),
                                q2,
                            ),
                            PRes::Fail(e, qf) => PRes::Fail(e, qf),
                        }
                    } else {
                        match sp_block(t, q) {
                            PRes::Done(bl, q2) => PRes::Done(
                                ACompoundV::ACompoundF(ps, ACompoundFBodyV::ABlock(bl)),
                                q2,
                            ),
                            PRes::Fail(e, qf) => PRes::Fail(e, qf),
                        }
                    }
                } else {
                    PRes::Fail(PErr::Mismatch, q)
                }
            },
            PRes::Fail(e, qf) => PRes::Fail(e, qf),
        }
    } else if p < t.len() && (t[p] matches TokenV::Keyword(kw) && kw == "catch"@) {
        match sp_block(t, p + 1) {
            PRes::Done(bl, q) => PRes::Done(ACompoundV::ACompoundC(bl), q),
            PRes::Fail(e, qf) => PRes::Fail(e, qf),
        }
    } else {
        match sp_binexpr(t, p) {
            PRes::Done(be, q) => PRes::Done(ACompoundV::ACompoundB(be), q),
            PRes::Fail(e, qf) => PRes::Fail(e, qf),
        }
    }
}

/// body of an `if`, after its keyword: a condition and a block.
pub open spec fn sp_if(t: Seq<TokenV>, p: int) -> PRes<AIfStmtV>
    decreases t.len() - p, 9int,
{
    match sp_binexpr(t, p) {
        PRes::Done(be, q) => {
            if step(p, q, t.len() as int) {
                match sp_block(t, q) {
                    PRes::Done(bl, q2) => PRes::Done(AIfStmtV::AIfStmt(be, bl), q2),
                    PRes::Fail(e, qf) => PRes::Fail(e, qf),
                }
            } else {
                PRes::Fail(PErr::Mismatch, q)
            }
        },
        PRes::Fail(e, qf) => PRes::Fail(e, qf),
    }
}

/// body of an `else`, after its keyword: `if ...` again, or a plain block.
pub open spec fn sp_else(t: Seq<TokenV>, p: int) -> PRes<AElseStmtV>
    decreases t.len() - p, 9int,
{
    if p >= t.len() {
        PRes::Fail(PErr::Eof, p)
    } else if t[p] matches TokenV::Keyword(kw) && kw == "if"@ {
        match sp_if(t, p + 1) {
            PRes::Done(i, q) => PRes::Done(AElseStmtV::AElseStmtI(i), q),
            PRes::Fail(e, qf) => PRes::Fail(e, qf),
        }
    } else {
        match sp_block(t, p) {
            PRes::Done(bl, q) => PRes::Done(AElseStmtV::AElseStmtB(bl), q),
            PRes::Fail(e, qf) => PRes::Fail(e, qf),
        }
    }
}

/// loop target: a bracketed destructuring list, or a name.
pub open spec fn sp_var_prefix(t: Seq<TokenV>, p: int) -> PRes<AVarPrefixV>
    decreases t.len() - p, 9int,
{
    if p < t.len() && (t[p] matches TokenV::Symbol(sy) && sy == "["@) {
        match sp_var_prefix(t, p + 1) {
            PRes::Done(h, q1) => {
                if step(p + 1, q1, t.len() as int) {
                    match sp_var_list(t, q1, Seq::<AVarPrefixV>::empty()) {
                        PRes::Done(tail, q2) => {
                            if q2 < t.len() && (t[q2] matches TokenV::Symbol(s2) && s2 == "]"@) {
                                PRes::Done(AVarPrefixV::AVarPrefix(Box::new(h), tail), q2 + 1)
                            } else {
                                PRes::Fail(miss(t, q2), q2)
                            }
                        },
                        PRes::Fail(e, qf) => PRes::Fail(e, qf),
                    }
                } else {
                    PRes::Fail(PErr::Mismatch, q1)
                }
            },
            PRes::Fail(e, qf) => PRes::Fail(e, qf),
        }
    } else {
        if p < t.len() && (t[p] matches TokenV::Identifier(_)) {
            PRes::Done(AVarPrefixV::AVarPrefixN(token_ident(t[p])), p + 1)
        } else {
            PRes::Fail(miss(t, p), p)
        }
    }
}

/// Zero or more of (comma, loop target), collected.
pub open spec fn sp_var_list(t: Seq<TokenV>, p: int, acc: Seq<AVarPrefixV>) -> PRes<
    Seq<AVarPrefixV>,
>
    decreases t.len() - p, 9int,
{
    if p < t.len() && (t[p] matches TokenV::Symbol(sy) && sy == ","@) {
        match sp_var_prefix(t, p + 1) {
            PRes::Done(x, q) => {
                if step(p + 1, q, t.len() as int) {
                    sp_var_list(t, q, acc.push(x))
                } else {
                    PRes::Done(acc.push(x), q)
                }
            },
            PRes::Fail(_, qf) => PRes::Done(acc, qf),
        }
    } else {
        PRes::Done(acc, p)
    }
}

/// expression: a unary expression and a flat tail of (operator, unary
/// expression) pairs, with no precedence levels.
pub open spec fn sp_binexpr(t: Seq<TokenV>, p: int) -> PRes<ABinexprV>
    decreases t.len() - p, 8int,
{
    match sp_unexpr(t, p) {
        PRes::Done(u, q) => {
            if step(p, q, t.len() as int) {
                match sp_bin_tail(t, q, Seq::<(OpV, AUnexprV)>::empty()) {
                    PRes::Done(tail, q2) => PRes::Done(ABinexprV::ABinexpr(u, tail), q2),
                    PRes::Fail(e, qf) => PRes::Fail(e, qf),
                }
            } else {
                PRes::Fail(PErr::Mismatch, q)
            }
        },
        PRes::Fail(e, qf) => PRes::Fail(e, qf),
    }
}

/// Zero or more of (operator, unary expression), collected.
pub open spec fn sp_bin_tail(t: Seq<TokenV>, p: int, acc: Seq<(OpV, AUnexprV)>) -> PRes<
    Seq<(OpV, AUnexprV)>,
>
    decreases t.len() - p, 7int,
{
    if p < t.len() && (t[p] matches TokenV::Operator(o)) {
        match sp_unexpr(t, p + 1) {
            PRes::Done(u, q) => {
                if step(p + 1, q, t.len() as int) {
                    sp_bin_tail(t, q, acc.push((OpV::Op(token_op(t[p])), u)))
                } else {
                    PRes::Done(acc.push((OpV::Op(token_op(t[p])), u)), q)
                }
            },
            PRes::Fail(_, qf) => PRes::Done(acc, qf),
        }
    } else {
        PRes::Done(acc, p)
    }
}

/// The text of an operator token; meaningful only on that variant.
pub open spec fn token_op(tok: TokenV) -> Seq<char> {
    match tok {
        TokenV::Operator(o) => o,
        _ => Seq::<char>::empty(),
    }
}

/// unary expression: one of the four prefix operators applied recursively,
/// or a simple expression.
pub open spec fn sp_unexpr(t: Seq<TokenV>, p: int) -> PRes<AUnexprV>
    decreases t.len() - p, 6int,
{
    if p >= t.len() {
        PRes::Fail(PErr::Eof, p)
    } else {
        match t[p] {
            TokenV::Operator(o) => {
                if o == "-"@ || o == "!"@ || o == "$"@ || o == "~"@ {
                    match sp_unexpr(t, p + 1) {
                        PRes::Done(u, q) => PRes::Done(
                            AUnexprV::AUnexpr(OpV::Op(o), Box::new(u)),
                            q,
                        ),
                        PRes::Fail(e, qf) => PRes::Fail(e, qf),
                    }
                } else {
                    sp_simple_wrap(t, p)
                }
            },
            _ => sp_simple_wrap(t, p),
        }
    }
}

/// A simple expression wrapped as a unary expression.
pub open spec fn sp_simple_wrap(t: Seq<TokenV>, p: int) -> PRes<AUnexprV>
    decreases t.len() - p, 5int,
{
    match sp_simple(t, p) {
        PRes::Done(sp, q) => PRes::Done(AUnexprV::AUnexprS(sp), q),
        PRes::Fail(e, qf) => PRes::Fail(e, qf),
    }
}

/// simple expression: a primary expression.
pub open spec fn sp_simple(t: Seq<TokenV>, p: int) -> PRes<ASimpleV>
    decreases t.len() - p, 4int,
{
    match sp_primary(t, p) {
        PRes::Done(pr, q) => PRes::Done(ASimpleV::ASimpleP(pr), q),
        PRes::Fail(e, qf) => PRes::Fail(e, qf),
    }
}

/// primary expression: a base atom and its postfix chain.
pub open spec fn sp_primary(t: Seq<TokenV>, p: int) -> PRes<APrimaryV>
    decreases t.len() - p, 3int,
{
    match sp_prefix(t, p) {
        PRes::Done(pf, q) => {
            if step(p, q, t.len() as int) {
                match sp_bodies(t, q, Seq::<APrimaryBodyV>::empty()) {
                    PRes::Done(bs, q2) => PRes::Done(APrimaryV::APrimary(pf, bs), q2),
                    PRes::Fail(e, qf) => PRes::Fail(e, qf),
                }
            } else {
                PRes::Fail(PErr::Mismatch, q)
            }
        },
        PRes::Fail(e, qf) => PRes::Fail(e, qf),
    }
}

/// Zero or more postfix elements, collected.
pub open spec fn sp_bodies(t: Seq<TokenV>, p: int, acc: Seq<APrimaryBodyV>) -> PRes<
    Seq<APrimaryBodyV>,
>
    decreases t.len() - p, 3int,
{
    match sp_primary_body(t, p) {
        PRes::Done(b, q) => {
            if step(p, q, t.len() as int) {
                sp_bodies(t, q, acc.push(b))
            } else {
                PRes::Done(acc.push(b), q)
            }
        },
        PRes::Fail(_, qf) => PRes::Done(acc, qf),
    }
}

/// one postfix element: `:` name arguments, `.` name, `[` expression `]`, or
/// an argument list.
pub open spec fn sp_primary_body(t: Seq<TokenV>, p: int) -> PRes<APrimaryBodyV>
    decreases t.len() - p, 2int,
{
    if p >= t.len() {
        PRes::Fail(PErr::Eof, p)
    } else {
        match t[p] {
            TokenV::Symbol(sy) => {
                if sy == ":"@ {
                    if p + 1 < t.len() && (t[p + 1] matches TokenV::Identifier(_)) {
                        match sp_fnargs(t, p + 2) {
                            PRes::Done(a, q) => PRes::Done(
                                APrimaryBodyV::ANameFnargs(token_ident(t[p + 1]), a),
                                q,
                            ),
                            PRes::Fail(e, qf) => PRes::Fail(e, qf),
                        }
                    } else {
                        PRes::Fail(miss(t, p + 1), p + 1)
                    }
                } else if sy == "."@ {
                    if p + 1 < t.len() && (t[p + 1] matches TokenV::Identifier(_)) {
                        PRes::Done(APrimaryBodyV::AName(token_ident(t[p + 1])), p + 2)
                    } else {
                        PRes::Fail(miss(t, p + 1), p + 1)
                    }
                } else if sy == "["@ {
                    match sp_binexpr(t, p + 1) {
                        PRes::Done(be, q) => {
                            if q < t.len() && (t[q] matches TokenV::Symbol(s2) && s2 == "]"@) {
                                PRes::Done(APrimaryBodyV::ABinexpr(be), q + 1)
                            } else {
                                PRes::Fail(miss(t, q), q)
                            }
                        },
                        PRes::Fail(e, qf) => PRes::Fail(e, qf),
                    }
                } else if sy == "("@ {
                    match sp_fnargs(t, p) {
                        PRes::Done(a, q) => PRes::Done(APrimaryBodyV::AFnargs(a), q),
                        PRes::Fail(e, qf) => PRes::Fail(e, qf),
                    }
                } else {
                    PRes::Fail(PErr::Mismatch, p)
                }
            },
            _ => PRes::Fail(PErr::Mismatch, p),
        }
    }
}

/// argument list: `(`, zero or more comma-separated expressions, `)`.
pub open spec fn sp_fnargs(t: Seq<TokenV>, p: int) -> PRes<AFnargsV>
    decreases t.len() - p, 1int,
{
    if p < t.len() && (t[p] matches TokenV::Symbol(sy) && sy == "("@) {
        match sp_binexpr(t, p + 1) {
            PRes::Done(b0, q0) => {
                if step(p + 1, q0, t.len() as int) {
                    match sp_args(t, q0, seq![b0]) {
                        PRes::Done(l, q1) => {
                            if q1 < t.len() && (t[q1] matches TokenV::Symbol(s2) && s2 == ")"@) {
                                PRes::Done(AFnargsV::AFnargs(l), q1 + 1)
                            } else {
                                PRes::Fail(miss(t, q1), q1)
                            }
                        },
                        PRes::Fail(e, qf) => PRes::Fail(e, qf),
                    }
                } else {
                    PRes::Fail(PErr::Mismatch, q0)
                }
            },
            PRes::Fail(_, qf) => {
                if qf < t.len() && (t[qf] matches TokenV::Symbol(s2) && s2 == ")"@) {
                    PRes::Done(AFnargsV::AFnargs(Seq::<ABinexprV>::empty()), qf + 1)
                } else {
                    PRes::Fail(miss(t, qf), qf)
                }
            },
        }
    } else {
        PRes::Fail(miss(t, p), p)
    }
}

/// Zero or more of (comma, expression), collected.
pub open spec fn sp_args(t: Seq<TokenV>, p: int, acc: Seq<ABinexprV>) -> PRes<Seq<ABinexprV>>
    decreases t.len() - p, 1int,
{
    if p < t.len() && (t[p] matches TokenV::Symbol(sy) && sy == ","@) {
        match sp_binexpr(t, p + 1) {
            PRes::Done(x, q) => {
                if step(p + 1, q, t.len() as int) {
                    sp_args(t, q, acc.push(x))
                } else {
                    PRes::Done(acc.push(x), q)
                }
            },
            PRes::Fail(_, qf) => PRes::Done(acc, qf),
        }
    } else {
        PRes::Done(acc, p)
    }
}

/// base atom: a parenthesized expression, a literal, or a name.
pub open spec fn sp_prefix(t: Seq<TokenV>, p: int) -> PRes<APrefixV>
    decreases t.len() - p, 2int,
{
    if p >= t.len() {
        PRes::Fail(PErr::Eof, p)
    } else {
        match t[p] {
            TokenV::Symbol(sy) => {
                if sy == "("@ {
                    match sp_binexpr(t, p + 1) {
                        PRes::Done(be, q) => {
                            if q < t.len() && (t[q] matches TokenV::Symbol(s2) && s2 == ")"@) {
                                PRes::Done(APrefixV::APrefixP(Box::new(be)), q + 1)
                            } else {
                                PRes::Fail(miss(t, q), q)
                            }
                        },
                        PRes::Fail(e, qf) => PRes::Fail(e, qf),
                    }
                } else {
                    PRes::Fail(PErr::Mismatch, p)
                }
            },
            TokenV::Str(sx) => PRes::Done(APrefixV::APrefixS(sx), p + 1),
            TokenV::Int(i) => PRes::Done(APrefixV::APrefixI(i), p + 1),
            TokenV::Float(f) => PRes::Done(APrefixV::APrefixF(f), p + 1),
            TokenV::Identifier(n) => PRes::Done(APrefixV::APrefixN(n), p + 1),
            TokenV::Bool(b) => PRes::Done(APrefixV::APrefixB(b), p + 1),
            TokenV::Null => PRes::Done(APrefixV::APrefixNull, p + 1),
            _ => PRes::Fail(PErr::Mismatch, p),
        }
    }
}

/// block: block-start marker, one or more (statement, line end) pairs,
/// block-end marker.
pub open spec fn sp_block(t: Seq<TokenV>, p: int) -> PRes<ABlockV>
    decreases t.len() - p, 1int,
{
    if p < t.len() && t[p] == TokenV::Indent {
        match sp_block_stmts(t, p + 1, Seq::<AStatementV>::empty()) {
            PRes::Done(sts, q) => {
                if q < t.len() && t[q] == TokenV::Dedent {
                    PRes::Done(ABlockV::ABlock(sts), q + 1)
                } else {
                    PRes::Fail(miss(t, q), q)
                }
            },
            PRes::Fail(e, qf) => PRes::Fail(e, qf),
        }
    } else {
        PRes::Fail(miss(t, p), p)
    }
}

/// Zero or more of (statement, line end) inside a block, collected.
pub open spec fn sp_block_stmts(t: Seq<TokenV>, p: int, acc: Seq<AStatementV>) -> PRes<
    Seq<AStatementV>,
>
    decreases t.len() - p, 12int,
{
    match sp_statement(t, p) {
        PRes::Done(st, q) => {
            if q < t.len() && t[q] == TokenV::Newline {
                if step(p, q, t.len() as int) {
                    sp_block_stmts(t, q + 1, acc.push(st))
                } else {
                    PRes::Done(acc.push(st), q + 1)
                }
            } else {
                PRes::Done(acc, q)
            }
        },
        PRes::Fail(_, qf) => PRes::Done(acc, qf),
    }
}

/// program: the whole statement list, wrapped as the tree's root.
pub open spec fn sp_parse(t: Seq<TokenV>, p: int) -> PRes<ASTV> {
    match sp_statements(t, p, Seq::<AStatementV>::empty()) {
        PRes::Done(l, q) => PRes::Done(ASTV::AStatements(l), q),
        PRes::Fail(e, qf) => PRes::Fail(e, qf),
    }
}

} // verus!
