//! Lexical analysis: source text to a flat token sequence.
//!
//! The lexer scans the input left to right with one character of lookahead.
//! Line breaks are turned into structural markers (block start, block end,
//! line end) by comparing the new line's indentation width against a stack of
//! previously seen widths. The mathematical model of the whole scan is
//! `lex_spec`; the executable entry point `lex` is proved to return exactly
//! what the model says, token for token.

use vstd::prelude::*;
use vstd::string::*;

verus! {

/// Atomic lexical unit. Literal text (string bodies, identifiers, keywords,
/// symbols, operators) is kept verbatim; a floating literal keeps its raw
/// digit text rather than a converted value, so no precision is lost and the
/// scanner stays total.
#[derive(Debug, Clone, PartialEq)]
pub enum Token {
    /// Block start: the line's indentation grew.
    Indent,
    /// Block end: the line's indentation shrank.
    Dedent,
    /// Boolean literal.
    Bool(bool),
    /// Integer literal.
    Int(i64),
    /// Floating literal, kept as the raw digit text (for example `4.5`).
    Float(String),
    /// String literal body, the characters between the quotes, verbatim.
    Str(String),
    /// Null literal.
    Null,
    /// One of the fixed fourteen keywords.
    Keyword(String),
    /// Alphanumeric name that is not a keyword or literal.
    Identifier(String),
    /// One of `( ) { } [ ] . , : ; = ->`.
    Symbol(String),
    /// One of `:: <= >= > < == != * / + - & | ! $ ~`.
    Operator(String),
    /// Line end at unchanged indentation.
    Newline,
}

/// Mathematical value of a token: the same variants with text as `Seq<char>`.
pub ghost enum TokenV {
    Indent,
    Dedent,
    Bool(bool),
    Int(i64),
    Float(Seq<char>),
    Str(Seq<char>),
    Null,
    Keyword(Seq<char>),
    Identifier(Seq<char>),
    Symbol(Seq<char>),
    Operator(Seq<char>),
    Newline,
}

impl View for Token {
    type V = TokenV;

    open spec fn view(&self) -> TokenV {
        match self {
            Token::Indent => TokenV::Indent,
            Token::Dedent => TokenV::Dedent,
            Token::Bool(b) => TokenV::Bool(*b),
            Token::Int(i) => TokenV::Int(*i),
            Token::Float(t) => TokenV::Float(t@),
            Token::Str(t) => TokenV::Str(t@),
            Token::Null => TokenV::Null,
            Token::Keyword(t) => TokenV::Keyword(t@),
            Token::Identifier(t) => TokenV::Identifier(t@),
            Token::Symbol(t) => TokenV::Symbol(t@),
            Token::Operator(t) => TokenV::Operator(t@),
            Token::Newline => TokenV::Newline,
        }
    }
}

impl DeepView for Token {
    type V = TokenV;

    open spec fn deep_view(&self) -> TokenV {
        self.view()
    }
}

/// The character classes the scanner takes maximal runs of.
#[derive(Debug, Clone, Copy, PartialEq, Eq)]
pub enum CharPred {
    /// A digit or an embedded decimal point: the body of a numeric literal.
    NumChar,
    /// Anything but a double quote: the body of a string literal.
    NotQuote,
    /// An alphanumeric character: the body of a word.
    WordChar,
    /// A space: the indentation after a line break.
    Space,
}

pub open spec fn is_digit(c: char) -> bool {
    '0' <= c && c <= '9'
}

/// Whether a character may appear in a word (an identifier, keyword or
/// word-shaped literal). Left abstract: the executable test is borrowed from
/// the standard library's Unicode tables.
pub uninterp spec fn is_word_char(c: char) -> bool;

/// Relies on char::is_alphanumeric: whether a character is alphanumeric is a
/// function of the character alone.
#[verifier::external_body]
fn word_char(c: char) -> (r: bool)
    ensures
        r == is_word_char(c),
{
    c.is_alphanumeric()
}

pub open spec fn char_pred(p: CharPred, c: char) -> bool {
    match p {
        CharPred::NumChar => is_digit(c) || c == '.',
        CharPred::NotQuote => c != '"',
        CharPred::WordChar => is_word_char(c),
        CharPred::Space => c == ' ',
    }
}

fn char_pred_check(p: CharPred, c: char) -> (r: bool)
    ensures
        r == char_pred(p, c),
{
    match p {
        CharPred::NumChar => ('0' <= c && c <= '9') || c == '.',
        CharPred::NotQuote => c != '"',
        CharPred::WordChar => word_char(c),
        CharPred::Space => c == ' ',
    }
}

/// First position at or after `i` whose character falls outside the class
/// `p`; the end of the maximal run of `p`-characters starting at `i`.
pub open spec fn scan_end(s: Seq<char>, i: int, p: CharPred) -> int
    decreases s.len() - i
        when 0 <= i <= s.len()
{
    if i < s.len() && char_pred(p, s[i]) {
        scan_end(s, i + 1, p)
    } else {
        i
    }
}

pub proof fn lemma_scan_end(s: Seq<char>, i: int, p: CharPred)
    requires
        0 <= i <= s.len(),
    ensures
        i <= scan_end(s, i, p) <= s.len(),
        forall|k: int| i <= k < scan_end(s, i, p) ==> char_pred(p, s[k]),
        scan_end(s, i, p) < s.len() ==> !char_pred(p, s[scan_end(s, i, p)]),
    decreases s.len() - i,
{
    if i < s.len() && char_pred(p, s[i]) {
        lemma_scan_end(s, i + 1, p);
    }
}

/// Character-for-character equality of two string slices.
pub(crate) fn str_eq(a: &str, b: &str) -> (r: bool)
    ensures
        r == (a@ == b@),
{
    let la = a.unicode_len();
    let lb = b.unicode_len();
    if la != lb {
        return false;
    }
    let mut i: usize = 0;
    while i < la
        invariant
            0 <= i <= la,
            la as int == a@.len(),
            la as int == b@.len(),
            forall|k: int| 0 <= k < i ==> a@[k] == b@[k],
        decreases la - i,
    {
        if a.get_char(i) != b.get_char(i) {
            return false;
        }
        i = i + 1;
    }
    proof {
        assert(a@ =~= b@);
    }
    true
}

/// The fixed fourteen-word keyword set.
pub open spec fn is_keyword(w: Seq<char>) -> bool {
    ||| w == "break"@
    ||| w == "catch"@
    ||| w == "continue"@
    ||| w == "else"@
    ||| w == "for"@
    ||| w == "func"@
    ||| w == "if"@
    ||| w == "in"@
    ||| w == "loop"@
    ||| w == "pass"@
    ||| w == "return"@
    ||| w == "save"@
    ||| w == "while"@
    ||| w == "table"@
}

fn keyword_check(w: &str) -> (r: bool)
    ensures
        r == is_keyword(w@),
{
    str_eq(w, "break") || str_eq(w, "catch") || str_eq(w, "continue") || str_eq(w, "else")
        || str_eq(w, "for") || str_eq(w, "func") || str_eq(w, "if") || str_eq(w, "in") || str_eq(
        w,
        "loop",
    ) || str_eq(w, "pass") || str_eq(w, "return") || str_eq(w, "save") || str_eq(w, "while")
        || str_eq(w, "table")
}

/// Advance over the maximal run of characters of class `p`, starting at
/// `start`, without consuming anything else; the returned position is the
/// first one not taken.
pub fn peek_take_while(input: &str, start: usize, p: CharPred) -> (end: usize)
    requires
        start as int <= input@.len(),
    ensures
        end as int == scan_end(input@, start as int, p),
        start <= end <= input@.len(),
{
    let n = input.unicode_len();
    let mut i = start;
    while i < n
        invariant
            start <= i <= n,
            n as int == input@.len(),
            scan_end(input@, start as int, p) == scan_end(input@, i as int, p),
        decreases n - i,
    {
        let c = input.get_char(i);
        if !char_pred_check(p, c) {
            proof {
                lemma_scan_end(input@, i as int, p);
            }
            return i;
        }
        i = i + 1;
    }
    i
}

pub open spec fn digit_val(c: char) -> int {
    (c as u32) as int - ('0' as u32) as int
}

/// Decimal value of a digit string.
pub open spec fn digits_value(s: Seq<char>) -> int
    decreases s.len(),
{
    if s.len() == 0 {
        0
    } else {
        digits_value(s.drop_last()) * 10 + digit_val(s.last())
    }
}

/// Operators of one character that never start a longer operator.
pub open spec fn is_single_op(c: char) -> bool {
    c == '+' || c == '*' || c == '/' || c == '&' || c == '|' || c == '$' || c == '~'
}

/// Symbols of one character that never start a longer symbol or operator.
pub open spec fn is_single_sym(c: char) -> bool {
    c == '(' || c == ')' || c == '{' || c == '}' || c == '[' || c == ']' || c == '.' || c == ','
        || c == ';'
}

/// The ways a scan can fail.
pub ghost enum LexErrV {
    /// A character outside every recognized class.
    UnexpectedChar(char),
    /// A digit-only literal whose value does not fit a signed 64-bit integer.
    IntTooLarge(Seq<char>),
}

pub open spec fn lex_err_msg(e: LexErrV) -> Seq<char> {
    match e {
        LexErrV::UnexpectedChar(c) => "unexpected character "@ + seq![c],
        LexErrV::IntTooLarge(t) => "integer literal too large: "@ + t,
    }
}

/// The indentation stack is well formed: it starts at width zero and grows
/// strictly from bottom to top.
pub open spec fn stack_wf(st: Seq<int>) -> bool {
    &&& st.len() >= 1
    &&& st[0] == 0
    &&& forall|j: int, k: int| 0 <= j < k < st.len() ==> st[j] < st[k]
}

/// Tokens emitted and stack left when a new line's width `w` closes blocks:
/// pop, emitting one block end and one line end each time, until the top of
/// the stack is no longer greater than `w`.
pub open spec fn dedent_pops(st: Seq<int>, w: int) -> (Seq<TokenV>, Seq<int>)
    decreases st.len(),
{
    if st.len() > 0 && w < st.last() {
        let r = dedent_pops(st.drop_last(), w);
        (seq![TokenV::Dedent, TokenV::Newline] + r.0, r.1)
    } else {
        (Seq::<TokenV>::empty(), st)
    }
}

/// One scan of the input from position `i` on, with indentation stack `stack`
/// and the tokens built so far in `acc`: the mathematical model of the lexer.
/// Branches are tried in the lexer's order; every branch either emits the
/// tokens its class calls for and moves past the characters it consumed, or
/// fails.
pub open spec fn lex_from(s: Seq<char>, i: int, stack: Seq<int>, acc: Seq<TokenV>) -> Result<
    Seq<TokenV>,
    LexErrV,
>
    decreases s.len() - i
        when 0 <= i <= s.len()
        via lex_from_decreases
{
    if i >= s.len() {
        Ok(acc)
    } else {
        let c = s[i];
        if is_digit(c) {
            let end = scan_end(s, i, CharPred::NumChar);
            let txt = s.subrange(i, end);
            if txt.contains('.') {
                lex_from(s, end, stack, acc.push(TokenV::Float(txt)))
            } else if digits_value(txt) <= i64::MAX {
                lex_from(s, end, stack, acc.push(TokenV::Int(digits_value(txt) as i64)))
            } else {
                Err(LexErrV::IntTooLarge(txt))
            }
        } else if c == '"' {
            let end = scan_end(s, i + 1, CharPred::NotQuote);
            let next = if end < s.len() {
                end + 1
            } else {
                end
            };
            lex_from(s, next, stack, acc.push(TokenV::Str(s.subrange(i + 1, end))))
        } else if is_single_op(c) {
            lex_from(s, i + 1, stack, acc.push(TokenV::Operator(seq![c])))
        } else if is_single_sym(c) {
            lex_from(s, i + 1, stack, acc.push(TokenV::Symbol(seq![c])))
        } else if c == ':' {
            if i + 1 < s.len() && s[i + 1] == ':' {
                lex_from(s, i + 2, stack, acc.push(TokenV::Operator("::"@)))
            } else {
                lex_from(s, i + 1, stack, acc.push(TokenV::Symbol(":"@)))
            }
        } else if c == '=' {
            if i + 1 < s.len() && s[i + 1] == '=' {
                lex_from(s, i + 2, stack, acc.push(TokenV::Operator("=="@)))
            } else {
                lex_from(s, i + 1, stack, acc.push(TokenV::Symbol("="@)))
            }
        } else if c == '-' {
            if i + 1 < s.len() && s[i + 1] == '>' {
                lex_from(s, i + 2, stack, acc.push(TokenV::Symbol("->"@)))
            } else {
                lex_from(s, i + 1, stack, acc.push(TokenV::Operator("-"@)))
            }
        } else if c == '!' {
            if i + 1 < s.len() && s[i + 1] == '=' {
                lex_from(s, i + 2, stack, acc.push(TokenV::Operator("!="@)))
            } else {
                lex_from(s, i + 1, stack, acc.push(TokenV::Operator("!"@)))
            }
        } else if c == '<' {
            if i + 1 < s.len() && s[i + 1] == '=' {
                lex_from(s, i + 2, stack, acc.push(TokenV::Operator("<="@)))
            } else {
                lex_from(s, i + 1, stack, acc.push(TokenV::Operator("<"@)))
            }
        } else if c == '>' {
            if i + 1 < s.len() && s[i + 1] == '=' {
                lex_from(s, i + 2, stack, acc.push(TokenV::Operator(">="@)))
            } else {
                lex_from(s, i + 1, stack, acc.push(TokenV::Operator(">"@)))
            }
        } else if is_word_char(c) {
            let end = scan_end(s, i, CharPred::WordChar);
            let w = s.subrange(i, end);
            let tok = if w == "true"@ {
                TokenV::Bool(true)
            } else if w == "false"@ {
                TokenV::Bool(false)
            } else if w == "null"@ {
                TokenV::Null
            } else if is_keyword(w) {
                TokenV::Keyword(w)
            } else {
                TokenV::Identifier(w)
            };
            lex_from(s, end, stack, acc.push(tok))
        } else if c == '\n' {
            let j = scan_end(s, i + 1, CharPred::Space);
            let w = j - (i + 1);
            if w > stack.last() {
                lex_from(s, j, stack.push(w), acc.push(TokenV::Indent))
            } else if w == stack.last() {
                lex_from(s, j, stack, acc.push(TokenV::Newline))
            } else {
                let r = dedent_pops(stack, w);
                lex_from(s, j, r.1, acc + r.0)
            }
        } else if c == ' ' {
            lex_from(s, i + 1, stack, acc)
        } else {
            Err(LexErrV::UnexpectedChar(c))
        }
    }
}

#[via_fn]
proof fn lex_from_decreases(s: Seq<char>, i: int, stack: Seq<int>, acc: Seq<TokenV>) {
    if 0 <= i < s.len() {
        if char_pred(CharPred::NumChar, s[i]) {
            lemma_scan_end(s, i + 1, CharPred::NumChar);
        }
        if char_pred(CharPred::WordChar, s[i]) {
            lemma_scan_end(s, i + 1, CharPred::WordChar);
        }
        lemma_scan_end(s, i + 1, CharPred::NotQuote);
        lemma_scan_end(s, i + 1, CharPred::Space);
    }
}

/// What lexing a whole text yields: the scan started at the beginning with
/// the indentation stack holding only width zero.
pub open spec fn lex_spec(s: Seq<char>) -> Result<Seq<TokenV>, LexErrV> {
    lex_from(s, 0, seq![0int], Seq::<TokenV>::empty())
}

pub proof fn lemma_digits_value_nonneg(s: Seq<char>)
    requires
        forall|k: int| 0 <= k < s.len() ==> is_digit(s[k]),
    ensures
        digits_value(s) >= 0,
    decreases s.len(),
{
    if s.len() > 0 {
        lemma_digits_value_nonneg(s.drop_last());
    }
}

/// A digit string is worth at least as much as any of its prefixes.
pub proof fn lemma_digits_value_prefix(s: Seq<char>, m: int)
    requires
        0 <= m <= s.len(),
        forall|k: int| 0 <= k < s.len() ==> is_digit(s[k]),
    ensures
        digits_value(s) >= digits_value(s.take(m)),
    decreases s.len() - m,
{
    if m < s.len() {
        lemma_digits_value_prefix(s, m + 1);
        let t = s.take(m + 1);
        assert(t.drop_last() =~= s.take(m));
        lemma_digits_value_nonneg(s.take(m));
        assert(digits_value(t) == digits_value(s.take(m)) * 10 + digit_val(t.last()));
        assert(digits_value(s.take(m)) * 10 >= digits_value(s.take(m)));
        assert(is_digit(t.last()));
    } else {
        assert(s.take(m) =~= s);
    }
}

/// Whether the range `[start, end)` of the input holds a decimal point.
fn range_has_dot(input: &str, start: usize, end: usize) -> (r: bool)
    requires
        start <= end,
        end as int <= input@.len(),
    ensures
        r == input@.subrange(start as int, end as int).contains('.'),
{
    let ghost txt = input@.subrange(start as int, end as int);
    let mut k = start;
    while k < end
        invariant
            start <= k <= end,
            end as int <= input@.len(),
            txt == input@.subrange(start as int, end as int),
            forall|j: int| start <= j < k ==> input@[j] != '.',
        decreases end - k,
    {
        if input.get_char(k) == '.' {
            proof {
                assert(txt[k - start] == '.');
            }
            return true;
        }
        k = k + 1;
    }
    proof {
        assert forall|j: int| 0 <= j < txt.len() implies txt[j] != '.' by {
            assert(txt[j] == input@[start + j]);
        }
    }
    false
}

/// Scan the numeric literal that starts at `start` (which must hold a digit):
/// take the maximal run of digits and decimal points, then classify it — with
/// a point it is a floating literal kept as text, without one an integer,
/// whose value must fit a signed 64-bit integer. Returns the token or the
/// error, and the position after the run.
pub fn full_number(input: &str, start: usize) -> (r: (Result<Token, String>, usize))
    requires
        (start as int) < input@.len(),
        is_digit(input@[start as int]),
    ensures
        r.1 as int == scan_end(input@, start as int, CharPred::NumChar),
        start < r.1 <= input@.len(),
        ({
            let txt = input@.subrange(start as int, r.1 as int);
            if txt.contains('.') {
                &&& r.0 matches Ok(t) && t@ == TokenV::Float(txt)
            } else if digits_value(txt) <= i64::MAX {
                &&& r.0 matches Ok(t) && t@ == TokenV::Int(digits_value(txt) as i64)
            } else {
                &&& r.0 matches Err(m) && m@ == lex_err_msg(LexErrV::IntTooLarge(txt))
            }
        }),
{
    let end = peek_take_while(input, start, CharPred::NumChar);
    proof {
        lemma_scan_end(input@, start as int, CharPred::NumChar);
    }
    let ghost txt = input@.subrange(start as int, end as int);
    if range_has_dot(input, start, end) {
        let t = Token::Float(String::from_str(input.substring_char(start, end)));
        (Ok(t), end)
    } else {
        proof {
            assert forall|j: int| 0 <= j < txt.len() implies is_digit(txt[j]) by {
                assert(txt[j] == input@[start + j]);
                assert(char_pred(CharPred::NumChar, input@[start + j]));
                assert(txt[j] != '.');
            }
            assert forall|j: int| start <= j < end implies char_pred(
                CharPred::NumChar,
                input@[j],
            ) && input@[j] != '.' by {
                assert(txt[j - start] == input@[j]);
                assert(is_digit(txt[j - start]));
            }
        }
        let mut v: i64 = 0;
        let mut k = start;
        while k < end
            invariant
                start <= k <= end,
                end as int <= input@.len(),
                end as int == scan_end(input@, start as int, CharPred::NumChar),
                txt == input@.subrange(start as int, end as int),
                forall|j: int| 0 <= j < txt.len() ==> is_digit(txt[j]),
                forall|j: int| start <= j < end ==> char_pred(
                    CharPred::NumChar,
                    input@[j],
                ) && input@[j] != '.',
                0 <= v,
                v as int == digits_value(input@.subrange(start as int, k as int)),
            decreases end - k,
        {
            let c = input.get_char(k);
            assert(is_digit(c)) by {
                assert(txt[k - start] == input@[k as int]);
            }
            let d: i64 = ((c as u32) - ('0' as u32)) as i64;
            let ghost pre = input@.subrange(start as int, k as int);
            let ghost ext = input@.subrange(start as int, k + 1int);
            proof {
                assert(ext.drop_last() =~= pre);
                assert(digits_value(ext) == digits_value(pre) * 10 + digit_val(ext.last()));
            }
            if v > (i64::MAX - d) / 10 {
                proof {
                    assert(digits_value(ext) > i64::MAX) by (nonlinear_arith)
                        requires
                            digits_value(ext) == v as int * 10 + d as int,
                            v as int > (i64::MAX - d) as int / 10,
                            0 <= d <= 9,
                    ;
                    assert(txt.take(k + 1 - start) =~= ext);
                    lemma_digits_value_prefix(txt, k + 1 - start);
                }
                let m = String::from_str("integer literal too large: ").concat(
                    input.substring_char(start, end),
                );
                return (Err(m), end);
            }
            v = v * 10 + d;
            k = k + 1;
        }
        proof {
            assert(input@.subrange(start as int, k as int) == txt);
        }
        (Ok(Token::Int(v)), end)
    }
}

/// Widths held in an executable indentation stack, as mathematical integers.
pub open spec fn widths(st: Seq<usize>) -> Seq<int> {
    st.map_values(|w: usize| w as int)
}

/// Turn source text into its token sequence, or fail on the first character
/// outside every recognized class or on an oversized integer literal. The
/// result is exactly what the mathematical model `lex_spec` assigns to the
/// text, token for token, and on failure the message the model's error calls
/// for.
pub fn lex(input: &str) -> (r: Result<Vec<Token>, String>)
    ensures
        match r {
            Ok(toks) => lex_spec(input@) == Ok::<Seq<TokenV>, LexErrV>(toks.deep_view()),
            Err(m) => lex_spec(input@) matches Err(e) && m@ == lex_err_msg(e),
        },
{
    let ghost s = input@;
    let n = input.unicode_len();
    let mut toks: Vec<Token> = Vec::new();
    let mut stack: Vec<usize> = Vec::new();
    stack.push(0);
    let mut i: usize = 0;
    proof {
        assert(widths(stack@) =~= seq![0int]);
        assert(toks.deep_view() =~= Seq::<TokenV>::empty());
    }
    while i < n
        invariant
            i <= n,
            n as int == s.len(),
            s == input@,
            stack@.len() >= 1,
            stack_wf(widths(stack@)),
            lex_from(s, i as int, widths(stack@), toks.deep_view()) == lex_spec(s),
        decreases n - i,
    {
        let ghost pre_i = i as int;
        let ghost pre_st = widths(stack@);
        let ghost pre_acc = toks.deep_view();
        let c = input.get_char(i);
        if '0' <= c && c <= '9' {
            let (tr, end) = full_number(input, i);
            let ghost txt = s.subrange(pre_i, end as int);
            match tr {
                Ok(t) => {
                    toks.push(t);
                    i = end;
                    proof {
                        assert(toks.deep_view() =~= pre_acc.push(t@));
                        assert(lex_from(s, pre_i, pre_st, pre_acc) == lex_from(
                            s,
                            end as int,
                            pre_st,
                            pre_acc.push(t@),
                        ));
                    }
                },
                Err(m) => {
                    proof {
                        assert(lex_from(s, pre_i, pre_st, pre_acc) == Err::<
                            Seq<TokenV>,
                            LexErrV,
                        >(LexErrV::IntTooLarge(txt)));
                    }
                    return Err(m);
                },
            }
        } else if c == '"' {
            let end = peek_take_while(input, i + 1, CharPred::NotQuote);
            let body = String::from_str(input.substring_char(i + 1, end));
            toks.push(Token::Str(body));
            let ghost tv = TokenV::Str(s.subrange(pre_i + 1, end as int));
            if end < n {
                i = end + 1;
            } else {
                i = end;
            }
            proof {
                assert(toks.deep_view() =~= pre_acc.push(tv));
                assert(lex_from(s, pre_i, pre_st, pre_acc) == lex_from(
                    s,
                    i as int,
                    pre_st,
                    pre_acc.push(tv),
                ));
            }
        } else if c == '+' || c == '*' || c == '/' || c == '&' || c == '|' || c == '$' || c == '~' {
            toks.push(Token::Operator(String::from_str(input.substring_char(i, i + 1))));
            i = i + 1;
            proof {
                assert(s.subrange(pre_i, pre_i + 1) =~= seq![s[pre_i]]);
                assert(toks.deep_view() =~= pre_acc.push(TokenV::Operator(seq![s[pre_i]])));
                assert(lex_from(s, pre_i, pre_st, pre_acc) == lex_from(
                    s,
                    pre_i + 1,
                    pre_st,
                    pre_acc.push(TokenV::Operator(seq![s[pre_i]])),
                ));
            }
        } else if c == '(' || c == ')' || c == '{' || c == '}' || c == '[' || c == ']' || c == '.'
            || c == ',' || c == ';' {
            toks.push(Token::Symbol(String::from_str(input.substring_char(i, i + 1))));
            i = i + 1;
            proof {
                assert(s.subrange(pre_i, pre_i + 1) =~= seq![s[pre_i]]);
                assert(toks.deep_view() =~= pre_acc.push(TokenV::Symbol(seq![s[pre_i]])));
                assert(lex_from(s, pre_i, pre_st, pre_acc) == lex_from(
                    s,
                    pre_i + 1,
                    pre_st,
                    pre_acc.push(TokenV::Symbol(seq![s[pre_i]])),
                ));
            }
        } else if c == ':' {
            if i + 1 < n && input.get_char(i + 1) == ':' {
                toks.push(Token::Operator(String::from_str("::")));
                i = i + 2;
            } else {
                toks.push(Token::Symbol(String::from_str(":")));
                i = i + 1;
            }
            proof {
                lex_two_char_step(s, pre_i, pre_st, pre_acc, toks.deep_view());
            }
        } else if c == '=' {
            if i + 1 < n && input.get_char(i + 1) == '=' {
                toks.push(Token::Operator(String::from_str("==")));
                i = i + 2;
            } else {
                toks.push(Token::Symbol(String::from_str("=")));
                i = i + 1;
            }
            proof {
                lex_two_char_step(s, pre_i, pre_st, pre_acc, toks.deep_view());
            }
        } else if c == '-' {
            if i + 1 < n && input.get_char(i + 1) == '>' {
                toks.push(Token::Symbol(String::from_str("->")));
                i = i + 2;
            } else {
                toks.push(Token::Operator(String::from_str("-")));
                i = i + 1;
            }
            proof {
                lex_two_char_step(s, pre_i, pre_st, pre_acc, toks.deep_view());
            }
        } else if c == '!' {
            if i + 1 < n && input.get_char(i + 1) == '=' {
                toks.push(Token::Operator(String::from_str("!=")));
                i = i + 2;
            } else {
                toks.push(Token::Operator(String::from_str("!")));
                i = i + 1;
            }
            proof {
                lex_two_char_step(s, pre_i, pre_st, pre_acc, toks.deep_view());
            }
        } else if c == '<' {
            if i + 1 < n && input.get_char(i + 1) == '=' {
                toks.push(Token::Operator(String::from_str("<=")));
                i = i + 2;
            } else {
                toks.push(Token::Operator(String::from_str("<")));
                i = i + 1;
            }
            proof {
                lex_two_char_step(s, pre_i, pre_st, pre_acc, toks.deep_view());
            }
        } else if c == '>' {
            if i + 1 < n && input.get_char(i + 1) == '=' {
                toks.push(Token::Operator(String::from_str(">=")));
                i = i + 2;
            } else {
                toks.push(Token::Operator(String::from_str(">")));
                i = i + 1;
            }
            proof {
                lex_two_char_step(s, pre_i, pre_st, pre_acc, toks.deep_view());
            }
        } else if word_char(c) {
            let end = peek_take_while(input, i, CharPred::WordChar);
            proof {
                lemma_scan_end(s, pre_i + 1, CharPred::WordChar);
                assert(scan_end(s, pre_i, CharPred::WordChar) == scan_end(
                    s,
                    pre_i + 1,
                    CharPred::WordChar,
                ));
            }
            let wsub = input.substring_char(i, end);
            let t = if str_eq(wsub, "true") {
                Token::Bool(true)
            } else if str_eq(wsub, "false") {
                Token::Bool(false)
            } else if str_eq(wsub, "null") {
                Token::Null
            } else if keyword_check(wsub) {
                Token::Keyword(String::from_str(wsub))
            } else {
                Token::Identifier(String::from_str(wsub))
            };
            toks.push(t);
            i = end;
            proof {
                assert(toks.deep_view() =~= pre_acc.push(t@));
                assert(lex_from(s, pre_i, pre_st, pre_acc) == lex_from(
                    s,
                    end as int,
                    pre_st,
                    pre_acc.push(t@),
                ));
            }
        } else if c == '\n' {
            let j = peek_take_while(input, i + 1, CharPred::Space);
            let w = j - (i + 1);
            let top = stack[stack.len() - 1];
            proof {
                assert(pre_st[pre_st.len() - 1] == top as int);
            }
            if w > top {
                toks.push(Token::Indent);
                stack.push(w);
                i = j;
                proof {
                    assert(widths(stack@) =~= pre_st.push(w as int));
                    assert(toks.deep_view() =~= pre_acc.push(TokenV::Indent));
                    assert forall|a: int, b: int|
                        0 <= a < b < pre_st.push(w as int).len() implies pre_st.push(w as int)[a]
                        < pre_st.push(w as int)[b] by {
                        if b < pre_st.len() {
                        } else {
                            if a < pre_st.len() - 1 {
                                assert(pre_st[a] < pre_st[pre_st.len() - 1]);
                            }
                        }
                    }
                    assert(stack_wf(pre_st.push(w as int)));
                    assert(lex_from(s, pre_i, pre_st, pre_acc) == lex_from(
                        s,
                        j as int,
                        pre_st.push(w as int),
                        pre_acc.push(TokenV::Indent),
                    ));
                }
            } else if w == top {
                toks.push(Token::Newline);
                i = j;
                proof {
                    assert(toks.deep_view() =~= pre_acc.push(TokenV::Newline));
                    assert(lex_from(s, pre_i, pre_st, pre_acc) == lex_from(
                        s,
                        j as int,
                        pre_st,
                        pre_acc.push(TokenV::Newline),
                    ));
                }
            } else {
                let ghost dp = dedent_pops(pre_st, w as int);
                while w < stack[stack.len() - 1]
                    invariant
                        stack@.len() >= 1,
                        stack_wf(widths(stack@)),
                        pre_acc + dp.0 =~= toks.deep_view() + dedent_pops(
                            widths(stack@),
                            w as int,
                        ).0,
                        dp.1 == dedent_pops(widths(stack@), w as int).1,
                    decreases stack@.len(),
                {
                    let ghost cst = widths(stack@);
                    let ghost cacc = toks.deep_view();
                    toks.push(Token::Dedent);
                    toks.push(Token::Newline);
                    proof {
                        assert(cst[cst.len() - 1] == stack@[stack@.len() - 1] as int);
                        assert((w as int) < cst.last());
                        assert(cst[0] == 0 <= w as int);
                        assert(cst.len() >= 2);
                    }
                    let _popped = stack.pop();
                    proof {
                        assert(widths(stack@) =~= cst.drop_last());
                        assert(toks.deep_view() =~= cacc + seq![TokenV::Dedent, TokenV::Newline]);
                        assert(dedent_pops(cst, w as int).0 == seq![
                            TokenV::Dedent,
                            TokenV::Newline,
                        ] + dedent_pops(cst.drop_last(), w as int).0);
                        assert(cacc + (seq![TokenV::Dedent, TokenV::Newline] + dedent_pops(
                            cst.drop_last(),
                            w as int,
                        ).0) =~= toks.deep_view() + dedent_pops(cst.drop_last(), w as int).0);
                        assert(pre_acc + dp.0 =~= toks.deep_view() + dedent_pops(
                            widths(stack@),
                            w as int,
                        ).0);
                        assert forall|a: int, b: int|
                            0 <= a < b < cst.drop_last().len() implies cst.drop_last()[a]
                            < cst.drop_last()[b] by {
                            assert(cst[a] < cst[b]);
                        }
                        assert(stack_wf(cst.drop_last()));
                    }
                }
                i = j;
                proof {
                    assert(dedent_pops(widths(stack@), w as int).0 =~= Seq::<TokenV>::empty());
                    assert(dp.1 == widths(stack@));
                    assert(pre_acc + dp.0 =~= toks.deep_view());
                    assert(lex_from(s, pre_i, pre_st, pre_acc) == lex_from(
                        s,
                        j as int,
                        dp.1,
                        pre_acc + dp.0,
                    ));
                }
            }
        } else if c == ' ' {
            i = i + 1;
            proof {
                assert(lex_from(s, pre_i, pre_st, pre_acc) == lex_from(
                    s,
                    pre_i + 1,
                    pre_st,
                    pre_acc,
                ));
            }
        } else {
            let m = String::from_str("unexpected character ").concat(
                input.substring_char(i, i + 1),
            );
            proof {
                assert(s.subrange(pre_i, pre_i + 1) =~= seq![s[pre_i]]);
                assert(lex_from(s, pre_i, pre_st, pre_acc) == Err::<Seq<TokenV>, LexErrV>(
                    LexErrV::UnexpectedChar(s[pre_i]),
                ));
            }
            return Err(m);
        }
    }
    proof {
        assert(lex_from(s, i as int, widths(stack@), toks.deep_view()) == Ok::<
            Seq<TokenV>,
            LexErrV,
        >(toks.deep_view()));
    }
    Ok(toks)
}

/// Disambiguation of the colon: a double colon lexes as one two-character
/// operator token, never as two one-character symbols; a single colon not
/// followed by another colon lexes as exactly one `:` symbol token, and the
/// character after it is scanned independently, from its own position.
pub proof fn lemma_colon_disambiguation(s: Seq<char>, i: int, stack: Seq<int>, acc: Seq<TokenV>)
    requires
        0 <= i < s.len(),
        s[i] == ':',
    ensures
        i + 1 < s.len() && s[i + 1] == ':' ==> lex_from(s, i, stack, acc) == lex_from(
            s,
            i + 2,
            stack,
            acc.push(TokenV::Operator("::"@)),
        ),
        !(i + 1 < s.len() && s[i + 1] == ':') ==> lex_from(s, i, stack, acc) == lex_from(
            s,
            i + 1,
            stack,
            acc.push(TokenV::Symbol(":"@)),
        ),
{
}

/// How many tokens of `ts` equal `t`.
pub open spec fn count_tok(ts: Seq<TokenV>, t: TokenV) -> int
    decreases ts.len(),
{
    if ts.len() == 0 {
        0
    } else {
        count_tok(ts.drop_last(), t) + if ts.last() == t {
            1int
        } else {
            0int
        }
    }
}

proof fn lemma_count_push(ts: Seq<TokenV>, x: TokenV, t: TokenV)
    ensures
        count_tok(ts.push(x), t) == count_tok(ts, t) + if x == t {
            1int
        } else {
            0int
        },
{
    assert(ts.push(x).drop_last() =~= ts);
    assert(ts.push(x).last() == x);
}

proof fn lemma_count_concat(a: Seq<TokenV>, b: Seq<TokenV>, t: TokenV)
    ensures
        count_tok(a + b, t) == count_tok(a, t) + count_tok(b, t),
    decreases b.len(),
{
    if b.len() == 0 {
        assert(a + b =~= a);
    } else {
        assert((a + b).drop_last() =~= a + b.drop_last());
        assert((a + b).last() == b.last());
        lemma_count_concat(a, b.drop_last(), t);
    }
}

proof fn lemma_count_nonneg(ts: Seq<TokenV>, t: TokenV)
    ensures
        count_tok(ts, t) >= 0,
    decreases ts.len(),
{
    if ts.len() > 0 {
        lemma_count_nonneg(ts.drop_last(), t);
    }
}

proof fn lemma_count_take_le(ts: Seq<TokenV>, k: int, t: TokenV)
    requires
        0 <= k <= ts.len(),
    ensures
        count_tok(ts.take(k), t) <= count_tok(ts, t),
    decreases ts.len() - k,
{
    if k == ts.len() {
        assert(ts.take(k) =~= ts);
    } else {
        lemma_count_take_le(ts, k + 1, t);
        assert(ts.take(k + 1).drop_last() =~= ts.take(k));
        assert(count_tok(ts.take(k + 1), t) >= count_tok(ts.take(k), t));
    }
}

/// What a dedent step does to a well-formed indentation stack: popping stops
/// exactly when the top is no longer greater than the new width `w`, so the
/// stack left is a well-formed prefix of the old one whose top is at most
/// `w`; one block-end marker is emitted for every popped width, and no
/// block-start marker at all.
pub proof fn lemma_dedent_pops(st: Seq<int>, w: int)
    requires
        stack_wf(st),
        0 <= w,
    ensures
        ({
            let r = dedent_pops(st, w);
            &&& stack_wf(r.1)
            &&& r.1.last() <= w
            &&& 1 <= r.1.len() <= st.len()
            &&& r.1 =~= st.take(r.1.len() as int)
            &&& r.0.len() == 2 * (st.len() - r.1.len())
            &&& count_tok(r.0, TokenV::Dedent) == st.len() - r.1.len()
            &&& count_tok(r.0, TokenV::Indent) == 0
        }),
    decreases st.len(),
{
    let r = dedent_pops(st, w);
    if st.len() > 0 && w < st.last() {
        let pre = st.drop_last();
        assert(st[0] == 0 <= w);
        assert(st.len() >= 2);
        assert forall|a: int, b: int| 0 <= a < b < pre.len() implies pre[a] < pre[b] by {
            assert(st[a] < st[b]);
        }
        assert(stack_wf(pre));
        lemma_dedent_pops(pre, w);
        let rp = dedent_pops(pre, w);
        let dn = seq![TokenV::Dedent, TokenV::Newline];
        lemma_count_concat(dn, rp.0, TokenV::Dedent);
        lemma_count_concat(dn, rp.0, TokenV::Indent);
        assert(dn.drop_last() =~= seq![TokenV::Dedent]);
        assert(seq![TokenV::Dedent].drop_last() =~= Seq::<TokenV>::empty());
        assert(count_tok(Seq::<TokenV>::empty(), TokenV::Dedent) == 0);
        assert(count_tok(Seq::<TokenV>::empty(), TokenV::Indent) == 0);
        assert(count_tok(seq![TokenV::Dedent], TokenV::Dedent) == 1);
        assert(count_tok(seq![TokenV::Dedent], TokenV::Indent) == 0);
        assert(count_tok(dn, TokenV::Dedent) == 1);
        assert(count_tok(dn, TokenV::Indent) == 0);
        assert(rp.1 =~= st.take(rp.1.len() as int));
    } else {
        assert(r.1 =~= st.take(st.len() as int));
    }
}

/// Block markers in a token sequence are nested: in every prefix, block-end
/// markers never outnumber block-start markers.
pub open spec fn markers_nested(ts: Seq<TokenV>) -> bool {
    forall|k: int|
        0 <= k <= ts.len() ==> count_tok(#[trigger] ts.take(k), TokenV::Dedent) <= count_tok(
            ts.take(k),
            TokenV::Indent,
        )
}

proof fn lemma_nested_push(ts: Seq<TokenV>, x: TokenV)
    requires
        markers_nested(ts),
        x != TokenV::Dedent,
    ensures
        markers_nested(ts.push(x)),
{
    let ex = ts.push(x);
    assert forall|k: int|
        0 <= k <= ex.len() implies count_tok(#[trigger] ex.take(k), TokenV::Dedent) <= count_tok(
        ex.take(k),
        TokenV::Indent,
    ) by {
        if k <= ts.len() {
            assert(ex.take(k) =~= ts.take(k));
        } else {
            assert(ex.take(k) =~= ts.push(x));
            assert(ts.take(ts.len() as int) =~= ts);
            lemma_count_push(ts, x, TokenV::Dedent);
            lemma_count_push(ts, x, TokenV::Indent);
            lemma_count_nonneg(ts, TokenV::Indent);
        }
    }
}

proof fn lemma_nested_append(ts: Seq<TokenV>, ext: Seq<TokenV>)
    requires
        markers_nested(ts),
        count_tok(ext, TokenV::Dedent) <= count_tok(ts, TokenV::Indent) - count_tok(
            ts,
            TokenV::Dedent,
        ),
    ensures
        markers_nested(ts + ext),
{
    let whole = ts + ext;
    assert forall|k: int|
        0 <= k <= whole.len() implies count_tok(#[trigger] whole.take(k), TokenV::Dedent)
        <= count_tok(whole.take(k), TokenV::Indent) by {
        if k <= ts.len() {
            assert(whole.take(k) =~= ts.take(k));
        } else {
            let part = ext.take(k - ts.len());
            assert(whole.take(k) =~= ts + part);
            lemma_count_concat(ts, part, TokenV::Dedent);
            lemma_count_concat(ts, part, TokenV::Indent);
            lemma_count_take_le(ext, k - ts.len(), TokenV::Dedent);
            lemma_count_nonneg(part, TokenV::Indent);
        }
    }
}

/// Along a whole successful scan the indentation stack stays well formed —
/// strictly increasing from its base width zero — and the block markers come
/// out nested: the number of block-start markers emitted so far always
/// matches the widths pushed and not yet popped, so no prefix of the output
/// holds more block-end than block-start markers.
pub proof fn lemma_lex_markers(s: Seq<char>, i: int, stack: Seq<int>, acc: Seq<TokenV>)
    requires
        0 <= i <= s.len(),
        stack_wf(stack),
        markers_nested(acc),
        count_tok(acc, TokenV::Indent) - count_tok(acc, TokenV::Dedent) == stack.len() - 1,
    ensures
        lex_from(s, i, stack, acc) matches Ok(out) ==> markers_nested(out),
    decreases s.len() - i, 1int,
{
    if i >= s.len() {
    } else {
        let c = s[i];
        if is_digit(c) {
            let end = scan_end(s, i, CharPred::NumChar);
            let txt = s.subrange(i, end);
            lemma_scan_end(s, i + 1, CharPred::NumChar);
            if txt.contains('.') {
                marker_free_step(s, end, stack, acc, TokenV::Float(txt));
            } else if digits_value(txt) <= i64::MAX {
                marker_free_step(s, end, stack, acc, TokenV::Int(digits_value(txt) as i64));
            }
        } else if c == '"' {
            let end = scan_end(s, i + 1, CharPred::NotQuote);
            lemma_scan_end(s, i + 1, CharPred::NotQuote);
            let next = if end < s.len() {
                end + 1
            } else {
                end
            };
            marker_free_step(s, next, stack, acc, TokenV::Str(s.subrange(i + 1, end)));
        } else if is_single_op(c) {
            marker_free_step(s, i + 1, stack, acc, TokenV::Operator(seq![c]));
        } else if is_single_sym(c) {
            marker_free_step(s, i + 1, stack, acc, TokenV::Symbol(seq![c]));
        } else if c == ':' || c == '=' || c == '-' || c == '!' || c == '<' || c == '>' {
            let two = i + 1 < s.len() && ((c == ':' && s[i + 1] == ':') || (c == '=' && s[i + 1]
                == '=') || (c == '-' && s[i + 1] == '>') || (c == '!' && s[i + 1] == '=') || (c
                == '<' && s[i + 1] == '=') || (c == '>' && s[i + 1] == '='));
            let next = if two {
                i + 2
            } else {
                i + 1
            };
            let tok = if c == ':' {
                if two {
                    TokenV::Operator("::"@)
                } else {
                    TokenV::Symbol(":"@)
                }
            } else if c == '=' {
                if two {
                    TokenV::Operator("=="@)
                } else {
                    TokenV::Symbol("="@)
                }
            } else if c == '-' {
                if two {
                    TokenV::Symbol("->"@)
                } else {
                    TokenV::Operator("-"@)
                }
            } else if c == '!' {
                if two {
                    TokenV::Operator("!="@)
                } else {
                    TokenV::Operator("!"@)
                }
            } else if c == '<' {
                if two {
                    TokenV::Operator("<="@)
                } else {
                    TokenV::Operator("<"@)
                }
            } else {
                if two {
                    TokenV::Operator(">="@)
                } else {
                    TokenV::Operator(">"@)
                }
            };
            marker_free_step(s, next, stack, acc, tok);
        } else if is_word_char(c) {
            let end = scan_end(s, i, CharPred::WordChar);
            let w = s.subrange(i, end);
            lemma_scan_end(s, i + 1, CharPred::WordChar);
            let tok = if w == "true"@ {
                TokenV::Bool(true)
            } else if w == "false"@ {
                TokenV::Bool(false)
            } else if w == "null"@ {
                TokenV::Null
            } else if is_keyword(w) {
                TokenV::Keyword(w)
            } else {
                TokenV::Identifier(w)
            };
            marker_free_step(s, end, stack, acc, tok);
        } else if c == '\n' {
            let j = scan_end(s, i + 1, CharPred::Space);
            lemma_scan_end(s, i + 1, CharPred::Space);
            let w = j - (i + 1);
            if w > stack.last() {
                lemma_nested_push(acc, TokenV::Indent);
                lemma_count_push(acc, TokenV::Indent, TokenV::Indent);
                lemma_count_push(acc, TokenV::Indent, TokenV::Dedent);
                assert forall|a: int, b: int|
                    0 <= a < b < stack.push(w).len() implies stack.push(w)[a] < stack.push(
                    w,
                )[b] by {
                    if b < stack.len() {
                    } else {
                        if a < stack.len() - 1 {
                            assert(stack[a] < stack[stack.len() - 1]);
                        }
                    }
                }
                lemma_lex_markers(s, j, stack.push(w), acc.push(TokenV::Indent));
            } else if w == stack.last() {
                marker_free_step(s, j, stack, acc, TokenV::Newline);
            } else {
                let r = dedent_pops(stack, w);
                lemma_dedent_pops(stack, w);
                lemma_nested_append(acc, r.0);
                lemma_count_concat(acc, r.0, TokenV::Indent);
                lemma_count_concat(acc, r.0, TokenV::Dedent);
                lemma_lex_markers(s, j, r.1, acc + r.0);
            }
        } else if c == ' ' {
            lemma_lex_markers(s, i + 1, stack, acc);
        }
    }
}

/// Corollary at the entry point: whatever text lexes successfully, its token
/// sequence has nested block markers — no prefix holds more block-end than
/// block-start markers, since the scan starts from the one-width stack and
/// every step keeps the stack strictly increasing.
pub proof fn lemma_lex_spec_markers(s: Seq<char>)
    ensures
        lex_spec(s) matches Ok(out) ==> markers_nested(out),
{
    let acc = Seq::<TokenV>::empty();
    assert forall|k: int| 0 <= k <= acc.len() implies count_tok(#[trigger] acc.take(k), TokenV::Dedent)
        <= count_tok(acc.take(k), TokenV::Indent) by {
        assert(acc.take(k) =~= acc);
    }
    assert(stack_wf(seq![0int]));
    lemma_lex_markers(s, 0, seq![0int], acc);
}

/// One scan step that emits a single token which is not a block marker: the
/// marker bookkeeping is untouched.
proof fn marker_free_step(s: Seq<char>, next: int, stack: Seq<int>, acc: Seq<TokenV>, tok: TokenV)
    requires
        0 <= next <= s.len(),
        stack_wf(stack),
        markers_nested(acc),
        count_tok(acc, TokenV::Indent) - count_tok(acc, TokenV::Dedent) == stack.len() - 1,
        tok != TokenV::Indent,
        tok != TokenV::Dedent,
    ensures
        lex_from(s, next, stack, acc.push(tok)) matches Ok(out) ==> markers_nested(out),
    decreases s.len() - next, 2int,
{
    lemma_nested_push(acc, tok);
    lemma_count_push(acc, tok, TokenV::Indent);
    lemma_count_push(acc, tok, TokenV::Dedent);
    lemma_lex_markers(s, next, stack, acc.push(tok));
}

/// The step the scanner takes at a character that may start a two-character
/// operator or symbol: whichever arm was taken, the accumulator grew by that
/// one token and the position moved past it.
proof fn lex_two_char_step(
    s: Seq<char>,
    i: int,
    stack: Seq<int>,
    acc: Seq<TokenV>,
    acc2: Seq<TokenV>,
)
    requires
        0 <= i < s.len(),
        ({
            let c = s[i];
            &&& !is_digit(c)
            &&& c != '"'
            &&& !is_single_op(c)
            &&& !is_single_sym(c)
            &&& (c == ':' || c == '=' || c == '-' || c == '!' || c == '<' || c == '>')
        }),
        ({
            let c = s[i];
            let two = i + 1 < s.len() && ((c == ':' && s[i + 1] == ':') || (c == '=' && s[i + 1]
                == '=') || (c == '-' && s[i + 1] == '>') || (c == '!' && s[i + 1] == '=') || (c
                == '<' && s[i + 1] == '=') || (c == '>' && s[i + 1] == '='));
            if two {
                acc2 =~= acc.push(
                    if c == ':' {
                        TokenV::Operator("::"@)
                    } else if c == '=' {
                        TokenV::Operator("=="@)
                    } else if c == '-' {
                        TokenV::Symbol("->"@)
                    } else if c == '!' {
                        TokenV::Operator("!="@)
                    } else if c == '<' {
                        TokenV::Operator("<="@)
                    } else {
                        TokenV::Operator(">="@)
                    },
                )
            } else {
                acc2 =~= acc.push(
                    if c == ':' {
                        TokenV::Symbol(":"@)
                    } else if c == '=' {
                        TokenV::Symbol("="@)
                    } else if c == '-' {
                        TokenV::Operator("-"@)
                    } else if c == '!' {
                        TokenV::Operator("!"@)
                    } else if c == '<' {
                        TokenV::Operator("<"@)
                    } else {
                        TokenV::Operator(">"@)
                    },
                )
            }
        }),
    ensures
        ({
            let c = s[i];
            let two = i + 1 < s.len() && ((c == ':' && s[i + 1] == ':') || (c == '=' && s[i + 1]
                == '=') || (c == '-' && s[i + 1] == '>') || (c == '!' && s[i + 1] == '=') || (c
                == '<' && s[i + 1] == '=') || (c == '>' && s[i + 1] == '='));
            lex_from(s, i, stack, acc) == lex_from(
                s,
                if two {
                    i + 2
                } else {
                    i + 1
                },
                stack,
                acc2,
            )
        }),
{
}

} // verus!
