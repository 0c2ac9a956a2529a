//! The hand-written lexer: source text -> tokens. Pure: `&str` in, tokens out.
//!
//! `lex_spec` states the token grammar: whitespace and `//` line comments are
//! skipped; punctuation and operators are single characters, except that
//! `=`, `!`, `<`, `>` followed by `=` form one two-character operator; a
//! string is the text between two `"` on one line; a number is a run of ASCII
//! digits with at most one `.` that is followed by a digit, and its token
//! holds the double the numeric backend gives for that text; an identifier
//! starts with an alphabetic character or `_` and continues with alphabetic,
//! numeric or `_` characters (in ASCII: letters, digits and `_`), and is a
//! keyword when its text is one. Every
//! token records the 1-based line and column of its first character.

use vstd::prelude::*;
use crate::error::{ErrorAt, LexError};
use crate::number::{answers, ask, computes, NumberRequest, RequestV};
use crate::text::{owned, push_char};
use crate::token::{kind_view, tokens_view, Kind, Token, TokenKind, TokenV};

verus! {

/// Whether `c`, a character beyond ASCII, is alphabetic in Unicode's sense
/// (`char::is_alphabetic`).
pub uninterp spec fn alphabetic(c: char) -> bool;

/// Whether `c`, a character beyond ASCII, is numeric in Unicode's sense
/// (`char::is_numeric`).
pub uninterp spec fn numeric(c: char) -> bool;

/// Whether `c` is an ASCII character.
pub open spec fn is_ascii(c: char) -> bool {
    c <= '\u{7f}'
}

/// Whether `c` is an ASCII letter.
pub open spec fn ascii_letter(c: char) -> bool {
    ('a' <= c && c <= 'z') || ('A' <= c && c <= 'Z')
}

/// Whether `c` is an ASCII decimal digit.
pub open spec fn is_digit(c: char) -> bool {
    '0' <= c && c <= '9'
}

/// Whether `c` has Unicode's Alphabetic property: in ASCII, exactly the
/// letters.
pub open spec fn alphabetic_char(c: char) -> bool {
    if is_ascii(c) { ascii_letter(c) } else { alphabetic(c) }
}

/// Whether `c` is in one of Unicode's number categories: in ASCII, exactly
/// the decimal digits.
pub open spec fn numeric_char(c: char) -> bool {
    if is_ascii(c) { is_digit(c) } else { numeric(c) }
}

/// `char::is_alphabetic`. In ASCII the Alphabetic property holds of the
/// letters `a`-`z` and `A`-`Z` and of nothing else; beyond ASCII the result
/// is named `alphabetic`.
#[verifier::external_body]
fn is_alphabetic(c: char) -> (r: bool)
    ensures
        r == if is_ascii(c) { ascii_letter(c) } else { alphabetic(c) },
{
    c.is_alphabetic()
}

/// `char::is_numeric`. In ASCII the number categories hold of the digits
/// `0`-`9` and of nothing else; beyond ASCII the result is named `numeric`.
#[verifier::external_body]
fn is_numeric(c: char) -> (r: bool)
    ensures
        r == if is_ascii(c) { is_digit(c) } else { numeric(c) },
{
    c.is_numeric()
}

fn is_ascii_digit(c: char) -> (r: bool)
    ensures
        r == is_digit(c),
{
    '0' <= c && c <= '9'
}

/// Whether `c` may start an identifier.
pub open spec fn starts_identifier(c: char) -> bool {
    alphabetic_char(c) || c == '_'
}

/// Whether `c` may continue an identifier (`char::is_alphanumeric` is
/// alphabetic-or-numeric).
pub open spec fn continues_identifier(c: char) -> bool {
    alphabetic_char(c) || numeric_char(c) || c == '_'
}

/// The index of the first line break at or after `i`, or the end of `chars`.
pub open spec fn line_end(chars: Seq<char>, i: int) -> int
    decreases chars.len() - i,
{
    if i >= chars.len() || chars[i] == '\n' {
        i
    } else {
        line_end(chars, i + 1)
    }
}

/// The index of the `"` that closes a string whose text starts at `i`, or
/// `None` when a line break or the end of input comes first.
pub open spec fn string_end(chars: Seq<char>, i: int) -> Option<int>
    decreases chars.len() - i,
{
    if i >= chars.len() || chars[i] == '\n' {
        None
    } else if chars[i] == '"' {
        Some(i)
    } else {
        string_end(chars, i + 1)
    }
}

/// The end of a number literal scanned from `i`, `seen_dot` telling whether
/// its `.` was already taken.
pub open spec fn number_end(chars: Seq<char>, i: int, seen_dot: bool) -> int
    decreases chars.len() - i,
{
    if i >= chars.len() {
        i
    } else if is_digit(chars[i]) {
        number_end(chars, i + 1, seen_dot)
    } else if chars[i] == '.' && !seen_dot && i + 1 < chars.len() && is_digit(chars[i + 1]) {
        number_end(chars, i + 1, true)
    } else {
        i
    }
}

/// The end of an identifier scanned from `i`.
pub open spec fn ident_end(chars: Seq<char>, i: int) -> int
    decreases chars.len() - i,
{
    if i < chars.len() && continues_identifier(chars[i]) {
        ident_end(chars, i + 1)
    } else {
        i
    }
}

/// The kind of a one-character token, for the characters that always form one.
pub open spec fn single_kind(c: char) -> Option<Kind> {
    if c == '(' { Some(Kind::LParen) }
    else if c == ')' { Some(Kind::RParen) }
    else if c == '{' { Some(Kind::LBrace) }
    else if c == '}' { Some(Kind::RBrace) }
    else if c == ';' { Some(Kind::Semicolon) }
    else if c == ',' { Some(Kind::Comma) }
    else if c == '+' { Some(Kind::Plus) }
    else if c == '-' { Some(Kind::Minus) }
    else if c == '*' { Some(Kind::Star) }
    else if c == '/' { Some(Kind::Slash) }
    else if c == '%' { Some(Kind::Percent) }
    else { None }
}

/// For the characters that may be followed by `=`: the kind of the
/// two-character operator and of the one-character one.
pub open spec fn pair_kinds(c: char) -> Option<(Kind, Kind)> {
    if c == '=' { Some((Kind::EqEq, Kind::Eq)) }
    else if c == '!' { Some((Kind::NotEq, Kind::Bang)) }
    else if c == '<' { Some((Kind::LessEq, Kind::Less)) }
    else if c == '>' { Some((Kind::GreaterEq, Kind::Greater)) }
    else { None }
}

/// The kind of a word: its keyword, or an identifier.
pub open spec fn keyword_kind(s: Seq<char>) -> Kind {
    if s == "var"@ { Kind::Var }
    else if s == "fn"@ { Kind::Fn }
    else if s == "if"@ { Kind::If }
    else if s == "else"@ { Kind::Else }
    else if s == "while"@ { Kind::While }
    else if s == "return"@ { Kind::Return }
    else if s == "print"@ { Kind::Print }
    else if s == "true"@ { Kind::True }
    else if s == "false"@ { Kind::False }
    else if s == "nil"@ { Kind::Nil }
    else if s == "and"@ { Kind::And }
    else if s == "or"@ { Kind::Or }
    else { Kind::Identifier(s) }
}

/// The message for a character that starts no token.
pub open spec fn unexpected_message(c: char) -> Seq<char> {
    "unexpected character '"@ + seq![c] + "'"@
}

/// `t` in front of the tokens of `r`, errors passing through.
pub open spec fn prepend(t: TokenV, r: Result<Seq<TokenV>, ErrorAt>) -> Result<Seq<TokenV>, ErrorAt> {
    match r {
        Ok(ts) => Ok(seq![t] + ts),
        Err(e) => Err(e),
    }
}

/// `ts` in front of the tokens of `r`, errors passing through.
pub open spec fn prepend_all(ts: Seq<TokenV>, r: Result<Seq<TokenV>, ErrorAt>) -> Result<Seq<TokenV>, ErrorAt> {
    match r {
        Ok(rest) => Ok(ts + rest),
        Err(e) => Err(e),
    }
}

pub proof fn lemma_line_end(chars: Seq<char>, i: int)
    requires
        0 <= i <= chars.len(),
    ensures
        i <= line_end(chars, i) <= chars.len(),
        i < chars.len() && chars[i] != '\n' ==> i < line_end(chars, i),
    decreases chars.len() - i,
{
    if i < chars.len() && chars[i] != '\n' {
        lemma_line_end(chars, i + 1);
    }
}

pub proof fn lemma_number_end(chars: Seq<char>, i: int, seen_dot: bool)
    requires
        0 <= i <= chars.len(),
    ensures
        i <= number_end(chars, i, seen_dot) <= chars.len(),
        i < chars.len() && is_digit(chars[i]) ==> i < number_end(chars, i, seen_dot),
    decreases chars.len() - i,
{
    if i < chars.len() {
        if is_digit(chars[i]) {
            lemma_number_end(chars, i + 1, seen_dot);
        } else if chars[i] == '.' && !seen_dot && i + 1 < chars.len() && is_digit(chars[i + 1]) {
            lemma_number_end(chars, i + 1, true);
        }
    }
}

pub proof fn lemma_ident_end(chars: Seq<char>, i: int)
    requires
        0 <= i <= chars.len(),
    ensures
        i <= ident_end(chars, i) <= chars.len(),
        i < chars.len() && continues_identifier(chars[i]) ==> i < ident_end(chars, i),
    decreases chars.len() - i,
{
    if i < chars.len() && continues_identifier(chars[i]) {
        lemma_ident_end(chars, i + 1);
    }
}

pub proof fn lemma_string_end(chars: Seq<char>, i: int)
    requires
        0 <= i <= chars.len(),
    ensures
        string_end(chars, i) matches Some(j) ==> i <= j < chars.len() && chars[j] == '"',
    decreases chars.len() - i,
{
    if i < chars.len() && chars[i] != '\n' && chars[i] != '"' {
        lemma_string_end(chars, i + 1);
    }
}

/// The tokens of `chars` from index `i`, the cursor standing at `line`, `col`.
pub open spec fn lex_from(compute: spec_fn(RequestV) -> u64, chars: Seq<char>, i: int, line: nat, col: nat) -> Result<Seq<TokenV>, ErrorAt>
    decreases chars.len() - i,
{
    if i < 0 || i >= chars.len() {
        Ok(seq![TokenV { kind: Kind::Eof, line, col }])
    } else {
        let c = chars[i];
        if c == ' ' || c == '\t' || c == '\r' {
            lex_from(compute, chars, i + 1, line, col + 1)
        } else if c == '\n' {
            lex_from(compute, chars, i + 1, line + 1, 1)
        } else if c == '/' && i + 1 < chars.len() && chars[i + 1] == '/' {
            let j = line_end(chars, i);
            proof {
                lemma_line_end(chars, i);
                assert(i < j);
            }
            lex_from(compute, chars, j, line, (col + (j - i)) as nat)
        } else if single_kind(c) is Some {
            prepend(
                TokenV { kind: single_kind(c)->0, line, col },
                lex_from(compute, chars, i + 1, line, col + 1),
            )
        } else if pair_kinds(c) is Some {
            if i + 1 < chars.len() && chars[i + 1] == '=' {
                prepend(
                    TokenV { kind: (pair_kinds(c)->0).0, line, col },
                    lex_from(compute, chars, i + 2, line, col + 2),
                )
            } else {
                prepend(
                    TokenV { kind: (pair_kinds(c)->0).1, line, col },
                    lex_from(compute, chars, i + 1, line, col + 1),
                )
            }
        } else if c == '"' {
            proof {
                lemma_string_end(chars, i + 1);
            }
            match string_end(chars, i + 1) {
                None => Err(ErrorAt { message: "unterminated string"@, line, col }),
                Some(j) => prepend(
                    TokenV { kind: Kind::Str(chars.subrange(i + 1, j)), line, col },
                    lex_from(compute, chars, j + 1, line, (col + (j + 1 - i)) as nat),
                ),
            }
        } else if is_digit(c) {
            let j = number_end(chars, i, false);
            proof {
                lemma_number_end(chars, i, false);
            }
            prepend(
                TokenV { kind: Kind::Number(compute(RequestV::Literal(chars.subrange(i, j)))), line, col },
                lex_from(compute, chars, j, line, (col + (j - i)) as nat),
            )
        } else if starts_identifier(c) {
            let j = ident_end(chars, i);
            proof {
                lemma_ident_end(chars, i);
            }
            prepend(
                TokenV { kind: keyword_kind(chars.subrange(i, j)), line, col },
                lex_from(compute, chars, j, line, (col + (j - i)) as nat),
            )
        } else {
            Err(ErrorAt { message: unexpected_message(c), line, col })
        }
    }
}

/// The tokens of a whole source text: `Ok` with the token sequence (ending in
/// `Eof`), or the first lexing error.
pub open spec fn lex_spec(compute: spec_fn(RequestV) -> u64, chars: Seq<char>) -> Result<Seq<TokenV>, ErrorAt> {
    lex_from(compute, chars, 0, 1, 1)
}

/// The abstract result of a lexing call.
pub open spec fn lex_result_view(r: Result<Vec<Token>, LexError>) -> Result<Seq<TokenV>, ErrorAt> {
    match r {
        Ok(ts) => Ok(tokens_view(ts@)),
        Err(e) => Err(e@),
    }
}

pub proof fn lemma_prepend_all_push(ts: Seq<TokenV>, t: TokenV, r: Result<Seq<TokenV>, ErrorAt>)
    ensures
        prepend_all(ts, prepend(t, r)) == prepend_all(ts.push(t), r),
{
    match r {
        Ok(rest) => {
            assert(ts + (seq![t] + rest) =~= ts.push(t) + rest);
        },
        Err(e) => {},
    }
}

/// The characters of `source`, in order.
fn chars_of(source: &str) -> (v: Vec<char>)
    ensures
        v@ == source@,
{
    let mut v: Vec<char> = Vec::new();
    for c in it: source.chars()
        invariant
            v@ == it.seq().take(it.index() as int),
            it.seq() == source@,
    {
        v.push(c);
    }
    v
}

fn emit(tokens: &mut Vec<Token>, kind: TokenKind, line: usize, col: usize)
    ensures
        tokens_view(final(tokens)@) == tokens_view(old(tokens)@).push(
            TokenV { kind: kind@, line: line as nat, col: col as nat },
        ),
{
    let ghost before = tokens@;
    tokens.push(Token { kind, line, col });
    assert(tokens_view(tokens@) =~= tokens_view(before).push(
        TokenV { kind: kind@, line: line as nat, col: col as nat },
    ));
}

fn push_single(
    tokens: &mut Vec<Token>,
    kind: TokenKind,
    line: usize,
    col: usize,
    i: &mut usize,
    col_cursor: &mut usize,
)
    requires
        *old(i) < usize::MAX,
        *old(col_cursor) < usize::MAX,
    ensures
        tokens_view(final(tokens)@) == tokens_view(old(tokens)@).push(
            TokenV { kind: kind@, line: line as nat, col: col as nat },
        ),
        *final(i) == *old(i) + 1,
        *final(col_cursor) == *old(col_cursor) + 1,
{
    emit(tokens, kind, line, col);
    *i += 1;
    *col_cursor += 1;
}

fn push_maybe_eq(
    chars: &Vec<char>,
    tokens: &mut Vec<Token>,
    two_char: TokenKind,
    one_char: TokenKind,
    line: usize,
    col: usize,
    i: &mut usize,
    col_cursor: &mut usize,
)
    requires
        *old(i) < chars@.len(),
        chars@.len() < usize::MAX,
        *old(col_cursor) <= *old(i) + 1,
    ensures
        if *old(i) + 1 < chars@.len() && chars@[*old(i) + 1] == '=' {
            &&& tokens_view(final(tokens)@) == tokens_view(old(tokens)@).push(
                TokenV { kind: two_char@, line: line as nat, col: col as nat },
            )
            &&& *final(i) == *old(i) + 2
            &&& *final(col_cursor) == *old(col_cursor) + 2
        } else {
            &&& tokens_view(final(tokens)@) == tokens_view(old(tokens)@).push(
                TokenV { kind: one_char@, line: line as nat, col: col as nat },
            )
            &&& *final(i) == *old(i) + 1
            &&& *final(col_cursor) == *old(col_cursor) + 1
        },
{
    if *i + 1 < chars.len() && chars[*i + 1] == '=' {
        emit(tokens, two_char, line, col);
        *i += 2;
        *col_cursor += 2;
    } else {
        emit(tokens, one_char, line, col);
        *i += 1;
        *col_cursor += 1;
    }
}

/// The kind of an identifier-shaped word: its keyword, or an identifier.
pub fn keyword_or_identifier(ident: &String) -> (k: TokenKind)
    ensures
        k@ == keyword_kind(ident@),
{
    proof {
        reveal(kind_view);
    }
    if *ident == owned("var") { TokenKind::Var }
    else if *ident == owned("fn") { TokenKind::Fn }
    else if *ident == owned("if") { TokenKind::If }
    else if *ident == owned("else") { TokenKind::Else }
    else if *ident == owned("while") { TokenKind::While }
    else if *ident == owned("return") { TokenKind::Return }
    else if *ident == owned("print") { TokenKind::Print }
    else if *ident == owned("true") { TokenKind::True }
    else if *ident == owned("false") { TokenKind::False }
    else if *ident == owned("nil") { TokenKind::Nil }
    else if *ident == owned("and") { TokenKind::And }
    else if *ident == owned("or") { TokenKind::Or }
    else { TokenKind::Identifier(ident.clone()) }
}

/// `ts` ends with `Eof`, and holds no other `Eof`.
pub open spec fn eof_last(ts: Seq<TokenV>) -> bool {
    &&& ts.len() > 0
    &&& ts[ts.len() - 1].kind == Kind::Eof
    &&& forall|k: int| 0 <= k < ts.len() - 1 ==> (#[trigger] ts[k]).kind != Kind::Eof
}

proof fn lemma_prepend_eof_last(t: TokenV, r: Result<Seq<TokenV>, ErrorAt>)
    requires
        t.kind != Kind::Eof,
        r matches Ok(ts) ==> eof_last(ts),
    ensures
        prepend(t, r) matches Ok(ts) ==> eof_last(ts),
{
    if let Ok(ts) = r {
        let all = seq![t] + ts;
        assert(all[all.len() - 1] == ts[ts.len() - 1]);
        assert forall|k: int| 0 <= k < all.len() - 1 implies (#[trigger] all[k]).kind != Kind::Eof by {
            if k > 0 {
                assert(all[k] == ts[k - 1]);
            }
        }
    }
}

/// A successful tokenization ends with `Eof`, and holds no other `Eof`.
#[verifier::spinoff_prover]
pub proof fn lemma_lex_ends_with_eof(compute: spec_fn(RequestV) -> u64, chars: Seq<char>, i: int, line: nat, col: nat)
    ensures
        lex_from(compute, chars, i, line, col) matches Ok(ts) ==> eof_last(ts),
    decreases chars.len() - i,
{
    if 0 <= i < chars.len() {
        let c = chars[i];
        if c == ' ' || c == '\t' || c == '\r' {
            lemma_lex_ends_with_eof(compute, chars, i + 1, line, col + 1);
        } else if c == '\n' {
            lemma_lex_ends_with_eof(compute, chars, i + 1, line + 1, 1);
        } else if c == '/' && i + 1 < chars.len() && chars[i + 1] == '/' {
            let j = line_end(chars, i);
            lemma_line_end(chars, i);
            lemma_lex_ends_with_eof(compute, chars, j, line, (col + (j - i)) as nat);
        } else if single_kind(c) is Some {
            lemma_lex_ends_with_eof(compute, chars, i + 1, line, col + 1);
            lemma_prepend_eof_last(TokenV { kind: single_kind(c)->0, line, col }, lex_from(compute, chars, i + 1, line, col + 1));
        } else if pair_kinds(c) is Some {
            if i + 1 < chars.len() && chars[i + 1] == '=' {
                lemma_lex_ends_with_eof(compute, chars, i + 2, line, col + 2);
                lemma_prepend_eof_last(TokenV { kind: (pair_kinds(c)->0).0, line, col }, lex_from(compute, chars, i + 2, line, col + 2));
            } else {
                lemma_lex_ends_with_eof(compute, chars, i + 1, line, col + 1);
                lemma_prepend_eof_last(TokenV { kind: (pair_kinds(c)->0).1, line, col }, lex_from(compute, chars, i + 1, line, col + 1));
            }
        } else if c == '"' {
            lemma_string_end(chars, i + 1);
            if let Some(j) = string_end(chars, i + 1) {
                let nc = (col + (j + 1 - i)) as nat;
                lemma_lex_ends_with_eof(compute, chars, j + 1, line, nc);
                lemma_prepend_eof_last(TokenV { kind: Kind::Str(chars.subrange(i + 1, j)), line, col }, lex_from(compute, chars, j + 1, line, nc));
            }
        } else if is_digit(c) {
            let j = number_end(chars, i, false);
            lemma_number_end(chars, i, false);
            let nc = (col + (j - i)) as nat;
            lemma_lex_ends_with_eof(compute, chars, j, line, nc);
            lemma_prepend_eof_last(TokenV { kind: Kind::Number(compute(RequestV::Literal(chars.subrange(i, j)))), line, col }, lex_from(compute, chars, j, line, nc));
        } else if starts_identifier(c) {
            let j = ident_end(chars, i);
            lemma_ident_end(chars, i);
            let nc = (col + (j - i)) as nat;
            lemma_lex_ends_with_eof(compute, chars, j, line, nc);
            lemma_prepend_eof_last(TokenV { kind: keyword_kind(chars.subrange(i, j)), line, col }, lex_from(compute, chars, j, line, nc));
        }
    }
}

/// Every token has a 1-based line and column.
pub open spec fn one_based(ts: Seq<TokenV>) -> bool {
    forall|k: int| 0 <= k < ts.len() ==> (#[trigger] ts[k]).line >= 1 && ts[k].col >= 1
}

/// Every token of a successful tokenization from a 1-based position has a
/// 1-based position.
#[verifier::spinoff_prover]
pub proof fn lemma_lex_positions(compute: spec_fn(RequestV) -> u64, chars: Seq<char>, i: int, line: nat, col: nat)
    requires
        line >= 1,
        col >= 1,
    ensures
        lex_from(compute, chars, i, line, col) matches Ok(ts) ==> one_based(ts),
    decreases chars.len() - i,
{
    if 0 <= i < chars.len() {
        let c = chars[i];
        if c == ' ' || c == '\t' || c == '\r' {
            lemma_lex_positions(compute, chars, i + 1, line, col + 1);
        } else if c == '\n' {
            lemma_lex_positions(compute, chars, i + 1, line + 1, 1);
        } else if c == '/' && i + 1 < chars.len() && chars[i + 1] == '/' {
            let j = line_end(chars, i);
            lemma_line_end(chars, i);
            lemma_lex_positions(compute, chars, j, line, (col + (j - i)) as nat);
        } else if single_kind(c) is Some {
            lemma_lex_positions(compute, chars, i + 1, line, col + 1);
            lemma_prepend_positions(TokenV { kind: single_kind(c)->0, line, col }, lex_from(compute, chars, i + 1, line, col + 1));
        } else if pair_kinds(c) is Some {
            if i + 1 < chars.len() && chars[i + 1] == '=' {
                lemma_lex_positions(compute, chars, i + 2, line, col + 2);
                lemma_prepend_positions(TokenV { kind: (pair_kinds(c)->0).0, line, col }, lex_from(compute, chars, i + 2, line, col + 2));
            } else {
                lemma_lex_positions(compute, chars, i + 1, line, col + 1);
                lemma_prepend_positions(TokenV { kind: (pair_kinds(c)->0).1, line, col }, lex_from(compute, chars, i + 1, line, col + 1));
            }
        } else if c == '"' {
            lemma_string_end(chars, i + 1);
            if let Some(j) = string_end(chars, i + 1) {
                let nc = (col + (j + 1 - i)) as nat;
                lemma_lex_positions(compute, chars, j + 1, line, nc);
                lemma_prepend_positions(TokenV { kind: Kind::Str(chars.subrange(i + 1, j)), line, col }, lex_from(compute, chars, j + 1, line, nc));
            }
        } else if is_digit(c) {
            let j = number_end(chars, i, false);
            lemma_number_end(chars, i, false);
            let nc = (col + (j - i)) as nat;
            lemma_lex_positions(compute, chars, j, line, nc);
            lemma_prepend_positions(TokenV { kind: Kind::Number(compute(RequestV::Literal(chars.subrange(i, j)))), line, col }, lex_from(compute, chars, j, line, nc));
        } else if starts_identifier(c) {
            let j = ident_end(chars, i);
            lemma_ident_end(chars, i);
            let nc = (col + (j - i)) as nat;
            lemma_lex_positions(compute, chars, j, line, nc);
            lemma_prepend_positions(TokenV { kind: keyword_kind(chars.subrange(i, j)), line, col }, lex_from(compute, chars, j, line, nc));
        }
    }
}

proof fn lemma_prepend_positions(t: TokenV, r: Result<Seq<TokenV>, ErrorAt>)
    requires
        t.line >= 1,
        t.col >= 1,
        r matches Ok(ts) ==> one_based(ts),
    ensures
        prepend(t, r) matches Ok(ts) ==> one_based(ts),
{
    if let Ok(ts) = r {
        let all = seq![t] + ts;
        assert forall|k: int| 0 <= k < all.len() implies all[k].line >= 1 && all[k].col >= 1 by {
            if k > 0 {
                assert(all[k] == ts[k - 1]);
            }
        }
    }
}

/// Tokenizes Lumen source into a token stream terminated by `Eof`. A number
/// token holds the double that `compute` gives for the literal's text.
pub fn lex<C: Fn(NumberRequest) -> u64>(source: &str, compute: &C) -> (r: Result<Vec<Token>, LexError>)
    requires
        source@.len() < usize::MAX,
        computes(*compute),
    ensures
        lex_result_view(r) == lex_spec(answers(*compute), source@),
{
    let chars = chars_of(source);
    let len = chars.len();
    let mut tokens: Vec<Token> = Vec::new();
    let mut i: usize = 0;
    let mut line: usize = 1;
    let mut col: usize = 1;
    assert(tokens_view(tokens@) =~= Seq::<TokenV>::empty());
    assert(prepend_all(Seq::<TokenV>::empty(), lex_spec(answers(*compute), chars@)) =~= lex_spec(answers(*compute), chars@));

    while i < len
        invariant
            chars@ == source@,
            computes(*compute),
            len == chars@.len(),
            len < usize::MAX,
            i <= len,
            1 <= line <= i + 1,
            1 <= col <= i + 1,
            lex_spec(answers(*compute), chars@) == prepend_all(
                tokens_view(tokens@),
                lex_from(answers(*compute), chars@, i as int, line as nat, col as nat),
            ),
        decreases len - i,
    {
        proof {
            reveal(kind_view);
        }
        let c = chars[i];
        let start_col = col;
        let ghost i0 = i as int;
        let ghost ts0 = tokens_view(tokens@);
        if c == ' ' || c == '\t' || c == '\r' {
            i += 1;
            col += 1;
        } else if c == '\n' {
            i += 1;
            line += 1;
            col = 1;
        } else if c == '/' && i + 1 < len && chars[i + 1] == '/' {
            // Line comment: skip to end of line (the newline arm handles the break).
            while i < len && chars[i] != '\n'
                invariant
                    chars@ == source@,
                    len == chars@.len(),
                    len < usize::MAX,
                    0 <= i0 <= i <= len,
                    col == start_col + (i - i0),
                    start_col <= i0 + 1,
                    line_end(chars@, i as int) == line_end(chars@, i0),
                decreases len - i,
            {
                i += 1;
                col += 1;
            }
        } else if c == '(' {
            push_single(&mut tokens, TokenKind::LParen, line, start_col, &mut i, &mut col);
            proof { lemma_prepend_all_push(ts0, TokenV { kind: Kind::LParen, line: line as nat, col: start_col as nat }, lex_from(answers(*compute), chars@, i as int, line as nat, col as nat)); }
        } else if c == ')' {
            push_single(&mut tokens, TokenKind::RParen, line, start_col, &mut i, &mut col);
            proof { lemma_prepend_all_push(ts0, TokenV { kind: Kind::RParen, line: line as nat, col: start_col as nat }, lex_from(answers(*compute), chars@, i as int, line as nat, col as nat)); }
        } else if c == '{' {
            push_single(&mut tokens, TokenKind::LBrace, line, start_col, &mut i, &mut col);
            proof { lemma_prepend_all_push(ts0, TokenV { kind: Kind::LBrace, line: line as nat, col: start_col as nat }, lex_from(answers(*compute), chars@, i as int, line as nat, col as nat)); }
        } else if c == '}' {
            push_single(&mut tokens, TokenKind::RBrace, line, start_col, &mut i, &mut col);
            proof { lemma_prepend_all_push(ts0, TokenV { kind: Kind::RBrace, line: line as nat, col: start_col as nat }, lex_from(answers(*compute), chars@, i as int, line as nat, col as nat)); }
        } else if c == ';' {
            push_single(&mut tokens, TokenKind::Semicolon, line, start_col, &mut i, &mut col);
            proof { lemma_prepend_all_push(ts0, TokenV { kind: Kind::Semicolon, line: line as nat, col: start_col as nat }, lex_from(answers(*compute), chars@, i as int, line as nat, col as nat)); }
        } else if c == ',' {
            push_single(&mut tokens, TokenKind::Comma, line, start_col, &mut i, &mut col);
            proof { lemma_prepend_all_push(ts0, TokenV { kind: Kind::Comma, line: line as nat, col: start_col as nat }, lex_from(answers(*compute), chars@, i as int, line as nat, col as nat)); }
        } else if c == '+' {
            push_single(&mut tokens, TokenKind::Plus, line, start_col, &mut i, &mut col);
            proof { lemma_prepend_all_push(ts0, TokenV { kind: Kind::Plus, line: line as nat, col: start_col as nat }, lex_from(answers(*compute), chars@, i as int, line as nat, col as nat)); }
        } else if c == '-' {
            push_single(&mut tokens, TokenKind::Minus, line, start_col, &mut i, &mut col);
            proof { lemma_prepend_all_push(ts0, TokenV { kind: Kind::Minus, line: line as nat, col: start_col as nat }, lex_from(answers(*compute), chars@, i as int, line as nat, col as nat)); }
        } else if c == '*' {
            push_single(&mut tokens, TokenKind::Star, line, start_col, &mut i, &mut col);
            proof { lemma_prepend_all_push(ts0, TokenV { kind: Kind::Star, line: line as nat, col: start_col as nat }, lex_from(answers(*compute), chars@, i as int, line as nat, col as nat)); }
        } else if c == '/' {
            push_single(&mut tokens, TokenKind::Slash, line, start_col, &mut i, &mut col);
            proof { lemma_prepend_all_push(ts0, TokenV { kind: Kind::Slash, line: line as nat, col: start_col as nat }, lex_from(answers(*compute), chars@, i as int, line as nat, col as nat)); }
        } else if c == '%' {
            push_single(&mut tokens, TokenKind::Percent, line, start_col, &mut i, &mut col);
            proof { lemma_prepend_all_push(ts0, TokenV { kind: Kind::Percent, line: line as nat, col: start_col as nat }, lex_from(answers(*compute), chars@, i as int, line as nat, col as nat)); }
        } else if c == '=' || c == '!' || c == '<' || c == '>' {
            let (two_char, one_char) = if c == '=' {
                (TokenKind::EqEq, TokenKind::Eq)
            } else if c == '!' {
                (TokenKind::NotEq, TokenKind::Bang)
            } else if c == '<' {
                (TokenKind::LessEq, TokenKind::Less)
            } else {
                (TokenKind::GreaterEq, TokenKind::Greater)
            };
            let ghost two = two_char@;
            let ghost one = one_char@;
            push_maybe_eq(&chars, &mut tokens, two_char, one_char, line, start_col, &mut i, &mut col);
            proof {
                if i0 + 1 < len && chars@[i0 + 1] == '=' {
                    lemma_prepend_all_push(ts0, TokenV { kind: two, line: line as nat, col: start_col as nat }, lex_from(answers(*compute), chars@, i as int, line as nat, col as nat));
                } else {
                    lemma_prepend_all_push(ts0, TokenV { kind: one, line: line as nat, col: start_col as nat }, lex_from(answers(*compute), chars@, i as int, line as nat, col as nat));
                }
            }
        } else if c == '"' {
            let str_col = start_col;
            i += 1;
            col += 1;
            let mut text = String::new();
            proof { lemma_string_end(chars@, i as int); }
            while i < len && chars[i] != '"' && chars[i] != '\n'
                invariant
                    chars@ == source@,
                    len == chars@.len(),
                    len < usize::MAX,
                    0 <= i0, i0 + 1 <= i <= len,
                    col == str_col + (i - i0),
                    str_col <= i0 + 1,
                    text@ == chars@.subrange(i0 + 1, i as int),
                    string_end(chars@, i as int) == string_end(chars@, i0 + 1),
                decreases len - i,
            {
                push_char(&mut text, chars[i]);
                i += 1;
                col += 1;
                assert(text@ =~= chars@.subrange(i0 + 1, i as int));
            }
            if i >= len || chars[i] == '\n' {
                return Err(LexError { message: owned("unterminated string"), line, col: str_col });
            }
            i += 1;
            col += 1;
            emit(&mut tokens, TokenKind::Str(text), line, str_col);
            proof { lemma_prepend_all_push(ts0, TokenV { kind: Kind::Str(chars@.subrange(i0 + 1, i - 1)), line: line as nat, col: str_col as nat }, lex_from(answers(*compute), chars@, i as int, line as nat, col as nat)); }
        } else if is_ascii_digit(c) {
            let mut num = String::new();
            let mut seen_dot = false;
            proof { lemma_number_end(chars@, i0, false); }
            while i < len
                invariant
                    chars@ == source@,
                    len == chars@.len(),
                    len < usize::MAX,
                    0 <= i0 <= i <= len,
                    col == start_col + (i - i0),
                    start_col <= i0 + 1,
                    num@ == chars@.subrange(i0, i as int),
                    number_end(chars@, i as int, seen_dot) == number_end(chars@, i0, false),
                ensures
                    0 <= i0 <= i <= len,
                    number_end(chars@, i as int, seen_dot) == i,
                decreases len - i,
            {
                let ch = chars[i];
                if is_ascii_digit(ch) {
                    push_char(&mut num, ch);
                    i += 1;
                    col += 1;
                } else if ch == '.' && !seen_dot && i + 1 < len && is_ascii_digit(chars[i + 1]) {
                    seen_dot = true;
                    push_char(&mut num, ch);
                    i += 1;
                    col += 1;
                } else {
                    break;
                }
                assert(num@ =~= chars@.subrange(i0, i as int));
            }
            let value = ask(compute, NumberRequest::Literal(num));
            emit(&mut tokens, TokenKind::Number(value), line, start_col);
            proof { lemma_prepend_all_push(ts0, TokenV { kind: Kind::Number(answers(*compute)(RequestV::Literal(chars@.subrange(i0, i as int)))), line: line as nat, col: start_col as nat }, lex_from(answers(*compute), chars@, i as int, line as nat, col as nat)); }
        } else if is_alphabetic(c) || c == '_' {
            let mut ident = String::new();
            proof { lemma_ident_end(chars@, i0); }
            while i < len && (is_alphabetic(chars[i]) || is_numeric(chars[i]) || chars[i] == '_')
                invariant
                    chars@ == source@,
                    len == chars@.len(),
                    len < usize::MAX,
                    0 <= i0 <= i <= len,
                    col == start_col + (i - i0),
                    start_col <= i0 + 1,
                    ident@ == chars@.subrange(i0, i as int),
                    ident_end(chars@, i as int) == ident_end(chars@, i0),
                decreases len - i,
            {
                push_char(&mut ident, chars[i]);
                i += 1;
                col += 1;
                assert(ident@ =~= chars@.subrange(i0, i as int));
            }
            let kind = keyword_or_identifier(&ident);
            let ghost k = kind@;
            emit(&mut tokens, kind, line, start_col);
            proof { lemma_prepend_all_push(ts0, TokenV { kind: k, line: line as nat, col: start_col as nat }, lex_from(answers(*compute), chars@, i as int, line as nat, col as nat)); }
        } else {
            let mut shown = String::new();
            push_char(&mut shown, c);
            let message = crate::text::join3("unexpected character '", shown.as_str(), "'");
            return Err(LexError { message, line, col: start_col });
        }
    }

    let ghost ts0 = tokens_view(tokens@);
    proof {
        reveal(kind_view);
    }
    emit(&mut tokens, TokenKind::Eof, line, col);
    assert(tokens_view(tokens@) =~= ts0 + seq![TokenV { kind: Kind::Eof, line: line as nat, col: col as nat }]);
    Ok(tokens)
}

} // verus!
