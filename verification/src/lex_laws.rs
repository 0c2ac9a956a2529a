//! Laws of the lexer: what each character does where the lexer stands.

use vstd::prelude::*;
use crate::error::ErrorAt;
use crate::lexer::{continues_identifier, ident_end, is_digit, keyword_kind, lex_from, line_end, number_end, prepend, starts_identifier, string_end};
use crate::number::RequestV;
use crate::token::{Kind, TokenV};

verus! {

/// The tokens `t` in front of what lexing gives from `i`.
pub open spec fn then(t: Kind, line: nat, col: nat, r: Result<Seq<TokenV>, ErrorAt>) -> Result<Seq<TokenV>, ErrorAt> {
    prepend(TokenV { kind: t, line, col }, r)
}

/// What the lexer does at index `i`, by the character there: a newline
/// starts the next line at column 1; each punctuation or operator character
/// is its own token at the current position, except that `=`, `!`, `<`, `>`
/// followed by `=` form one two-character token and `//` starts a comment
/// that runs to the end of the line; `"` starts a string that must close on
/// the same line; a digit starts a number, whose token holds the backend's
/// value for its text; a character that starts nothing is an error at its
/// position.
#[verifier::spinoff_prover]
pub proof fn law_lex_step(compute: spec_fn(RequestV) -> u64, chars: Seq<char>, i: int, line: nat, col: nat)
    requires
        0 <= i < chars.len(),
    ensures
        ({
            let c = chars[i];
            let here = lex_from(compute, chars, i, line, col);
            let next1 = lex_from(compute, chars, i + 1, line, col + 1);
            let next2 = lex_from(compute, chars, i + 2, line, col + 2);
            let eq_next = i + 1 < chars.len() && chars[i + 1] == '=';
            &&& c == '\n' ==> here == lex_from(compute, chars, i + 1, line + 1, 1)
            &&& c == '\r' ==> here == next1
            &&& c == '(' ==> here == then(Kind::LParen, line, col, next1)
            &&& c == ')' ==> here == then(Kind::RParen, line, col, next1)
            &&& c == '{' ==> here == then(Kind::LBrace, line, col, next1)
            &&& c == '}' ==> here == then(Kind::RBrace, line, col, next1)
            &&& c == ';' ==> here == then(Kind::Semicolon, line, col, next1)
            &&& c == ',' ==> here == then(Kind::Comma, line, col, next1)
            &&& c == '+' ==> here == then(Kind::Plus, line, col, next1)
            &&& c == '-' ==> here == then(Kind::Minus, line, col, next1)
            &&& c == '*' ==> here == then(Kind::Star, line, col, next1)
            &&& c == '%' ==> here == then(Kind::Percent, line, col, next1)
            &&& (c == '/' && !(i + 1 < chars.len() && chars[i + 1] == '/')) ==> here == then(Kind::Slash, line, col, next1)
            &&& (c == '/' && i + 1 < chars.len() && chars[i + 1] == '/') ==> here == lex_from(
                compute,
                chars,
                line_end(chars, i),
                line,
                (col + (line_end(chars, i) - i)) as nat,
            )
            &&& (c == '=' && eq_next) ==> here == then(Kind::EqEq, line, col, next2)
            &&& (c == '=' && !eq_next) ==> here == then(Kind::Eq, line, col, next1)
            &&& (c == '!' && eq_next) ==> here == then(Kind::NotEq, line, col, next2)
            &&& (c == '!' && !eq_next) ==> here == then(Kind::Bang, line, col, next1)
            &&& (c == '<' && eq_next) ==> here == then(Kind::LessEq, line, col, next2)
            &&& (c == '<' && !eq_next) ==> here == then(Kind::Less, line, col, next1)
            &&& (c == '>' && eq_next) ==> here == then(Kind::GreaterEq, line, col, next2)
            &&& (c == '>' && !eq_next) ==> here == then(Kind::Greater, line, col, next1)
            &&& c == '"' ==> here == match string_end(chars, i + 1) {
                None => Err::<Seq<TokenV>, ErrorAt>(ErrorAt { message: "unterminated string"@, line, col }),
                Some(j) => then(
                    Kind::Str(chars.subrange(i + 1, j)),
                    line,
                    col,
                    lex_from(compute, chars, j + 1, line, (col + (j + 1 - i)) as nat),
                ),
            }
            &&& is_digit(c) ==> here == then(
                Kind::Number(compute(RequestV::Literal(chars.subrange(i, number_end(chars, i, false))))),
                line,
                col,
                lex_from(compute, chars, number_end(chars, i, false), line, (col + (number_end(chars, i, false) - i)) as nat),
            )
            &&& starts_identifier(c) ==> here == then(
                keyword_kind(chars.subrange(i, ident_end(chars, i))),
                line,
                col,
                lex_from(compute, chars, ident_end(chars, i), line, (col + (ident_end(chars, i) - i)) as nat),
            )
            &&& (c == '@' || c == '#' || c == '.' || c == '$' || c == '?') ==> here == Err::<Seq<TokenV>, ErrorAt>(
                ErrorAt { message: "unexpected character '"@ + seq![c] + "'"@, line, col },
            )
        }),
{
}

/// A string token holds exactly the characters between its quotes: the
/// closing quote is the first `"` after the opening one, and no newline
/// comes before it.
#[verifier::spinoff_prover]
pub proof fn law_string_end(chars: Seq<char>, i: int)
    requires
        0 <= i,
    ensures
        string_end(chars, i) matches Some(j) ==> i <= j < chars.len() && chars[j] == '"'
            && forall|k: int| i <= k < j ==> chars[k] != '"' && chars[k] != '\n',
        string_end(chars, i) is None ==> forall|k: int| i <= k < chars.len() ==> !(chars[k] == '"' && forall|l: int|
            i <= l < k ==> chars[l] != '\n'),
    decreases chars.len() - i,
{
    if i < chars.len() && chars[i] != '\n' && chars[i] != '"' {
        law_string_end(chars, i + 1);
    }
}

/// Keywords are the twelve reserved words; every other word is an
/// identifier holding its own text.
#[verifier::spinoff_prover]
pub proof fn law_keywords(s: Seq<char>)
    ensures
        (keyword_kind(s) == Kind::Var) == (s == "var"@),
        (keyword_kind(s) == Kind::Fn) == (s == "fn"@),
        (keyword_kind(s) == Kind::If) == (s == "if"@),
        (keyword_kind(s) == Kind::Else) == (s == "else"@),
        (keyword_kind(s) == Kind::While) == (s == "while"@),
        (keyword_kind(s) == Kind::Return) == (s == "return"@),
        (keyword_kind(s) == Kind::Print) == (s == "print"@),
        (keyword_kind(s) == Kind::True) == (s == "true"@),
        (keyword_kind(s) == Kind::False) == (s == "false"@),
        (keyword_kind(s) == Kind::Nil) == (s == "nil"@),
        (keyword_kind(s) == Kind::And) == (s == "and"@),
        (keyword_kind(s) == Kind::Or) == (s == "or"@),
        keyword_kind(s) is Identifier ==> keyword_kind(s) == Kind::Identifier(s),
        !(s == "var"@ || s == "fn"@ || s == "if"@ || s == "else"@ || s == "while"@ || s == "return"@
            || s == "print"@ || s == "true"@ || s == "false"@ || s == "nil"@ || s == "and"@ || s == "or"@)
            ==> keyword_kind(s) == Kind::Identifier(s),
{
    reveal_strlit("var");
    reveal_strlit("fn");
    reveal_strlit("if");
    reveal_strlit("else");
    reveal_strlit("while");
    reveal_strlit("return");
    reveal_strlit("print");
    reveal_strlit("true");
    reveal_strlit("false");
    reveal_strlit("nil");
    reveal_strlit("and");
    reveal_strlit("or");
    assert("fn"@[0] != "if"@[0] && "fn"@[0] != "or"@[0] && "if"@[0] != "or"@[0]);
    assert("var"@[0] != "nil"@[0] && "var"@[0] != "and"@[0] && "nil"@[0] != "and"@[0]);
    assert("else"@[0] != "true"@[0]);
    assert("while"@[0] != "print"@[0] && "while"@[0] != "false"@[0] && "print"@[0] != "false"@[0]);
    assert("fn"@.len() != "var"@.len() && "fn"@.len() != "else"@.len() && "var"@.len() != "else"@.len());
}

/// An identifier starts with a letter or `_` (`x`, `_`, `A` do; `1`, `-` do not).
#[verifier::spinoff_prover]
pub proof fn law_identifier_start()
    ensures
        starts_identifier('x'),
        starts_identifier('A'),
        starts_identifier('_'),
        !starts_identifier('1'),
        !starts_identifier('-'),
        !starts_identifier(' '),
{
}

/// A word runs from its first character through the longest run of
/// letters, digits and `_` after it.
#[verifier::spinoff_prover]
pub proof fn law_ident_end(chars: Seq<char>, i: int)
    requires
        0 <= i,
    ensures
        i <= ident_end(chars, i),
        ident_end(chars, i) <= chars.len() || ident_end(chars, i) == i,
        forall|k: int| i <= k < ident_end(chars, i) ==> continues_identifier(#[trigger] chars[k]),
        ident_end(chars, i) < chars.len() ==> !continues_identifier(chars[ident_end(chars, i)]),
    decreases chars.len() - i,
{
    if i < chars.len() && continues_identifier(chars[i]) {
        law_ident_end(chars, i + 1);
    }
}

/// A number runs through the digits after its first one, with at most one
/// `.` that has a digit after it.
#[verifier::spinoff_prover]
pub proof fn law_number_end(chars: Seq<char>, i: int, seen_dot: bool)
    requires
        0 <= i,
    ensures
        i <= number_end(chars, i, seen_dot),
        forall|k: int| i <= k < number_end(chars, i, seen_dot) ==> is_digit(#[trigger] chars[k]) || (chars[k] == '.'
            && k + 1 < number_end(chars, i, seen_dot) && is_digit(chars[k + 1])),
        number_end(chars, i, seen_dot) < chars.len() ==> !is_digit(chars[number_end(chars, i, seen_dot)]),
        seen_dot ==> forall|k: int| i <= k < number_end(chars, i, seen_dot) ==> #[trigger] chars[k] != '.',
    decreases chars.len() - i,
{
    if i < chars.len() {
        if is_digit(chars[i]) {
            law_number_end(chars, i + 1, seen_dot);
        } else if chars[i] == '.' && !seen_dot && i + 1 < chars.len() && is_digit(chars[i + 1]) {
            law_number_end(chars, i + 1, true);
        }
    }
}

/// A comment runs to the first newline after it, or to the end.
#[verifier::spinoff_prover]
pub proof fn law_line_end(chars: Seq<char>, i: int)
    requires
        0 <= i <= chars.len(),
    ensures
        i <= line_end(chars, i) <= chars.len(),
        forall|k: int| i <= k < line_end(chars, i) ==> #[trigger] chars[k] != '\n',
        line_end(chars, i) < chars.len() ==> chars[line_end(chars, i)] == '\n',
    decreases chars.len() - i,
{
    if i < chars.len() && chars[i] != '\n' {
        law_line_end(chars, i + 1);
    }
}

} // verus!
