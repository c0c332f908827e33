//! The tokenizer: one line of text to a list of tokens.
//!
//! A token is a numeric literal (`digits`, optionally `.` and more digits),
//! an identifier (a letter followed by letters, digits and underscores), or a
//! single-character symbol.  Spaces and tabs separate tokens.  Each token
//! remembers the character position it starts at, so an error can point at
//! its place in the line.

use vstd::prelude::*;

verus! {

/// What kind of token, with its text where it has one.
#[derive(Debug, PartialEq)]
pub enum TokKind {
    /// A numeric literal, kept as text.
    Num(String),
    /// An identifier.
    Ident(String),
    Plus,
    Minus,
    Star,
    Slash,
    Caret,
    Equal,
    LParen,
    RParen,
    Comma,
}

/// One token and the character position it starts at.
#[derive(Debug, PartialEq)]
pub struct Token {
    pub kind: TokKind,
    pub pos: usize,
}

/// The mathematical model of a [`TokKind`].
pub enum TokKindS {
    Num { text: Seq<char> },
    Ident { name: Seq<char> },
    Plus,
    Minus,
    Star,
    Slash,
    Caret,
    Equal,
    LParen,
    RParen,
    Comma,
}

/// The mathematical model of a [`Token`].
pub struct TokS {
    pub kind: TokKindS,
    pub pos: nat,
}

/// The model of a token.
pub open spec fn tok_model(t: Token) -> TokS {
    TokS {
        kind: match t.kind {
            TokKind::Num(s) => TokKindS::Num { text: s@ },
            TokKind::Ident(s) => TokKindS::Ident { name: s@ },
            TokKind::Plus => TokKindS::Plus,
            TokKind::Minus => TokKindS::Minus,
            TokKind::Star => TokKindS::Star,
            TokKind::Slash => TokKindS::Slash,
            TokKind::Caret => TokKindS::Caret,
            TokKind::Equal => TokKindS::Equal,
            TokKind::LParen => TokKindS::LParen,
            TokKind::RParen => TokKindS::RParen,
            TokKind::Comma => TokKindS::Comma,
        },
        pos: t.pos as nat,
    }
}

/// The models of a list of tokens, in order.
pub open spec fn toks_model(s: Seq<Token>) -> Seq<TokS>
    decreases s,
{
    if s.len() == 0 {
        Seq::empty()
    } else {
        toks_model(s.drop_last()).push(tok_model(s.last()))
    }
}

pub proof fn lemma_toks_model(s: Seq<Token>)
    ensures
        toks_model(s).len() == s.len(),
        forall|i: int| 0 <= i < s.len() ==> toks_model(s)[i] == tok_model(s[i]),
    decreases s.len(),
{
    if s.len() > 0 {
        lemma_toks_model(s.drop_last());
    }
}

/// A syntax error: the grammar could not match the line.  `pos` is the
/// character position of the offending character or token; the length of the
/// line when the line ended too early.
#[derive(Debug, PartialEq)]
pub struct SyntaxError {
    pub pos: usize,
}

/// Whitespace, allowed between tokens.
pub open spec fn is_ws(c: char) -> bool {
    c == ' ' || c == '\t' || c == '\r' || c == '\n'
}

/// A decimal digit.
pub open spec fn is_digit(c: char) -> bool {
    '0' <= c && c <= '9'
}

/// A letter, which may start an identifier.
pub open spec fn is_alpha(c: char) -> bool {
    ('a' <= c && c <= 'z') || ('A' <= c && c <= 'Z')
}

/// A character that may continue an identifier.
pub open spec fn is_ident_char(c: char) -> bool {
    is_alpha(c) || is_digit(c) || c == '_'
}

/// The symbol token a single character stands for, if any.
pub open spec fn op_kind(c: char) -> Option<TokKindS> {
    if c == '+' {
        Some(TokKindS::Plus)
    } else if c == '-' {
        Some(TokKindS::Minus)
    } else if c == '*' {
        Some(TokKindS::Star)
    } else if c == '/' {
        Some(TokKindS::Slash)
    } else if c == '^' {
        Some(TokKindS::Caret)
    } else if c == '=' {
        Some(TokKindS::Equal)
    } else if c == '(' {
        Some(TokKindS::LParen)
    } else if c == ')' {
        Some(TokKindS::RParen)
    } else if c == ',' {
        Some(TokKindS::Comma)
    } else {
        None
    }
}

/// The first position at or after `i` that does not hold a digit.
pub open spec fn scan_digits(s: Seq<char>, i: nat) -> nat
    decreases s.len() - i,
    when i <= s.len()
{
    if i >= s.len() {
        i
    } else if is_digit(s[i as int]) {
        scan_digits(s, i + 1)
    } else {
        i
    }
}

pub proof fn lemma_scan_digits(s: Seq<char>, i: nat)
    requires
        i <= s.len(),
    ensures
        i <= scan_digits(s, i) <= s.len(),
    decreases s.len() - i,
{
    if i < s.len() && is_digit(s[i as int]) {
        lemma_scan_digits(s, i + 1);
    }
}

/// The first position at or after `i` that does not hold an identifier
/// character.
pub open spec fn scan_ident(s: Seq<char>, i: nat) -> nat
    decreases s.len() - i,
    when i <= s.len()
{
    if i >= s.len() {
        i
    } else if is_ident_char(s[i as int]) {
        scan_ident(s, i + 1)
    } else {
        i
    }
}

pub proof fn lemma_scan_ident(s: Seq<char>, i: nat)
    requires
        i <= s.len(),
    ensures
        i <= scan_ident(s, i) <= s.len(),
    decreases s.len() - i,
{
    if i < s.len() && is_ident_char(s[i as int]) {
        lemma_scan_ident(s, i + 1);
    }
}

/// The tokens of `s` from position `i` on, appended to `acc`; or the
/// position of the first character that starts no token.
pub open spec fn spec_tokenize_from(s: Seq<char>, i: nat, acc: Seq<TokS>) -> Result<
    Seq<TokS>,
    nat,
>
    decreases s.len() - i,
    when i <= s.len()
    via stf_decreases
{
    if i >= s.len() {
        Ok(acc)
    } else if is_ws(s[i as int]) {
        spec_tokenize_from(s, i + 1, acc)
    } else if is_digit(s[i as int]) {
        let j = scan_digits(s, i + 1);
        if j < s.len() && s[j as int] == '.' && j + 1 < s.len() && is_digit(s[j as int + 1]) {
            let k = scan_digits(s, j + 2);
            spec_tokenize_from(
                s,
                k,
                acc.push(
                    TokS { kind: TokKindS::Num { text: s.subrange(i as int, k as int) }, pos: i },
                ),
            )
        } else {
            spec_tokenize_from(
                s,
                j,
                acc.push(
                    TokS { kind: TokKindS::Num { text: s.subrange(i as int, j as int) }, pos: i },
                ),
            )
        }
    } else if is_alpha(s[i as int]) {
        let j = scan_ident(s, i + 1);
        spec_tokenize_from(
            s,
            j,
            acc.push(
                TokS { kind: TokKindS::Ident { name: s.subrange(i as int, j as int) }, pos: i },
            ),
        )
    } else {
        match op_kind(s[i as int]) {
            Some(kind) => spec_tokenize_from(s, i + 1, acc.push(TokS { kind, pos: i })),
            None => Err(i),
        }
    }
}

#[via_fn]
proof fn stf_decreases(s: Seq<char>, i: nat, acc: Seq<TokS>) {
    if i < s.len() {
        lemma_scan_digits(s, i + 1);
        lemma_scan_ident(s, i + 1);
        if is_digit(s[i as int]) {
            let j = scan_digits(s, i + 1);
            if j + 1 < s.len() {
                lemma_scan_digits(s, j + 2);
            }
        }
    }
}

/// The tokens of a whole line, or the position of the first bad character.
pub open spec fn spec_tokenize(s: Seq<char>) -> Result<Seq<TokS>, nat> {
    spec_tokenize_from(s, 0, Seq::empty())
}

/// Every position in `[i, m)` holds a digit.
pub open spec fn digits_between(s: Seq<char>, i: int, m: int) -> bool {
    forall|k: int| i <= k < m ==> is_digit(s[k])
}

/// The text of a valid numeric literal: digits, optionally followed by a
/// point and at least one more digit.
pub open spec fn is_literal_text(s: Seq<char>) -> bool {
    ||| (s.len() > 0 && digits_between(s, 0, s.len() as int))
    ||| (exists|d: int|
        0 < d < s.len() - 1 && s[d] == '.' && digits_between(s, 0, d) && digits_between(
            s,
            d + 1,
            s.len() as int,
        ))
}

/// A digit scan that starts inside a run of digits stops exactly where the
/// run stops.
pub proof fn lemma_scan_digits_run(s: Seq<char>, i: nat, m: nat)
    requires
        i <= m <= s.len(),
        digits_between(s, i as int, m as int),
        m == s.len() || !is_digit(s[m as int]),
    ensures
        scan_digits(s, i) == m,
    decreases m - i,
{
    if i < m {
        lemma_scan_digits_run(s, i + 1, m);
    }
}

/// A line that is exactly one valid numeric literal tokenizes to one number
/// token holding the whole line.
pub proof fn lemma_tokenize_literal(s: Seq<char>)
    requires
        is_literal_text(s),
    ensures
        spec_tokenize(s) == Ok::<Seq<TokS>, nat>(
            seq![TokS { kind: TokKindS::Num { text: s }, pos: 0 }],
        ),
{
    let tok = TokS { kind: TokKindS::Num { text: s }, pos: 0 };
    assert(s.subrange(0, s.len() as int) =~= s);
    if s.len() > 0 && digits_between(s, 0, s.len() as int) {
        lemma_scan_digits_run(s, 1, s.len());
        assert(spec_tokenize_from(s, 0, Seq::empty()) == spec_tokenize_from(
            s,
            s.len(),
            seq![tok],
        ));
    } else {
        let d = choose|d: int|
            0 < d < s.len() - 1 && s[d] == '.' && digits_between(s, 0, d) && digits_between(
                s,
                d + 1,
                s.len() as int,
            );
        lemma_scan_digits_run(s, 1, d as nat);
        lemma_scan_digits_run(s, (d + 2) as nat, s.len());
        assert(spec_tokenize_from(s, 0, Seq::empty()) == spec_tokenize_from(
            s,
            s.len(),
            seq![tok],
        ));
    }
}

fn ws_char(c: char) -> (r: bool)
    ensures
        r == is_ws(c),
{
    c == ' ' || c == '\t' || c == '\r' || c == '\n'
}

fn digit_char(c: char) -> (r: bool)
    ensures
        r == is_digit(c),
{
    '0' <= c && c <= '9'
}

fn alpha_char(c: char) -> (r: bool)
    ensures
        r == is_alpha(c),
{
    ('a' <= c && c <= 'z') || ('A' <= c && c <= 'Z')
}

fn ident_char(c: char) -> (r: bool)
    ensures
        r == is_ident_char(c),
{
    alpha_char(c) || digit_char(c) || c == '_'
}

/// Scans a run of digits; implements [`scan_digits`].
fn scan_digits_exec(line: &str, i: usize) -> (j: usize)
    requires
        i <= line@.len(),
    ensures
        j as nat == scan_digits(line@, i as nat),
        i <= j <= line@.len(),
{
    let n = line.unicode_len();
    let mut j = i;
    while j < n
        invariant
            i <= j <= n,
            n == line@.len(),
            scan_digits(line@, i as nat) == scan_digits(line@, j as nat),
        decreases n - j,
    {
        let c = line.get_char(j);
        if !digit_char(c) {
            return j;
        }
        j = j + 1;
    }
    j
}

/// Scans a run of identifier characters; implements [`scan_ident`].
fn scan_ident_exec(line: &str, i: usize) -> (j: usize)
    requires
        i <= line@.len(),
    ensures
        j as nat == scan_ident(line@, i as nat),
        i <= j <= line@.len(),
{
    let n = line.unicode_len();
    let mut j = i;
    while j < n
        invariant
            i <= j <= n,
            n == line@.len(),
            scan_ident(line@, i as nat) == scan_ident(line@, j as nat),
        decreases n - j,
    {
        let c = line.get_char(j);
        if !ident_char(c) {
            return j;
        }
        j = j + 1;
    }
    j
}

/// Splits a line into tokens; implements [`spec_tokenize`].
#[verifier::loop_isolation(false)]
pub fn tokenize(line: &str) -> (r: Result<Vec<Token>, SyntaxError>)
    ensures
        match r {
            Ok(v) => spec_tokenize(line@) == Ok::<Seq<TokS>, nat>(toks_model(v@)),
            Err(se) => spec_tokenize(line@) == Err::<Seq<TokS>, nat>(se.pos as nat),
        },
{
    let n = line.unicode_len();
    let mut toks: Vec<Token> = Vec::new();
    let mut i: usize = 0;
    proof {
        assert(toks_model(toks@) =~= Seq::<TokS>::empty());
    }
    while i < n
        invariant
            i <= n,
            spec_tokenize(line@) == spec_tokenize_from(line@, i as nat, toks_model(toks@)),
        decreases n - i,
    {
        let c = line.get_char(i);
        if ws_char(c) {
            i = i + 1;
        } else if digit_char(c) {
            let j = scan_digits_exec(line, i + 1);
            let mut end = j;
            if j < n && line.get_char(j) == '.' && j + 1 < n && digit_char(line.get_char(j + 1)) {
                end = scan_digits_exec(line, j + 2);
            }
            let text = line.substring_char(i, end).to_owned();
            let ghost before = toks@;
            toks.push(Token { kind: TokKind::Num(text), pos: i });
            proof {
                assert(toks@.drop_last() =~= before);
            }
            i = end;
        } else if alpha_char(c) {
            let j = scan_ident_exec(line, i + 1);
            let text = line.substring_char(i, j).to_owned();
            let ghost before = toks@;
            toks.push(Token { kind: TokKind::Ident(text), pos: i });
            proof {
                assert(toks@.drop_last() =~= before);
            }
            i = j;
        } else {
            let kind = if c == '+' {
                TokKind::Plus
            } else if c == '-' {
                TokKind::Minus
            } else if c == '*' {
                TokKind::Star
            } else if c == '/' {
                TokKind::Slash
            } else if c == '^' {
                TokKind::Caret
            } else if c == '=' {
                TokKind::Equal
            } else if c == '(' {
                TokKind::LParen
            } else if c == ')' {
                TokKind::RParen
            } else if c == ',' {
                TokKind::Comma
            } else {
                return Err(SyntaxError { pos: i });
            };
            let ghost before = toks@;
            toks.push(Token { kind, pos: i });
            proof {
                assert(toks@.drop_last() =~= before);
            }
            i = i + 1;
        }
    }
    Ok(toks)
}

} // verus!
