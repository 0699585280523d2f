//! Tokenizer of the query language.
use vstd::prelude::*;
use crate::error::{ErrorView, MinistoreError};
use crate::text::{
    chars_of, is_alphabetic, is_alphanumeric, is_ascii_digit, is_digit_spec, is_whitespace, push_char,
    alphabetic_spec, alphanumeric_spec, spec_is_whitespace, uppercase_text, string_of_range,
    to_uppercase,
};

verus! {

/// A token of the query language. A number keeps the text it was written with.
#[derive(Debug, Clone, PartialEq)]
pub enum Tok {
    Ident(String),
    String(String),
    Number(String),
    Colon,
    And,
    Or,
    Not,
    LParen,
    RParen,
    Gt,
    Gte,
    Lt,
    Lte,
    Eq,
    DotDot,
}

/// The mathematical form of a token.
pub enum SpecTok {
    Ident(Seq<char>),
    Str(Seq<char>),
    Number(Seq<char>),
    Colon,
    And,
    Or,
    Not,
    LParen,
    RParen,
    Gt,
    Gte,
    Lt,
    Lte,
    Eq,
    DotDot,
}

impl View for Tok {
    type V = SpecTok;

    open spec fn view(&self) -> SpecTok {
        match self {
            Tok::Ident(s) => SpecTok::Ident(s@),
            Tok::String(s) => SpecTok::Str(s@),
            Tok::Number(s) => SpecTok::Number(s@),
            Tok::Colon => SpecTok::Colon,
            Tok::And => SpecTok::And,
            Tok::Or => SpecTok::Or,
            Tok::Not => SpecTok::Not,
            Tok::LParen => SpecTok::LParen,
            Tok::RParen => SpecTok::RParen,
            Tok::Gt => SpecTok::Gt,
            Tok::Gte => SpecTok::Gte,
            Tok::Lt => SpecTok::Lt,
            Tok::Lte => SpecTok::Lte,
            Tok::Eq => SpecTok::Eq,
            Tok::DotDot => SpecTok::DotDot,
        }
    }
}

pub open spec fn toks_view(v: Seq<Tok>) -> Seq<SpecTok> {
    v.map_values(|t: Tok| t@)
}

/// What the tokenizer does at one position.
pub enum LexStep {
    Skip(int),
    Emit(SpecTok, int),
    Fail(ErrorView),
}

/// The operator spelled by the two characters `a` `b`, if any.
pub open spec fn two_char_op(a: char, b: char) -> Option<SpecTok> {
    if a == '>' && b == '=' {
        Some(SpecTok::Gte)
    } else if a == '<' && b == '=' {
        Some(SpecTok::Lte)
    } else if a == '.' && b == '.' {
        Some(SpecTok::DotDot)
    } else if a == '&' && b == '&' {
        Some(SpecTok::And)
    } else if a == '|' && b == '|' {
        Some(SpecTok::Or)
    } else {
        None
    }
}

/// The operator spelled by the single character `c`, if any.
pub open spec fn one_char_op(c: char) -> Option<SpecTok> {
    if c == ':' {
        Some(SpecTok::Colon)
    } else if c == '>' {
        Some(SpecTok::Gt)
    } else if c == '<' {
        Some(SpecTok::Lt)
    } else if c == '=' {
        Some(SpecTok::Eq)
    } else if c == '!' {
        Some(SpecTok::Not)
    } else if c == '(' {
        Some(SpecTok::LParen)
    } else if c == ')' {
        Some(SpecTok::RParen)
    } else {
        None
    }
}

/// Position of the closing quote of a string literal whose body starts at `j`
/// (the length of `cs` when there is none). A backslash skips the next character.
pub open spec fn string_end(cs: Seq<char>, j: int) -> int
    decreases cs.len() - j,
{
    if j >= cs.len() || j < 0 {
        cs.len() as int
    } else if cs[j] == '"' {
        j
    } else if cs[j] == '\\' && j + 1 < cs.len() {
        string_end(cs, j + 2)
    } else {
        string_end(cs, j + 1)
    }
}

/// End of the digits (and at most one `.` not followed by `.`) starting at `j`.
pub open spec fn number_end(cs: Seq<char>, j: int, has_dot: bool) -> int
    decreases cs.len() - j,
{
    if j >= cs.len() || j < 0 {
        j
    } else if is_digit_spec(cs[j]) {
        number_end(cs, j + 1, has_dot)
    } else if cs[j] == '.' && !has_dot {
        if j + 1 < cs.len() && cs[j + 1] == '.' {
            j
        } else {
            number_end(cs, j + 1, true)
        }
    } else {
        j
    }
}

pub open spec fn ident_char(c: char) -> bool {
    alphanumeric_spec(c) || c == '_' || c == '*' || c == '?'
}

/// End of the identifier characters starting at `j`.
pub open spec fn ident_end(cs: Seq<char>, j: int) -> int
    decreases cs.len() - j,
{
    if j >= cs.len() || j < 0 {
        j
    } else if ident_char(cs[j]) {
        ident_end(cs, j + 1)
    } else {
        j
    }
}

/// The character that `\e` stands for inside a string literal.
pub open spec fn escaped_char(e: char) -> Option<char> {
    if e == 'n' {
        Some('\n')
    } else if e == 't' {
        Some('\t')
    } else if e == 'r' {
        Some('\r')
    } else if e == '"' {
        Some('"')
    } else if e == '\\' {
        Some('\\')
    } else {
        None
    }
}

/// The body `u[k..]` of a string literal with its escape sequences replaced.
pub open spec fn unescape_from(u: Seq<char>, k: int) -> Result<Seq<char>, ErrorView>
    decreases u.len() - k,
{
    if k >= u.len() || k < 0 {
        Ok(seq![])
    } else if u[k] == '\\' && k + 1 < u.len() {
        match escaped_char(u[k + 1]) {
            Some(c) => match unescape_from(u, k + 2) {
                Ok(rest) => Ok(seq![c] + rest),
                Err(e) => Err(e),
            },
            None => Err(ErrorView::QueryParse("invalid escape sequence: \\"@ + seq![u[k + 1]])),
        }
    } else {
        match unescape_from(u, k + 1) {
            Ok(rest) => Ok(seq![u[k]] + rest),
            Err(e) => Err(e),
        }
    }
}

/// The keyword token an identifier stands for, compared case-insensitively.
pub open spec fn word_token(ident: Seq<char>) -> SpecTok {
    let up = uppercase_text(ident);
    if up == "AND"@ {
        SpecTok::And
    } else if up == "OR"@ {
        SpecTok::Or
    } else if up == "NOT"@ {
        SpecTok::Not
    } else {
        SpecTok::Ident(ident)
    }
}

pub open spec fn starts_number(cs: Seq<char>, i: int) -> bool {
    is_digit_spec(cs[i]) || (cs[i] == '-' && i + 1 < cs.len() && is_digit_spec(cs[i + 1]))
}

/// The tokenizer's action at position `i < cs.len()`.
pub open spec fn lex_step(cs: Seq<char>, i: int) -> LexStep {
    let c = cs[i];
    if spec_is_whitespace(c) {
        LexStep::Skip(i + 1)
    } else if i + 1 < cs.len() && two_char_op(c, cs[i + 1]) is Some {
        LexStep::Emit(two_char_op(c, cs[i + 1])->0, i + 2)
    } else if one_char_op(c) is Some {
        LexStep::Emit(one_char_op(c)->0, i + 1)
    } else if c == '"' {
        let e = string_end(cs, i + 1);
        if e >= cs.len() {
            LexStep::Fail(ErrorView::QueryParse("unterminated string literal"@))
        } else {
            match unescape_from(cs.subrange(i + 1, e), 0) {
                Ok(s) => LexStep::Emit(SpecTok::Str(s), e + 1),
                Err(err) => LexStep::Fail(err),
            }
        }
    } else if starts_number(cs, i) {
        let e = number_end(cs, if c == '-' { i + 1 } else { i }, false);
        LexStep::Emit(SpecTok::Number(cs.subrange(i, e)), e)
    } else if alphabetic_spec(c) || c == '_' {
        let e = ident_end(cs, i + 1);
        LexStep::Emit(word_token(cs.subrange(i, e)), e)
    } else {
        LexStep::Fail(ErrorView::QueryParse("unexpected character: "@ + seq![c]))
    }
}

pub proof fn lemma_string_end(cs: Seq<char>, j: int)
    requires
        0 <= j <= cs.len(),
    ensures
        j <= string_end(cs, j) <= cs.len(),
    decreases cs.len() - j,
{
    if j >= cs.len() {
    } else if cs[j] == '"' {
    } else if cs[j] == '\\' && j + 1 < cs.len() {
        lemma_string_end(cs, j + 2);
    } else {
        lemma_string_end(cs, j + 1);
    }
}

pub proof fn lemma_number_end(cs: Seq<char>, j: int, has_dot: bool)
    requires
        0 <= j <= cs.len(),
    ensures
        j <= number_end(cs, j, has_dot) <= cs.len(),
    decreases cs.len() - j,
{
    if j >= cs.len() {
    } else if is_digit_spec(cs[j]) {
        lemma_number_end(cs, j + 1, has_dot);
    } else if cs[j] == '.' && !has_dot {
        if !(j + 1 < cs.len() && cs[j + 1] == '.') {
            lemma_number_end(cs, j + 1, true);
        }
    }
}

pub proof fn lemma_ident_end(cs: Seq<char>, j: int)
    requires
        0 <= j <= cs.len(),
    ensures
        j <= ident_end(cs, j) <= cs.len(),
    decreases cs.len() - j,
{
    if j < cs.len() && ident_char(cs[j]) {
        lemma_ident_end(cs, j + 1);
    }
}

/// Every step moves forward within the input.
pub proof fn lemma_lex_step_progress(cs: Seq<char>, i: int)
    requires
        0 <= i < cs.len(),
    ensures
        match lex_step(cs, i) {
            LexStep::Skip(j) => i < j <= cs.len(),
            LexStep::Emit(_, j) => i < j <= cs.len(),
            LexStep::Fail(_) => true,
        },
{
    lemma_string_end(cs, i + 1);
    if starts_number(cs, i) {
        let c = cs[i];
        if c == '-' {
            lemma_number_end(cs, i + 1, false);
        } else {
            lemma_number_end(cs, i + 1, false);
            assert(number_end(cs, i, false) == number_end(cs, i + 1, false));
        }
    }
    lemma_ident_end(cs, i + 1);
}

/// The tokens of `cs[i..]`, or the first error met.
pub open spec fn lex_from(cs: Seq<char>, i: int) -> Result<Seq<SpecTok>, ErrorView>
    decreases cs.len() - i,
{
    if i >= cs.len() || i < 0 {
        Ok(seq![])
    } else {
        proof {
            lemma_lex_step_progress(cs, i);
        }
        match lex_step(cs, i) {
            LexStep::Skip(j) => lex_from(cs, j),
            LexStep::Emit(t, j) => match lex_from(cs, j) {
                Ok(ts) => Ok(seq![t] + ts),
                Err(e) => Err(e),
            },
            LexStep::Fail(e) => Err(e),
        }
    }
}

/// The tokens of a whole query.
pub open spec fn lex_spec(input: Seq<char>) -> Result<Seq<SpecTok>, ErrorView> {
    lex_from(input, 0)
}

pub open spec fn lex_result_view(r: Result<Vec<Tok>, MinistoreError>) -> Result<Seq<SpecTok>, ErrorView> {
    match r {
        Ok(v) => Ok(toks_view(v@)),
        Err(e) => Err(e@),
    }
}

pub open spec fn prepend_toks(prefix: Seq<SpecTok>, r: Result<Seq<SpecTok>, ErrorView>) -> Result<Seq<SpecTok>, ErrorView> {
    match r {
        Ok(ts) => Ok(prefix + ts),
        Err(e) => Err(e),
    }
}

fn two_char_tok(a: char, b: char) -> (r: Option<Tok>)
    ensures
        match r {
            Some(t) => two_char_op(a, b) == Some(t@),
            None => two_char_op(a, b) is None,
        },
{
    if a == '>' && b == '=' {
        Some(Tok::Gte)
    } else if a == '<' && b == '=' {
        Some(Tok::Lte)
    } else if a == '.' && b == '.' {
        Some(Tok::DotDot)
    } else if a == '&' && b == '&' {
        Some(Tok::And)
    } else if a == '|' && b == '|' {
        Some(Tok::Or)
    } else {
        None
    }
}

fn one_char_tok(c: char) -> (r: Option<Tok>)
    ensures
        match r {
            Some(t) => one_char_op(c) == Some(t@),
            None => one_char_op(c) is None,
        },
{
    if c == ':' {
        Some(Tok::Colon)
    } else if c == '>' {
        Some(Tok::Gt)
    } else if c == '<' {
        Some(Tok::Lt)
    } else if c == '=' {
        Some(Tok::Eq)
    } else if c == '!' {
        Some(Tok::Not)
    } else if c == '(' {
        Some(Tok::LParen)
    } else if c == ')' {
        Some(Tok::RParen)
    } else {
        None
    }
}

fn escaped(e: char) -> (r: Option<char>)
    ensures
        r == escaped_char(e),
{
    if e == 'n' {
        Some('\n')
    } else if e == 't' {
        Some('\t')
    } else if e == 'r' {
        Some('\r')
    } else if e == '"' {
        Some('"')
    } else if e == '\\' {
        Some('\\')
    } else {
        None
    }
}

/// Replaces the escape sequences of a string literal's body.
fn unescape(u: &Vec<char>) -> (r: Result<String, MinistoreError>)
    ensures
        match (r, unescape_from(u@, 0)) {
            (Ok(s), Ok(t)) => s@ == t,
            (Err(e), Err(t)) => e@ == t,
            _ => false,
        },
{
    let mut result = String::new();
    let mut i: usize = 0;
    while i < u.len()
        invariant
            i <= u.len(),
            match unescape_from(u@, 0) {
                Ok(t) => unescape_from(u@, i as int) is Ok && t == result@ + unescape_from(u@, i as int)->Ok_0,
                Err(e) => unescape_from(u@, i as int) == Err::<Seq<char>, ErrorView>(e),
            },
        decreases u.len() - i,
    {
        if u[i] == '\\' && i + 1 < u.len() {
            match escaped(u[i + 1]) {
                Some(c) => {
                    proof {
                        if unescape_from(u@, i + 2) is Ok {
                            assert(result@ + unescape_from(u@, i as int)->Ok_0 =~= result@.push(c) + unescape_from(u@, i + 2)->Ok_0);
                        }
                    }
                    push_char(&mut result, c);
                    i += 2;
                },
                None => {
                    let mut m = String::from_str("invalid escape sequence: \\");
                    let ghost m0 = m@;
                    push_char(&mut m, u[i + 1]);
                    assert(m@ =~= m0 + seq![u@[i + 1]]);
                    return Err(MinistoreError::QueryParse(m));
                },
            }
        } else {
            proof {
                if unescape_from(u@, i + 1) is Ok {
                    assert(result@ + unescape_from(u@, i as int)->Ok_0 =~= result@.push(u@[i as int]) + unescape_from(u@, i + 1)->Ok_0);
                }
            }
            push_char(&mut result, u[i]);
            i += 1;
        }
    }
    assert(result@ + seq![] =~= result@);
    Ok(result)
}

/// The tokenizer's action at `i`, with the token built.
enum ExecStep {
    Skip(usize),
    Emit(Tok, usize),
    Fail(MinistoreError),
}

fn scan_string_end(cs: &Vec<char>, j: usize) -> (e: usize)
    requires
        j <= cs.len(),
    ensures
        e as int == string_end(cs@, j as int),
{
    let mut k = j;
    while k < cs.len() && cs[k] != '"'
        invariant
            j <= k <= cs.len(),
            string_end(cs@, k as int) == string_end(cs@, j as int),
        decreases cs.len() - k,
    {
        if cs[k] == '\\' && k + 1 < cs.len() {
            k += 2;
        } else {
            k += 1;
        }
    }
    k
}

fn scan_number_end(cs: &Vec<char>, j: usize) -> (e: usize)
    requires
        j <= cs.len(),
    ensures
        e as int == number_end(cs@, j as int, false),
{
    let mut k = j;
    let mut has_dot = false;
    while k < cs.len()
        invariant
            j <= k <= cs.len(),
            number_end(cs@, k as int, has_dot) == number_end(cs@, j as int, false),
        decreases cs.len() - k,
    {
        if is_ascii_digit(cs[k]) {
            k += 1;
        } else if cs[k] == '.' && !has_dot {
            if k + 1 < cs.len() && cs[k + 1] == '.' {
                return k;
            }
            has_dot = true;
            k += 1;
        } else {
            return k;
        }
    }
    k
}

fn scan_ident_end(cs: &Vec<char>, j: usize) -> (e: usize)
    requires
        j <= cs.len(),
    ensures
        e as int == ident_end(cs@, j as int),
{
    let mut k = j;
    while k < cs.len()
        invariant
            j <= k <= cs.len(),
            ident_end(cs@, k as int) == ident_end(cs@, j as int),
        decreases cs.len() - k,
    {
        let c = cs[k];
        if is_alphanumeric(c) || c == '_' || c == '*' || c == '?' {
            k += 1;
        } else {
            return k;
        }
    }
    k
}

fn is_word(up: &Vec<char>, w: &str) -> (r: bool)
    ensures
        r == (up@ == w@),
{
    let wv = chars_of(w);
    if up.len() != wv.len() {
        return false;
    }
    let mut i: usize = 0;
    while i < up.len()
        invariant
            up.len() == wv.len(),
            wv@ == w@,
            i <= up.len(),
            forall|k: int| 0 <= k < i ==> up@[k] == wv@[k],
        decreases up.len() - i,
    {
        if up[i] != wv[i] {
            assert(up@[i as int] != wv@[i as int]);
            return false;
        }
        i += 1;
    }
    assert(up@ =~= wv@);
    true
}

fn word_tok(ident: String) -> (t: Tok)
    ensures
        t@ == word_token(ident@),
{
    let up = chars_of(to_uppercase(ident.as_str()).as_str());
    if is_word(&up, "AND") {
        Tok::And
    } else if is_word(&up, "OR") {
        Tok::Or
    } else if is_word(&up, "NOT") {
        Tok::Not
    } else {
        Tok::Ident(ident)
    }
}

fn step(cs: &Vec<char>, i: usize) -> (r: ExecStep)
    requires
        i < cs.len(),
    ensures
        match (r, lex_step(cs@, i as int)) {
            (ExecStep::Skip(j), LexStep::Skip(k)) => j == k,
            (ExecStep::Emit(t, j), LexStep::Emit(u, k)) => t@ == u && j == k,
            (ExecStep::Fail(e), LexStep::Fail(f)) => e@ == f,
            _ => false,
        },
{
    let c = cs[i];
    if is_whitespace(c) {
        return ExecStep::Skip(i + 1);
    }
    if i + 1 < cs.len() {
        if let Some(t) = two_char_tok(c, cs[i + 1]) {
            return ExecStep::Emit(t, i + 2);
        }
    }
    if let Some(t) = one_char_tok(c) {
        return ExecStep::Emit(t, i + 1);
    }
    if c == '"' {
        let e = scan_string_end(cs, i + 1);
        if e >= cs.len() {
            return ExecStep::Fail(MinistoreError::QueryParse(String::from_str("unterminated string literal")));
        }
        proof {
            lemma_string_end(cs@, i + 1);
        }
        let mut body: Vec<char> = Vec::new();
        let mut k = i + 1;
        while k < e
            invariant
                i + 1 <= k <= e < cs.len(),
                body@ == cs@.subrange(i + 1, k as int),
            decreases e - k,
        {
            body.push(cs[k]);
            assert(cs@.subrange(i + 1, k + 1) == cs@.subrange(i + 1, k as int).push(cs@[k as int]));
            k += 1;
        }
        return match unescape(&body) {
            Ok(s) => ExecStep::Emit(Tok::String(s), e + 1),
            Err(err) => ExecStep::Fail(err),
        };
    }
    if is_ascii_digit(c) || (c == '-' && i + 1 < cs.len() && is_ascii_digit(cs[i + 1])) {
        let from = if c == '-' { i + 1 } else { i };
        let e = scan_number_end(cs, from);
        proof {
            lemma_number_end(cs@, from as int, false);
        }
        return ExecStep::Emit(Tok::Number(string_of_range(cs, i, e)), e);
    }
    if is_alphabetic(c) || c == '_' {
        let e = scan_ident_end(cs, i + 1);
        proof {
            lemma_ident_end(cs@, i + 1);
        }
        let ident = string_of_range(cs, i, e);
        return ExecStep::Emit(word_tok(ident), e);
    }
    let mut m = String::from_str("unexpected character: ");
    let ghost m0 = m@;
    push_char(&mut m, c);
    assert(m@ =~= m0 + seq![c]);
    ExecStep::Fail(MinistoreError::QueryParse(m))
}

/// Tokenize a query string.
pub fn lex(input: &str) -> (r: Result<Vec<Tok>, MinistoreError>)
    ensures
        lex_result_view(r) == lex_spec(input@),
{
    let cs = chars_of(input);
    let mut tokens: Vec<Tok> = Vec::new();
    let mut i: usize = 0;
    assert(prepend_toks(toks_view(tokens@), lex_from(cs@, 0)) == lex_from(cs@, 0)) by {
        if lex_from(cs@, 0) is Ok {
            assert(toks_view(tokens@) + lex_from(cs@, 0)->Ok_0 =~= lex_from(cs@, 0)->Ok_0);
        }
    }
    while i < cs.len()
        invariant
            i <= cs.len(),
            cs@ == input@,
            prepend_toks(toks_view(tokens@), lex_from(cs@, i as int)) == lex_spec(input@),
        decreases cs.len() - i,
    {
        proof {
            lemma_lex_step_progress(cs@, i as int);
        }
        match step(&cs, i) {
            ExecStep::Skip(j) => {
                i = j;
            },
            ExecStep::Emit(t, j) => {
                let ghost old_toks = toks_view(tokens@);
                let ghost tv = t@;
                tokens.push(t);
                proof {
                    assert(toks_view(tokens@) =~= old_toks.push(tv));
                    if lex_from(cs@, j as int) is Ok {
                        assert(old_toks + (seq![tv] + lex_from(cs@, j as int)->Ok_0) =~= old_toks.push(tv) + lex_from(cs@, j as int)->Ok_0);
                    }
                }
                i = j;
            },
            ExecStep::Fail(e) => {
                return Err(e);
            },
        }
    }
    assert(toks_view(tokens@) + seq![] =~= toks_view(tokens@));
    Ok(tokens)
}

} // verus!
