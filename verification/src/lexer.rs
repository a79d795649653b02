//! The lexer: classifies source text into a lossless token sequence.
//!
//! Matching policy, applied at each position: every token pattern is
//! tried, the longest match wins, and on a tie in length a fixed
//! priority decides (fixed-text tokens including keywords first, then
//! Integer before Float, then the remaining character-class patterns).
//! Offsets are character offsets into the source text.

use vstd::prelude::*;

use crate::token::{is_fixed_kind, kind_text, Token, TokenKind};

verus! {

/// A position in the source matched no token pattern (this includes an
/// unterminated string literal, whose opening quote matches nothing).
#[derive(Clone, Copy, Debug, PartialEq, Eq, Structural)]
pub struct LexError {
    /// Character offset of the first position that matches no rule.
    pub pos: usize,
}

pub open spec fn is_digit(c: char) -> bool {
    ('0' as u32) <= (c as u32) && (c as u32) <= ('9' as u32)
}

pub open spec fn is_letter(c: char) -> bool {
    (('A' as u32) <= (c as u32) && (c as u32) <= ('Z' as u32)) || (('a' as u32) <= (c as u32) && (c
        as u32) <= ('z' as u32))
}

pub open spec fn is_ident_continue(c: char) -> bool {
    is_letter(c) || is_digit(c) || c == '_'
}

pub open spec fn is_whitespace(c: char) -> bool {
    c == ' ' || c == '\t' || c == '\r' || c == '\n' || c == '\u{c}'
}

/// End of the run of digits starting at `i`.
pub open spec fn digits_end(s: Seq<char>, i: int) -> int
    decreases s.len() - i,
    when 0 <= i <= s.len()
{
    if i < s.len() && is_digit(s[i]) {
        digits_end(s, i + 1)
    } else {
        i
    }
}

/// End of the run of identifier-continue characters starting at `i`.
pub open spec fn ident_end(s: Seq<char>, i: int) -> int
    decreases s.len() - i,
    when 0 <= i <= s.len()
{
    if i < s.len() && is_ident_continue(s[i]) {
        ident_end(s, i + 1)
    } else {
        i
    }
}

/// End of the run of whitespace characters starting at `i`.
pub open spec fn ws_end(s: Seq<char>, i: int) -> int
    decreases s.len() - i,
    when 0 <= i <= s.len()
{
    if i < s.len() && is_whitespace(s[i]) {
        ws_end(s, i + 1)
    } else {
        i
    }
}

/// End of the run of non-newline characters starting at `i`.
pub open spec fn line_end(s: Seq<char>, i: int) -> int
    decreases s.len() - i,
    when 0 <= i <= s.len()
{
    if i < s.len() && s[i] != '\n' {
        line_end(s, i + 1)
    } else {
        i
    }
}

/// Scans a string-literal body beginning at `j` (just after the opening
/// quote). Returns the position one past the closing quote, or -1 when
/// the body never closes or contains a backslash escaping anything but
/// a quote or a backslash.
pub open spec fn string_body_end(s: Seq<char>, j: int) -> int
    decreases s.len() - j,
    when 0 <= j <= s.len()
{
    if j >= s.len() {
        -1
    } else if s[j] == '"' {
        j + 1
    } else if s[j] == '\\' {
        if j + 1 < s.len() && (s[j + 1] == '"' || s[j + 1] == '\\') {
            string_body_end(s, j + 2)
        } else {
            -1
        }
    } else {
        string_body_end(s, j + 1)
    }
}

/// Length matched by the Integer pattern at `i` (0 when it does not match).
pub open spec fn integer_len(s: Seq<char>, i: int) -> int {
    digits_end(s, i) - i
}

/// End of the Float mantissa at `i`: digits with an optional `.digits`
/// fraction, or a bare `.digits`. Returns `i` when there is no mantissa.
pub open spec fn float_mantissa_end(s: Seq<char>, i: int) -> int {
    if i < s.len() && is_digit(s[i]) {
        let d = digits_end(s, i);
        if d + 1 < s.len() && s[d] == '.' && is_digit(s[d + 1]) {
            digits_end(s, d + 1)
        } else {
            d
        }
    } else if i + 1 < s.len() && s[i] == '.' && is_digit(s[i + 1]) {
        digits_end(s, i + 1)
    } else {
        i
    }
}

/// End of the Float pattern at `i`: a mantissa followed by an optional
/// exponent `[Ee][+-]?digits`. Returns `i` when Float does not match.
pub open spec fn float_end(s: Seq<char>, i: int) -> int {
    let m = float_mantissa_end(s, i);
    if m == i {
        i
    } else if m < s.len() && (s[m] == 'e' || s[m] == 'E') {
        let e0: int = if m + 1 < s.len() && (s[m + 1] == '+' || s[m + 1] == '-') {
            m + 2
        } else {
            m + 1
        };
        if e0 < s.len() && is_digit(s[e0]) {
            digits_end(s, e0)
        } else {
            m
        }
    } else {
        m
    }
}

pub open spec fn float_len(s: Seq<char>, i: int) -> int {
    float_end(s, i) - i
}

/// Length matched by the String pattern at `i` (0 when it does not match).
pub open spec fn string_len(s: Seq<char>, i: int) -> int {
    if i < s.len() && s[i] == '"' {
        let e = string_body_end(s, i + 1);
        if e >= 0 {
            e - i
        } else {
            0
        }
    } else {
        0
    }
}

/// Length matched by the Identifier pattern at `i`: a letter followed by
/// letters, digits and underscores (0 when it does not match).
pub open spec fn identifier_len(s: Seq<char>, i: int) -> int {
    if i < s.len() && is_letter(s[i]) {
        ident_end(s, i + 1) - i
    } else {
        0
    }
}

pub open spec fn whitespace_len(s: Seq<char>, i: int) -> int {
    ws_end(s, i) - i
}

/// Length matched by the line-comment pattern `//` up to (excluding) the
/// next newline (0 when it does not match).
pub open spec fn comment_len(s: Seq<char>, i: int) -> int {
    if i + 1 < s.len() && s[i] == '/' && s[i + 1] == '/' {
        line_end(s, i + 2) - i
    } else {
        0
    }
}

/// Whether the text `t` occurs in `s` starting at position `i`.
pub open spec fn matches_at(s: Seq<char>, i: int, t: Seq<char>) -> bool {
    i + t.len() <= s.len() && s.subrange(i, i + t.len()) == t
}

/// The ordered table of fixed-text tokens (keywords included), longest
/// first; the result is the longest fixed token matching at `i` with its
/// length. Entries of equal length are mutually exclusive.
pub open spec fn fixed_at(s: Seq<char>, i: int) -> Option<(TokenKind, int)> {
    if matches_at(s, i, "struct"@) {
        Some((TokenKind::KeywordStruct, 6int))
    } else if matches_at(s, i, "else"@) {
        Some((TokenKind::KeywordElse, 4int))
    } else if matches_at(s, i, "let"@) {
        Some((TokenKind::KeywordLet, 3int))
    } else if matches_at(s, i, "=="@) {
        Some((TokenKind::LogicalEquals, 2int))
    } else if matches_at(s, i, "!="@) {
        Some((TokenKind::LogicalNotEquals, 2int))
    } else if matches_at(s, i, "<="@) {
        Some((TokenKind::LogicalLessThanOrEquals, 2int))
    } else if matches_at(s, i, ">="@) {
        Some((TokenKind::LogicalGreaterThanOrEquals, 2int))
    } else if matches_at(s, i, "&&"@) {
        Some((TokenKind::LogicalAnd, 2int))
    } else if matches_at(s, i, "||"@) {
        Some((TokenKind::LogicalOr, 2int))
    } else if matches_at(s, i, "fn"@) {
        Some((TokenKind::KeywordFn, 2int))
    } else if matches_at(s, i, "if"@) {
        Some((TokenKind::KeywordIf, 2int))
    } else if matches_at(s, i, "="@) {
        Some((TokenKind::Equals, 1int))
    } else if matches_at(s, i, "+"@) {
        Some((TokenKind::Plus, 1int))
    } else if matches_at(s, i, "-"@) {
        Some((TokenKind::Hyphen, 1int))
    } else if matches_at(s, i, "*"@) {
        Some((TokenKind::Asterisk, 1int))
    } else if matches_at(s, i, "/"@) {
        Some((TokenKind::Solidus, 1int))
    } else if matches_at(s, i, "\\"@) {
        Some((TokenKind::ReverseSolidus, 1int))
    } else if matches_at(s, i, "^"@) {
        Some((TokenKind::Circumflex, 1int))
    } else if matches_at(s, i, "<"@) {
        Some((TokenKind::LogicalLessThan, 1int))
    } else if matches_at(s, i, ">"@) {
        Some((TokenKind::LogicalGreaterThan, 1int))
    } else if matches_at(s, i, "."@) {
        Some((TokenKind::Period, 1int))
    } else if matches_at(s, i, ","@) {
        Some((TokenKind::Comma, 1int))
    } else if matches_at(s, i, ":"@) {
        Some((TokenKind::Colon, 1int))
    } else if matches_at(s, i, ";"@) {
        Some((TokenKind::SemiColon, 1int))
    } else if matches_at(s, i, "_"@) {
        Some((TokenKind::Underscore, 1int))
    } else if matches_at(s, i, "("@) {
        Some((TokenKind::LeftParenthesis, 1int))
    } else if matches_at(s, i, ")"@) {
        Some((TokenKind::RightParenthesis, 1int))
    } else if matches_at(s, i, "{"@) {
        Some((TokenKind::LeftCurlyBracket, 1int))
    } else if matches_at(s, i, "}"@) {
        Some((TokenKind::RightCurlyBracket, 1int))
    } else if matches_at(s, i, "["@) {
        Some((TokenKind::LeftSquareBracket, 1int))
    } else if matches_at(s, i, "]"@) {
        Some((TokenKind::RightSquareBracket, 1int))
    } else {
        None
    }
}

pub open spec fn max2(a: int, b: int) -> int {
    if a >= b {
        a
    } else {
        b
    }
}

/// Length of the longest fixed-text token matching at `i` (0 when none).
pub open spec fn fixed_len(s: Seq<char>, i: int) -> int {
    match fixed_at(s, i) {
        Some((k, l)) => l,
        None => 0,
    }
}

/// The token selected at position `i`: among all patterns, the longest
/// match wins; on a tie in length the priority order is fixed-text
/// tokens, then Integer, then Float, then String, then Identifier, then
/// line comment, then whitespace. `None` means a lexical error at `i`.
pub open spec fn token_at(s: Seq<char>, i: int) -> Option<(TokenKind, int)> {
    let lfix = fixed_len(s, i);
    let lint = integer_len(s, i);
    let lflt = float_len(s, i);
    let lstr = string_len(s, i);
    let lid = identifier_len(s, i);
    let lcom = comment_len(s, i);
    let lws = whitespace_len(s, i);
    let m = max2(lfix, max2(lint, max2(lflt, max2(lstr, max2(lid, max2(lcom, lws))))));
    if m <= 0 {
        None
    } else if lfix == m {
        match fixed_at(s, i) {
            Some((k, l)) => Some((k, m)),
            None => None,
        }
    } else if lint == m {
        Some((TokenKind::Integer, m))
    } else if lflt == m {
        Some((TokenKind::Float, m))
    } else if lstr == m {
        Some((TokenKind::StringLiteral, m))
    } else if lid == m {
        Some((TokenKind::Identifier, m))
    } else if lcom == m {
        Some((TokenKind::LineComment, m))
    } else {
        Some((TokenKind::Whitespace, m))
    }
}

/// The token sequence of `s` from position `i` on: a lossless partition
/// of the rest of the text, or the position of the first lexical error.
pub open spec fn spec_tokens(s: Seq<char>, i: int) -> Result<Seq<Token>, int>
    decreases s.len() - i,
    when 0 <= i <= s.len()
{
    if i >= s.len() {
        Ok(Seq::empty())
    } else {
        match token_at(s, i) {
            None => Err(i),
            Some((k, l)) => {
                if 1 <= l && i + l <= s.len() {
                    match spec_tokens(s, i + l) {
                        Err(p) => Err(p),
                        Ok(rest) => Ok(
                            seq![Token { kind: k, start: i as usize, end: (i + l) as usize }] + rest,
                        ),
                    }
                } else {
                    Err(i)
                }
            },
        }
    }
}

fn is_digit_x(c: char) -> (b: bool)
    ensures
        b == is_digit(c),
{
    ('0' as u32) <= (c as u32) && (c as u32) <= ('9' as u32)
}

fn is_letter_x(c: char) -> (b: bool)
    ensures
        b == is_letter(c),
{
    (('A' as u32) <= (c as u32) && (c as u32) <= ('Z' as u32)) || (('a' as u32) <= (c as u32) && (c
        as u32) <= ('z' as u32))
}

fn is_ident_continue_x(c: char) -> (b: bool)
    ensures
        b == is_ident_continue(c),
{
    is_letter_x(c) || is_digit_x(c) || c == '_'
}

fn is_whitespace_x(c: char) -> (b: bool)
    ensures
        b == is_whitespace(c),
{
    c == ' ' || c == '\t' || c == '\r' || c == '\n' || c == '\u{c}'
}

fn scan_digits(v: &Vec<char>, i: usize) -> (j: usize)
    requires
        i <= v@.len(),
    ensures
        j as int == digits_end(v@, i as int),
        i <= j <= v@.len(),
{
    let mut j = i;
    while j < v.len() && is_digit_x(v[j])
        invariant
            i <= j <= v@.len(),
            digits_end(v@, i as int) == digits_end(v@, j as int),
        decreases v@.len() - j,
    {
        j = j + 1;
    }
    j
}

fn scan_ident(v: &Vec<char>, i: usize) -> (j: usize)
    requires
        i <= v@.len(),
    ensures
        j as int == ident_end(v@, i as int),
        i <= j <= v@.len(),
{
    let mut j = i;
    while j < v.len() && is_ident_continue_x(v[j])
        invariant
            i <= j <= v@.len(),
            ident_end(v@, i as int) == ident_end(v@, j as int),
        decreases v@.len() - j,
    {
        j = j + 1;
    }
    j
}

fn scan_ws(v: &Vec<char>, i: usize) -> (j: usize)
    requires
        i <= v@.len(),
    ensures
        j as int == ws_end(v@, i as int),
        i <= j <= v@.len(),
{
    let mut j = i;
    while j < v.len() && is_whitespace_x(v[j])
        invariant
            i <= j <= v@.len(),
            ws_end(v@, i as int) == ws_end(v@, j as int),
        decreases v@.len() - j,
    {
        j = j + 1;
    }
    j
}

fn scan_line(v: &Vec<char>, i: usize) -> (j: usize)
    requires
        i <= v@.len(),
    ensures
        j as int == line_end(v@, i as int),
        i <= j <= v@.len(),
{
    let mut j = i;
    while j < v.len() && v[j] != '\n'
        invariant
            i <= j <= v@.len(),
            line_end(v@, i as int) == line_end(v@, j as int),
        decreases v@.len() - j,
    {
        j = j + 1;
    }
    j
}

fn scan_string_body(v: &Vec<char>, start: usize) -> (r: Option<usize>)
    requires
        start <= v@.len(),
    ensures
        match r {
            Some(e) => string_body_end(v@, start as int) == e as int && start < e <= v@.len(),
            None => string_body_end(v@, start as int) == -1,
        },
{
    let mut j = start;
    while j < v.len()
        invariant
            start <= j <= v@.len(),
            string_body_end(v@, start as int) == string_body_end(v@, j as int),
        decreases v@.len() - j,
    {
        if v[j] == '"' {
            return Some(j + 1);
        } else if v[j] == '\\' {
            if j + 1 < v.len() && (v[j + 1] == '"' || v[j + 1] == '\\') {
                j = j + 2;
            } else {
                return None;
            }
        } else {
            j = j + 1;
        }
    }
    None
}

/// Whether the text `lit` occurs in `v` starting at position `i`.
fn match_lit(v: &Vec<char>, i: usize, lit: &str) -> (b: bool)
    requires
        i <= v@.len(),
    ensures
        b == matches_at(v@, i as int, lit@),
{
    let n = lit.unicode_len();
    let vl = v.len();
    if n > vl - i {
        return false;
    }
    let mut j: usize = 0;
    while j < n
        invariant
            0 <= j <= n,
            n == lit@.len(),
            i + n <= vl,
            vl == v@.len(),
            forall|k: int| 0 <= k < j ==> v@[i + k] == lit@[k],
        decreases n - j,
    {
        if v[i + j] != lit.get_char(j) {
            proof {
                assert(v@.subrange(i as int, i + n) != lit@) by {
                    assert(v@.subrange(i as int, i + n)[j as int] == v@[i + j]);
                }
            }
            return false;
        }
        j = j + 1;
    }
    proof {
        assert(v@.subrange(i as int, i + n as int) =~= lit@);
    }
    true
}

/// The longest fixed-text token (keywords included) matching at `i`.
fn fixed_at_x(v: &Vec<char>, i: usize) -> (r: Option<(TokenKind, usize)>)
    requires
        i <= v@.len(),
    ensures
        match r {
            Some((k, l)) => fixed_at(v@, i as int) == Some((k, l as int)) && 1 <= l && i + l
                <= v@.len(),
            None => fixed_at(v@, i as int) is None,
        },
{
    proof {
        reveal_strlit("struct");
        reveal_strlit("else");
        reveal_strlit("let");
        reveal_strlit("==");
        reveal_strlit("!=");
        reveal_strlit("<=");
        reveal_strlit(">=");
        reveal_strlit("&&");
        reveal_strlit("||");
        reveal_strlit("fn");
        reveal_strlit("if");
        reveal_strlit("=");
        reveal_strlit("+");
        reveal_strlit("-");
        reveal_strlit("*");
        reveal_strlit("/");
        reveal_strlit("\\");
        reveal_strlit("^");
        reveal_strlit("<");
        reveal_strlit(">");
        reveal_strlit(".");
        reveal_strlit(",");
        reveal_strlit(":");
        reveal_strlit(";");
        reveal_strlit("_");
        reveal_strlit("(");
        reveal_strlit(")");
        reveal_strlit("{");
        reveal_strlit("}");
        reveal_strlit("[");
        reveal_strlit("]");
    }
    if match_lit(v, i, "struct") {
        Some((TokenKind::KeywordStruct, 6))
    } else if match_lit(v, i, "else") {
        Some((TokenKind::KeywordElse, 4))
    } else if match_lit(v, i, "let") {
        Some((TokenKind::KeywordLet, 3))
    } else if match_lit(v, i, "==") {
        Some((TokenKind::LogicalEquals, 2))
    } else if match_lit(v, i, "!=") {
        Some((TokenKind::LogicalNotEquals, 2))
    } else if match_lit(v, i, "<=") {
        Some((TokenKind::LogicalLessThanOrEquals, 2))
    } else if match_lit(v, i, ">=") {
        Some((TokenKind::LogicalGreaterThanOrEquals, 2))
    } else if match_lit(v, i, "&&") {
        Some((TokenKind::LogicalAnd, 2))
    } else if match_lit(v, i, "||") {
        Some((TokenKind::LogicalOr, 2))
    } else if match_lit(v, i, "fn") {
        Some((TokenKind::KeywordFn, 2))
    } else if match_lit(v, i, "if") {
        Some((TokenKind::KeywordIf, 2))
    } else if match_lit(v, i, "=") {
        Some((TokenKind::Equals, 1))
    } else if match_lit(v, i, "+") {
        Some((TokenKind::Plus, 1))
    } else if match_lit(v, i, "-") {
        Some((TokenKind::Hyphen, 1))
    } else if match_lit(v, i, "*") {
        Some((TokenKind::Asterisk, 1))
    } else if match_lit(v, i, "/") {
        Some((TokenKind::Solidus, 1))
    } else if match_lit(v, i, "\\") {
        Some((TokenKind::ReverseSolidus, 1))
    } else if match_lit(v, i, "^") {
        Some((TokenKind::Circumflex, 1))
    } else if match_lit(v, i, "<") {
        Some((TokenKind::LogicalLessThan, 1))
    } else if match_lit(v, i, ">") {
        Some((TokenKind::LogicalGreaterThan, 1))
    } else if match_lit(v, i, ".") {
        Some((TokenKind::Period, 1))
    } else if match_lit(v, i, ",") {
        Some((TokenKind::Comma, 1))
    } else if match_lit(v, i, ":") {
        Some((TokenKind::Colon, 1))
    } else if match_lit(v, i, ";") {
        Some((TokenKind::SemiColon, 1))
    } else if match_lit(v, i, "_") {
        Some((TokenKind::Underscore, 1))
    } else if match_lit(v, i, "(") {
        Some((TokenKind::LeftParenthesis, 1))
    } else if match_lit(v, i, ")") {
        Some((TokenKind::RightParenthesis, 1))
    } else if match_lit(v, i, "{") {
        Some((TokenKind::LeftCurlyBracket, 1))
    } else if match_lit(v, i, "}") {
        Some((TokenKind::RightCurlyBracket, 1))
    } else if match_lit(v, i, "[") {
        Some((TokenKind::LeftSquareBracket, 1))
    } else if match_lit(v, i, "]") {
        Some((TokenKind::RightSquareBracket, 1))
    } else {
        None
    }
}

fn max2_x(a: usize, b: usize) -> (m: usize)
    ensures
        m as int == max2(a as int, b as int),
{
    if a >= b {
        a
    } else {
        b
    }
}

/// The token selected at position `i` by longest match and priority.
fn next_token(v: &Vec<char>, i: usize) -> (r: Option<(TokenKind, usize)>)
    requires
        i < v@.len(),
    ensures
        match r {
            Some((k, l)) => token_at(v@, i as int) == Some((k, l as int)) && 1 <= l && i + l
                <= v@.len(),
            None => token_at(v@, i as int) is None,
        },
{
    let vl = v.len();
    let fx = fixed_at_x(v, i);
    let lfix: usize = match fx {
        Some((_, l)) => l,
        None => 0,
    };
    let dend = scan_digits(v, i);
    let lint = dend - i;
    let fm: usize = if is_digit_x(v[i]) {
        let d = scan_digits(v, i);
        if d < v.len() && d + 1 < v.len() && v[d] == '.' && is_digit_x(v[d + 1]) {
            scan_digits(v, d + 1)
        } else {
            d
        }
    } else if i < vl - 1 && v[i] == '.' && is_digit_x(v[i + 1]) {
        scan_digits(v, i + 1)
    } else {
        i
    };
    let fe: usize = if fm == i {
        i
    } else if fm < v.len() && (v[fm] == 'e' || v[fm] == 'E') {
        let e0: usize = if fm + 1 < v.len() && (v[fm + 1] == '+' || v[fm + 1] == '-') {
            fm + 2
        } else {
            fm + 1
        };
        if e0 < v.len() && is_digit_x(v[e0]) {
            scan_digits(v, e0)
        } else {
            fm
        }
    } else {
        fm
    };
    let lflt = fe - i;
    let lstr: usize = if v[i] == '"' {
        match scan_string_body(v, i + 1) {
            Some(e) => e - i,
            None => 0,
        }
    } else {
        0
    };
    let lid: usize = if is_letter_x(v[i]) {
        scan_ident(v, i + 1) - i
    } else {
        0
    };
    let lcom: usize = if i + 1 < v.len() && v[i] == '/' && v[i + 1] == '/' {
        scan_line(v, i + 2) - i
    } else {
        0
    };
    let wend = scan_ws(v, i);
    let lws = wend - i;
    let m = max2_x(lfix, max2_x(lint, max2_x(lflt, max2_x(lstr, max2_x(lid, max2_x(lcom, lws))))));
    if m == 0 {
        None
    } else if lfix == m {
        match fx {
            Some((k, _)) => Some((k, m)),
            None => None,
        }
    } else if lint == m {
        Some((TokenKind::Integer, m))
    } else if lflt == m {
        Some((TokenKind::Float, m))
    } else if lstr == m {
        Some((TokenKind::StringLiteral, m))
    } else if lid == m {
        Some((TokenKind::Identifier, m))
    } else if lcom == m {
        Some((TokenKind::LineComment, m))
    } else {
        Some((TokenKind::Whitespace, m))
    }
}

/// The characters of `s`, in order, as a vector.
fn chars_vec(s: &str) -> (v: Vec<char>)
    ensures
        v@ == s@,
{
    let n = s.unicode_len();
    let mut v: Vec<char> = Vec::new();
    let mut i: usize = 0;
    while i < n
        invariant
            0 <= i <= n,
            n == s@.len(),
            v@ == s@.subrange(0, i as int),
        decreases n - i,
    {
        let c = s.get_char(i);
        v.push(c);
        proof {
            assert(v@ =~= s@.subrange(0, i + 1));
        }
        i = i + 1;
    }
    proof {
        assert(s@.subrange(0, n as int) =~= s@);
    }
    v
}

/// The token sequence of `s` from `i` on, after the tokens of `prefix`.
spec fn lex_from(s: Seq<char>, i: int, prefix: Seq<Token>) -> Result<Seq<Token>, int> {
    match spec_tokens(s, i) {
        Ok(rest) => Ok(prefix + rest),
        Err(p) => Err(p),
    }
}

/// Splits the whole input into its token sequence: a complete, lossless
/// partition of the text (trivia included), or the position of the first
/// character where no token pattern matches.
pub fn tokenize(input: &str) -> (r: Result<Vec<Token>, LexError>)
    ensures
        match r {
            Ok(toks) => spec_tokens(input@, 0) == Ok::<Seq<Token>, int>(toks@),
            Err(e) => spec_tokens(input@, 0) == Err::<Seq<Token>, int>(e.pos as int),
        },
{
    let v = chars_vec(input);
    let ghost s = input@;
    let mut toks: Vec<Token> = Vec::new();
    let mut i: usize = 0;
    while i < v.len()
        invariant
            0 <= i <= v@.len(),
            v@ == s,
            s == input@,
            lex_from(s, i as int, toks@) == spec_tokens(s, 0),
        decreases v@.len() - i,
    {
        match next_token(&v, i) {
            None => {
                return Err(LexError { pos: i });
            },
            Some((k, l)) => {
                let tok = Token { kind: k, start: i, end: i + l };
                proof {
                    match spec_tokens(s, i + l) {
                        Ok(rest) => {
                            assert(toks@.push(tok) + rest =~= toks@ + (seq![tok] + rest));
                        },
                        Err(_) => {},
                    }
                }
                toks.push(tok);
                i = i + l;
            },
        }
    }
    proof {
        assert(toks@ + Seq::<Token>::empty() =~= toks@);
    }
    Ok(toks)
}

#[verifier::rlimit(60)]
proof fn lemma_tokens_partition_from(s: Seq<char>, i: int, toks: Seq<Token>)
    requires
        0 <= i <= s.len() <= usize::MAX,
        spec_tokens(s, i) == Ok::<Seq<Token>, int>(toks),
    ensures
        toks.len() == 0 <==> i == s.len(),
        toks.len() > 0 ==> toks[0].start as int == i && toks[toks.len() - 1].end as int == s.len(),
        forall|j: int| 0 <= j < toks.len() ==> (#[trigger] toks[j]).start < toks[j].end,
        forall|j: int| 0 <= j < toks.len() - 1 ==> (#[trigger] toks[j]).end == toks[j + 1].start,
    decreases s.len() - i,
{
    if i < s.len() {
        assert(token_at(s, i) is Some);
        let (k, l) = token_at(s, i)->Some_0;
        assert(1 <= l && i + l <= s.len());
        assert(spec_tokens(s, i + l) is Ok);
        let rest = spec_tokens(s, i + l)->Ok_0;
        let tok = Token { kind: k, start: i as usize, end: (i + l) as usize };
        assert(toks == seq![tok] + rest);
        lemma_tokens_partition_from(s, i + l, rest);
        assert(toks.len() == 1 + rest.len());
        assert(toks[0] == tok);
        assert forall|j: int| 1 <= j < toks.len() implies toks[j] == rest[j - 1] by {
            assert(toks[j] == (seq![tok] + rest)[j]);
        }
        if rest.len() > 0 {
            assert(toks[toks.len() - 1] == rest[rest.len() - 1]);
            assert(toks[1] == rest[0]);
        }
    }
}

/// The lexer's output is a complete, lossless partition of its input:
/// when lexing succeeds, the tokens are non-empty, contiguous, start at
/// the first character and end at the last, covering every character
/// exactly once (trivia included).
#[verifier::rlimit(60)]
pub proof fn lemma_tokens_partition(s: Seq<char>, toks: Seq<Token>)
    requires
        s.len() <= usize::MAX,
        spec_tokens(s, 0) == Ok::<Seq<Token>, int>(toks),
    ensures
        toks.len() == 0 <==> s.len() == 0,
        toks.len() > 0 ==> toks[0].start == 0 && toks[toks.len() - 1].end as int == s.len(),
        forall|j: int| 0 <= j < toks.len() ==> (#[trigger] toks[j]).start < toks[j].end,
        forall|j: int| 0 <= j < toks.len() - 1 ==> (#[trigger] toks[j]).end == toks[j + 1].start,
{
    lemma_tokens_partition_from(s, 0, toks);
}

/// A pull-style cursor over the token sequence of one source text. The
/// cursor advances monotonically, one token per pull; it is restarted by
/// building a new one on the same text, not resumed mid-stream.
pub struct Lexer {
    chars: Vec<char>,
    pos: usize,
}

impl View for Lexer {
    type V = Seq<char>;

    /// The characters of the source text being tokenized.
    closed spec fn view(&self) -> Seq<char> {
        self.chars@
    }
}

impl Lexer {
    /// The cursor's current character offset.
    pub closed spec fn position(&self) -> int {
        self.pos as int
    }

    /// The cursor stands inside (or just past) the text.
    pub closed spec fn wf(&self) -> bool {
        self.pos <= self.chars@.len()
    }

    /// Builds a cursor at the start of `input`.
    pub fn new(input: &str) -> (l: Lexer)
        ensures
            l.wf(),
            l@ == input@,
            l.position() == 0,
    {
        Lexer { chars: chars_vec(input), pos: 0 }
    }

    /// Pulls the next token: the one selected at the current position by
    /// longest match and priority. Returns `None` at the end of the
    /// input; on a lexical error the cursor does not advance.
    pub fn next(&mut self) -> (r: Option<Result<Token, LexError>>)
        requires
            old(self).wf(),
        ensures
            final(self).wf(),
            final(self)@ == old(self)@,
            match r {
                None => old(self).position() == old(self)@.len() && final(self).position() == old(
                    self,
                ).position(),
                Some(Ok(t)) => {
                    &&& t.start as int == old(self).position()
                    &&& token_at(old(self)@, old(self).position()) == Some(
                        (t.kind, t.end - t.start),
                    )
                    &&& t.start < t.end <= old(self)@.len()
                    &&& final(self).position() == t.end as int
                },
                Some(Err(e)) => {
                    &&& token_at(old(self)@, old(self).position()) is None
                    &&& e.pos as int == old(self).position()
                    &&& final(self).position() == old(self).position()
                    &&& old(self).position() < old(self)@.len()
                },
            },
    {
        if self.pos >= self.chars.len() {
            return None;
        }
        match next_token(&self.chars, self.pos) {
            None => Some(Err(LexError { pos: self.pos })),
            Some((k, l)) => {
                let t = Token { kind: k, start: self.pos, end: self.pos + l };
                self.pos = self.pos + l;
                Some(Ok(t))
            },
        }
    }
}

proof fn lemma_single_token(t: Seq<char>, k: TokenKind)
    requires
        t.len() >= 1,
        token_at(t, 0) == Some((k, t.len() as int)),
    ensures
        spec_tokens(t, 0) == Ok::<Seq<Token>, int>(
            seq![Token { kind: k, start: 0, end: t.len() as usize }],
        ),
{
    assert(spec_tokens(t, t.len() as int) == Ok::<Seq<Token>, int>(Seq::empty()));
    assert(seq![Token { kind: k, start: 0, end: t.len() as usize }] + Seq::<Token>::empty()
        =~= seq![Token { kind: k, start: 0, end: t.len() as usize }]);
}

/// The canonical display string of every fixed-text token kind
/// (operators, punctuation, brackets, keywords) round-trips through the
/// lexer: re-tokenized, it yields exactly one token of that kind,
/// spanning the whole string.
pub proof fn lemma_display_round_trip(k: TokenKind)
    requires
        is_fixed_kind(k),
    ensures
        spec_tokens(kind_text(k), 0) == Ok::<Seq<Token>, int>(
            seq![Token { kind: k, start: 0, end: kind_text(k).len() as usize }],
        ),
{
    reveal_with_fuel(ident_end, 8);
    reveal_strlit("struct");
    reveal_strlit("else");
    reveal_strlit("let");
    reveal_strlit("==");
    reveal_strlit("!=");
    reveal_strlit("<=");
    reveal_strlit(">=");
    reveal_strlit("&&");
    reveal_strlit("||");
    reveal_strlit("fn");
    reveal_strlit("if");
    reveal_strlit("=");
    reveal_strlit("+");
    reveal_strlit("-");
    reveal_strlit("*");
    reveal_strlit("/");
    reveal_strlit("\\");
    reveal_strlit("^");
    reveal_strlit("<");
    reveal_strlit(">");
    reveal_strlit(".");
    reveal_strlit(",");
    reveal_strlit(":");
    reveal_strlit(";");
    reveal_strlit("_");
    reveal_strlit("(");
    reveal_strlit(")");
    reveal_strlit("{");
    reveal_strlit("}");
    reveal_strlit("[");
    reveal_strlit("]");
    let t = kind_text(k);
    assert(t.subrange(0, t.len() as int) =~= t);
    assert(token_at(t, 0) == Some((k, t.len() as int)));
    lemma_single_token(t, k);
}

} // verus!
