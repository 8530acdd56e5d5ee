//! The scanner: from source text to tokens.
//!
//! Blocks are marked by indentation. At the start of every line that holds
//! more than blanks or a comment, the width of the leading blanks is compared
//! with a stack of open indentation levels, and `Indent` and `Dedent` tokens
//! are produced for the difference. A malformed token is reported and skipped,
//! and scanning goes on; a dedent to a width that was never opened ends the
//! scan.
use crate::common::py_error::{PyError, PyErrorView};
use crate::common::text::{
    chars_of, digits_value, is_digit, lemma_views_push, spells, text_of, value_of_digit, views,
};
use crate::common::token::{token_at, Token, TokenType, TokenTypeView, TokenView};
use vstd::prelude::*;
use vstd::string::StringExecFns;

verus! {

/// The longest source that `scan` takes: every column then fits in 64 bits,
/// a tab counting for up to eight columns.
pub const MAX_SOURCE_LEN: u64 = 0x1fff_ffff_ffff_fff0;

/// What the scanner has read and produced so far.
pub ghost struct ScanState {
    /// Index of the next character.
    pub pos: int,
    pub line: u64,
    pub column: u64,
    /// The open indentation levels, the outermost (always 0) first.
    pub indents: Seq<u64>,
    pub tokens: Seq<TokenView>,
    pub errors: Seq<PyErrorView>,
    /// Set by a dedent to a width that was never opened.
    pub halted: bool,
}

/// The tokens and the diagnostics of one scan.
pub ghost struct ScannedView {
    pub tokens: Seq<TokenView>,
    pub errors: Seq<PyErrorView>,
}

/// Whether `c` is a space or a tab.
pub open spec fn is_blank(c: char) -> bool {
    c == ' ' || c == '\t'
}

/// Whether a name can start with `c`: a letter or an underscore.
pub open spec fn is_name_start(c: char) -> bool {
    c == '_' || ('a' <= c <= 'z') || ('A' <= c <= 'Z')
}

/// Whether `c` can stand in a name: a letter, an underscore or a digit.
pub open spec fn is_name_char(c: char) -> bool {
    is_name_start(c) || is_digit(c)
}

/// Index of the first character at or after `i` that is no space or tab.
pub open spec fn margin_end(src: Seq<char>, i: int) -> int
    decreases src.len() - i,
{
    if 0 <= i < src.len() && is_blank(src[i]) {
        margin_end(src, i + 1)
    } else {
        i
    }
}

/// Width of the blanks `src[i..end]` that follow blanks of width `width`: a
/// space counts 1, a tab goes to the next multiple of 8.
pub open spec fn margin_width(src: Seq<char>, i: int, end: int, width: int) -> int
    decreases end - i,
{
    if i < end {
        margin_width(
            src,
            i + 1,
            end,
            if src[i] == '\t' {
                width + (8 - width % 8)
            } else {
                width + 1
            },
        )
    } else {
        width
    }
}

/// Index of the first character at or after `i` that is no digit.
pub open spec fn digits_end(src: Seq<char>, i: int) -> int
    decreases src.len() - i,
{
    if 0 <= i < src.len() && is_digit(src[i]) {
        digits_end(src, i + 1)
    } else {
        i
    }
}

/// Index of the first character at or after `i` that cannot stand in a name.
pub open spec fn name_end(src: Seq<char>, i: int) -> int
    decreases src.len() - i,
{
    if 0 <= i < src.len() && is_name_char(src[i]) {
        name_end(src, i + 1)
    } else {
        i
    }
}

/// Index of the first newline at or after `i`, or the length of the source.
pub open spec fn line_end(src: Seq<char>, i: int) -> int
    decreases src.len() - i,
{
    if 0 <= i < src.len() && src[i] != '\n' {
        line_end(src, i + 1)
    } else {
        i
    }
}

/// How the body of a string literal ends.
pub ghost struct StringScan {
    /// Whether the closing quote was found.
    pub closed: bool,
    /// Index after the closing quote; for an unterminated literal, the index
    /// of the newline that ends it or the length of the source.
    pub end: int,
    /// The text of the literal, escapes resolved.
    pub text: Seq<char>,
}

/// Reads the body of a string literal from index `i`, where `text` has been
/// read already. `\"`, `\\` and `\n` stand for a quote, a backslash and a
/// newline; a backslash before any other character is dropped with it.
pub open spec fn string_body(src: Seq<char>, i: int, text: Seq<char>) -> StringScan
    decreases src.len() - i,
{
    if !(0 <= i < src.len()) {
        StringScan { closed: false, end: i, text }
    } else if src[i] == '"' {
        StringScan { closed: true, end: i + 1, text }
    } else if src[i] == '\n' {
        StringScan { closed: false, end: i, text }
    } else if src[i] == '\\' {
        if i + 1 >= src.len() {
            StringScan { closed: false, end: i + 1, text }
        } else if src[i + 1] == '"' || src[i + 1] == '\\' {
            string_body(src, i + 2, text.push(src[i + 1]))
        } else if src[i + 1] == 'n' {
            string_body(src, i + 2, text.push('\n'))
        } else {
            string_body(src, i + 2, text)
        }
    } else {
        string_body(src, i + 1, text.push(src[i]))
    }
}

/// The keyword that `text` spells, if any.
pub open spec fn keyword(text: Seq<char>) -> Option<TokenTypeView> {
    if text == "True"@ {
        Some(TokenTypeView::True)
    } else if text == "False"@ {
        Some(TokenTypeView::False)
    } else if text == "not"@ {
        Some(TokenTypeView::Not)
    } else if text == "and"@ {
        Some(TokenTypeView::And)
    } else if text == "or"@ {
        Some(TokenTypeView::Or)
    } else if text == "if"@ {
        Some(TokenTypeView::If)
    } else if text == "else"@ {
        Some(TokenTypeView::Else)
    } else if text == "while"@ {
        Some(TokenTypeView::While)
    } else if text == "def"@ {
        Some(TokenTypeView::Def)
    } else if text == "return"@ {
        Some(TokenTypeView::Return)
    } else if text == "print"@ {
        Some(TokenTypeView::Print)
    } else if text == "None"@ {
        Some(TokenTypeView::Nothing)
    } else {
        None
    }
}

/// The kind of the word `text`: a keyword, or else an identifier.
pub open spec fn word_kind(text: Seq<char>) -> TokenTypeView {
    match keyword(text) {
        Some(kind) => kind,
        None => TokenTypeView::Identifier(text),
    }
}

/// The token of one punctuation character, if `c` is one.
pub open spec fn punctuation(c: char) -> Option<TokenTypeView> {
    if c == '+' {
        Some(TokenTypeView::Plus)
    } else if c == '-' {
        Some(TokenTypeView::Minus)
    } else if c == '*' {
        Some(TokenTypeView::Asterisk)
    } else if c == '/' {
        Some(TokenTypeView::Slash)
    } else if c == ':' {
        Some(TokenTypeView::Colon)
    } else if c == '(' {
        Some(TokenTypeView::LeftParen)
    } else if c == ')' {
        Some(TokenTypeView::RightParen)
    } else if c == '[' {
        Some(TokenTypeView::LeftBracket)
    } else if c == ']' {
        Some(TokenTypeView::RightBracket)
    } else if c == ',' {
        Some(TokenTypeView::Comma)
    } else {
        None
    }
}

/// What one scan of a token found at the current position.
pub ghost enum Lexed {
    /// A token that takes `len` characters.
    Token { kind: TokenTypeView, len: int },
    /// `len` characters that produce nothing: a blank, a carriage return or a
    /// comment.
    Skip { len: int },
    /// A malformed token: `len` characters are skipped, and the diagnostic
    /// `msg` points `offset` characters after the current position.
    Error { msg: Seq<char>, offset: int, len: int },
}

/// An operator of one character `single`, or of two if `=` follows.
pub open spec fn one_or_two(
    src: Seq<char>,
    pos: int,
    single: TokenTypeView,
    double: TokenTypeView,
) -> Lexed {
    if pos + 1 < src.len() && src[pos + 1] == '=' {
        Lexed::Token { kind: double, len: 2 }
    } else {
        Lexed::Token { kind: single, len: 1 }
    }
}

/// A number that starts at `pos`: a run of digits, and for a float one point
/// and a second run of digits.
pub open spec fn lex_number(src: Seq<char>, pos: int) -> Lexed {
    let e1 = digits_end(src, pos);
    if e1 < src.len() && src[e1] == '.' {
        if e1 + 1 < src.len() && is_digit(src[e1 + 1]) {
            let e2 = digits_end(src, e1 + 1);
            if e2 < src.len() && src[e2] == '.' {
                Lexed::Error {
                    msg: "SyntaxError: Float has more than one point: "@ + src.subrange(
                        pos,
                        e2 + 1,
                    ),
                    offset: e2 - pos,
                    len: e2 + 1 - pos,
                }
            } else {
                Lexed::Token { kind: TokenTypeView::Float(src.subrange(pos, e2)), len: e2 - pos }
            }
        } else {
            Lexed::Error {
                msg: "SyntaxError: Floating Point not followed by number"@,
                offset: e1 - pos,
                len: e1 + 1 - pos,
            }
        }
    } else if digits_value(src.subrange(pos, e1)) <= u64::MAX {
        Lexed::Token {
            kind: TokenTypeView::Int(digits_value(src.subrange(pos, e1)) as u64),
            len: e1 - pos,
        }
    } else {
        Lexed::Error {
            msg: "SyntaxError: Integer literal too large: "@ + src.subrange(pos, e1),
            offset: 0,
            len: e1 - pos,
        }
    }
}

/// A string literal whose opening quote is at `pos`.
pub open spec fn lex_string(src: Seq<char>, pos: int) -> Lexed {
    let body = string_body(src, pos + 1, Seq::empty());
    if body.closed {
        Lexed::Token { kind: TokenTypeView::String(body.text), len: body.end - pos }
    } else {
        Lexed::Error {
            msg: "SyntaxError: Unterminated String: \""@ + body.text,
            offset: 0,
            len: body.end - pos,
        }
    }
}

/// What stands at `pos`, which is inside the source and behind the margin of
/// its line.
pub open spec fn lex(src: Seq<char>, pos: int) -> Lexed {
    let c = src[pos];
    if punctuation(c) is Some {
        Lexed::Token { kind: punctuation(c)->0, len: 1 }
    } else if c == '\n' {
        Lexed::Token { kind: TokenTypeView::EndOfLine, len: 1 }
    } else if c == '!' {
        if pos + 1 < src.len() && src[pos + 1] == '=' {
            Lexed::Token { kind: TokenTypeView::NotEqual, len: 2 }
        } else {
            Lexed::Error { msg: "SyntaxError: Unknown Token: \"!\""@, offset: 0, len: 1 }
        }
    } else if c == '=' {
        one_or_two(src, pos, TokenTypeView::Equal, TokenTypeView::DoubleEqual)
    } else if c == '>' {
        one_or_two(src, pos, TokenTypeView::Greater, TokenTypeView::GreaterEqual)
    } else if c == '<' {
        one_or_two(src, pos, TokenTypeView::Less, TokenTypeView::LessEqual)
    } else if c == '"' {
        lex_string(src, pos)
    } else if is_digit(c) {
        lex_number(src, pos)
    } else if is_name_start(c) {
        let end = name_end(src, pos + 1);
        Lexed::Token { kind: word_kind(src.subrange(pos, end)), len: end - pos }
    } else if c == '\r' || c == '\t' || c == ' ' {
        Lexed::Skip { len: 1 }
    } else if c == '#' {
        Lexed::Skip { len: line_end(src, pos) - pos }
    } else {
        Lexed::Error { msg: "SyntaxError: Unknown Token: "@.push(c), offset: 0, len: 1 }
    }
}

/// The state after the token, blank or malformed token at the current
/// position. A newline starts the next line at column 1.
pub open spec fn token_step(src: Seq<char>, st: ScanState) -> ScanState {
    match lex(src, st.pos) {
        Lexed::Token { kind, len } => ScanState {
            pos: st.pos + len,
            line: if kind is EndOfLine {
                (st.line + 1) as u64
            } else {
                st.line
            },
            column: if kind is EndOfLine {
                1
            } else {
                (st.column + len) as u64
            },
            tokens: st.tokens.push(token_at(kind, st.line, st.column)),
            ..st
        },
        Lexed::Skip { len } => ScanState {
            pos: st.pos + len,
            column: (st.column + len) as u64,
            ..st
        },
        Lexed::Error { msg, offset, len } => ScanState {
            pos: st.pos + len,
            column: (st.column + len) as u64,
            errors: st.errors.push(
                PyErrorView { msg, line: st.line, column: (st.column + offset) as u64 },
            ),
            ..st
        },
    }
}

/// `n` `Dedent` tokens at the given position.
pub open spec fn dedents(n: nat, line: u64, column: u64) -> Seq<TokenView> {
    Seq::new(n, |i: int| token_at(TokenTypeView::Dedent, line, column))
}

/// Number of levels at the top of `indents` that are wider than `width`.
pub open spec fn wider_levels(indents: Seq<u64>, width: int) -> nat
    decreases indents.len(),
{
    if indents.len() > 0 && indents.last() > width {
        1 + wider_levels(indents.drop_last(), width)
    } else {
        0
    }
}

/// The state after the margin of a line that starts at the current position.
///
/// A line of blanks only, or with nothing but a comment, changes no level.
/// Otherwise the width of the margin is compared with the innermost open
/// level: a wider margin opens a level (`Indent`); a narrower one closes every
/// level that is wider (one `Dedent` each) and must then meet an open level.
/// If it meets none, every open level is closed, the error is recorded and the
/// scan halts.
pub open spec fn margin_step(src: Seq<char>, st: ScanState) -> ScanState {
    let end = margin_end(src, st.pos);
    let width = margin_width(src, st.pos, end, 0);
    let column = (st.column + width) as u64;
    let at_text = ScanState { pos: end, column, ..st };
    if end >= src.len() || src[end] == '\n' || src[end] == '#' {
        at_text
    } else if width == st.indents.last() {
        at_text
    } else if width > st.indents.last() {
        ScanState {
            indents: st.indents.push(width as u64),
            tokens: st.tokens.push(token_at(TokenTypeView::Indent, st.line, column)),
            ..at_text
        }
    } else {
        let closed = wider_levels(st.indents, width);
        let kept = st.indents.take(st.indents.len() - closed);
        if kept.len() > 0 && kept.last() == width {
            ScanState {
                indents: kept,
                tokens: st.tokens + dedents(closed, st.line, column),
                ..at_text
            }
        } else {
            ScanState {
                indents: seq![0u64],
                tokens: st.tokens + dedents(
                    (st.indents.len() - 1) as nat,
                    st.line,
                    column,
                ),
                errors: st.errors.push(
                    PyErrorView {
                        msg: "IndentationError: inconsistent dedent"@,
                        line: st.line,
                        column,
                    },
                ),
                halted: true,
                ..at_text
            }
        }
    }
}

/// One step of the scan: at the start of a line the margin, then one token.
pub open spec fn scan_step(src: Seq<char>, st: ScanState) -> ScanState {
    let st1 = if st.column == 1 {
        margin_step(src, st)
    } else {
        st
    };
    if st1.halted || st1.pos >= src.len() {
        st1
    } else {
        token_step(src, st1)
    }
}

/// The state when the scan stops: at the end of the source, or halted.
pub open spec fn scan_from(src: Seq<char>, st: ScanState) -> ScanState
    decreases src.len() - st.pos,
{
    if st.halted || st.pos >= src.len() {
        st
    } else {
        let next = scan_step(src, st);
        if st.pos < next.pos <= src.len() {
            scan_from(src, next)
        } else {
            next
        }
    }
}

/// The state before the first character: line 1, column 1, no open block.
pub open spec fn start_state() -> ScanState {
    ScanState {
        pos: 0,
        line: 1,
        column: 1,
        indents: seq![0u64],
        tokens: Seq::empty(),
        errors: Seq::empty(),
        halted: false,
    }
}

/// The tokens and diagnostics of a whole source: what the steps produce, then
/// one `Dedent` for every level still open, then `EndOfFile`.
pub open spec fn scan_spec(src: Seq<char>) -> ScannedView {
    let st = scan_from(src, start_state());
    ScannedView {
        tokens: (st.tokens + dedents((st.indents.len() - 1) as nat, st.line, st.column)).push(
            token_at(TokenTypeView::EndOfFile, st.line, st.column),
        ),
        errors: st.errors,
    }
}


/// +1 for `Indent`, -1 for `Dedent`, 0 for any other kind.
pub open spec fn depth_change(kind: TokenTypeView) -> int {
    match kind {
        TokenTypeView::Indent => 1,
        TokenTypeView::Dedent => -1,
        _ => 0,
    }
}

/// Number of blocks that are open after `tokens`: the `Indent` tokens less
/// the `Dedent` tokens.
pub open spec fn indent_depth(tokens: Seq<TokenView>) -> int
    decreases tokens.len(),
{
    if tokens.len() == 0 {
        0
    } else {
        indent_depth(tokens.drop_last()) + depth_change(tokens.last().kind)
    }
}

/// Every `Dedent` closes a block that an earlier `Indent` opened, and no
/// block stays open.
pub open spec fn blocks_balanced(tokens: Seq<TokenView>) -> bool {
    &&& indent_depth(tokens) == 0
    &&& forall|k: int| 0 <= k <= tokens.len() ==> indent_depth(#[trigger] tokens.take(k)) >= 0
}

/// The open blocks are never fewer than none.
pub open spec fn depth_never_negative(tokens: Seq<TokenView>) -> bool {
    forall|k: int| 0 <= k <= tokens.len() ==> indent_depth(#[trigger] tokens.take(k)) >= 0
}

proof fn lemma_depth_push(tokens: Seq<TokenView>, t: TokenView)
    requires
        depth_never_negative(tokens),
        indent_depth(tokens) + depth_change(t.kind) >= 0,
    ensures
        indent_depth(tokens.push(t)) == indent_depth(tokens) + depth_change(t.kind),
        depth_never_negative(tokens.push(t)),
{
    let pushed = tokens.push(t);
    assert(pushed.drop_last() =~= tokens);
    assert forall|k: int| 0 <= k <= pushed.len() implies indent_depth(
        #[trigger] pushed.take(k),
    ) >= 0 by {
        if k <= tokens.len() {
            assert(pushed.take(k) =~= tokens.take(k));
        } else {
            assert(pushed.take(k) =~= pushed);
        }
    }
}

proof fn lemma_margin_end(src: Seq<char>, i: int)
    requires
        0 <= i <= src.len(),
    ensures
        i <= margin_end(src, i) <= src.len(),
        margin_end(src, i) < src.len() ==> !is_blank(src[margin_end(src, i)]),
    decreases src.len() - i,
{
    if i < src.len() && is_blank(src[i]) {
        lemma_margin_end(src, i + 1);
    }
}

/// Whether the state can arise in a scan of `src`: positions are in range and
/// fit their types, the open levels grow strictly from 0, and the tokens open
/// as many blocks as there are levels.
pub open spec fn scan_wf(src: Seq<char>, st: ScanState) -> bool {
    &&& 0 <= st.pos <= src.len() <= MAX_SOURCE_LEN
    &&& 1 <= st.column <= 1 + 8 * st.pos
    &&& 1 <= st.line <= 1 + st.pos
    &&& st.indents.len() >= 1
    &&& st.indents[0] == 0
    &&& forall|i: int, j: int|
        0 <= i < j < st.indents.len() ==> st.indents[i] < st.indents[j]
    &&& st.indents.last() <= 8 * st.pos
    &&& indent_depth(st.tokens) == st.indents.len() - 1
    &&& depth_never_negative(st.tokens)
}

/// The tokens and the diagnostics of one scan. The scan succeeded if there
/// is no diagnostic; only then are the tokens meant for the parser.
#[derive(Debug, PartialEq, Eq)]
pub struct Scanned {
    pub tokens: Vec<Token>,
    pub errors: Vec<PyError>,
}

impl View for Scanned {
    type V = ScannedView;

    open spec fn view(&self) -> ScannedView {
        ScannedView { tokens: views(self.tokens@), errors: views(self.errors@) }
    }
}

impl Scanned {
    /// Whether the scan met no error.
    pub fn success(&self) -> (ok: bool)
        ensures
            ok == (self@.errors.len() == 0),
    {
        self.errors.len() == 0
    }
}

struct Scanner {
    pos: usize,
    line: u64,
    column: u64,
    indents: Vec<u64>,
    tokens: Vec<Token>,
    errors: Vec<PyError>,
    halted: bool,
}

impl View for Scanner {
    type V = ScanState;

    closed spec fn view(&self) -> ScanState {
        ScanState {
            pos: self.pos as int,
            line: self.line,
            column: self.column,
            indents: self.indents@,
            tokens: views(self.tokens@),
            errors: views(self.errors@),
            halted: self.halted,
        }
    }
}

enum Lexeme {
    Token { kind: TokenType, len: usize },
    Skip { len: usize },
    Error { msg: String, offset: usize, len: usize },
}

impl View for Lexeme {
    type V = Lexed;

    closed spec fn view(&self) -> Lexed {
        match self {
            Lexeme::Token { kind, len } => Lexed::Token { kind: kind@, len: *len as int },
            Lexeme::Skip { len } => Lexed::Skip { len: *len as int },
            Lexeme::Error { msg, offset, len } => Lexed::Error {
                msg: msg@,
                offset: *offset as int,
                len: *len as int,
            },
        }
    }
}

spec fn lexed_len(l: Lexed) -> int {
    match l {
        Lexed::Token { kind, len } => len,
        Lexed::Skip { len } => len,
        Lexed::Error { msg, offset, len } => len,
    }
}

spec fn lexed_offset(l: Lexed) -> int {
    match l {
        Lexed::Error { msg, offset, len } => offset,
        _ => 0,
    }
}

fn find_digits_end(src: &Vec<char>, from: usize) -> (end: usize)
    requires
        from <= src.len(),
    ensures
        end == digits_end(src@, from as int),
        from <= end <= src.len(),
{
    let mut i: usize = from;
    while i < src.len() && value_of_digit(src[i]).is_some()
        invariant
            from <= i <= src.len(),
            digits_end(src@, from as int) == digits_end(src@, i as int),
        decreases src.len() - i,
    {
        i += 1;
    }
    i
}

fn is_name_char_at(c: char) -> (b: bool)
    ensures
        b == is_name_char(c),
{
    c == '_' || ('a' <= c && c <= 'z') || ('A' <= c && c <= 'Z') || ('0' <= c && c <= '9')
}

fn find_name_end(src: &Vec<char>, from: usize) -> (end: usize)
    requires
        from <= src.len(),
    ensures
        end == name_end(src@, from as int),
        from <= end <= src.len(),
{
    let mut i: usize = from;
    while i < src.len() && is_name_char_at(src[i])
        invariant
            from <= i <= src.len(),
            name_end(src@, from as int) == name_end(src@, i as int),
        decreases src.len() - i,
    {
        i += 1;
    }
    i
}

fn find_line_end(src: &Vec<char>, from: usize) -> (end: usize)
    requires
        from <= src.len(),
    ensures
        end == line_end(src@, from as int),
        from <= end <= src.len(),
{
    let mut i: usize = from;
    while i < src.len() && src[i] != '\n'
        invariant
            from <= i <= src.len(),
            line_end(src@, from as int) == line_end(src@, i as int),
        decreases src.len() - i,
    {
        i += 1;
    }
    i
}

/// The keyword that `src[from..to]` spells, if any.
fn check_keywords(src: &Vec<char>, from: usize, to: usize) -> (kind: Option<TokenType>)
    requires
        from <= to <= src.len(),
    ensures
        kind is Some <==> keyword(src@.subrange(from as int, to as int)) is Some,
        kind is Some ==> kind->0@ == keyword(src@.subrange(from as int, to as int))->0,
{
    if spells(src, from, to, "True") {
        Some(TokenType::True)
    } else if spells(src, from, to, "False") {
        Some(TokenType::False)
    } else if spells(src, from, to, "not") {
        Some(TokenType::Not)
    } else if spells(src, from, to, "and") {
        Some(TokenType::And)
    } else if spells(src, from, to, "or") {
        Some(TokenType::Or)
    } else if spells(src, from, to, "if") {
        Some(TokenType::If)
    } else if spells(src, from, to, "else") {
        Some(TokenType::Else)
    } else if spells(src, from, to, "while") {
        Some(TokenType::While)
    } else if spells(src, from, to, "def") {
        Some(TokenType::Def)
    } else if spells(src, from, to, "return") {
        Some(TokenType::Return)
    } else if spells(src, from, to, "print") {
        Some(TokenType::Print)
    } else if spells(src, from, to, "None") {
        Some(TokenType::Nothing)
    } else {
        None
    }
}

/// The keyword or identifier that starts at `pos`.
fn build_identifier(src: &Vec<char>, pos: usize) -> (r: Lexeme)
    requires
        pos < src.len(),
        is_name_start(src@[pos as int]),
    ensures
        r@ == (Lexed::Token {
            kind: word_kind(src@.subrange(pos as int, name_end(src@, pos + 1))),
            len: name_end(src@, pos + 1) - pos,
        }),
        1 <= lexed_len(r@) <= src.len() - pos,
{
    let end = find_name_end(src, pos + 1);
    let kind = match check_keywords(src, pos, end) {
        Some(kind) => kind,
        None => TokenType::Identifier(text_of(src, pos, end)),
    };
    Lexeme::Token { kind, len: end - pos }
}

/// The number that the digits `src[from..to]` denote, or `None` if it does
/// not fit in 64 bits.
fn value_of_digits(src: &Vec<char>, from: usize, to: usize) -> (r: Option<u64>)
    requires
        from <= to <= src.len(),
        forall|i: int| from <= i < to ==> is_digit(src@[i]),
    ensures
        r is Some <==> digits_value(src@.subrange(from as int, to as int)) <= u64::MAX,
        r matches Some(n) ==> n == digits_value(src@.subrange(from as int, to as int)),
{
    let mut acc: u64 = 0;
    let mut too_large = false;
    let mut i: usize = from;
    assert(src@.subrange(from as int, from as int) =~= Seq::<char>::empty());
    while i < to
        invariant
            from <= i <= to <= src.len(),
            forall|k: int| from <= k < to ==> is_digit(src@[k]),
            !too_large ==> acc == digits_value(src@.subrange(from as int, i as int)),
            too_large ==> digits_value(src@.subrange(from as int, i as int)) > u64::MAX,
        decreases to - i,
    {
        let ghost before = src@.subrange(from as int, i as int);
        let ghost after = src@.subrange(from as int, i + 1);
        assert(after.drop_last() =~= before);
        assert(after.last() == src@[i as int]);
        let d = match value_of_digit(src[i]) {
            Some(d) => d,
            None => 0,
        };
        if !too_large {
            let wide: u128 = (acc as u128) * 10 + (d as u128);
            if wide > u64::MAX as u128 {
                too_large = true;
            } else {
                acc = wide as u64;
            }
        } else {
            assert(digits_value(after) >= digits_value(before)) by (nonlinear_arith)
                requires
                    digits_value(after) == digits_value(before) * 10 + d,
                    d >= 0,
                    digits_value(before) >= 0,
            ;
        }
        i += 1;
    }
    if too_large {
        None
    } else {
        Some(acc)
    }
}

fn build_number(src: &Vec<char>, pos: usize) -> (r: Lexeme)
    requires
        pos < src.len(),
        is_digit(src@[pos as int]),
    ensures
        r@ == lex_number(src@, pos as int),
        1 <= lexed_len(r@) <= src.len() - pos,
        0 <= lexed_offset(r@) <= lexed_len(r@),
{
    let e1 = find_digits_end(src, pos);
    proof {
        lemma_digits_run(src@, pos as int);
    }
    if e1 < src.len() && src[e1] == '.' {
        if e1 + 1 < src.len() && value_of_digit(src[e1 + 1]).is_some() {
            let e2 = find_digits_end(src, e1 + 1);
            proof {
                lemma_digits_run(src@, e1 + 1);
            }
            if e2 < src.len() && src[e2] == '.' {
                let mut msg = String::from_str("SyntaxError: Float has more than one point: ");
                let shown = text_of(src, pos, e2 + 1);
                msg.append(shown.as_str());
                Lexeme::Error { msg, offset: e2 - pos, len: e2 + 1 - pos }
            } else {
                Lexeme::Token { kind: TokenType::Float(text_of(src, pos, e2)), len: e2 - pos }
            }
        } else {
            Lexeme::Error {
                msg: String::from_str("SyntaxError: Floating Point not followed by number"),
                offset: e1 - pos,
                len: e1 + 1 - pos,
            }
        }
    } else {
        match value_of_digits(src, pos, e1) {
            Some(n) => Lexeme::Token { kind: TokenType::Int(n), len: e1 - pos },
            None => {
                let mut msg = String::from_str("SyntaxError: Integer literal too large: ");
                let shown = text_of(src, pos, e1);
                msg.append(shown.as_str());
                Lexeme::Error { msg, offset: 0, len: e1 - pos }
            },
        }
    }
}

/// A run of digits that starts with a digit is not empty, and holds digits
/// only.
proof fn lemma_digits_run(src: Seq<char>, i: int)
    requires
        0 <= i <= src.len(),
    ensures
        i <= digits_end(src, i) <= src.len(),
        i < src.len() && is_digit(src[i]) ==> i < digits_end(src, i),
        forall|k: int| i <= k < digits_end(src, i) ==> is_digit(src[k]),
    decreases src.len() - i,
{
    if i < src.len() && is_digit(src[i]) {
        lemma_digits_run(src, i + 1);
    }
}

fn build_string(src: &Vec<char>, pos: usize) -> (r: Lexeme)
    requires
        pos < src.len(),
    ensures
        r@ == lex_string(src@, pos as int),
        1 <= lexed_len(r@) <= src.len() - pos,
        lexed_offset(r@) == 0,
{
    let mut text = String::new();
    let mut i: usize = pos + 1;
    let mut closed = false;
    let mut done = false;
    while !done
        invariant
            pos < i <= src.len(),
            !done ==> !closed,
            string_body(src@, pos + 1, Seq::empty()) == (if done {
                StringScan { closed, end: i as int, text: text@ }
            } else {
                string_body(src@, i as int, text@)
            }),
        decreases src.len() - i + (if done { 0int } else { 1int }),
    {
        if i >= src.len() {
            done = true;
        } else {
            let c = src[i];
            if c == '"' {
                closed = true;
                done = true;
                i += 1;
            } else if c == '\n' {
                done = true;
            } else if c == '\\' {
                if i + 1 >= src.len() {
                    done = true;
                    i += 1;
                } else {
                    let e = src[i + 1];
                    if e == '"' || e == '\\' {
                        text.push(e);
                    } else if e == 'n' {
                        text.push('\n');
                    }
                    i += 2;
                }
            } else {
                text.push(c);
                i += 1;
            }
        }
    }
    if closed {
        Lexeme::Token { kind: TokenType::String(text), len: i - pos }
    } else {
        let mut msg = String::from_str("SyntaxError: Unterminated String: \"");
        msg.append(text.as_str());
        Lexeme::Error { msg, offset: 0, len: i - pos }
    }
}

fn one_or_two_at(src: &Vec<char>, pos: usize, single: TokenType, double: TokenType) -> (r:
    Lexeme)
    requires
        pos < src.len(),
    ensures
        r@ == one_or_two(src@, pos as int, single@, double@),
        1 <= lexed_len(r@) <= src.len() - pos,
        lexed_offset(r@) == 0,
{
    if pos + 1 < src.len() && src[pos + 1] == '=' {
        Lexeme::Token { kind: double, len: 2 }
    } else {
        Lexeme::Token { kind: single, len: 1 }
    }
}

fn punctuation_of(c: char) -> (r: Option<TokenType>)
    ensures
        r is Some <==> punctuation(c) is Some,
        r matches Some(kind) ==> kind@ == punctuation(c)->0,
{
    if c == '+' {
        Some(TokenType::Plus)
    } else if c == '-' {
        Some(TokenType::Minus)
    } else if c == '*' {
        Some(TokenType::Asterisk)
    } else if c == '/' {
        Some(TokenType::Slash)
    } else if c == ':' {
        Some(TokenType::Colon)
    } else if c == '(' {
        Some(TokenType::LeftParen)
    } else if c == ')' {
        Some(TokenType::RightParen)
    } else if c == '[' {
        Some(TokenType::LeftBracket)
    } else if c == ']' {
        Some(TokenType::RightBracket)
    } else if c == ',' {
        Some(TokenType::Comma)
    } else {
        None
    }
}

fn scan_token(src: &Vec<char>, pos: usize) -> (r: Lexeme)
    requires
        pos < src.len(),
    ensures
        r@ == lex(src@, pos as int),
        1 <= lexed_len(r@) <= src.len() - pos,
        0 <= lexed_offset(r@) <= lexed_len(r@),
{
    let c = src[pos];
    if let Some(kind) = punctuation_of(c) {
        Lexeme::Token { kind, len: 1 }
    } else if c == '\n' {
        Lexeme::Token { kind: TokenType::EndOfLine, len: 1 }
    } else if c == '!' {
        if pos + 1 < src.len() && src[pos + 1] == '=' {
            Lexeme::Token { kind: TokenType::NotEqual, len: 2 }
        } else {
            Lexeme::Error {
                msg: String::from_str("SyntaxError: Unknown Token: \"!\""),
                offset: 0,
                len: 1,
            }
        }
    } else if c == '=' {
        one_or_two_at(src, pos, TokenType::Equal, TokenType::DoubleEqual)
    } else if c == '>' {
        one_or_two_at(src, pos, TokenType::Greater, TokenType::GreaterEqual)
    } else if c == '<' {
        one_or_two_at(src, pos, TokenType::Less, TokenType::LessEqual)
    } else if c == '"' {
        build_string(src, pos)
    } else if value_of_digit(c).is_some() {
        build_number(src, pos)
    } else if c == '_' || ('a' <= c && c <= 'z') || ('A' <= c && c <= 'Z') {
        build_identifier(src, pos)
    } else if c == '\r' || c == '\t' || c == ' ' {
        Lexeme::Skip { len: 1 }
    } else if c == '#' {
        let end = find_line_end(src, pos + 1);
        assert(line_end(src@, pos as int) == line_end(src@, pos + 1));
        Lexeme::Skip { len: end - pos }
    } else {
        let mut msg = String::from_str("SyntaxError: Unknown Token: ");
        msg.push(c);
        Lexeme::Error { msg, offset: 0, len: 1 }
    }
}


/// Once a dedent has met no open level, nothing more is read: the scan stays
/// where it halted, and what follows in the source gives no token.
pub proof fn lemma_halted_scan_stops(src: Seq<char>, st: ScanState)
    requires
        st.halted,
    ensures
        scan_from(src, st) == st,
{
}

proof fn lemma_dedents_push(n: nat, line: u64, column: u64)
    ensures
        dedents(n + 1, line, column) == dedents(n, line, column).push(
            token_at(TokenTypeView::Dedent, line, column),
        ),
{
    assert(dedents(n + 1, line, column) =~= dedents(n, line, column).push(
        token_at(TokenTypeView::Dedent, line, column),
    ));
}

/// Closing `n` of the open blocks leaves `n` fewer open, and never fewer
/// than none on the way.
proof fn lemma_depth_dedents(tokens: Seq<TokenView>, n: nat, line: u64, column: u64)
    requires
        depth_never_negative(tokens),
        indent_depth(tokens) >= n,
    ensures
        indent_depth(tokens + dedents(n, line, column)) == indent_depth(tokens) - n,
        depth_never_negative(tokens + dedents(n, line, column)),
    decreases n,
{
    if n == 0 {
        assert(tokens + dedents(0, line, column) =~= tokens);
    } else {
        let fewer = (n - 1) as nat;
        lemma_depth_dedents(tokens, fewer, line, column);
        lemma_dedents_push(fewer, line, column);
        let t = token_at(TokenTypeView::Dedent, line, column);
        lemma_depth_push(tokens + dedents(fewer, line, column), t);
        assert(tokens + dedents(n, line, column) =~= (tokens + dedents(fewer, line, column)).push(
            t,
        ));
    }
}

impl Scanner {
    fn emit(&mut self, kind: TokenType, line: u64, column: u64)
        ensures
            final(self)@ == (ScanState {
                tokens: old(self)@.tokens.push(token_at(kind@, line, column)),
                ..old(self)@
            }),
    {
        let t = Token::create(kind, line, column);
        proof {
            lemma_views_push(self.tokens@, t);
        }
        self.tokens.push(t);
    }

    fn report(&mut self, msg: String, line: u64, column: u64)
        ensures
            final(self)@ == (ScanState {
                errors: old(self)@.errors.push(PyErrorView { msg: msg@, line, column }),
                ..old(self)@
            }),
    {
        let e = PyError { msg, line, column };
        proof {
            lemma_views_push(self.errors@, e);
        }
        self.errors.push(e);
    }

    fn emit_dedents(&mut self, n: usize, line: u64, column: u64)
        ensures
            final(self)@ == (ScanState {
                tokens: old(self)@.tokens + dedents(n as nat, line, column),
                ..old(self)@
            }),
    {
        let mut j: usize = 0;
        assert(old(self)@.tokens + dedents(0, line, column) =~= old(self)@.tokens);
        while j < n
            invariant
                j <= n,
                self@ == (ScanState {
                    tokens: old(self)@.tokens + dedents(j as nat, line, column),
                    ..old(self)@
                }),
            decreases n - j,
        {
            proof {
                lemma_dedents_push(j as nat, line, column);
                assert((old(self)@.tokens + dedents(j as nat, line, column)).push(
                    token_at(TokenTypeView::Dedent, line, column),
                ) =~= old(self)@.tokens + dedents((j + 1) as nat, line, column));
            }
            self.emit(TokenType::Dedent, line, column);
            j += 1;
        }
    }

    /// The margin of the line that starts at the current position.
    fn scan_indent(&mut self, src: &Vec<char>)
        requires
            scan_wf(src@, old(self)@),
            !old(self)@.halted,
            old(self)@.column == 1,
        ensures
            final(self)@ == margin_step(src@, old(self)@),
            scan_wf(src@, final(self)@),
            final(self)@.pos >= old(self)@.pos,
    {
        let start = self.pos;
        let ghost end = margin_end(src@, start as int);
        let mut i: usize = start;
        let mut width: u64 = 0;
        proof {
            lemma_margin_end(src@, start as int);
        }
        while i < src.len() && (src[i] == ' ' || src[i] == '\t')
            invariant
                start <= i <= end <= src.len() <= MAX_SOURCE_LEN,
                end == margin_end(src@, i as int),
                margin_width(src@, start as int, end, 0) == margin_width(
                    src@,
                    i as int,
                    end,
                    width as int,
                ),
                width <= 8 * (i - start),
            decreases src.len() - i,
        {
            proof {
                lemma_margin_end(src@, i + 1);
            }
            if src[i] == '\t' {
                width += 8 - width % 8;
            } else {
                width += 1;
            }
            i += 1;
        }
        let line = self.line;
        let column = self.column + width;
        self.pos = i;
        self.column = column;
        if i >= src.len() || src[i] == '\n' || src[i] == '#' {
            return ;
        }
        let levels = self.indents.len();
        let top = self.indents[levels - 1];
        if width == top {
        } else if width > top {
            proof {
                lemma_depth_push(
                    self@.tokens,
                    token_at(TokenTypeView::Indent, line, column),
                );
            }
            self.indents.push(width);
            self.emit(TokenType::Indent, line, column);
        } else {
            let ghost open = self.indents@;
            let mut kept: usize = levels;
            assert(open.take(kept as int) =~= open);
            while kept > 0 && self.indents[kept - 1] > width
                invariant
                    kept <= levels,
                    levels == open.len(),
                    self.indents@ == open,
                    wider_levels(open, width as int) == (levels - kept) + wider_levels(
                        open.take(kept as int),
                        width as int,
                    ),
                decreases kept,
            {
                assert(open.take(kept as int).drop_last() =~= open.take(kept - 1));
                kept -= 1;
            }
            let closed = levels - kept;
            if kept > 0 && self.indents[kept - 1] == width {
                proof {
                    lemma_depth_dedents(self@.tokens, closed as nat, line, column);
                }
                self.indents.truncate(kept);
                self.emit_dedents(closed, line, column);
                assert(self@.indents =~= open.take(open.len() - closed));
            } else {
                proof {
                    lemma_depth_dedents(self@.tokens, (levels - 1) as nat, line, column);
                }
                self.indents.truncate(1);
                self.emit_dedents(levels - 1, line, column);
                self.report(
                    String::from_str("IndentationError: inconsistent dedent"),
                    line,
                    column,
                );
                self.halted = true;
                assert(self@.indents =~= seq![0u64]);
            }
        }
    }

    /// The token, blank or malformed token at the current position.
    fn advance(&mut self, src: &Vec<char>)
        requires
            scan_wf(src@, old(self)@),
            !old(self)@.halted,
            old(self)@.pos < src.len(),
        ensures
            final(self)@ == token_step(src@, old(self)@),
            scan_wf(src@, final(self)@),
            final(self)@.pos > old(self)@.pos,
            !final(self)@.halted,
    {
        let line = self.line;
        let column = self.column;
        match scan_token(src, self.pos) {
            Lexeme::Token { kind, len } => {
                proof {
                    lemma_depth_push(self@.tokens, token_at(kind@, line, column));
                }
                self.pos = self.pos + len;
                match kind {
                    TokenType::EndOfLine => {
                        self.line = line + 1;
                        self.column = 1;
                    },
                    _ => {
                        self.column = column + len as u64;
                    },
                }
                self.emit(kind, line, column);
            },
            Lexeme::Skip { len } => {
                self.pos = self.pos + len;
                self.column = column + len as u64;
            },
            Lexeme::Error { msg, offset, len } => {
                self.pos = self.pos + len;
                self.column = column + len as u64;
                self.report(msg, line, column + offset as u64);
            },
        }
    }

    /// One step: at the start of a line the margin, then one token.
    fn step(&mut self, src: &Vec<char>)
        requires
            scan_wf(src@, old(self)@),
            !old(self)@.halted,
            old(self)@.pos < src.len(),
        ensures
            final(self)@ == scan_step(src@, old(self)@),
            scan_wf(src@, final(self)@),
            final(self)@.halted || final(self)@.pos > old(self)@.pos,
    {
        if self.column == 1 {
            self.scan_indent(src);
        }
        if !self.halted && self.pos < src.len() {
            self.advance(src);
        }
    }
}

/// Scans the characters `src`.
pub fn scan_chars(src: &Vec<char>) -> (r: Scanned)
    requires
        src@.len() <= MAX_SOURCE_LEN,
    ensures
        r@ == scan_spec(src@),
        blocks_balanced(r@.tokens),
        r@.tokens.len() > 0 && r@.tokens.last().kind == TokenTypeView::EndOfFile,
{
    let mut sc = Scanner {
        pos: 0,
        line: 1,
        column: 1,
        indents: vec![0u64],
        tokens: Vec::new(),
        errors: Vec::new(),
        halted: false,
    };
    proof {
        assert(sc@.indents =~= seq![0u64]);
        assert(sc@.tokens =~= Seq::empty());
        assert(sc@.errors =~= Seq::empty());
        assert(sc@ == start_state());
        assert(depth_never_negative(sc@.tokens)) by {
            assert forall|k: int| 0 <= k <= sc@.tokens.len() implies indent_depth(
                #[trigger] sc@.tokens.take(k),
            ) >= 0 by {
                assert(sc@.tokens.take(k) =~= Seq::empty());
            }
        }
    }
    while !sc.halted && sc.pos < src.len()
        invariant
            scan_wf(src@, sc@),
            scan_from(src@, sc@) == scan_from(src@, start_state()),
        decreases
                (if sc@.halted {
                    0
                } else {
                    src@.len() - sc@.pos + 1
                }),
    {
        sc.step(src);
    }
    let ghost st = sc@;
    let levels = sc.indents.len();
    let line = sc.line;
    let column = sc.column;
    proof {
        lemma_depth_dedents(st.tokens, (levels - 1) as nat, line, column);
        lemma_depth_push(
            st.tokens + dedents((levels - 1) as nat, line, column),
            token_at(TokenTypeView::EndOfFile, line, column),
        );
    }
    sc.emit_dedents(levels - 1, line, column);
    sc.emit(TokenType::EndOfFile, line, column);
    let r = Scanned { tokens: sc.tokens, errors: sc.errors };
    proof {
        let all = r@.tokens;
        assert(all.take(all.len() as int) =~= all);
    }
    r
}

/// Scans the source `code` into tokens.
///
/// The tokens always end with `EndOfFile`, and their `Indent` and `Dedent`
/// tokens are balanced, whatever the source holds. Every malformed token
/// gives one diagnostic; the tokens are meant for the parser only if there is
/// none.
pub fn scan(code: &str) -> (r: Scanned)
    requires
        code@.len() <= MAX_SOURCE_LEN,
    ensures
        r@ == scan_spec(code@),
        blocks_balanced(r@.tokens),
        r@.tokens.len() > 0 && r@.tokens.last().kind == TokenTypeView::EndOfFile,
{
    let src = chars_of(code);
    scan_chars(&src)
}

} // verus!
