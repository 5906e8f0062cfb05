//! The scanner: a single-pass cursor over the source characters that
//! classifies the character at its current position, consumes however many
//! characters the token needs (maximal munch, at most two characters of
//! lookahead), and appends a token to the output sequence. Lexical problems
//! are collected as diagnostics, in source order, and never stop a pass.
//!
//! The whole pass is specified by `scan_step` (the effect of classifying one
//! token) and `scan_all` (its closure over the remaining input); `scan`
//! returns exactly the tokens of that model, terminated by one end-of-input
//! token.

use vstd::prelude::*;

use crate::token::{LitV, LiteralType, Token, TokenType, TokenV};

verus! {

/// A lexical problem found during a scan pass.
#[derive(Clone, Copy, PartialEq, Eq, Structural, Debug)]
pub enum DiagnosticKind {
    /// A character no token can start with (the unexpected-character path).
    UnexpectedChar(char),
    /// A radix literal whose value does not fit a signed 32-bit integer.
    BadNumber,
    /// A radix prefix with no digit after it.
    NoNumber,
}

/// A diagnostic, tagged with the 1-based line and column it was found at.
pub struct Diagnostic {
    pub kind: DiagnosticKind,
    pub line: u32,
    pub column: u32,
}

/// The mathematical value of a diagnostic.
#[verifier::ext_equal]
pub ghost struct DiagV {
    pub kind: DiagnosticKind,
    pub line: int,
    pub column: int,
}

impl View for Diagnostic {
    type V = DiagV;

    open spec fn view(&self) -> DiagV {
        DiagV { kind: self.kind, line: self.line as int, column: self.column as int }
    }
}

/// The digit value of a character: `'0'`–`'9'` are 0–9, `'a'`–`'f'` and
/// `'A'`–`'F'` are 10–15, anything else gets a value no radix reaches.
pub open spec fn spec_digit_val(c: char) -> int {
    let u = c as u32;
    if 48 <= u && u <= 57 {
        u - 48
    } else if 97 <= u && u <= 102 {
        u - 97 + 10
    } else if 65 <= u && u <= 70 {
        u - 65 + 10
    } else {
        9999
    }
}

/// Whether `c` is a digit of the given radix.
pub open spec fn is_radix_digit(c: char, base: u32) -> bool {
    spec_digit_val(c) < base
}

/// The digit value of `c`, as `spec_digit_val` gives it.
fn digit_val(c: char) -> (r: u32)
    ensures
        r as int == spec_digit_val(c),
{
    let u = c as u32;
    if 48 <= u && u <= 57 {
        u - 48
    } else if 97 <= u && u <= 102 {
        u - 97 + 10
    } else if 65 <= u && u <= 70 {
        u - 65 + 10
    } else {
        9999
    }
}

/// The maximal run of radix digits in `src` starting at `i`.
pub open spec fn radix_run(src: Seq<char>, i: int, base: u32) -> Seq<char>
    decreases src.len() - i,
{
    if 0 <= i < src.len() && is_radix_digit(src[i], base) {
        seq![src[i]] + radix_run(src, i + 1, base)
    } else {
        Seq::empty()
    }
}

/// The value of a digit string read in the given radix.
pub open spec fn radix_value(digits: Seq<char>, base: u32) -> int
    decreases digits.len(),
{
    if digits.len() == 0 {
        0
    } else {
        radix_value(digits.drop_last(), base) * base + spec_digit_val(digits.last())
    }
}

/// A digit run starting inside the source ends inside the source.
pub proof fn lemma_radix_run_bound(src: Seq<char>, i: int, base: u32)
    requires
        0 <= i <= src.len(),
    ensures
        i + radix_run(src, i, base).len() <= src.len(),
    decreases src.len() - i,
{
    if i < src.len() && is_radix_digit(src[i], base) {
        lemma_radix_run_bound(src, i + 1, base);
    }
}

/// Appending a digit multiplies the value by the radix and adds the digit.
pub proof fn lemma_radix_value_push(digits: Seq<char>, c: char, base: u32)
    ensures
        radix_value(digits.push(c), base) == radix_value(digits, base) * base + spec_digit_val(c),
{
    assert(digits.push(c).drop_last() =~= digits);
    assert(digits.push(c).last() == c);
}

/// Once a digit string's value exceeds a bound, appending digits keeps it
/// above that bound.
pub proof fn lemma_radix_value_grows(digits: Seq<char>, c: char, base: u32, bound: int)
    requires
        base >= 2,
        bound >= 0,
        radix_value(digits, base) > bound,
    ensures
        radix_value(digits.push(c), base) > bound,
{
    lemma_radix_value_push(digits, c, base);
    let v = radix_value(digits, base);
    assert(v * base + spec_digit_val(c) > bound) by (nonlinear_arith)
        requires
            v > bound,
            bound >= 0,
            base >= 2,
            spec_digit_val(c) >= 0,
    ;
}

/// The state of a scan pass: the cursor, the 1-based line and column
/// counters, and the tokens and diagnostics emitted so far.
#[verifier::ext_equal]
pub ghost struct ScanST {
    pub idx: int,
    pub line: int,
    pub col: int,
    pub tokens: Seq<TokenV>,
    pub diags: Seq<DiagV>,
}

/// The state a pass starts in: cursor at the first character, line 1,
/// column 1, nothing emitted.
pub open spec fn init_st() -> ScanST {
    ScanST { idx: 0, line: 1, col: 1, tokens: Seq::empty(), diags: Seq::empty() }
}

/// The character at `i`, or the no-character sentinel past the end.
pub open spec fn sent(src: Seq<char>, i: int) -> char {
    if 0 <= i < src.len() {
        src[i]
    } else {
        '\0'
    }
}

/// A token with no literal payload and an empty lexeme.
pub open spec fn plain_tok(t: TokenType, line: int) -> TokenV {
    TokenV { token_type: t, literal: LitV::Other, line, lexeme: Seq::empty() }
}

/// The state after emitting a payload-free token that consumed `n`
/// characters. The column counter is deliberately coarse: it advances by one
/// per token, whatever the token's width, and a newline does not reset it.
pub open spec fn emit(st: ScanST, t: TokenType, n: int) -> ScanST {
    ScanST {
        idx: st.idx + n,
        col: st.col + 1,
        tokens: st.tokens.push(plain_tok(t, st.line)),
        ..st
    }
}

/// The state after reporting a problem at the given line and column.
pub open spec fn report(st: ScanST, k: DiagnosticKind, line: int, col: int) -> ScanST {
    ScanST { diags: st.diags.push(DiagV { kind: k, line, column: col }), ..st }
}

/// The radix a marker character after a leading `0` selects, or 0 when the
/// character selects none.
pub open spec fn marker_base(c: char) -> u32 {
    if c == 'b' || c == 'B' {
        2
    } else if c == 'o' || c == 'O' {
        8
    } else if c == 'x' || c == 'X' {
        16
    } else {
        0
    }
}

/// The largest value a radix literal may take: `i32::MAX`.
pub open spec fn max_literal() -> int {
    0x7fff_ffff
}

/// The effect of a radix literal on the pass, starting at the first
/// character after the marker: the maximal digit run is consumed; an empty
/// run or a value above `max_literal` reports a problem and emits nothing,
/// otherwise a literal token carries the value and the digit text.
pub open spec fn radix_step(src: Seq<char>, st: ScanST, base: u32) -> ScanST {
    let digits = radix_run(src, st.idx + 2, base);
    let moved = ScanST { idx: st.idx + 2 + digits.len(), col: st.col + 1, ..st };
    if digits.len() == 0 {
        report(moved, DiagnosticKind::NoNumber, st.line, st.col)
    } else if radix_value(digits, base) <= max_literal() {
        ScanST {
            tokens: moved.tokens.push(
                TokenV {
                    token_type: TokenType::Literal,
                    literal: LitV::Int(radix_value(digits, base)),
                    line: st.line,
                    lexeme: digits,
                },
            ),
            ..moved
        }
    } else {
        report(moved, DiagnosticKind::BadNumber, st.line, st.col)
    }
}

/// One step of the scanner: the classification of the character at the
/// cursor, by maximal munch with at most two characters of lookahead. Every
/// step consumes at least one character; the column advances by one per
/// step.
pub open spec fn scan_step(src: Seq<char>, st: ScanST) -> ScanST {
    let c = sent(src, st.idx);
    let c1 = sent(src, st.idx + 1);
    let c2 = sent(src, st.idx + 2);
    if c == ' ' || c == '\t' {
        ScanST { idx: st.idx + 1, col: st.col + 1, ..st }
    } else if c == '\n' {
        ScanST { idx: st.idx + 1, line: st.line + 1, col: st.col + 1, ..st }
    } else if c == '(' {
        emit(st, TokenType::LeftParen, 1)
    } else if c == ')' {
        emit(st, TokenType::RightParen, 1)
    } else if c == '[' {
        emit(st, TokenType::LeftBracket, 1)
    } else if c == ']' {
        emit(st, TokenType::RightBracket, 1)
    } else if c == '{' {
        emit(st, TokenType::LeftBrace, 1)
    } else if c == '}' {
        emit(st, TokenType::RightBrace, 1)
    } else if c == ',' {
        emit(st, TokenType::Comma, 1)
    } else if c == '+' {
        if c1 == '+' {
            emit(st, TokenType::Increment, 2)
        } else if c1 == '=' {
            emit(st, TokenType::InAdd, 2)
        } else {
            emit(st, TokenType::Add, 1)
        }
    } else if c == '-' {
        if c1 == '-' {
            emit(st, TokenType::Decrement, 2)
        } else if c1 == '=' {
            emit(st, TokenType::InSubtract, 2)
        } else {
            emit(st, TokenType::Subtract, 1)
        }
    } else if c == '/' {
        if c1 == '=' {
            emit(st, TokenType::InDivide, 2)
        } else {
            emit(st, TokenType::Divide, 1)
        }
    } else if c == '*' {
        if c1 == '*' {
            emit(st, TokenType::Pow, 2)
        } else if c1 == '=' {
            emit(st, TokenType::InMultiply, 2)
        } else {
            emit(st, TokenType::Multiply, 1)
        }
    } else if c == '%' {
        if c1 == '=' {
            emit(st, TokenType::InModulo, 2)
        } else {
            emit(st, TokenType::Modulo, 1)
        }
    } else if c == '>' {
        if c1 == '>' {
            if c2 == '=' {
                emit(st, TokenType::InBitRShift, 3)
            } else {
                emit(st, TokenType::BitRightShift, 2)
            }
        } else if c1 == '=' {
            emit(st, TokenType::GtOrEqualTo, 2)
        } else {
            emit(st, TokenType::GreaterThan, 1)
        }
    } else if c == '<' {
        if c1 == '<' {
            if c2 == '=' {
                emit(st, TokenType::InBitLShift, 3)
            } else {
                emit(st, TokenType::BitLeftShift, 2)
            }
        } else if c1 == '=' {
            emit(st, TokenType::LtOrEqualTo, 2)
        } else {
            emit(st, TokenType::LessThan, 1)
        }
    } else if c == '&' {
        if c1 == '=' {
            emit(st, TokenType::InBitAnd, 2)
        } else {
            emit(st, TokenType::BitAnd, 1)
        }
    } else if c == '|' {
        if c1 == '=' {
            emit(st, TokenType::InBitOr, 2)
        } else {
            emit(st, TokenType::BitOr, 1)
        }
    } else if c == '^' {
        if c1 == '=' {
            emit(st, TokenType::InBitXOr, 2)
        } else {
            emit(st, TokenType::BitXOr, 1)
        }
    } else if c == '!' {
        if c1 == '=' {
            emit(st, TokenType::InBitNot, 2)
        } else {
            emit(st, TokenType::Exclaim, 1)
        }
    } else if c == '=' {
        if c1 == '=' {
            emit(st, TokenType::Equals, 2)
        } else if c1 == '/' {
            if c2 == '=' {
                emit(st, TokenType::NotEquals, 3)
            } else {
                // malformed =/=: the third character is reported as
                // unexpected and consumed together with the two before it
                let n = if st.idx + 2 < src.len() {
                    3int
                } else {
                    2int
                };
                report(
                    emit(st, TokenType::Error, n),
                    DiagnosticKind::UnexpectedChar(c2),
                    st.line,
                    st.col,
                )
            }
        } else {
            emit(st, TokenType::Assign, 1)
        }
    } else if c == '0' && marker_base(c1) != 0 {
        radix_step(src, st, marker_base(c1))
    } else {
        // unexpected character, including a bare digit without a radix
        // prefix: report it, emit an error token, and skip past it
        report(emit(st, TokenType::Error, 1), DiagnosticKind::UnexpectedChar(c), st.line, st.col)
    }
}

/// A step from inside the source moves the cursor forward, and never past
/// the end.
pub proof fn lemma_scan_step_bounds(src: Seq<char>, st: ScanST)
    requires
        0 <= st.idx < src.len(),
    ensures
        st.idx < scan_step(src, st).idx <= src.len(),
{
    let c = sent(src, st.idx);
    let c1 = sent(src, st.idx + 1);
    if c == '0' && marker_base(c1) != 0 {
        lemma_radix_run_bound(src, st.idx + 2, marker_base(c1));
    }
}

/// The rest of the pass: steps applied until the cursor reaches the end of
/// the source.
pub open spec fn scan_all(src: Seq<char>, st: ScanST) -> ScanST
    decreases src.len() - st.idx,
    when true
    via scan_all_decreases
{
    if 0 <= st.idx < src.len() {
        scan_all(src, scan_step(src, st))
    } else {
        st
    }
}

#[via_fn]
proof fn scan_all_decreases(src: Seq<char>, st: ScanST) {
    if 0 <= st.idx < src.len() {
        lemma_scan_step_bounds(src, st);
    }
}

/// A whole pass from the state `st`: every remaining character is consumed
/// and one end-of-input token closes the output.
pub open spec fn scan_from(src: Seq<char>, st: ScanST) -> ScanST {
    let e = scan_all(src, st);
    ScanST { tokens: e.tokens.push(plain_tok(TokenType::EoF, e.line)), ..e }
}

/// A whole pass over `src` from the initial state.
pub open spec fn spec_scan(src: Seq<char>) -> ScanST {
    scan_from(src, init_st())
}

/// No token of the sequence is an end-of-input token.
pub open spec fn no_eof(toks: Seq<TokenV>) -> bool {
    forall|i: int| 0 <= i < toks.len() ==> toks[i].token_type != TokenType::EoF
}

/// A step never emits an end-of-input token.
proof fn lemma_scan_step_no_eof(src: Seq<char>, st: ScanST)
    requires
        no_eof(st.tokens),
    ensures
        no_eof(scan_step(src, st).tokens),
{
    let out = scan_step(src, st).tokens;
    assert forall|i: int| 0 <= i < out.len() implies out[i].token_type != TokenType::EoF by {
        if i < st.tokens.len() {
            assert(out[i] == st.tokens[i]);
        }
    }
}


/// Relies on String::push: it appends the one character at the end of the
/// string.
#[verifier::external_body]
fn push_char(s: &mut String, c: char)
    ensures
        final(s)@ == old(s)@.push(c),
{
    s.push(c);
}

/// The token views of a token vector.
pub open spec fn toks_of(tokens: Seq<Token>) -> Seq<TokenV> {
    tokens.map_values(|t: Token| t@)
}

/// The diagnostic views of a diagnostic vector.
pub open spec fn diags_of(diags: Seq<Diagnostic>) -> Seq<DiagV> {
    diags.map_values(|d: Diagnostic| d@)
}

/// A single-pass cursor over the source text. One `Scanner` runs one pass:
/// `scan` consumes it and hands the token sequence to the caller.
pub struct Scanner {
    source: String,
    iter: Vec<char>,
    index: usize,
    line: u32,
    column: u32,
    tokens: Vec<Token>,
    diagnostics: Vec<Diagnostic>,
}

impl Scanner {
    /// The characters of the source text.
    pub closed spec fn src(&self) -> Seq<char> {
        self.iter@
    }

    /// The pass state this scanner is in.
    pub closed spec fn st(&self) -> ScanST {
        ScanST {
            idx: self.index as int,
            line: self.line as int,
            col: self.column as int,
            tokens: toks_of(self.tokens@),
            diags: diags_of(self.diagnostics@),
        }
    }

    /// The scanner's invariant: the character buffer matches the source, the
    /// cursor stays inside it, and the counters stay far enough from the
    /// 32-bit bound that one pass cannot overflow them.
    pub closed spec fn wf(&self) -> bool {
        &&& self.iter@ == self.source@
        &&& self.index <= self.iter@.len()
        &&& self.iter@.len() + 2 <= u32::MAX
        &&& 1 <= self.line
        &&& self.line as int <= self.index + 1
        &&& 1 <= self.column
        &&& self.column as int <= self.index + 1
        &&& no_eof(toks_of(self.tokens@))
    }

    /// A scanner over `src`, at the start of the pass. The length bound
    /// keeps the 32-bit line and column counters from overflowing.
    pub fn new(src: String) -> (r: Scanner)
        requires
            src@.len() + 2 <= u32::MAX,
        ensures
            r.wf(),
            r.src() == src@,
            r.st() == init_st(),
    {
        let n = src.as_str().unicode_len();
        let mut iter: Vec<char> = Vec::new();
        let mut i: usize = 0;
        while i < n
            invariant
                i <= n,
                n == src@.len(),
                iter@ =~= src@.subrange(0, i as int),
            decreases n - i,
        {
            iter.push(src.as_str().get_char(i));
            i += 1;
        }
        let r = Scanner {
            source: src,
            iter,
            index: 0,
            line: 1,
            column: 1,
            tokens: Vec::<Token>::new(),
            diagnostics: Vec::<Diagnostic>::new(),
        };
        proof {
            assert(r.src() =~= src@);
            assert(r.st() =~= init_st());
        }
        r
    }

    /// Whether the cursor has passed the last character.
    fn at_end(&self) -> (r: bool)
        ensures
            r == (self.st().idx >= self.src().len()),
    {
        self.index >= self.iter.len()
    }

    /// The character at the cursor; only callable while one is there.
    fn current(&self) -> (c: char)
        requires
            self.index < self.iter@.len(),
        ensures
            c == self.src()[self.index as int],
    {
        self.iter[self.index]
    }

    /// Advance the cursor by one and return the new current character, or
    /// the no-character sentinel when the cursor is now at the end.
    fn next(&mut self) -> (c: char)
        requires
            old(self).index < old(self).iter@.len(),
            old(self).index + 1 <= usize::MAX,
        ensures
            final(self).index == old(self).index + 1,
            final(self).iter == old(self).iter,
            final(self).source == old(self).source,
            final(self).line == old(self).line,
            final(self).column == old(self).column,
            final(self).tokens == old(self).tokens,
            final(self).diagnostics == old(self).diagnostics,
            c == sent(old(self).src(), old(self).index + 1),
    {
        self.index += 1;
        if !self.at_end() {
            self.iter[self.index]
        } else {
            '\0'
        }
    }

    /// The character one position ahead of the cursor, without advancing, or
    /// the no-character sentinel when none is there.
    #[allow(dead_code)]
    fn peek(&self) -> (c: char)
        requires
            self.index <= self.iter@.len(),
            self.index + 1 <= usize::MAX,
        ensures
            c == sent(self.src(), self.index + 1),
    {
        let peek_idx = self.index + 1;
        if peek_idx < self.iter.len() {
            self.iter[peek_idx]
        } else {
            '\0'
        }
    }

    /// Move the cursor back one position, un-consuming one character.
    fn rewind(&mut self)
        requires
            old(self).index >= 1,
        ensures
            final(self).index == old(self).index - 1,
            final(self).iter == old(self).iter,
            final(self).source == old(self).source,
            final(self).line == old(self).line,
            final(self).column == old(self).column,
            final(self).tokens == old(self).tokens,
            final(self).diagnostics == old(self).diagnostics,
    {
        self.index -= 1;
    }

    /// Record a problem at the current line and column.
    fn report(&mut self, kind: DiagnosticKind)
        ensures
            final(self).st() == report(
                old(self).st(),
                kind,
                old(self).line as int,
                old(self).column as int,
            ),
            final(self).index == old(self).index,
            final(self).iter == old(self).iter,
            final(self).source == old(self).source,
            final(self).line == old(self).line,
            final(self).column == old(self).column,
            final(self).tokens == old(self).tokens,
    {
        self.diagnostics.push(Diagnostic { kind, line: self.line, column: self.column });
        proof {
            let r = report(old(self).st(), kind, old(self).line as int, old(self).column as int);
            assert(final(self).st().diags =~= r.diags);
            assert(final(self).st() =~= r);
        }
    }

    /// Record an unexpected character at the current line and column.
    fn invalid_char(&mut self, c: char)
        ensures
            final(self).st() == report(
                old(self).st(),
                DiagnosticKind::UnexpectedChar(c),
                old(self).line as int,
                old(self).column as int,
            ),
            final(self).index == old(self).index,
            final(self).iter == old(self).iter,
            final(self).source == old(self).source,
            final(self).line == old(self).line,
            final(self).column == old(self).column,
            final(self).tokens == old(self).tokens,
    {
        self.report(DiagnosticKind::UnexpectedChar(c));
    }

    /// Append a token with no literal payload, at the current line.
    fn add_token(&mut self, token_type: TokenType)
        ensures
            final(self).st().tokens == old(self).st().tokens.push(
                plain_tok(token_type, old(self).line as int),
            ),
            final(self).st().diags == old(self).st().diags,
            final(self).index == old(self).index,
            final(self).iter == old(self).iter,
            final(self).source == old(self).source,
            final(self).line == old(self).line,
            final(self).column == old(self).column,
            final(self).diagnostics == old(self).diagnostics,
    {
        self.tokens.push(Token::new(token_type, LiteralType::Other, self.line, String::new()));
        proof {
            assert(final(self).st().tokens =~= old(self).st().tokens.push(
                plain_tok(token_type, old(self).line as int),
            ));
        }
    }

    /// Consume the maximal run of digits of the given radix at the cursor
    /// and parse it as a signed 32-bit integer: a literal token on success,
    /// a problem report for an empty run or a value out of range.
    fn consume_radix(&mut self, base: u32)
        requires
            old(self).wf(),
            base == 2 || base == 8 || base == 16,
        ensures
            final(self).wf(),
            final(self).iter == old(self).iter,
            final(self).source == old(self).source,
            final(self).line == old(self).line,
            final(self).column == old(self).column,
            final(self).index == old(self).index + radix_run(
                old(self).src(),
                old(self).index as int,
                base,
            ).len(),
            ({
                let digits = radix_run(old(self).src(), old(self).index as int, base);
                if digits.len() == 0 {
                    final(self).tokens == old(self).tokens && final(self).st().diags == old(
                        self,
                    ).st().diags.push(
                        DiagV {
                            kind: DiagnosticKind::NoNumber,
                            line: old(self).line as int,
                            column: old(self).column as int,
                        },
                    )
                } else if radix_value(digits, base) <= max_literal() {
                    final(self).diagnostics == old(self).diagnostics && final(self).st().tokens
                        == old(self).st().tokens.push(
                        TokenV {
                            token_type: TokenType::Literal,
                            literal: LitV::Int(radix_value(digits, base)),
                            line: old(self).line as int,
                            lexeme: digits,
                        },
                    )
                } else {
                    final(self).tokens == old(self).tokens && final(self).st().diags == old(
                        self,
                    ).st().diags.push(
                        DiagV {
                            kind: DiagnosticKind::BadNumber,
                            line: old(self).line as int,
                            column: old(self).column as int,
                        },
                    )
                }
            }),
    {
        let ghost src = self.iter@;
        let start_idx = self.index;
        let ghost start = start_idx as int;
        proof {
            lemma_radix_run_bound(src, start, base);
        }
        let mut buf = String::new();
        let mut acc: u64 = 0;
        let mut overflowed = false;
        while self.index < self.iter.len() && digit_val(self.iter[self.index]) < base
            invariant
                base == 2 || base == 8 || base == 16,
                self.iter == old(self).iter,
                self.source == old(self).source,
                self.line == old(self).line,
                self.column == old(self).column,
                self.tokens == old(self).tokens,
                self.diagnostics == old(self).diagnostics,
                src == self.iter@,
                src.len() + 2 <= u32::MAX,
                start <= self.index <= src.len(),
                buf@ =~= src.subrange(start, self.index as int),
                radix_run(src, start, base) =~= buf@ + radix_run(src, self.index as int, base),
                !overflowed ==> acc as int == radix_value(buf@, base) && acc <= max_literal(),
                overflowed ==> radix_value(buf@, base) > max_literal(),
            decreases src.len() - self.index,
        {
            let c = self.iter[self.index];
            let d = digit_val(c);
            proof {
                assert(radix_run(src, self.index as int, base) =~= seq![c] + radix_run(
                    src,
                    self.index as int + 1,
                    base,
                ));
                assert(buf@.push(c) =~= src.subrange(start, self.index as int + 1));
                assert(buf@.push(c) + radix_run(src, self.index as int + 1, base) =~= buf@ + (seq![
                    c,
                ] + radix_run(src, self.index as int + 1, base)));
                lemma_radix_value_push(buf@, c, base);
                if overflowed {
                    lemma_radix_value_grows(buf@, c, base, max_literal());
                }
            }
            push_char(&mut buf, c);
            if !overflowed {
                proof {
                    assert((acc as int) * (base as int) + (d as int) <= 0x7fff_ffff * 16 + 15)
                        by (nonlinear_arith)
                        requires
                            acc as int <= 0x7fff_ffff,
                            2 <= base as int <= 16,
                            0 <= (d as int) < (base as int),
                    ;
                }
                acc = acc * (base as u64) + (d as u64);
                if acc > 0x7fff_ffff {
                    overflowed = true;
                }
            }
            self.index += 1;
        }
        proof {
            assert(radix_run(src, self.index as int, base) =~= Seq::<char>::empty());
            assert(radix_run(src, start, base) =~= buf@);
        }
        let ghost digits = radix_run(src, start, base);
        if self.index == start_idx {
            self.report(DiagnosticKind::NoNumber);
        } else if !overflowed {
            self.add_token_literal(LiteralType::Int(acc as i32), buf);
        } else {
            self.report(DiagnosticKind::BadNumber);
        }
    }

    /// Append a token of category `Literal` carrying the given payload and
    /// lexeme text, at the current line.
    fn add_token_literal(&mut self, literal: LiteralType, lexeme: String)
        ensures
            final(self).st().tokens == old(self).st().tokens.push(
                TokenV {
                    token_type: TokenType::Literal,
                    literal: literal@,
                    line: old(self).line as int,
                    lexeme: lexeme@,
                },
            ),
            final(self).st().diags == old(self).st().diags,
            final(self).index == old(self).index,
            final(self).iter == old(self).iter,
            final(self).source == old(self).source,
            final(self).line == old(self).line,
            final(self).column == old(self).column,
            final(self).diagnostics == old(self).diagnostics,
    {
        let ghost expected = TokenV {
            token_type: TokenType::Literal,
            literal: literal@,
            line: self.line as int,
            lexeme: lexeme@,
        };
        self.tokens.push(Token::new(TokenType::Literal, literal, self.line, lexeme));
        proof {
            assert(final(self).st().tokens =~= old(self).st().tokens.push(expected));
        }
    }

    /// Classify the character at the cursor, consume the characters of the
    /// token it starts (one step of `scan_step`), and advance the column by
    /// one.
    fn scan_token(&mut self)
        requires
            old(self).wf(),
            old(self).index < old(self).iter@.len(),
        ensures
            final(self).wf(),
            final(self).src() == old(self).src(),
            final(self).st() == scan_step(old(self).src(), old(self).st()),
            old(self).st().idx < final(self).st().idx <= old(self).src().len(),
    {
        let ghost src0 = self.src();
        let ghost st0 = self.st();
        let c = self.current();
        if c == ' ' || c == '\t' {
            self.next();
        } else if c == '\n' {
            self.line = self.line + 1;
            self.next();
        } else if c == '(' {
            self.next();
            self.add_token(TokenType::LeftParen);
        } else if c == ')' {
            self.next();
            self.add_token(TokenType::RightParen);
        } else if c == '[' {
            self.next();
            self.add_token(TokenType::LeftBracket);
        } else if c == ']' {
            self.next();
            self.add_token(TokenType::RightBracket);
        } else if c == '{' {
            self.next();
            self.add_token(TokenType::LeftBrace);
        } else if c == '}' {
            self.next();
            self.add_token(TokenType::RightBrace);
        } else if c == ',' {
            self.next();
            self.add_token(TokenType::Comma);
        } else if c == '+' {
            let c1 = self.next();
            let token_type = if c1 == '+' {
                self.next();
                TokenType::Increment
            } else if c1 == '=' {
                self.next();
                TokenType::InAdd
            } else {
                TokenType::Add
            };
            self.add_token(token_type);
        } else if c == '-' {
            let c1 = self.next();
            let token_type = if c1 == '-' {
                self.next();
                TokenType::Decrement
            } else if c1 == '=' {
                self.next();
                TokenType::InSubtract
            } else {
                TokenType::Subtract
            };
            self.add_token(token_type);
        } else if c == '/' {
            let c1 = self.next();
            let token_type = if c1 == '=' {
                self.next();
                TokenType::InDivide
            } else {
                TokenType::Divide
            };
            self.add_token(token_type);
        } else if c == '*' {
            let c1 = self.next();
            let token_type = if c1 == '*' {
                self.next();
                TokenType::Pow
            } else if c1 == '=' {
                self.next();
                TokenType::InMultiply
            } else {
                TokenType::Multiply
            };
            self.add_token(token_type);
        } else if c == '%' {
            let c1 = self.next();
            let token_type = if c1 == '=' {
                self.next();
                TokenType::InModulo
            } else {
                TokenType::Modulo
            };
            self.add_token(token_type);
        } else if c == '>' {
            let c1 = self.next();
            let token_type = if c1 == '>' {
                let c2 = self.next();
                if c2 == '=' {
                    self.next();
                    TokenType::InBitRShift
                } else {
                    TokenType::BitRightShift
                }
            } else if c1 == '=' {
                self.next();
                TokenType::GtOrEqualTo
            } else {
                TokenType::GreaterThan
            };
            self.add_token(token_type);
        } else if c == '<' {
            let c1 = self.next();
            let token_type = if c1 == '<' {
                let c2 = self.next();
                if c2 == '=' {
                    self.next();
                    TokenType::InBitLShift
                } else {
                    TokenType::BitLeftShift
                }
            } else if c1 == '=' {
                self.next();
                TokenType::LtOrEqualTo
            } else {
                TokenType::LessThan
            };
            self.add_token(token_type);
        } else if c == '&' {
            let c1 = self.next();
            let token_type = if c1 == '=' {
                self.next();
                TokenType::InBitAnd
            } else {
                TokenType::BitAnd
            };
            self.add_token(token_type);
        } else if c == '|' {
            let c1 = self.next();
            let token_type = if c1 == '=' {
                self.next();
                TokenType::InBitOr
            } else {
                TokenType::BitOr
            };
            self.add_token(token_type);
        } else if c == '^' {
            let c1 = self.next();
            let token_type = if c1 == '=' {
                self.next();
                TokenType::InBitXOr
            } else {
                TokenType::BitXOr
            };
            self.add_token(token_type);
        } else if c == '!' {
            let c1 = self.next();
            let token_type = if c1 == '=' {
                self.next();
                TokenType::InBitNot
            } else {
                TokenType::Exclaim
            };
            self.add_token(token_type);
        } else if c == '=' {
            let c1 = self.next();
            if c1 == '=' {
                self.next();
                self.add_token(TokenType::Equals);
            } else if c1 == '/' {
                let c2 = self.next();
                if c2 == '=' {
                    self.next();
                    self.add_token(TokenType::NotEquals);
                } else {
                    self.invalid_char(c2);
                    if !self.at_end() {
                        self.next();
                    }
                    self.add_token(TokenType::Error);
                }
            } else {
                self.add_token(TokenType::Assign);
            }
        } else if c == '0' {
            let c1 = self.next();
            if c1 == 'b' || c1 == 'B' {
                self.next();
                self.consume_radix(2);
            } else if c1 == 'o' || c1 == 'O' {
                self.next();
                self.consume_radix(8);
            } else if c1 == 'x' || c1 == 'X' {
                self.next();
                self.consume_radix(16);
            } else {
                // no radix marker: re-process the zero, which falls through
                // to the unexpected-character path
                self.rewind();
                self.invalid_char(c);
                self.add_token(TokenType::Error);
                self.next();
            }
        } else {
            self.invalid_char(c);
            self.add_token(TokenType::Error);
            self.next();
        }
        self.column = self.column + 1;
        proof {
            assert(self.st() =~= scan_step(src0, st0));
            lemma_scan_step_no_eof(src0, st0);
        }
    }

    /// Run the pass over the whole source and return the tokens together
    /// with the diagnostics found, both in source order. The pass always
    /// terminates, and the token sequence ends in exactly the one
    /// end-of-input token the model appends.
    pub fn scan_report(self) -> (r: (Vec<Token>, Vec<Diagnostic>))
        requires
            self.wf(),
        ensures
            toks_of(r.0@) == scan_from(self.src(), self.st()).tokens,
            diags_of(r.1@) == scan_from(self.src(), self.st()).diags,
            r.0@.len() >= 1,
            r.0@[r.0@.len() - 1].token_type == TokenType::EoF,
            forall|i: int|
                0 <= i < r.0@.len() - 1 ==> r.0@[i].token_type != TokenType::EoF,
    {
        let ghost src0 = self.src();
        let ghost st0 = self.st();
        let mut s = self;
        while !s.at_end()
            invariant
                s.wf(),
                s.src() == src0,
                scan_all(src0, st0) == scan_all(src0, s.st()),
            decreases src0.len() - s.st().idx,
        {
            s.scan_token();
        }
        proof {
            assert(scan_all(src0, s.st()) == s.st());
        }
        s.add_token(TokenType::EoF);
        let ghost out = scan_from(src0, st0);
        proof {
            assert(toks_of(s.tokens@) == out.tokens);
            assert(s.tokens@.len() >= 1);
            assert(toks_of(s.tokens@)[s.tokens@.len() - 1] == plain_tok(
                TokenType::EoF,
                scan_all(src0, st0).line,
            ));
            assert forall|i: int| 0 <= i < s.tokens@.len() - 1 implies s.tokens@[i].token_type
                != TokenType::EoF by {
                assert(toks_of(s.tokens@)[i] == s.tokens@[i]@);
                assert(toks_of(s.tokens@)[i] == scan_all(src0, st0).tokens[i]);
            }
        }
        (s.tokens, s.diagnostics)
    }

    /// Run the pass over the whole source and return the token sequence,
    /// terminated by exactly one end-of-input token.
    pub fn scan(self) -> (r: Vec<Token>)
        requires
            self.wf(),
        ensures
            toks_of(r@) == scan_from(self.src(), self.st()).tokens,
            r@.len() >= 1,
            r@[r@.len() - 1].token_type == TokenType::EoF,
            forall|i: int| 0 <= i < r@.len() - 1 ==> r@[i].token_type != TokenType::EoF,
    {
        let (tokens, _diagnostics) = self.scan_report();
        tokens
    }
}

/// The character set of the single-character operators.
pub open spec fn single_char_token(c: char) -> Option<TokenType> {
    if c == '(' {
        Some(TokenType::LeftParen)
    } else if c == ')' {
        Some(TokenType::RightParen)
    } else if c == '[' {
        Some(TokenType::LeftBracket)
    } else if c == ']' {
        Some(TokenType::RightBracket)
    } else if c == '{' {
        Some(TokenType::LeftBrace)
    } else if c == '}' {
        Some(TokenType::RightBrace)
    } else if c == '+' {
        Some(TokenType::Add)
    } else if c == '-' {
        Some(TokenType::Subtract)
    } else if c == '/' {
        Some(TokenType::Divide)
    } else if c == '*' {
        Some(TokenType::Multiply)
    } else if c == '%' {
        Some(TokenType::Modulo)
    } else if c == '>' {
        Some(TokenType::GreaterThan)
    } else if c == '<' {
        Some(TokenType::LessThan)
    } else if c == '&' {
        Some(TokenType::BitAnd)
    } else if c == '|' {
        Some(TokenType::BitOr)
    } else if c == '^' {
        Some(TokenType::BitXOr)
    } else if c == '!' {
        Some(TokenType::Exclaim)
    } else if c == '=' {
        Some(TokenType::Assign)
    } else if c == ',' {
        Some(TokenType::Comma)
    } else {
        None
    }
}

/// Scanning one character of the single-character operator set alone yields
/// exactly that operator's token followed by the end-of-input token, and no
/// diagnostic.
pub proof fn lemma_single_char_scan(c: char)
    requires
        single_char_token(c) is Some,
    ensures
        spec_scan(seq![c]).tokens =~= seq![
            plain_tok(single_char_token(c)->Some_0, 1),
            plain_tok(TokenType::EoF, 1),
        ],
        spec_scan(seq![c]).diags =~= Seq::<DiagV>::empty(),
{
    let src = seq![c];
    reveal_with_fuel(scan_all, 3);
    let st1 = scan_step(src, init_st());
    assert(st1.idx == 1);
    assert(scan_all(src, init_st()) == st1);
    assert(st1.tokens =~= seq![plain_tok(single_char_token(c)->Some_0, 1)]);
    assert(st1.diags =~= Seq::<DiagV>::empty());
}

} // verus!
