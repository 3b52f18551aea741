//! The lexer: scans source text left to right and, at each cursor
//! position, takes the first of a fixed-priority list of lexical patterns
//! whose match begins exactly there. Whitespace and comment matches
//! advance the cursor without emitting a token, and a position matching
//! no pattern is skipped silently.

use vstd::prelude::*;
use crate::text::{
    alpha_char, delim_char, digit_char, is_alpha_char, is_delim_char, is_digit_char, is_op_char,
    is_space_char, is_word_char, match_lit, matches_at, op_char, space_char, word_char,
};
use crate::types::{Token, TokenType, TokenV, tokens_view};

verus! {

// ---------------------------------------------------------------------------
// Pattern specifications.
// ---------------------------------------------------------------------------

/// The word-character predicate, as a function value.
pub open spec fn word_pred() -> spec_fn(char) -> bool {
    |c: char| is_word_char(c)
}

/// The digit predicate, as a function value.
pub open spec fn digit_pred() -> spec_fn(char) -> bool {
    |c: char| is_digit_char(c)
}

/// The operator-character predicate, as a function value.
pub open spec fn op_pred() -> spec_fn(char) -> bool {
    |c: char| is_op_char(c)
}

/// The whitespace predicate, as a function value.
pub open spec fn space_pred() -> spec_fn(char) -> bool {
    |c: char| is_space_char(c)
}

/// Everything but a line break, as a function value.
pub open spec fn nonnl_pred() -> spec_fn(char) -> bool {
    |c: char| c != '\n'
}

/// Length of the longest run of characters satisfying `p` that starts at
/// `pos`.
pub open spec fn run_len(s: Seq<char>, pos: int, p: spec_fn(char) -> bool) -> int
    decreases s.len() - pos
        when 0 <= pos <= s.len()
{
    if pos >= s.len() || !p(s[pos]) {
        0
    } else {
        1 + run_len(s, pos + 1, p)
    }
}

/// A run starts at its position and ends within the text.
pub proof fn lemma_run_len(s: Seq<char>, pos: int, p: spec_fn(char) -> bool)
    requires
        0 <= pos <= s.len(),
    ensures
        0 <= run_len(s, pos, p),
        pos + run_len(s, pos, p) <= s.len(),
    decreases s.len() - pos,
{
    if pos < s.len() && p(s[pos]) {
        lemma_run_len(s, pos + 1, p);
    }
}

/// Index of the first `"` at or after `i`, or -1 where none follows.
pub open spec fn find_quote(s: Seq<char>, i: int) -> int
    decreases s.len() - i
        when 0 <= i <= s.len()
{
    if i >= s.len() {
        -1
    } else if s[i] == '"' {
        i
    } else {
        find_quote(s, i + 1)
    }
}

/// A found quote lies at or after `i`, within the text.
pub proof fn lemma_find_quote(s: Seq<char>, i: int)
    requires
        0 <= i <= s.len(),
    ensures
        find_quote(s, i) == -1 || (i <= find_quote(s, i) < s.len() && s[find_quote(s, i)] == '"'),
    decreases s.len() - i,
{
    if i < s.len() && s[i] != '"' {
        lemma_find_quote(s, i + 1);
    }
}

/// A word boundary: the start of the text, or a position whose preceding
/// character is not a word character.
pub open spec fn boundary(s: Seq<char>, pos: int) -> bool {
    pos == 0 || !is_word_char(s[pos - 1])
}

/// A preprocessor-style directive: `#` followed by a run of word
/// characters. 0 where the pattern does not match at `pos`.
pub open spec fn preproc_len(s: Seq<char>, pos: int) -> int {
    if pos + 1 < s.len() && s[pos] == '#' && is_word_char(s[pos + 1]) {
        1 + run_len(s, pos + 1, word_pred())
    } else {
        0
    }
}

/// Whether the reserved word `k` stands at `pos` with a word boundary
/// after it.
pub open spec fn kw_at(s: Seq<char>, pos: int, k: Seq<char>) -> bool {
    matches_at(s, pos, k) && (pos + k.len() == s.len() || !is_word_char(s[pos + k.len()]))
}

/// The length of the reserved word standing at `pos` between word
/// boundaries. 0 where none does.
pub open spec fn keyword_len(s: Seq<char>, pos: int) -> int {
    if !boundary(s, pos) {
        0
    } else if kw_at(s, pos, "int"@) {
        "int"@.len() as int
    } else if kw_at(s, pos, "float"@) {
        "float"@.len() as int
    } else if kw_at(s, pos, "char"@) {
        "char"@.len() as int
    } else if kw_at(s, pos, "void"@) {
        "void"@.len() as int
    } else if kw_at(s, pos, "if"@) {
        "if"@.len() as int
    } else if kw_at(s, pos, "else"@) {
        "else"@.len() as int
    } else if kw_at(s, pos, "while"@) {
        "while"@.len() as int
    } else if kw_at(s, pos, "for"@) {
        "for"@.len() as int
    } else if kw_at(s, pos, "return"@) {
        "return"@.len() as int
    } else if kw_at(s, pos, "include"@) {
        "include"@.len() as int
    } else if kw_at(s, pos, "stdio"@) {
        "stdio"@.len() as int
    } else {
        0
    }
}

/// An identifier: a letter or underscore at a word boundary, then the
/// longest run of word characters. 0 where the pattern does not match.
pub open spec fn ident_len(s: Seq<char>, pos: int) -> int {
    if boundary(s, pos) && pos < s.len() && (is_alpha_char(s[pos]) || s[pos] == '_') {
        run_len(s, pos, word_pred())
    } else {
        0
    }
}

/// An integer literal: the longest digit run between word boundaries.
/// 0 where the pattern does not match at `pos`.
pub open spec fn number_len(s: Seq<char>, pos: int) -> int {
    if boundary(s, pos) && pos < s.len() && is_digit_char(s[pos]) {
        let r = run_len(s, pos, digit_pred());
        if pos + r == s.len() || !is_word_char(s[pos + r]) {
            r
        } else {
            0
        }
    } else {
        0
    }
}

/// A quoted string: `"`, any characters other than `"`, then the next
/// `"`. 0 where there is no opening or no closing quote.
pub open spec fn string_len(s: Seq<char>, pos: int) -> int {
    if pos < s.len() && s[pos] == '"' {
        let j = find_quote(s, pos + 1);
        if j >= 0 {
            j - pos + 1
        } else {
            0
        }
    } else {
        0
    }
}

/// An operator: the longest run of operator characters starting at `pos`.
pub open spec fn operator_len(s: Seq<char>, pos: int) -> int {
    run_len(s, pos, op_pred())
}

/// A single delimiter character.
pub open spec fn delimiter_len(s: Seq<char>, pos: int) -> int {
    if pos < s.len() && is_delim_char(s[pos]) {
        1
    } else {
        0
    }
}

/// The longest whitespace run starting at `pos`.
pub open spec fn whitespace_len(s: Seq<char>, pos: int) -> int {
    run_len(s, pos, space_pred())
}

/// A line comment: `//` and the rest of the line. In the fixed priority
/// order the operator pattern always claims the two slashes first, so
/// this pattern never fires; it is kept because it belongs to the
/// documented pattern list.
pub open spec fn comment_len(s: Seq<char>, pos: int) -> int {
    if pos + 1 < s.len() && s[pos] == '/' && s[pos + 1] == '/' {
        2 + run_len(s, pos + 2, nonnl_pred())
    } else {
        0
    }
}

/// The first pattern of the priority list matching at `pos`: its token
/// kind and its length. A Whitespace or Comment kind emits no token; a
/// length of 0 means no pattern matched and one character is skipped.
pub open spec fn lex_match(s: Seq<char>, pos: int) -> (TokenType, int) {
    if preproc_len(s, pos) > 0 {
        (TokenType::Keyword, preproc_len(s, pos))
    } else if keyword_len(s, pos) > 0 {
        (TokenType::Keyword, keyword_len(s, pos))
    } else if ident_len(s, pos) > 0 {
        (TokenType::Identifier, ident_len(s, pos))
    } else if number_len(s, pos) > 0 {
        (TokenType::Number, number_len(s, pos))
    } else if string_len(s, pos) > 0 {
        (TokenType::String, string_len(s, pos))
    } else if operator_len(s, pos) > 0 {
        (TokenType::Operator, operator_len(s, pos))
    } else if delimiter_len(s, pos) > 0 {
        (TokenType::Delimiter, delimiter_len(s, pos))
    } else if whitespace_len(s, pos) > 0 {
        (TokenType::Whitespace, whitespace_len(s, pos))
    } else if comment_len(s, pos) > 0 {
        (TokenType::Comment, comment_len(s, pos))
    } else {
        (TokenType::Whitespace, 0)
    }
}

/// Every match fits within the text.
pub proof fn lemma_lex_match_bounds(s: Seq<char>, pos: int)
    requires
        0 <= pos < s.len(),
    ensures
        0 <= lex_match(s, pos).1 <= s.len() - pos,
{
    lemma_run_len(s, pos, word_pred());
    lemma_run_len(s, pos, digit_pred());
    lemma_run_len(s, pos, op_pred());
    lemma_run_len(s, pos, space_pred());
    if pos + 1 < s.len() {
        lemma_run_len(s, pos + 1, word_pred());
    }
    if pos + 2 <= s.len() {
        lemma_run_len(s, pos + 2, nonnl_pred());
    }
    lemma_find_quote(s, pos + 1);
}

/// The tokens the lexer emits from `pos` to the end of the text.
pub open spec fn lex_from(s: Seq<char>, pos: int) -> Seq<TokenV>
    decreases s.len() - pos
        when 0 <= pos <= s.len()
{
    if pos >= s.len() {
        Seq::empty()
    } else {
        {
            proof {
                lemma_lex_match_bounds(s, pos);
            }
            let (kind, l) = lex_match(s, pos);
            let adv = if l > 0 {
                l
            } else {
                1
            };
            let rest = lex_from(s, pos + adv);
            if l > 0 && kind != TokenType::Whitespace && kind != TokenType::Comment {
                seq![
                    TokenV { token_type: kind, value: s.subrange(pos, pos + l), position: pos },
                ] + rest
            } else {
                rest
            }
        }
    }
}

/// The lexer emits at most one token per character.
pub proof fn lemma_lex_count(s: Seq<char>, pos: int)
    requires
        0 <= pos <= s.len(),
    ensures
        lex_from(s, pos).len() <= s.len() - pos,
    decreases s.len() - pos,
{
    if pos < s.len() {
        lemma_lex_match_bounds(s, pos);
        let l = lex_match(s, pos).1;
        let adv = if l > 0 { l } else { 1 };
        lemma_lex_count(s, pos + adv);
    }
}

// ---------------------------------------------------------------------------
// The executable lexer.
// ---------------------------------------------------------------------------

/// End of the longest word-character run starting at `pos`.
fn word_run_end(s: &str, pos: usize) -> (e: usize)
    requires
        pos <= s@.len(),
    ensures
        pos <= e <= s@.len(),
        e - pos == run_len(s@, pos as int, word_pred()),
{
    let n = s.unicode_len();
    let mut e = pos;
    while e < n && word_char(s.get_char(e))
        invariant
            pos <= e <= n,
            n == s@.len(),
            run_len(s@, pos as int, word_pred()) == e - pos + run_len(s@, e as int, word_pred()),
        decreases n - e,
    {
        e += 1;
    }
    proof {
        lemma_run_len(s@, pos as int, word_pred());
    }
    e
}

/// End of the longest digit run starting at `pos`.
fn digit_run_end(s: &str, pos: usize) -> (e: usize)
    requires
        pos <= s@.len(),
    ensures
        pos <= e <= s@.len(),
        e - pos == run_len(s@, pos as int, digit_pred()),
{
    let n = s.unicode_len();
    let mut e = pos;
    while e < n && digit_char(s.get_char(e))
        invariant
            pos <= e <= n,
            n == s@.len(),
            run_len(s@, pos as int, digit_pred()) == e - pos + run_len(s@, e as int, digit_pred()),
        decreases n - e,
    {
        e += 1;
    }
    proof {
        lemma_run_len(s@, pos as int, digit_pred());
    }
    e
}

/// End of the longest operator-character run starting at `pos`.
fn op_run_end(s: &str, pos: usize) -> (e: usize)
    requires
        pos <= s@.len(),
    ensures
        pos <= e <= s@.len(),
        e - pos == run_len(s@, pos as int, op_pred()),
{
    let n = s.unicode_len();
    let mut e = pos;
    while e < n && op_char(s.get_char(e))
        invariant
            pos <= e <= n,
            n == s@.len(),
            run_len(s@, pos as int, op_pred()) == e - pos + run_len(s@, e as int, op_pred()),
        decreases n - e,
    {
        e += 1;
    }
    proof {
        lemma_run_len(s@, pos as int, op_pred());
    }
    e
}

/// End of the longest whitespace run starting at `pos`.
fn space_run_end(s: &str, pos: usize) -> (e: usize)
    requires
        pos <= s@.len(),
    ensures
        pos <= e <= s@.len(),
        e - pos == run_len(s@, pos as int, space_pred()),
{
    let n = s.unicode_len();
    let mut e = pos;
    while e < n && space_char(s.get_char(e))
        invariant
            pos <= e <= n,
            n == s@.len(),
            run_len(s@, pos as int, space_pred()) == e - pos + run_len(s@, e as int, space_pred()),
        decreases n - e,
    {
        e += 1;
    }
    proof {
        lemma_run_len(s@, pos as int, space_pred());
    }
    e
}

/// End of the run of non-line-break characters starting at `pos`.
fn nonnl_run_end(s: &str, pos: usize) -> (e: usize)
    requires
        pos <= s@.len(),
    ensures
        pos <= e <= s@.len(),
        e - pos == run_len(s@, pos as int, nonnl_pred()),
{
    let n = s.unicode_len();
    let mut e = pos;
    while e < n && s.get_char(e) != '\n'
        invariant
            pos <= e <= n,
            n == s@.len(),
            run_len(s@, pos as int, nonnl_pred()) == e - pos + run_len(s@, e as int, nonnl_pred()),
        decreases n - e,
    {
        e += 1;
    }
    proof {
        lemma_run_len(s@, pos as int, nonnl_pred());
    }
    e
}

/// Whether `pos` is at a word boundary.
fn boundary_exec(s: &str, pos: usize) -> (r: bool)
    requires
        pos <= s@.len(),
    ensures
        r == boundary(s@, pos as int),
{
    pos == 0 || !word_char(s.get_char(pos - 1))
}

/// Whether the reserved word `pat` stands at `pos` with a word boundary
/// after it.
fn kw_check(s: &str, pos: usize, pat: &str) -> (r: bool)
    requires
        pos <= s@.len(),
    ensures
        r == kw_at(s@, pos as int, pat@),
{
    let n = s.unicode_len();
    if !match_lit(s, pos, pat) {
        return false;
    }
    let e = pos + pat.unicode_len();
    e == n || !word_char(s.get_char(e))
}

/// The keyword pattern's match length at `pos`.
fn keyword_len_exec(s: &str, pos: usize) -> (l: usize)
    requires
        pos <= s@.len(),
    ensures
        l == keyword_len(s@, pos as int),
{
    if !boundary_exec(s, pos) {
        0
    } else if kw_check(s, pos, "int") {
        "int".unicode_len()
    } else if kw_check(s, pos, "float") {
        "float".unicode_len()
    } else if kw_check(s, pos, "char") {
        "char".unicode_len()
    } else if kw_check(s, pos, "void") {
        "void".unicode_len()
    } else if kw_check(s, pos, "if") {
        "if".unicode_len()
    } else if kw_check(s, pos, "else") {
        "else".unicode_len()
    } else if kw_check(s, pos, "while") {
        "while".unicode_len()
    } else if kw_check(s, pos, "for") {
        "for".unicode_len()
    } else if kw_check(s, pos, "return") {
        "return".unicode_len()
    } else if kw_check(s, pos, "include") {
        "include".unicode_len()
    } else if kw_check(s, pos, "stdio") {
        "stdio".unicode_len()
    } else {
        0
    }
}

/// The preprocessor pattern's match length at `pos`.
fn preproc_len_exec(s: &str, pos: usize) -> (l: usize)
    requires
        pos <= s@.len(),
    ensures
        l == preproc_len(s@, pos as int),
{
    let n = s.unicode_len();
    if pos < n && s.get_char(pos) == '#' && pos + 1 < n && word_char(s.get_char(pos + 1)) {
        let e = word_run_end(s, pos + 1);
        e - pos
    } else {
        0
    }
}

/// The identifier pattern's match length at `pos`.
fn ident_len_exec(s: &str, pos: usize) -> (l: usize)
    requires
        pos <= s@.len(),
    ensures
        l == ident_len(s@, pos as int),
{
    let n = s.unicode_len();
    if pos < n && boundary_exec(s, pos) {
        let c = s.get_char(pos);
        if alpha_char(c) || c == '_' {
            let e = word_run_end(s, pos);
            e - pos
        } else {
            0
        }
    } else {
        0
    }
}

/// The number pattern's match length at `pos`.
fn number_len_exec(s: &str, pos: usize) -> (l: usize)
    requires
        pos <= s@.len(),
    ensures
        l == number_len(s@, pos as int),
{
    let n = s.unicode_len();
    if pos < n && boundary_exec(s, pos) && digit_char(s.get_char(pos)) {
        let e = digit_run_end(s, pos);
        if e == n || !word_char(s.get_char(e)) {
            e - pos
        } else {
            0
        }
    } else {
        0
    }
}

/// The quoted-string pattern's match length at `pos`.
fn string_len_exec(s: &str, pos: usize) -> (l: usize)
    requires
        pos <= s@.len(),
    ensures
        l == string_len(s@, pos as int),
{
    let n = s.unicode_len();
    if pos < n && s.get_char(pos) == '"' {
        let mut j = pos + 1;
        while j < n && s.get_char(j) != '"'
            invariant
                pos + 1 <= j <= n,
                n == s@.len(),
                find_quote(s@, pos + 1) == find_quote(s@, j as int),
            decreases n - j,
        {
            j += 1;
        }
        if j < n {
            j - pos + 1
        } else {
            0
        }
    } else {
        0
    }
}

/// The line-comment pattern's match length at `pos`.
fn comment_len_exec(s: &str, pos: usize) -> (l: usize)
    requires
        pos <= s@.len(),
    ensures
        l == comment_len(s@, pos as int),
{
    let n = s.unicode_len();
    if pos < n && s.get_char(pos) == '/' && pos + 1 < n && s.get_char(pos + 1) == '/' {
        let e = nonnl_run_end(s, pos + 2);
        e - pos
    } else {
        0
    }
}

/// The lexer: holds the source text, a cursor, and the tokens emitted
/// so far.
#[derive(Debug)]
pub struct Lexer {
    pub input: String,
    pub position: usize,
    pub tokens: Vec<Token>,
}

impl Lexer {
    /// A lexer over `input`, with no tokens emitted yet.
    pub fn new(input: String) -> (r: Lexer)
        ensures
            r.input@ == input@,
            r.position == 0,
            r.tokens@.len() == 0,
    {
        Lexer { input, position: 0, tokens: Vec::new() }
    }

    /// Scans the whole input and returns the emitted tokens, in order.
    /// Never fails: unrecognized characters are skipped silently.
    pub fn tokenize(&mut self) -> (r: Result<Vec<Token>, String>)
        ensures
            final(self).input@ == old(self).input@,
            final(self).position == old(self).position,
            tokens_view(final(self).tokens@) == tokens_view(old(self).tokens@) + lex_from(
                old(self).input@,
                0,
            ),
            r matches Ok(ts) && tokens_view(ts@) == tokens_view(final(self).tokens@),
    {
        let src = self.input.clone();
        let s = src.as_str();
        let n = s.unicode_len();
        let mut pos: usize = 0;
        while pos < n
            invariant
                0 <= pos <= n,
                n == s@.len(),
                s@ == src@,
                src@ == self.input@,
                self.input@ == old(self).input@,
                self.position == old(self).position,
                tokens_view(old(self).tokens@) + lex_from(src@, 0) == tokens_view(self.tokens@)
                    + lex_from(src@, pos as int),
            decreases n - pos,
        {
            let mut kind: TokenType = TokenType::Whitespace;
            let mut l: usize = 0;
            let pl = preproc_len_exec(s, pos);
            if pl > 0 {
                kind = TokenType::Keyword;
                l = pl;
            } else {
                let kl = keyword_len_exec(s, pos);
                if kl > 0 {
                    kind = TokenType::Keyword;
                    l = kl;
                } else {
                    let il = ident_len_exec(s, pos);
                    if il > 0 {
                        kind = TokenType::Identifier;
                        l = il;
                    } else {
                        let nl = number_len_exec(s, pos);
                        if nl > 0 {
                            kind = TokenType::Number;
                            l = nl;
                        } else {
                            let sl = string_len_exec(s, pos);
                            if sl > 0 {
                                kind = TokenType::String;
                                l = sl;
                            } else {
                                let ol = op_run_end(s, pos) - pos;
                                if ol > 0 {
                                    kind = TokenType::Operator;
                                    l = ol;
                                } else if pos < n && delim_char(s.get_char(pos)) {
                                    kind = TokenType::Delimiter;
                                    l = 1;
                                } else {
                                    let wl = space_run_end(s, pos) - pos;
                                    if wl > 0 {
                                        kind = TokenType::Whitespace;
                                        l = wl;
                                    } else {
                                        let cl = comment_len_exec(s, pos);
                                        if cl > 0 {
                                            kind = TokenType::Comment;
                                            l = cl;
                                        }
                                    }
                                }
                            }
                        }
                    }
                }
            }
            proof {
                assert(lex_match(s@, pos as int) == (kind, l as int));
                lemma_lex_match_bounds(s@, pos as int);
            }
            let adv: usize = if l > 0 {
                l
            } else {
                1
            };
            if l > 0 && !(matches!(kind, TokenType::Whitespace)) && !(matches!(
                kind,
                TokenType::Comment,
            )) {
                let value = s.substring_char(pos, pos + l).to_owned();
                let ghost pre = self.tokens@;
                self.tokens.push(Token { token_type: kind, value, position: pos });
                proof {
                    assert(tokens_view(self.tokens@) =~= tokens_view(pre) + seq![
                        self.tokens@.last()@,
                    ]);
                }
            }
            pos += adv;
        }
        let mut out: Vec<Token> = Vec::new();
        let k = self.tokens.len();
        for j in 0..k
            invariant
                k == self.tokens@.len(),
                out@.len() == j,
                forall|i: int| 0 <= i < j ==> out@[i]@ == self.tokens@[i]@,
        {
            out.push(self.tokens[j].duplicate());
        }
        proof {
            assert(tokens_view(out@) =~= tokens_view(self.tokens@));
            assert(lex_from(src@, n as int) =~= Seq::<TokenV>::empty());
        }
        Ok(out)
    }
}

} // verus!
