//! The grammar: a recursive-descent parser for `Face { ... }` and
//! `Cube { ... }` blocks. The grammar itself is stated as spec functions over
//! the character sequence, and every executable parsing step is proved to
//! return exactly what the spec functions say.

use crate::entity::{grid_of, strips_of, AttributeValue, Attributes, Color, Cube, CubeViz, Face};
use vstd::prelude::*;
use vstd::string::StrSliceExecFns;
use vstd::string::StringExecFns;

verus! {

/// Why a parse failed.
#[derive(Clone, Copy, PartialEq, Eq, Structural, Debug)]
pub enum ParseError {
    /// The input matches neither top-level block alternative.
    GrammarMismatch,
    /// A face's color count is not 9 or 21, or a cube's is not 54.
    ArityViolation,
    /// An unrecognized backslash escape inside a quoted attribute value.
    EscapeSequenceError,
}

/// Whether a character has the Unicode `White_Space` property.
pub uninterp spec fn char_is_whitespace(c: char) -> bool;

/// Whether a character has the Unicode `Alphabetic` property.
pub uninterp spec fn char_is_alphabetic(c: char) -> bool;

/// Whether a character is alphanumeric in the Unicode sense.
pub uninterp spec fn char_is_alphanumeric(c: char) -> bool;

/// Relies on char::is_whitespace: whether the character has the Unicode
/// `White_Space` property, a function of the character alone.
#[verifier::external_body]
fn ws_char(c: char) -> (r: bool)
    ensures
        r == char_is_whitespace(c),
{
    c.is_whitespace()
}

/// Relies on char::is_alphabetic: whether the character has the Unicode
/// `Alphabetic` property, a function of the character alone.
#[verifier::external_body]
fn alpha_char(c: char) -> (r: bool)
    ensures
        r == char_is_alphabetic(c),
{
    c.is_alphabetic()
}

/// Relies on char::is_alphanumeric: whether the character is Unicode
/// alphanumeric, a function of the character alone.
#[verifier::external_body]
fn alnum_char(c: char) -> (r: bool)
    ensures
        r == char_is_alphanumeric(c),
{
    c.is_alphanumeric()
}

/// Relies on core's `FromIterator for String`: collecting characters yields
/// the string with exactly those characters.
#[verifier::external_body]
fn chars_to_string(v: &Vec<char>) -> (r: String)
    ensures
        r@ == v@,
{
    v.iter().collect()
}

/// The input string as its character sequence, read one character at a time.
fn to_chars(s: &str) -> (r: Vec<char>)
    ensures
        r@ == s@,
{
    let n = s.unicode_len();
    let mut v: Vec<char> = Vec::new();
    let mut i: usize = 0;
    while i < n
        invariant
            n == s@.len(),
            i <= n,
            v@ == s@.subrange(0, i as int),
        decreases n - i,
    {
        v.push(s.get_char(i));
        proof {
            assert(v@ =~= s@.subrange(0, i + 1));
        }
        i = i + 1;
    }
    proof {
        assert(s@.subrange(0, n as int) =~= s@);
    }
    v
}

/// The position after the maximal run of whitespace starting at `i`.
pub open spec fn spec_spaces(s: Seq<char>, i: int) -> int
    decreases s.len() - i,
{
    if i < s.len() && char_is_whitespace(s[i]) {
        spec_spaces(s, i + 1)
    } else {
        i
    }
}

proof fn lemma_spaces_bounds(s: Seq<char>, i: int)
    requires
        0 <= i <= s.len(),
    ensures
        i <= spec_spaces(s, i) <= s.len(),
    decreases s.len() - i,
{
    if i < s.len() && char_is_whitespace(s[i]) {
        lemma_spaces_bounds(s, i + 1);
    }
}

/// The position after any interleaving of whitespace and `//` line comments
/// starting at `i`; inside a comment everything up to the line end is
/// consumed.
pub open spec fn scan_trivia(s: Seq<char>, i: int, in_comment: bool) -> int
    decreases s.len() - i,
{
    if in_comment {
        if i < s.len() {
            if s[i] == '\n' || s[i] == '\r' {
                scan_trivia(s, i + 1, false)
            } else {
                scan_trivia(s, i + 1, true)
            }
        } else {
            s.len() as int
        }
    } else {
        if i < s.len() && char_is_whitespace(s[i]) {
            scan_trivia(s, i + 1, false)
        } else if i + 1 < s.len() && s[i] == '/' && s[i + 1] == '/' {
            scan_trivia(s, i + 2, true)
        } else {
            i
        }
    }
}

/// Skipping trivia never moves backwards and never leaves the input.
pub proof fn lemma_trivia_bounds(s: Seq<char>, i: int, in_comment: bool)
    requires
        0 <= i <= s.len(),
    ensures
        i <= scan_trivia(s, i, in_comment) <= s.len(),
    decreases s.len() - i,
{
    if in_comment {
        if i < s.len() {
            if s[i] == '\n' || s[i] == '\r' {
                lemma_trivia_bounds(s, i + 1, false);
            } else {
                lemma_trivia_bounds(s, i + 1, true);
            }
        }
    } else {
        if i < s.len() && char_is_whitespace(s[i]) {
            lemma_trivia_bounds(s, i + 1, false);
        } else if i + 1 < s.len() && s[i] == '/' && s[i + 1] == '/' {
            lemma_trivia_bounds(s, i + 2, true);
        }
    }
}

fn scan_trivia_exec(t: &Vec<char>, i: usize, in_comment: bool) -> (r: usize)
    requires
        i <= t@.len(),
    ensures
        r == scan_trivia(t@, i as int, in_comment),
        i <= r <= t@.len(),
    decreases t@.len() - i,
{
    if in_comment {
        if i < t.len() {
            let c = t[i];
            if c == '\n' || c == '\r' {
                scan_trivia_exec(t, i + 1, false)
            } else {
                scan_trivia_exec(t, i + 1, true)
            }
        } else {
            t.len()
        }
    } else {
        let n = t.len();
        if i < n && ws_char(t[i]) {
            scan_trivia_exec(t, i + 1, false)
        } else if i < n && i + 1 < n && t[i] == '/' && t[i + 1] == '/' {
            scan_trivia_exec(t, i + 2, true)
        } else {
            i
        }
    }
}

/// Consumes the maximal run of whitespace at `i`.
pub fn spaces(t: &Vec<char>, i: usize) -> (r: usize)
    requires
        i <= t@.len(),
    ensures
        r == spec_spaces(t@, i as int),
        i <= r <= t@.len(),
    decreases t@.len() - i,
{
    proof {
        lemma_spaces_bounds(t@, i as int);
    }
    if i < t.len() && ws_char(t[i]) {
        spaces(t, i + 1)
    } else {
        i
    }
}

/// Consumes any interleaving of whitespace and `//` line comments at `i`.
pub fn commentable_spaces(t: &Vec<char>, i: usize) -> (r: usize)
    requires
        i <= t@.len(),
    ensures
        r == scan_trivia(t@, i as int, false),
        i <= r <= t@.len(),
{
    scan_trivia_exec(t, i, false)
}

/// A character that may start an identifier.
pub open spec fn ident_head(c: char) -> bool {
    char_is_alphabetic(c) || c == '_' || c == '#' || c == '@'
}

/// A character that may continue an identifier.
pub open spec fn ident_tail(c: char) -> bool {
    char_is_alphanumeric(c) || ident_head(c)
}

fn head_char(c: char) -> (r: bool)
    ensures
        r == ident_head(c),
{
    alpha_char(c) || c == '_' || c == '#' || c == '@'
}

fn tail_char(c: char) -> (r: bool)
    ensures
        r == ident_tail(c),
{
    alnum_char(c) || head_char(c)
}

/// The end of the maximal run of identifier-continuation characters at `i`.
pub open spec fn scan_ident_tail(s: Seq<char>, i: int) -> int
    decreases s.len() - i,
{
    if i < s.len() && ident_tail(s[i]) {
        scan_ident_tail(s, i + 1)
    } else {
        i
    }
}

proof fn lemma_ident_tail_bounds(s: Seq<char>, i: int)
    requires
        0 <= i <= s.len(),
    ensures
        i <= scan_ident_tail(s, i) <= s.len(),
    decreases s.len() - i,
{
    if i < s.len() && ident_tail(s[i]) {
        lemma_ident_tail_bounds(s, i + 1);
    }
}

fn scan_ident_tail_exec(t: &Vec<char>, i: usize) -> (r: usize)
    requires
        i <= t@.len(),
    ensures
        r == scan_ident_tail(t@, i as int),
        i <= r <= t@.len(),
    decreases t@.len() - i,
{
    if i < t.len() && tail_char(t[i]) {
        scan_ident_tail_exec(t, i + 1)
    } else {
        i
    }
}

/// The identifier at `i`, if an identifier-head character stands there: it
/// spans through the maximal run of identifier-continuation characters.
pub open spec fn spec_ident(s: Seq<char>, i: int) -> Option<(int, Seq<char>)> {
    if 0 <= i < s.len() && ident_head(s[i]) {
        Some((scan_ident_tail(s, i + 1), s.subrange(i, scan_ident_tail(s, i + 1))))
    } else {
        None
    }
}

/// The characters of `t` from `from` (inclusive) to `to` (exclusive).
fn collect_range(t: &Vec<char>, from: usize, to: usize) -> (r: Vec<char>)
    requires
        from <= to <= t@.len(),
    ensures
        r@ == t@.subrange(from as int, to as int),
{
    let mut v: Vec<char> = Vec::new();
    let mut k: usize = from;
    while k < to
        invariant
            from <= k <= to <= t@.len(),
            v@ == t@.subrange(from as int, k as int),
        decreases to - k,
    {
        v.push(t[k]);
        proof {
            assert(v@ =~= t@.subrange(from as int, k + 1));
        }
        k = k + 1;
    }
    v
}

/// Recognizes an identifier at `i`.
pub fn identifier(t: &Vec<char>, i: usize) -> (r: Option<(usize, String)>)
    requires
        i <= t@.len(),
    ensures
        match r {
            Some(hit) => spec_ident(t@, i as int) == Some((hit.0 as int, hit.1@)) && i < hit.0
                <= t@.len(),
            None => spec_ident(t@, i as int) is None,
        },
{
    if i < t.len() && head_char(t[i]) {
        let e = scan_ident_tail_exec(t, i + 1);
        let name = chars_to_string(&collect_range(t, i, e));
        Some((e, name))
    } else {
        None
    }
}

/// The six recognized escape characters after a backslash.
pub open spec fn escape_ok(c: char) -> bool {
    c == '\\' || c == '"' || c == '\'' || c == 'n' || c == 'r' || c == 't'
}

/// The character an escape denotes.
pub open spec fn escape_val(c: char) -> char {
    if c == 'n' {
        '\n'
    } else if c == 'r' {
        '\r'
    } else if c == 't' {
        '\t'
    } else {
        c
    }
}

fn esc_val(c: char) -> (r: Option<char>)
    ensures
        r is Some <==> escape_ok(c),
        r matches Some(v) ==> v == escape_val(c),
{
    if c == '\\' || c == '"' || c == '\'' {
        Some(c)
    } else if c == 'n' {
        Some('\n')
    } else if c == 'r' {
        Some('\r')
    } else if c == 't' {
        Some('\t')
    } else {
        None
    }
}

/// Outcome of scanning a quoted string literal.
pub enum SpecLit {
    Hit { next: int, text: Seq<char> },
    Miss,
    BadEscape,
}

/// Scans a literal body from `i`, just past the opening quote, accumulating
/// the denoted text; an unterminated literal is a mismatch, an unrecognized
/// escape is fatal.
pub open spec fn spec_lit_body(s: Seq<char>, i: int, acc: Seq<char>) -> SpecLit
    decreases s.len() - i,
{
    if i < 0 || i >= s.len() {
        SpecLit::Miss
    } else if s[i] == '"' {
        SpecLit::Hit { next: i + 1, text: acc }
    } else if s[i] == '\\' {
        if i + 1 < s.len() && escape_ok(s[i + 1]) {
            spec_lit_body(s, i + 2, acc.push(escape_val(s[i + 1])))
        } else {
            SpecLit::BadEscape
        }
    } else {
        spec_lit_body(s, i + 1, acc.push(s[i]))
    }
}

/// The quoted string literal at `i`, if one stands there.
pub open spec fn spec_lit(s: Seq<char>, i: int) -> SpecLit {
    if 0 <= i < s.len() && s[i] == '"' {
        spec_lit_body(s, i + 1, Seq::empty())
    } else {
        SpecLit::Miss
    }
}

enum LitStep {
    Hit(usize, Vec<char>),
    Miss,
    BadEscape,
}

fn lit_body(t: &Vec<char>, i: usize, acc: Vec<char>) -> (r: LitStep)
    requires
        i <= t@.len(),
    ensures
        match (r, spec_lit_body(t@, i as int, acc@)) {
            (LitStep::Hit(n, text), SpecLit::Hit { next, text: st }) => n == next && text@ == st
                && i < n <= t@.len(),
            (LitStep::Miss, SpecLit::Miss) => true,
            (LitStep::BadEscape, SpecLit::BadEscape) => true,
            _ => false,
        },
    decreases t@.len() - i,
{
    if i >= t.len() {
        return LitStep::Miss;
    }
    let c = t[i];
    if c == '"' {
        LitStep::Hit(i + 1, acc)
    } else if c == '\\' {
        if i + 1 < t.len() {
            match esc_val(t[i + 1]) {
                Some(v) => {
                    let mut acc2 = acc;
                    acc2.push(v);
                    lit_body(t, i + 2, acc2)
                },
                None => LitStep::BadEscape,
            }
        } else {
            LitStep::BadEscape
        }
    } else {
        let mut acc2 = acc;
        acc2.push(c);
        lit_body(t, i + 1, acc2)
    }
}

fn str_lit(t: &Vec<char>, i: usize) -> (r: LitStep)
    requires
        i <= t@.len(),
    ensures
        match (r, spec_lit(t@, i as int)) {
            (LitStep::Hit(n, text), SpecLit::Hit { next, text: st }) => n == next && text@ == st
                && i < n <= t@.len(),
            (LitStep::Miss, SpecLit::Miss) => true,
            (LitStep::BadEscape, SpecLit::BadEscape) => true,
            _ => false,
        },
{
    if i < t.len() && t[i] == '"' {
        lit_body(t, i + 1, Vec::new())
    } else {
        LitStep::Miss
    }
}

/// Outcome of parsing one attribute entry.
pub enum SpecAttr {
    Hit { next: int, key: Seq<char>, val: Seq<char> },
    Miss,
    BadEscape,
}

/// One `name = "value"` entry with an optional `,` or `;` separator, every
/// part followed by trivia.
pub open spec fn spec_attr(s: Seq<char>, i: int) -> SpecAttr {
    match spec_ident(s, i) {
        None => SpecAttr::Miss,
        Some(id) => {
            let j = scan_trivia(s, id.0, false);
            if j < s.len() && s[j] == '=' {
                match spec_lit(s, scan_trivia(s, j + 1, false)) {
                    SpecLit::Miss => SpecAttr::Miss,
                    SpecLit::BadEscape => SpecAttr::BadEscape,
                    SpecLit::Hit { next, text } => {
                        let j3 = scan_trivia(s, next, false);
                        if j3 < s.len() && (s[j3] == ',' || s[j3] == ';') {
                            SpecAttr::Hit {
                                next: scan_trivia(s, j3 + 1, false),
                                key: id.1,
                                val: text,
                            }
                        } else {
                            SpecAttr::Hit { next: j3, key: id.1, val: text }
                        }
                    },
                }
            } else {
                SpecAttr::Miss
            }
        },
    }
}

enum AttrStep {
    Hit(usize, String, AttributeValue),
    Miss,
    BadEscape,
}

fn parse_attr(t: &Vec<char>, i: usize) -> (r: AttrStep)
    requires
        i <= t@.len(),
    ensures
        match (r, spec_attr(t@, i as int)) {
            (AttrStep::Hit(n, key, value), SpecAttr::Hit { next, key: sk, val: sv }) => n == next
                && key@ == sk && value@ == sv && i < n <= t@.len(),
            (AttrStep::Miss, SpecAttr::Miss) => true,
            (AttrStep::BadEscape, SpecAttr::BadEscape) => true,
            _ => false,
        },
{
    match identifier(t, i) {
        None => AttrStep::Miss,
        Some((e, key)) => {
            let j = commentable_spaces(t, e);
            if j < t.len() && t[j] == '=' {
                let j2 = commentable_spaces(t, j + 1);
                match str_lit(t, j2) {
                    LitStep::Miss => AttrStep::Miss,
                    LitStep::BadEscape => AttrStep::BadEscape,
                    LitStep::Hit(next, text) => {
                        let value = AttributeValue::Str(chars_to_string(&text));
                        let j3 = commentable_spaces(t, next);
                        let n = if j3 < t.len() && (t[j3] == ',' || t[j3] == ';') {
                            commentable_spaces(t, j3 + 1)
                        } else {
                            j3
                        };
                        AttrStep::Hit(n, key, value)
                    },
                }
            } else {
                AttrStep::Miss
            }
        },
    }
}

/// Outcome of parsing the attribute list.
pub enum SpecAttrs {
    Done { next: int, attrs: Map<Seq<char>, Seq<char>> },
    BadEscape,
}

/// Zero or more attribute entries from `i`: a mismatch backtracks and ends
/// the list, a bad escape is fatal, and a later key overwrites an earlier
/// one. An entry always advances the position, so the bounds test only keeps
/// the recursion well-founded.
pub open spec fn spec_attrs(s: Seq<char>, i: int, acc: Map<Seq<char>, Seq<char>>) -> SpecAttrs
    decreases s.len() - i,
{
    match spec_attr(s, i) {
        SpecAttr::Miss => SpecAttrs::Done { next: i, attrs: acc },
        SpecAttr::BadEscape => SpecAttrs::BadEscape,
        SpecAttr::Hit { next, key, val } => if i < next <= s.len() {
            spec_attrs(s, next, acc.insert(key, val))
        } else {
            SpecAttrs::Done { next: i, attrs: acc }
        },
    }
}

enum AttrsStep {
    Done(usize, Attributes),
    BadEscape,
}

fn parse_attrs(t: &Vec<char>, i: usize, acc: Attributes) -> (r: AttrsStep)
    requires
        i <= t@.len(),
    ensures
        match (r, spec_attrs(t@, i as int, acc@)) {
            (AttrsStep::Done(n, a), SpecAttrs::Done { next, attrs }) => n == next && a@ == attrs
                && i <= n <= t@.len(),
            (AttrsStep::BadEscape, SpecAttrs::BadEscape) => true,
            _ => false,
        },
    decreases t@.len() - i,
{
    match parse_attr(t, i) {
        AttrStep::Miss => AttrsStep::Done(i, acc),
        AttrStep::BadEscape => AttrsStep::BadEscape,
        AttrStep::Hit(n, key, value) => {
            let mut acc2 = acc;
            acc2.insert(key, value);
            parse_attrs(t, n, acc2)
        },
    }
}

/// The color a single-character code denotes.
pub open spec fn color_code(c: char) -> Option<Color> {
    if c == 'W' {
        Some(Color::White)
    } else if c == 'Y' {
        Some(Color::Yellow)
    } else if c == 'R' {
        Some(Color::Red)
    } else if c == 'O' {
        Some(Color::Orange)
    } else if c == 'B' {
        Some(Color::Blue)
    } else if c == 'G' {
        Some(Color::Green)
    } else if c == '.' {
        Some(Color::Mask)
    } else {
        None
    }
}

fn color_of(c: char) -> (r: Option<Color>)
    ensures
        r == color_code(c),
{
    if c == 'W' {
        Some(Color::White)
    } else if c == 'Y' {
        Some(Color::Yellow)
    } else if c == 'R' {
        Some(Color::Red)
    } else if c == 'O' {
        Some(Color::Orange)
    } else if c == 'B' {
        Some(Color::Blue)
    } else if c == 'G' {
        Some(Color::Green)
    } else if c == '.' {
        Some(Color::Mask)
    } else {
        None
    }
}

/// One color token at `i`, followed by trivia.
pub open spec fn spec_color(s: Seq<char>, i: int) -> Option<(int, Color)> {
    if 0 <= i < s.len() {
        match color_code(s[i]) {
            Some(col) => Some((scan_trivia(s, i + 1, false), col)),
            None => None,
        }
    } else {
        None
    }
}

fn parse_color(t: &Vec<char>, i: usize) -> (r: Option<(usize, Color)>)
    requires
        i <= t@.len(),
    ensures
        match r {
            Some(hit) => spec_color(t@, i as int) == Some((hit.0 as int, hit.1)) && i < hit.0
                <= t@.len(),
            None => spec_color(t@, i as int) is None,
        },
{
    if i < t.len() {
        match color_of(t[i]) {
            Some(col) => Some((commentable_spaces(t, i + 1), col)),
            None => None,
        }
    } else {
        None
    }
}

/// One or more color tokens from `i`; the list ends at the first position
/// with no color token. A color token always advances the position, so the
/// bounds test only keeps the recursion well-founded.
pub open spec fn spec_colors(s: Seq<char>, i: int, acc: Seq<Color>) -> Option<(int, Seq<Color>)>
    decreases s.len() - i,
{
    match spec_color(s, i) {
        None => if acc.len() > 0 {
            Some((i, acc))
        } else {
            None
        },
        Some(hit) => if i < hit.0 <= s.len() {
            spec_colors(s, hit.0, acc.push(hit.1))
        } else {
            None
        },
    }
}

fn parse_colors(t: &Vec<char>, i: usize, acc: Vec<Color>) -> (r: Option<(usize, Vec<Color>)>)
    requires
        i <= t@.len(),
    ensures
        match (r, spec_colors(t@, i as int, acc@)) {
            (Some(hit), Some(shit)) => hit.0 == shit.0 && hit.1@ == shit.1 && i <= hit.0
                <= t@.len(),
            (None, None) => true,
            _ => false,
        },
    decreases t@.len() - i,
{
    match parse_color(t, i) {
        None => if acc.len() > 0 {
            Some((i, acc))
        } else {
            None
        },
        Some((n, col)) => {
            let mut acc2 = acc;
            acc2.push(col);
            parse_colors(t, n, acc2)
        },
    }
}

/// Whether the characters of `pat` stand verbatim at `i`.
pub open spec fn spec_tag(s: Seq<char>, i: int, pat: Seq<char>) -> Option<int> {
    if 0 <= i && i + pat.len() <= s.len() && s.subrange(i, i + pat.len() as int) == pat {
        Some(i + pat.len() as int)
    } else {
        None
    }
}

fn tag(t: &Vec<char>, i: usize, pat: &str) -> (r: Option<usize>)
    requires
        i <= t@.len(),
    ensures
        match r {
            Some(e) => spec_tag(t@, i as int, pat@) == Some(e as int) && i <= e <= t@.len(),
            None => spec_tag(t@, i as int, pat@) is None,
        },
{
    let m = pat.unicode_len();
    let n = t.len();
    if m > n - i {
        return None;
    }
    let mut k: usize = 0;
    while k < m
        invariant
            m == pat@.len(),
            n == t@.len(),
            i + m <= n,
            k <= m,
            forall|q: int| 0 <= q < k ==> t@[i + q] == pat@[q],
        decreases m - k,
    {
        if t[i + k] != pat.get_char(k) {
            proof {
                assert(t@.subrange(i as int, i + m)[k as int] != pat@[k as int]);
            }
            return None;
        }
        k = k + 1;
    }
    proof {
        assert(t@.subrange(i as int, i + m) =~= pat@);
    }
    Some(i + m)
}

/// Outcome of parsing one top-level block.
pub enum SpecBlock {
    Hit { next: int, attrs: Map<Seq<char>, Seq<char>>, colors: Seq<Color> },
    Miss,
    BadEscape,
}

/// A `<keyword> { <attrs> <colors> }` block at the start of the input, with
/// trivia allowed around every token; at least one color is required.
pub open spec fn spec_block(s: Seq<char>, kw: Seq<char>) -> SpecBlock {
    match spec_tag(s, scan_trivia(s, 0, false), kw) {
        None => SpecBlock::Miss,
        Some(i1) => match spec_tag(s, scan_trivia(s, i1, false), "{"@) {
            None => SpecBlock::Miss,
            Some(i3) => match spec_attrs(s, scan_trivia(s, i3, false), Map::empty()) {
                SpecAttrs::BadEscape => SpecBlock::BadEscape,
                SpecAttrs::Done { next: i5, attrs } => match spec_colors(s, i5, Seq::empty()) {
                    None => SpecBlock::Miss,
                    Some(hit) => match spec_tag(s, hit.0, "}"@) {
                        None => SpecBlock::Miss,
                        Some(i7) => SpecBlock::Hit {
                            next: scan_trivia(s, i7, false),
                            attrs,
                            colors: hit.1,
                        },
                    },
                },
            },
        },
    }
}

enum BlockStep {
    Hit(usize, Attributes, Vec<Color>),
    Miss,
    BadEscape,
}

fn parse_block(t: &Vec<char>, kw: &str) -> (r: BlockStep)
    ensures
        match (r, spec_block(t@, kw@)) {
            (BlockStep::Hit(n, a, cs), SpecBlock::Hit { next, attrs, colors }) => n == next && a@
                == attrs && cs@ == colors,
            (BlockStep::Miss, SpecBlock::Miss) => true,
            (BlockStep::BadEscape, SpecBlock::BadEscape) => true,
            _ => false,
        },
{
    let i0 = commentable_spaces(t, 0);
    match tag(t, i0, kw) {
        None => BlockStep::Miss,
        Some(i1) => {
            let i2 = commentable_spaces(t, i1);
            match tag(t, i2, "{") {
                None => BlockStep::Miss,
                Some(i3) => {
                    let i4 = commentable_spaces(t, i3);
                    match parse_attrs(t, i4, Attributes::new()) {
                        AttrsStep::BadEscape => BlockStep::BadEscape,
                        AttrsStep::Done(i5, attrs) => {
                            match parse_colors(t, i5, Vec::new()) {
                                None => BlockStep::Miss,
                                Some((i6, colors)) => {
                                    match tag(t, i6, "}") {
                                        None => BlockStep::Miss,
                                        Some(i7) => BlockStep::Hit(
                                            commentable_spaces(t, i7),
                                            attrs,
                                            colors,
                                        ),
                                    }
                                },
                            }
                        },
                    }
                },
            }
        },
    }
}

/// What parsing denotes: a face model, a cube model, or a failure.
pub enum SpecOut {
    FaceOut { grid: Seq<Color>, side: Option<Seq<Color>>, attrs: Map<Seq<char>, Seq<char>> },
    CubeOut { faces: Seq<Seq<Color>>, attrs: Map<Seq<char>, Seq<char>> },
    Fail(ParseError),
}

/// Where grid cell `k` (row-major) of a 21-color face stream sits in the
/// stream: the grid is embedded in the plus-shaped net with one strip cell
/// on each side of every grid row.
pub open spec fn grid_slot_21(k: int) -> int {
    if k == 0 {
        4
    } else if k == 1 {
        5
    } else if k == 2 {
        6
    } else if k == 3 {
        9
    } else if k == 4 {
        10
    } else if k == 5 {
        11
    } else if k == 6 {
        14
    } else if k == 7 {
        15
    } else {
        16
    }
}

/// Where strip cell `k` of the flattened top/left/right/bottom strips of a
/// 21-color face stream sits in the stream.
pub open spec fn side_slot_21(k: int) -> int {
    if k == 0 {
        0
    } else if k == 1 {
        1
    } else if k == 2 {
        2
    } else if k == 3 {
        3
    } else if k == 4 {
        8
    } else if k == 5 {
        13
    } else if k == 6 {
        7
    } else if k == 7 {
        12
    } else if k == 8 {
        17
    } else if k == 9 {
        18
    } else if k == 10 {
        19
    } else {
        20
    }
}

/// Where cell `k` (row-major) of face `f` (in up/front/right/back/left/down
/// order) of a 54-color cube stream sits in the stream: the stream is nine
/// net rows of widths 3,3,3,12,12,12,3,3,3, and each middle row is quartered
/// into front, right, back and left segments.
pub open spec fn cube_slot(f: int, k: int) -> int {
    if f == 0 {
        k
    } else if f == 1 {
        9 + 12 * (k / 3) + k % 3
    } else if f == 2 {
        12 + 12 * (k / 3) + k % 3
    } else if f == 3 {
        15 + 12 * (k / 3) + k % 3
    } else if f == 4 {
        18 + 12 * (k / 3) + k % 3
    } else {
        45 + k
    }
}

/// The model a face block's colors denote: exactly 9 colors fill the grid
/// row-major, exactly 21 fill the grid and the four strips through the
/// documented slots, and any other count is an arity violation.
pub open spec fn face_from_colors(attrs: Map<Seq<char>, Seq<char>>, colors: Seq<Color>) -> SpecOut {
    if colors.len() == 9 {
        SpecOut::FaceOut { grid: colors, side: None, attrs }
    } else if colors.len() == 21 {
        SpecOut::FaceOut {
            grid: Seq::new(9, |k: int| colors[grid_slot_21(k)]),
            side: Some(Seq::new(12, |k: int| colors[side_slot_21(k)])),
            attrs,
        }
    } else {
        SpecOut::Fail(ParseError::ArityViolation)
    }
}

/// The model a cube block's colors denote: exactly 54 colors give six faces
/// through the documented slots, and any other count is an arity violation.
pub open spec fn cube_from_colors(attrs: Map<Seq<char>, Seq<char>>, colors: Seq<Color>) -> SpecOut {
    if colors.len() == 54 {
        SpecOut::CubeOut {
            faces: Seq::new(6, |f: int| Seq::new(9, |k: int| colors[cube_slot(f, k)])),
            attrs,
        }
    } else {
        SpecOut::Fail(ParseError::ArityViolation)
    }
}

/// What parsing the whole input yields: a `Face` block if one matches, else a
/// `Cube` block, else a grammar mismatch; a bad escape inside a block is
/// fatal, as is a wrong color count.
pub open spec fn spec_parse(s: Seq<char>) -> SpecOut {
    match spec_block(s, "Face"@) {
        SpecBlock::Hit { attrs, colors, .. } => face_from_colors(attrs, colors),
        SpecBlock::BadEscape => SpecOut::Fail(ParseError::EscapeSequenceError),
        SpecBlock::Miss => match spec_block(s, "Cube"@) {
            SpecBlock::Hit { attrs, colors, .. } => cube_from_colors(attrs, colors),
            SpecBlock::BadEscape => SpecOut::Fail(ParseError::EscapeSequenceError),
            SpecBlock::Miss => SpecOut::Fail(ParseError::GrammarMismatch),
        },
    }
}

/// The colors of `v` from `from` (inclusive) to `to` (exclusive).
fn subcolors(v: &Vec<Color>, from: usize, to: usize) -> (r: Vec<Color>)
    requires
        from <= to <= v@.len(),
    ensures
        r@ == v@.subrange(from as int, to as int),
{
    let mut out: Vec<Color> = Vec::new();
    let mut k: usize = from;
    while k < to
        invariant
            from <= k <= to <= v@.len(),
            out@ == v@.subrange(from as int, k as int),
        decreases to - k,
    {
        out.push(v[k]);
        proof {
            assert(out@ =~= v@.subrange(from as int, k + 1));
        }
        k = k + 1;
    }
    out
}

/// A face block's colors turned into the model.
fn build_face(attrs: Attributes, colors: Vec<Color>) -> (r: Result<CubeViz, ParseError>)
    ensures
        match r {
            Ok(cv) => cv matches CubeViz::Face(f) && face_from_colors(attrs@, colors@)
                matches SpecOut::FaceOut { grid, side, attrs: sa } && f.grid() == grid
                && f.side_strips() == side && f.attrs()@ == sa,
            Err(e) => face_from_colors(attrs@, colors@) == SpecOut::Fail(e),
        },
{
    let n = colors.len();
    let c = &colors;
    if n == 9 {
        let data: [[Color; 3]; 3] = [
            [c[0], c[1], c[2]],
            [c[3], c[4], c[5]],
            [c[6], c[7], c[8]],
        ];
        let f = Face::new(data, None, attrs);
        proof {
            assert forall|k: int| 0 <= k < 9 implies grid_of(data)[k] == colors@[k] by {
                if k < 3 {
                    assert(k / 3 == 0 && k % 3 == k);
                } else if k < 6 {
                    assert(k / 3 == 1 && k % 3 == k - 3);
                } else {
                    assert(k / 3 == 2 && k % 3 == k - 6);
                }
            }
            assert(grid_of(data) =~= colors@);
        }
        Ok(CubeViz::Face(f))
    } else if n == 21 {
        let data: [[Color; 3]; 3] = [
            [c[4], c[5], c[6]],
            [c[9], c[10], c[11]],
            [c[14], c[15], c[16]],
        ];
        let side: [[Color; 3]; 4] = [
            [c[0], c[1], c[2]],
            [c[3], c[8], c[13]],
            [c[7], c[12], c[17]],
            [c[18], c[19], c[20]],
        ];
        let f = Face::new(data, Some(side), attrs);
        proof {
            assert forall|k: int| 0 <= k < 9 implies grid_of(data)[k] == colors@[grid_slot_21(
                k,
            )] by {
                if k < 3 {
                    assert(k / 3 == 0 && k % 3 == k);
                } else if k < 6 {
                    assert(k / 3 == 1 && k % 3 == k - 3);
                } else {
                    assert(k / 3 == 2 && k % 3 == k - 6);
                }
            }
            assert(grid_of(data) =~= Seq::new(9, |k: int| colors@[grid_slot_21(k)]));
            assert forall|k: int| 0 <= k < 12 implies strips_of(side)[k] == colors@[side_slot_21(
                k,
            )] by {
                if k < 3 {
                    assert(k / 3 == 0 && k % 3 == k);
                } else if k < 6 {
                    assert(k / 3 == 1 && k % 3 == k - 3);
                } else if k < 9 {
                    assert(k / 3 == 2 && k % 3 == k - 6);
                } else {
                    assert(k / 3 == 3 && k % 3 == k - 9);
                }
            }
            assert(strips_of(side) =~= Seq::new(12, |k: int| colors@[side_slot_21(k)]));
        }
        Ok(CubeViz::Face(f))
    } else {
        Err(ParseError::ArityViolation)
    }
}

/// A cube block's colors turned into the model.
fn build_cube(attrs: Attributes, colors: Vec<Color>) -> (r: Result<CubeViz, ParseError>)
    ensures
        match r {
            Ok(cv) => cv matches CubeViz::Cube(c) && cube_from_colors(attrs@, colors@)
                matches SpecOut::CubeOut { faces, attrs: sa } && c.attrs()@ == sa && c.faces().len()
                == 6 && (forall|fi: int|
                0 <= fi < 6 ==> (#[trigger] c.faces()[fi]).grid() == faces[fi]) && (forall|fi: int|
                0 <= fi < 6 ==> (#[trigger] c.faces()[fi]).side_strips() is None) && (forall|
                fi: int,
                key: Seq<char>,
            |
                0 <= fi < 6 ==> (#[trigger] c.faces()[fi].attrs().spec_get(key)) is None),
            Err(e) => cube_from_colors(attrs@, colors@) == SpecOut::Fail(e),
        },
{
    let n = colors.len();
    if n != 54 {
        return Err(ParseError::ArityViolation);
    }
    let mut lines: Vec<Vec<Color>> = Vec::new();
    lines.push(subcolors(&colors, 0, 3));
    lines.push(subcolors(&colors, 3, 6));
    lines.push(subcolors(&colors, 6, 9));
    lines.push(subcolors(&colors, 9, 21));
    lines.push(subcolors(&colors, 21, 33));
    lines.push(subcolors(&colors, 33, 45));
    lines.push(subcolors(&colors, 45, 48));
    lines.push(subcolors(&colors, 48, 51));
    lines.push(subcolors(&colors, 51, 54));
    proof {
        assert(lines@.len() == 9);
        assert(lines@[0]@ == colors@.subrange(0, 3));
        assert(lines@[1]@ == colors@.subrange(3, 6));
        assert(lines@[2]@ == colors@.subrange(6, 9));
        assert(lines@[3]@ == colors@.subrange(9, 21));
        assert(lines@[4]@ == colors@.subrange(21, 33));
        assert(lines@[5]@ == colors@.subrange(33, 45));
        assert(lines@[6]@ == colors@.subrange(45, 48));
        assert(lines@[7]@ == colors@.subrange(48, 51));
        assert(lines@[8]@ == colors@.subrange(51, 54));
    }
    let cube = Cube::from(lines, attrs);
    proof {
        let ghost faces = Seq::new(6, |f: int| Seq::new(9, |k: int| colors@[cube_slot(f, k)]));
        assert forall|fi: int| 0 <= fi < 6 implies (#[trigger] cube.faces()[fi]).grid()
            == faces[fi] by {
            let target = faces[fi];
            assert forall|k: int| 0 <= k < 9 implies cube.faces()[fi].grid()[k] == target[k] by {
                let q = k / 3;
                let m = k % 3;
                assert(0 <= q < 3 && 0 <= m < 3 && k == 3 * q + m);
            }
            assert(cube.faces()[fi].grid() =~= faces[fi]);
        }
    }
    Ok(CubeViz::Cube(cube))
}

/// Parses one document into its model: a `Face` block if one matches, else a
/// `Cube` block; otherwise the grammar mismatch, arity violation or escape
/// error that `spec_parse` assigns to the input.
pub fn parse(input: &str) -> (r: Result<CubeViz, ParseError>)
    ensures
        match r {
            Ok(cv) => match cv {
                CubeViz::Face(f) => spec_parse(input@) matches SpecOut::FaceOut {
                    grid,
                    side,
                    attrs,
                } && f.grid() == grid && f.side_strips() == side && f.attrs()@ == attrs,
                CubeViz::Cube(c) => spec_parse(input@) matches SpecOut::CubeOut { faces, attrs }
                    && c.attrs()@ == attrs && c.faces().len() == 6 && (forall|fi: int|
                    0 <= fi < 6 ==> (#[trigger] c.faces()[fi]).grid() == faces[fi]) && (forall|
                    fi: int,
                |
                    0 <= fi < 6 ==> (#[trigger] c.faces()[fi]).side_strips() is None) && (forall|
                    fi: int,
                    key: Seq<char>,
                |
                    0 <= fi < 6 ==> (#[trigger] c.faces()[fi].attrs().spec_get(key)) is None),
            },
            Err(e) => spec_parse(input@) == SpecOut::Fail(e),
        },
{
    let t = to_chars(input);
    match parse_block(&t, "Face") {
        BlockStep::BadEscape => Err(ParseError::EscapeSequenceError),
        BlockStep::Hit(_, attrs, colors) => build_face(attrs, colors),
        BlockStep::Miss => match parse_block(&t, "Cube") {
            BlockStep::BadEscape => Err(ParseError::EscapeSequenceError),
            BlockStep::Hit(_, attrs, colors) => build_cube(attrs, colors),
            BlockStep::Miss => Err(ParseError::GrammarMismatch),
        },
    }
}

} // verus!
