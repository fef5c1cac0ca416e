//! Metric extraction: turning one line of text into zero or more
//! `(key, numeral)` pairs.
//!
//! A match is an identifier token (ASCII letters, digits and underscore)
//! that starts at a word boundary and whose last letters spell one of the
//! metric-name suffixes `loss`, `error`, `cost`, `acc` or `accuracy`,
//! compared case-insensitively. The token may be followed by horizontal
//! whitespace, one optional colon, and again horizontal whitespace — a line
//! break is not horizontal whitespace, so a value on the next physical line
//! is never attached — and must then be followed by a signed decimal numeral,
//! optionally with a fractional part and a scientific-notation exponent.
//! Matches are found left to right and do not overlap; the numeral text is
//! handed back verbatim (a trailing percent sign is simply not consumed).
//!
//! Key classification: when the line contains `test` (case-insensitively)
//! every key of that line gets the suffix `_test`; otherwise, when it
//! contains `val`, the suffix `_val`; otherwise the token is the key, with
//! its case preserved exactly as written.

use vstd::prelude::*;

verus! {

// ---------------------------------------------------------------------------
// Character classes (ASCII)
// ---------------------------------------------------------------------------
/// Word constituents: ASCII letters, digits, underscore.
pub open spec fn is_word_char(c: char) -> bool {
    ||| ('a' as u32) <= (c as u32) && (c as u32) <= ('z' as u32)
    ||| ('A' as u32) <= (c as u32) && (c as u32) <= ('Z' as u32)
    ||| ('0' as u32) <= (c as u32) && (c as u32) <= ('9' as u32)
    ||| c == '_'
}

/// Horizontal whitespace: whitespace except the line break.
pub open spec fn is_hspace(c: char) -> bool {
    c == ' ' || c == '\t' || c == '\r' || c == '\u{B}' || c == '\u{C}'
}

/// ASCII decimal digit.
pub open spec fn is_digit(c: char) -> bool {
    ('0' as u32) <= (c as u32) && (c as u32) <= ('9' as u32)
}

/// Case-insensitive match of a text character against a lowercase pattern
/// letter: equal, or the text character is its ASCII uppercase counterpart.
pub open spec fn char_matches_ci(c: char, l: char) -> bool {
    (c as u32) == (l as u32) || (c as u32) + 32 == (l as u32)
}

/// The lowercase pattern `pat` occurs at position `i` of `s`,
/// case-insensitively.
pub open spec fn ci_match_at(s: Seq<char>, i: int, pat: Seq<char>) -> bool {
    &&& 0 <= i
    &&& i + pat.len() <= s.len()
    &&& forall|j: int| 0 <= j < pat.len() ==> char_matches_ci(s[i + j], #[trigger] pat[j])
}

/// The lowercase pattern `pat` occurs somewhere in `s`, case-insensitively.
pub open spec fn contains_ci(s: Seq<char>, pat: Seq<char>) -> bool {
    exists|i: int| ci_match_at(s, i, pat)
}

// ---------------------------------------------------------------------------
// The metric-name vocabulary
// ---------------------------------------------------------------------------
pub open spec fn loss_chars() -> Seq<char> {
    seq!['l', 'o', 's', 's']
}

pub open spec fn error_chars() -> Seq<char> {
    seq!['e', 'r', 'r', 'o', 'r']
}

pub open spec fn cost_chars() -> Seq<char> {
    seq!['c', 'o', 's', 't']
}

pub open spec fn acc_chars() -> Seq<char> {
    seq!['a', 'c', 'c']
}

pub open spec fn accuracy_chars() -> Seq<char> {
    seq!['a', 'c', 'c', 'u', 'r', 'a', 'c', 'y']
}

pub open spec fn test_chars() -> Seq<char> {
    seq!['t', 'e', 's', 't']
}

pub open spec fn val_chars() -> Seq<char> {
    seq!['v', 'a', 'l']
}

pub open spec fn test_suffix_chars() -> Seq<char> {
    seq!['_', 't', 'e', 's', 't']
}

pub open spec fn val_suffix_chars() -> Seq<char> {
    seq!['_', 'v', 'a', 'l']
}

/// The token spanning positions `p` to `q` of `s` ends, case-insensitively,
/// in one of the metric-name suffixes.
pub open spec fn ends_with_metric_suffix(s: Seq<char>, p: int, q: int) -> bool {
    ||| q - p >= 4 && ci_match_at(s, q - 4, loss_chars())
    ||| q - p >= 5 && ci_match_at(s, q - 5, error_chars())
    ||| q - p >= 4 && ci_match_at(s, q - 4, cost_chars())
    ||| q - p >= 3 && ci_match_at(s, q - 3, acc_chars())
    ||| q - p >= 8 && ci_match_at(s, q - 8, accuracy_chars())
}

// ---------------------------------------------------------------------------
// Scanning positions
// ---------------------------------------------------------------------------
/// First position at or after `i` that is not a word constituent.
pub open spec fn word_end(s: Seq<char>, i: int) -> int
    decreases s.len() - i,
    when 0 <= i <= s.len()
{
    if i >= s.len() || !is_word_char(s[i]) {
        i
    } else {
        word_end(s, i + 1)
    }
}

/// First position at or after `i` that is not horizontal whitespace.
pub open spec fn hspace_end(s: Seq<char>, i: int) -> int
    decreases s.len() - i,
    when 0 <= i <= s.len()
{
    if i >= s.len() || !is_hspace(s[i]) {
        i
    } else {
        hspace_end(s, i + 1)
    }
}

/// First position at or after `i` that is not a digit.
pub open spec fn digits_end(s: Seq<char>, i: int) -> int
    decreases s.len() - i,
    when 0 <= i <= s.len()
{
    if i >= s.len() || !is_digit(s[i]) {
        i
    } else {
        digits_end(s, i + 1)
    }
}

/// End of the separator run after a token: horizontal whitespace, one
/// optional colon, horizontal whitespace again.
pub open spec fn sep_end(s: Seq<char>, q: int) -> int
    recommends
        0 <= q <= s.len(),
{
    let a = hspace_end(s, q);
    if a < s.len() && s[a] == ':' {
        hspace_end(s, a + 1)
    } else {
        a
    }
}

/// End of a numeral starting at `m`: an optional minus sign, at least one
/// digit, an optional fractional part (a dot followed by at least one
/// digit), and an optional exponent (`e` or `E`, an optional minus sign,
/// at least one digit). `None` when no numeral starts at `m`. Each optional
/// part is taken exactly when it is fully present.
pub open spec fn num_end(s: Seq<char>, m: int) -> Option<int>
    recommends
        0 <= m <= s.len(),
{
    let d0 = if m < s.len() && s[m] == '-' {
        m + 1
    } else {
        m
    };
    let d1 = digits_end(s, d0);
    if d1 == d0 {
        None
    } else {
        let d2 = if d1 + 1 < s.len() && s[d1] == '.' && is_digit(s[d1 + 1]) {
            digits_end(s, d1 + 1)
        } else {
            d1
        };
        let d3 = if d2 < s.len() && (s[d2] == 'e' || s[d2] == 'E') {
            let k = if d2 + 1 < s.len() && s[d2 + 1] == '-' {
                d2 + 2
            } else {
                d2 + 1
            };
            if k < s.len() && is_digit(s[k]) {
                digits_end(s, k)
            } else {
                d2
            }
        } else {
            d2
        };
        Some(d3)
    }
}

// ---------------------------------------------------------------------------
// Matches
// ---------------------------------------------------------------------------
/// A word token starts at `p`: a word constituent not preceded by one.
pub open spec fn word_start(s: Seq<char>, p: int) -> bool {
    &&& 0 <= p < s.len()
    &&& is_word_char(s[p])
    &&& (p == 0 || !is_word_char(s[p - 1]))
}

/// A full match begins at `p`: a token starting there ends in a metric-name
/// suffix and is followed, after the separator run, by a numeral.
pub open spec fn match_at(s: Seq<char>, p: int) -> bool {
    &&& word_start(s, p)
    &&& ends_with_metric_suffix(s, p, word_end(s, p))
    &&& num_end(s, sep_end(s, word_end(s, p))) is Some
}

/// Where the numeral of the match at `p` starts.
pub open spec fn num_start(s: Seq<char>, p: int) -> int {
    sep_end(s, word_end(s, p))
}

/// Where the match at `p` ends (one past its numeral).
pub open spec fn match_end(s: Seq<char>, p: int) -> int {
    match num_end(s, num_start(s, p)) {
        Some(e) => e,
        None => p,
    }
}

/// The `(token, numeral)` pairs of all matches at or after `pos`, in
/// left-to-right order, non-overlapping: after a match the scan resumes at
/// its end.
pub open spec fn scan_from(s: Seq<char>, pos: int) -> Seq<(Seq<char>, Seq<char>)>
    decreases s.len() - pos,
    when 0 <= pos <= s.len()
    via scan_from_dec
{
    if pos >= s.len() {
        seq![]
    } else if match_at(s, pos) {
        seq![(s.subrange(pos, word_end(s, pos)), s.subrange(num_start(s, pos), match_end(s, pos)))]
            + scan_from(s, match_end(s, pos))
    } else {
        scan_from(s, pos + 1)
    }
}

/// The classification suffix a line imposes on every key extracted from it.
pub open spec fn classified_key(line: Seq<char>, key: Seq<char>) -> Seq<char> {
    if contains_ci(line, test_chars()) {
        key + test_suffix_chars()
    } else if contains_ci(line, val_chars()) {
        key + val_suffix_chars()
    } else {
        key
    }
}

/// All `(classified key, numeral)` pairs of a line, in match order.
pub open spec fn spec_extractions(line: Seq<char>) -> Seq<(Seq<char>, Seq<char>)> {
    scan_from(line, 0).map_values(|p: (Seq<char>, Seq<char>)| (classified_key(line, p.0), p.1))
}

// ---------------------------------------------------------------------------
// Bounds lemmas
// ---------------------------------------------------------------------------
pub proof fn lemma_word_end_bounds(s: Seq<char>, i: int)
    requires
        0 <= i <= s.len(),
    ensures
        i <= word_end(s, i) <= s.len(),
    decreases s.len() - i,
{
    if i < s.len() && is_word_char(s[i]) {
        lemma_word_end_bounds(s, i + 1);
    }
}

pub proof fn lemma_hspace_end_bounds(s: Seq<char>, i: int)
    requires
        0 <= i <= s.len(),
    ensures
        i <= hspace_end(s, i) <= s.len(),
    decreases s.len() - i,
{
    if i < s.len() && is_hspace(s[i]) {
        lemma_hspace_end_bounds(s, i + 1);
    }
}

pub proof fn lemma_digits_end_bounds(s: Seq<char>, i: int)
    requires
        0 <= i <= s.len(),
    ensures
        i <= digits_end(s, i) <= s.len(),
    decreases s.len() - i,
{
    if i < s.len() && is_digit(s[i]) {
        lemma_digits_end_bounds(s, i + 1);
    }
}

pub proof fn lemma_sep_end_bounds(s: Seq<char>, q: int)
    requires
        0 <= q <= s.len(),
    ensures
        q <= sep_end(s, q) <= s.len(),
{
    lemma_hspace_end_bounds(s, q);
    let a = hspace_end(s, q);
    if a < s.len() && s[a] == ':' {
        lemma_hspace_end_bounds(s, a + 1);
    }
}

pub proof fn lemma_num_end_bounds(s: Seq<char>, m: int)
    requires
        0 <= m <= s.len(),
        num_end(s, m) is Some,
    ensures
        m < match num_end(s, m) {
            Some(e) => e,
            None => m,
        } <= s.len(),
{
    let d0 = if m < s.len() && s[m] == '-' {
        m + 1
    } else {
        m
    };
    lemma_digits_end_bounds(s, d0);
    let d1 = digits_end(s, d0);
    if d1 + 1 < s.len() && s[d1] == '.' && is_digit(s[d1 + 1]) {
        lemma_digits_end_bounds(s, d1 + 1);
    }
    let d2 = if d1 + 1 < s.len() && s[d1] == '.' && is_digit(s[d1 + 1]) {
        digits_end(s, d1 + 1)
    } else {
        d1
    };
    if d2 < s.len() && (s[d2] == 'e' || s[d2] == 'E') {
        let k = if d2 + 1 < s.len() && s[d2 + 1] == '-' {
            d2 + 2
        } else {
            d2 + 1
        };
        if k < s.len() && is_digit(s[k]) {
            lemma_digits_end_bounds(s, k);
        }
    }
}

/// A match occupies at least its first token character: it ends strictly
/// after `p` and within the line.
pub proof fn lemma_match_end_bounds(s: Seq<char>, p: int)
    requires
        match_at(s, p),
    ensures
        p < match_end(s, p) <= s.len(),
        p < word_end(s, p),
        word_end(s, p) <= num_start(s, p) <= match_end(s, p),
{
    lemma_word_end_bounds(s, p + 1);
    let q = word_end(s, p);
    lemma_sep_end_bounds(s, q);
    let m = num_start(s, p);
    lemma_num_end_bounds(s, m);
}

#[via_fn]
proof fn scan_from_dec(s: Seq<char>, pos: int) {
    if pos < s.len() && match_at(s, pos) {
        lemma_match_end_bounds(s, pos);
    }
}

proof fn lemma_hspace_end_chars(s: Seq<char>, i: int)
    requires
        0 <= i <= s.len(),
    ensures
        forall|j: int| i <= j < hspace_end(s, i) ==> is_hspace(#[trigger] s[j]),
    decreases s.len() - i,
{
    if i < s.len() && is_hspace(s[i]) {
        lemma_hspace_end_chars(s, i + 1);
    }
}

/// A numeral is attached to a token only across horizontal whitespace and
/// at most one colon: the separator run of a match never contains a line
/// break, so a value on the next physical line is never attached.
pub proof fn lemma_no_newline_in_separator(s: Seq<char>, p: int)
    requires
        match_at(s, p),
    ensures
        forall|j: int| word_end(s, p) <= j < num_start(s, p) ==> #[trigger] s[j] != '\n',
{
    let q = word_end(s, p);
    lemma_word_end_bounds(s, p);
    lemma_hspace_end_chars(s, q);
    let a = hspace_end(s, q);
    lemma_hspace_end_bounds(s, q);
    if a < s.len() && s[a] == ':' {
        lemma_hspace_end_chars(s, a + 1);
        lemma_hspace_end_bounds(s, a + 1);
    }
}

/// On a line whose every token fails to end in a metric-name suffix, the
/// extraction is empty.
pub proof fn lemma_no_suffix_no_extraction(s: Seq<char>)
    requires
        forall|p: int|
            0 <= p < s.len() ==> !ends_with_metric_suffix(s, p, #[trigger] word_end(s, p)),
    ensures
        spec_extractions(s) == Seq::<(Seq<char>, Seq<char>)>::empty(),
{
    lemma_scan_empty_when_no_suffix(s, 0);
    assert(spec_extractions(s) =~= Seq::<(Seq<char>, Seq<char>)>::empty());
}

proof fn lemma_scan_empty_when_no_suffix(s: Seq<char>, pos: int)
    requires
        0 <= pos <= s.len(),
        forall|p: int|
            0 <= p < s.len() ==> !ends_with_metric_suffix(s, p, #[trigger] word_end(s, p)),
    ensures
        scan_from(s, pos) == Seq::<(Seq<char>, Seq<char>)>::empty(),
    decreases s.len() - pos,
{
    if pos < s.len() {
        assert(!match_at(s, pos));
        lemma_scan_empty_when_no_suffix(s, pos + 1);
    }
}

// ---------------------------------------------------------------------------
// Executable scanner
// ---------------------------------------------------------------------------
/// One extraction: the classified metric key (case preserved as written on
/// the line) and the verbatim text of its numeral.
pub struct Extraction {
    pub key: String,
    pub numeral: String,
}

impl View for Extraction {
    type V = (Seq<char>, Seq<char>);

    open spec fn view(&self) -> (Seq<char>, Seq<char>) {
        (self.key@, self.numeral@)
    }
}

fn chars_vec(s: &str) -> (v: Vec<char>)
    ensures
        v@ == s@,
{
    let n = s.unicode_len();
    let mut v: Vec<char> = Vec::new();
    let mut i: usize = 0;
    while i < n
        invariant
            n == s@.len(),
            i <= n,
            v@ == s@.subrange(0, i as int),
        decreases n - i,
    {
        v.push(s.get_char(i));
        i += 1;
        proof {
            assert(v@ =~= s@.subrange(0, i as int));
        }
    }
    proof {
        assert(v@ =~= s@);
    }
    v
}

fn is_word_char_exec(c: char) -> (r: bool)
    ensures
        r == is_word_char(c),
{
    let u = c as u32;
    (('a' as u32) <= u && u <= ('z' as u32)) || (('A' as u32) <= u && u <= ('Z' as u32)) || (('0'
        as u32) <= u && u <= ('9' as u32)) || c == '_'
}

fn is_hspace_exec(c: char) -> (r: bool)
    ensures
        r == is_hspace(c),
{
    c == ' ' || c == '\t' || c == '\r' || c == '\u{B}' || c == '\u{C}'
}

fn is_digit_exec(c: char) -> (r: bool)
    ensures
        r == is_digit(c),
{
    let u = c as u32;
    ('0' as u32) <= u && u <= ('9' as u32)
}

fn char_matches_ci_exec(c: char, l: char) -> (r: bool)
    ensures
        r == char_matches_ci(c, l),
{
    let cu = c as u32;
    let lu = l as u32;
    cu == lu || cu + 32 == lu
}

fn ci_match_at_exec(s: &Vec<char>, i: usize, pat: &Vec<char>) -> (r: bool)
    requires
        i + pat@.len() <= s@.len(),
    ensures
        r == ci_match_at(s@, i as int, pat@),
{
    let n = s.len();
    let pl = pat.len();
    let mut j: usize = 0;
    while j < pl
        invariant
            n == s@.len(),
            i + pl <= n,
            pl == pat@.len(),
            j <= pl,
            forall|jj: int| 0 <= jj < j ==> char_matches_ci(s@[i + jj], #[trigger] pat@[jj]),
        decreases pl - j,
    {
        if !char_matches_ci_exec(s[i + j], pat[j]) {
            return false;
        }
        j += 1;
    }
    true
}

fn contains_pat_ci(s: &Vec<char>, pat: &Vec<char>) -> (r: bool)
    ensures
        r == contains_ci(s@, pat@),
{
    let n = s.len();
    let pl = pat.len();
    if pl > n {
        return false;
    }
    let mut i: usize = 0;
    while i <= n - pl
        invariant
            pl <= n,
            n == s@.len(),
            pl == pat@.len(),
            i <= n - pl + 1,
            forall|ii: int| 0 <= ii < i ==> !ci_match_at(s@, ii, pat@),
        decreases n - i,
    {
        if ci_match_at_exec(s, i, pat) {
            return true;
        }
        i += 1;
    }
    proof {
        if contains_ci(s@, pat@) {
            let ii = choose|ii: int| ci_match_at(s@, ii, pat@);
            assert(!ci_match_at(s@, ii, pat@));
        }
    }
    false
}

fn pat_loss() -> (v: Vec<char>)
    ensures
        v@ == loss_chars(),
{
    let mut v: Vec<char> = Vec::new();
    v.push('l');
    v.push('o');
    v.push('s');
    v.push('s');
    proof {
        assert(v@ =~= loss_chars());
    }
    v
}

fn pat_error() -> (v: Vec<char>)
    ensures
        v@ == error_chars(),
{
    let mut v: Vec<char> = Vec::new();
    v.push('e');
    v.push('r');
    v.push('r');
    v.push('o');
    v.push('r');
    proof {
        assert(v@ =~= error_chars());
    }
    v
}

fn pat_cost() -> (v: Vec<char>)
    ensures
        v@ == cost_chars(),
{
    let mut v: Vec<char> = Vec::new();
    v.push('c');
    v.push('o');
    v.push('s');
    v.push('t');
    proof {
        assert(v@ =~= cost_chars());
    }
    v
}

fn pat_acc() -> (v: Vec<char>)
    ensures
        v@ == acc_chars(),
{
    let mut v: Vec<char> = Vec::new();
    v.push('a');
    v.push('c');
    v.push('c');
    proof {
        assert(v@ =~= acc_chars());
    }
    v
}

fn pat_accuracy() -> (v: Vec<char>)
    ensures
        v@ == accuracy_chars(),
{
    let mut v: Vec<char> = Vec::new();
    v.push('a');
    v.push('c');
    v.push('c');
    v.push('u');
    v.push('r');
    v.push('a');
    v.push('c');
    v.push('y');
    proof {
        assert(v@ =~= accuracy_chars());
    }
    v
}

fn pat_test() -> (v: Vec<char>)
    ensures
        v@ == test_chars(),
{
    let mut v: Vec<char> = Vec::new();
    v.push('t');
    v.push('e');
    v.push('s');
    v.push('t');
    proof {
        assert(v@ =~= test_chars());
    }
    v
}

fn pat_val() -> (v: Vec<char>)
    ensures
        v@ == val_chars(),
{
    let mut v: Vec<char> = Vec::new();
    v.push('v');
    v.push('a');
    v.push('l');
    proof {
        assert(v@ =~= val_chars());
    }
    v
}

fn word_end_exec(s: &Vec<char>, i: usize) -> (r: usize)
    requires
        i <= s@.len(),
    ensures
        r as int == word_end(s@, i as int),
        i <= r <= s@.len(),
{
    let n = s.len();
    let mut j = i;
    loop
        invariant_except_break
            n == s@.len(),
            i <= j <= n,
            word_end(s@, i as int) == word_end(s@, j as int),
        ensures
            j as int == word_end(s@, i as int),
            i <= j <= n,
        decreases n - j,
    {
        if j == n {
            break ;
        }
        if !is_word_char_exec(s[j]) {
            break ;
        }
        j += 1;
    }
    j
}

fn hspace_end_exec(s: &Vec<char>, i: usize) -> (r: usize)
    requires
        i <= s@.len(),
    ensures
        r as int == hspace_end(s@, i as int),
        i <= r <= s@.len(),
{
    let n = s.len();
    let mut j = i;
    loop
        invariant_except_break
            n == s@.len(),
            i <= j <= n,
            hspace_end(s@, i as int) == hspace_end(s@, j as int),
        ensures
            j as int == hspace_end(s@, i as int),
            i <= j <= n,
        decreases n - j,
    {
        if j == n {
            break ;
        }
        if !is_hspace_exec(s[j]) {
            break ;
        }
        j += 1;
    }
    j
}

fn digits_end_exec(s: &Vec<char>, i: usize) -> (r: usize)
    requires
        i <= s@.len(),
    ensures
        r as int == digits_end(s@, i as int),
        i <= r <= s@.len(),
{
    let n = s.len();
    let mut j = i;
    loop
        invariant_except_break
            n == s@.len(),
            i <= j <= n,
            digits_end(s@, i as int) == digits_end(s@, j as int),
        ensures
            j as int == digits_end(s@, i as int),
            i <= j <= n,
        decreases n - j,
    {
        if j == n {
            break ;
        }
        if !is_digit_exec(s[j]) {
            break ;
        }
        j += 1;
    }
    j
}

fn sep_end_exec(s: &Vec<char>, q: usize) -> (r: usize)
    requires
        q <= s@.len(),
    ensures
        r as int == sep_end(s@, q as int),
        q <= r <= s@.len(),
{
    let a = hspace_end_exec(s, q);
    if a < s.len() && s[a] == ':' {
        hspace_end_exec(s, a + 1)
    } else {
        a
    }
}

fn num_end_exec(s: &Vec<char>, m: usize) -> (r: Option<usize>)
    requires
        m <= s@.len(),
    ensures
        match r {
            Some(e) => num_end(s@, m as int) == Some(e as int) && m < e <= s@.len(),
            None => num_end(s@, m as int) is None,
        },
{
    let n = s.len();
    let d0 = if m < n && s[m] == '-' {
        m + 1
    } else {
        m
    };
    let d1 = digits_end_exec(s, d0);
    if d1 == d0 {
        return None;
    }
    let d2 = if d1 < n && s[d1] == '.' && d1 + 1 < n && is_digit_exec(s[d1 + 1]) {
        digits_end_exec(s, d1 + 1)
    } else {
        d1
    };
    let d3 = if d2 < n && (s[d2] == 'e' || s[d2] == 'E') {
        let k = if d2 + 1 < n && s[d2 + 1] == '-' {
            d2 + 2
        } else {
            d2 + 1
        };
        if k < n && is_digit_exec(s[k]) {
            digits_end_exec(s, k)
        } else {
            d2
        }
    } else {
        d2
    };
    Some(d3)
}

/// On a full match at `p`, the token end, numeral start and match end;
/// `None` when no match begins at `p`.
fn try_match_at(s: &Vec<char>, p: usize) -> (r: Option<(usize, usize, usize)>)
    requires
        p < s@.len(),
    ensures
        match r {
            Some(t) => {
                &&& match_at(s@, p as int)
                &&& t.0 as int == word_end(s@, p as int)
                &&& t.1 as int == num_start(s@, p as int)
                &&& t.2 as int == match_end(s@, p as int)
                &&& p < t.2 <= s@.len()
                &&& p <= t.0 <= t.1 <= t.2
            },
            None => !match_at(s@, p as int),
        },
{
    if !is_word_char_exec(s[p]) {
        return None;
    }
    if p > 0 && is_word_char_exec(s[p - 1]) {
        return None;
    }
    let q = word_end_exec(s, p);
    let suffix_found = {
        let loss = pat_loss();
        let error = pat_error();
        let cost = pat_cost();
        let acc = pat_acc();
        let accuracy = pat_accuracy();
        (q - p >= 4 && ci_match_at_exec(s, q - 4, &loss)) || (q - p >= 5 && ci_match_at_exec(
            s,
            q - 5,
            &error,
        )) || (q - p >= 4 && ci_match_at_exec(s, q - 4, &cost)) || (q - p >= 3
            && ci_match_at_exec(s, q - 3, &acc)) || (q - p >= 8 && ci_match_at_exec(
            s,
            q - 8,
            &accuracy,
        ))
    };
    if !suffix_found {
        assert(!ends_with_metric_suffix(s@, p as int, word_end(s@, p as int)));
        return None;
    }
    let m = sep_end_exec(s, q);
    match num_end_exec(s, m) {
        None => None,
        Some(e) => Some((q, m, e)),
    }
}

/// Extracts every metric match of `line`, left to right: the classified key
/// (the token, plus `_test` or `_val` when the line contains `test` or
/// `val` case-insensitively) and the verbatim numeral text.
pub fn extract_metrics(line: &str) -> (r: Vec<Extraction>)
    ensures
        r@.map_values(|e: Extraction| e@) == spec_extractions(line@),
{
    let chars = chars_vec(line);
    let n = chars.len();
    let has_test = {
        let t = pat_test();
        contains_pat_ci(&chars, &t)
    };
    let has_val = {
        let v = pat_val();
        contains_pat_ci(&chars, &v)
    };
    let mut out: Vec<Extraction> = Vec::new();
    let mut pos: usize = 0;
    let ghost classify = |p: (Seq<char>, Seq<char>)| (classified_key(line@, p.0), p.1);
    loop
        invariant_except_break
            chars@ == line@,
            n == chars@.len(),
            pos <= n,
            has_test == contains_ci(line@, test_chars()),
            has_val == contains_ci(line@, val_chars()),
            classify == (|p: (Seq<char>, Seq<char>)| (classified_key(line@, p.0), p.1)),
            out@.map_values(|e: Extraction| e@) + scan_from(line@, pos as int).map_values(classify)
                == spec_extractions(line@),
        ensures
            out@.map_values(|e: Extraction| e@) == spec_extractions(line@),
        decreases n - pos,
    {
        if pos == n {
            proof {
                assert(scan_from(line@, pos as int).map_values(classify) =~= Seq::<
                    (Seq<char>, Seq<char>),
                >::empty());
                assert(out@.map_values(|e: Extraction| e@) =~= out@.map_values(
                    |e: Extraction| e@,
                ) + scan_from(line@, pos as int).map_values(classify));
            }
            break ;
        }
        match try_match_at(&chars, pos) {
            None => {
                proof {
                    assert(scan_from(line@, pos as int) == scan_from(line@, pos as int + 1));
                }
                pos += 1;
            },
            Some((q, m, e)) => {
                let base = line.substring_char(pos, q);
                let key: String = if has_test {
                    String::from_str(base).concat("_test")
                } else if has_val {
                    String::from_str(base).concat("_val")
                } else {
                    String::from_str(base)
                };
                let numeral = String::from_str(line.substring_char(m, e));
                proof {
                    reveal_strlit("_test");
                    reveal_strlit("_val");
                    assert("_test"@ =~= test_suffix_chars());
                    assert("_val"@ =~= val_suffix_chars());
                    assert(key@ == classified_key(line@, line@.subrange(pos as int, q as int)));
                }
                let extraction = Extraction { key, numeral };
                proof {
                    let ghost old_out = out@;
                    let ghost raw = (
                        line@.subrange(pos as int, q as int),
                        line@.subrange(m as int, e as int),
                    );
                    assert(scan_from(line@, pos as int) =~= seq![raw] + scan_from(
                        line@,
                        e as int,
                    ));
                    assert(old_out.push(extraction).map_values(|x: Extraction| x@) =~= old_out
                        .map_values(|x: Extraction| x@).push(extraction@));
                    assert((seq![raw] + scan_from(line@, e as int)).map_values(classify) =~= seq![
                        classify(raw),
                    ] + scan_from(line@, e as int).map_values(classify));
                    assert(old_out.map_values(|x: Extraction| x@).push(extraction@) + scan_from(
                        line@,
                        e as int,
                    ).map_values(classify) =~= old_out.map_values(|x: Extraction| x@) + (seq![
                        classify(raw),
                    ] + scan_from(line@, e as int).map_values(classify)));
                }
                out.push(extraction);
                pos = e;
            },
        }
    }
    out
}

} // verus!
