//! The word-correction pass: each whitespace-separated token of a transcript
//! is compared with a list of user words by edit distance and by Soundex
//! code, and replaced by the best match under a threshold.

use vstd::prelude::*;
use vstd::string::StrSliceExecFns;
use vstd::string::StringExecFns;

verus! {

/// Whether `c` is alphabetic in Unicode's sense.
pub uninterp spec fn is_alpha(c: char) -> bool;

/// Whether `c` is upper case in Unicode's sense.
pub uninterp spec fn is_upper(c: char) -> bool;

/// Whether `c` has Unicode's White_Space property.
pub open spec fn is_space(c: char) -> bool {
    let u = c as u32;
    (0x09 <= u <= 0x0d) || u == 0x20 || u == 0x85 || u == 0xa0 || u == 0x1680
        || (0x2000 <= u <= 0x200a) || u == 0x2028 || u == 0x2029 || u == 0x202f || u == 0x205f
        || u == 0x3000
}

/// The Unicode lower-case mapping of a string.
pub uninterp spec fn lower_of(s: Seq<char>) -> Seq<char>;

/// The Unicode upper-case mapping of a string.
pub uninterp spec fn upper_of(s: Seq<char>) -> Seq<char>;

/// The first character of the upper-case mapping of `c`.
pub uninterp spec fn first_upper(c: char) -> char;

/// The Levenshtein distance between two strings, counted in characters:
/// the fewest single-character insertions, deletions and substitutions that
/// turn `a` into `b`.
pub open spec fn edit_distance(a: Seq<char>, b: Seq<char>) -> nat
    decreases a.len() + b.len(),
{
    if a.len() == 0 {
        b.len()
    } else if b.len() == 0 {
        a.len()
    } else {
        let del = edit_distance(a.drop_last(), b) + 1;
        let ins = edit_distance(a, b.drop_last()) + 1;
        let sub = edit_distance(a.drop_last(), b.drop_last()) + (if a.last() == b.last() { 0nat } else { 1nat });
        if del <= ins && del <= sub {
            del
        } else if ins <= sub {
            ins
        } else {
            sub
        }
    }
}

/// Whether two non-empty words share their Soundex code.
pub uninterp spec fn sounds_alike(a: Seq<char>, b: Seq<char>) -> bool;

/// Relies on `char::is_alphabetic`.
#[verifier::external_body]
fn alphabetic(c: char) -> (r: bool)
    ensures
        r == is_alpha(c),
{
    c.is_alphabetic()
}

/// Relies on `char::is_uppercase`.
#[verifier::external_body]
fn uppercase(c: char) -> (r: bool)
    ensures
        r == is_upper(c),
{
    c.is_uppercase()
}

/// Whether `c` is white space (what `char::is_whitespace` answers).
pub(crate) fn whitespace(c: char) -> (r: bool)
    ensures
        r == is_space(c),
{
    let u = c as u32;
    (0x09 <= u && u <= 0x0d) || u == 0x20 || u == 0x85 || u == 0xa0 || u == 0x1680
        || (0x2000 <= u && u <= 0x200a) || u == 0x2028 || u == 0x2029 || u == 0x202f || u == 0x205f
        || u == 0x3000
}

/// Relies on `str::to_lowercase`: the mapping depends on the characters
/// alone.
#[verifier::external_body]
pub(crate) fn to_lower(s: &str) -> (r: String)
    ensures
        r@ == lower_of(s@),
{
    s.to_lowercase()
}

/// Relies on `str::to_uppercase`: the mapping depends on the characters
/// alone.
#[verifier::external_body]
fn to_upper(s: &str) -> (r: String)
    ensures
        r@ == upper_of(s@),
{
    s.to_uppercase()
}

/// Relies on `char::to_uppercase`: its first character, or `c` itself when
/// the mapping is empty.
#[verifier::external_body]
fn upper_first_char(c: char) -> (r: char)
    ensures
        r == first_upper(c),
{
    c.to_uppercase().next().unwrap_or(c)
}

/// Relies on `strsim::levenshtein`: the Levenshtein distance, in
/// characters.
#[verifier::external_body]
fn levenshtein(a: &str, b: &str) -> (r: usize)
    ensures
        r == edit_distance(a@, b@),
{
    strsim::levenshtein(a, b)
}

/// Relies on `natural::phonetics::soundex`, which indexes the first
/// character of each word and so needs both non-empty.
#[verifier::external_body]
fn soundex(a: &str, b: &str) -> (r: bool)
    requires
        a@.len() > 0,
        b@.len() > 0,
    ensures
        r == sounds_alike(a@, b@),
{
    natural::phonetics::soundex(a, b)
}

/// Relies on `Iterator::collect` of characters into a `String`, which keeps
/// them in order.
#[verifier::external_body]
pub(crate) fn string_from_chars(v: &Vec<char>) -> (r: String)
    ensures
        r@ == v@,
{
    v.iter().collect()
}

/// Number of leading non-alphabetic characters.
pub open spec fn lead_len(s: Seq<char>) -> nat
    decreases s.len(),
{
    if s.len() == 0 || is_alpha(s[0]) {
        0
    } else {
        1 + lead_len(s.drop_first())
    }
}

/// Number of trailing non-alphabetic characters.
pub open spec fn trail_len(s: Seq<char>) -> nat
    decreases s.len(),
{
    if s.len() == 0 || is_alpha(s.last()) {
        0
    } else {
        1 + trail_len(s.drop_last())
    }
}

proof fn lemma_lead_len(s: Seq<char>, i: int)
    requires
        0 <= i <= s.len(),
        forall|j: int| 0 <= j < i ==> !is_alpha(#[trigger] s[j]),
        i == s.len() || is_alpha(s[i]),
    ensures
        lead_len(s) == i,
    decreases i,
{
    if i > 0 {
        assert forall|j: int| 0 <= j < i - 1 implies !is_alpha(#[trigger] s.drop_first()[j]) by {
            assert(s.drop_first()[j] == s[j + 1]);
        }
        if i < s.len() {
            assert(s.drop_first()[i - 1] == s[i]);
        }
        lemma_lead_len(s.drop_first(), i - 1);
    }
}

proof fn lemma_trail_len(s: Seq<char>, i: int)
    requires
        0 <= i <= s.len(),
        forall|j: int| s.len() - i <= j < s.len() ==> !is_alpha(#[trigger] s[j]),
        i == s.len() || is_alpha(s[s.len() - i - 1]),
    ensures
        trail_len(s) == i,
    decreases i,
{
    if i > 0 {
        assert forall|j: int| s.drop_last().len() - (i - 1) <= j < s.drop_last().len() implies !is_alpha(#[trigger] s.drop_last()[j]) by {
            assert(s.drop_last()[j] == s[j]);
        }
        if i < s.len() {
            assert(s.drop_last()[s.drop_last().len() - (i - 1) - 1] == s[s.len() - i - 1]);
        }
        lemma_trail_len(s.drop_last(), i - 1);
    }
}

/// Number of leading white-space characters.
pub open spec fn ws_lead(s: Seq<char>) -> nat
    decreases s.len(),
{
    if s.len() == 0 || !is_space(s[0]) { 0 } else { 1 + ws_lead(s.drop_first()) }
}

/// Number of trailing white-space characters.
pub open spec fn ws_trail(s: Seq<char>) -> nat
    decreases s.len(),
{
    if s.len() == 0 || !is_space(s.last()) { 0 } else { 1 + ws_trail(s.drop_last()) }
}

/// `s` without leading and trailing white space.
pub open spec fn trim_ws(s: Seq<char>) -> Seq<char> {
    if ws_lead(s) >= s.len() { Seq::empty() } else { s.subrange(ws_lead(s) as int, s.len() - ws_trail(s)) }
}

proof fn lemma_ws_lead(s: Seq<char>, i: int)
    requires
        0 <= i <= s.len(),
        forall|j: int| 0 <= j < i ==> is_space(#[trigger] s[j]),
        i == s.len() || !is_space(s[i]),
    ensures
        ws_lead(s) == i,
    decreases i,
{
    if i > 0 {
        assert forall|j: int| 0 <= j < i - 1 implies is_space(#[trigger] s.drop_first()[j]) by {
            assert(s.drop_first()[j] == s[j + 1]);
        }
        if i < s.len() {
            assert(s.drop_first()[i - 1] == s[i]);
        }
        lemma_ws_lead(s.drop_first(), i - 1);
    }
}

proof fn lemma_ws_trail(s: Seq<char>, i: int)
    requires
        0 <= i <= s.len(),
        forall|j: int| s.len() - i <= j < s.len() ==> is_space(#[trigger] s[j]),
        i == s.len() || !is_space(s[s.len() - i - 1]),
    ensures
        ws_trail(s) == i,
    decreases i,
{
    if i > 0 {
        assert forall|j: int| s.drop_last().len() - (i - 1) <= j < s.drop_last().len() implies is_space(#[trigger] s.drop_last()[j]) by {
            assert(s.drop_last()[j] == s[j]);
        }
        if i < s.len() {
            assert(s.drop_last()[s.drop_last().len() - (i - 1) - 1] == s[s.len() - i - 1]);
        }
        lemma_ws_trail(s.drop_last(), i - 1);
    }
}


/// `v` without leading and trailing white space.
pub(crate) fn trim_chars(part: &Vec<char>) -> (r: Vec<char>)
    ensures
        r@ == trim_ws(part@),
{
    let n = part.len();
    let mut a: usize = 0;
    while a < n && whitespace(part[a])
        invariant
            n == part@.len(),
            0 <= a <= n,
            forall|j: int| 0 <= j < a ==> is_space(#[trigger] part@[j]),
        decreases n - a,
    {
        a = a + 1;
    }
    let mut b: usize = 0;
    while b < n - a && whitespace(part[n - 1 - b])
        invariant
            n == part@.len(),
            0 <= a <= n,
            0 <= b <= n - a,
            forall|j: int| n - b <= j < n ==> is_space(#[trigger] part@[j]),
        decreases n - a - b,
    {
        b = b + 1;
    }
    proof {
        lemma_ws_lead(part@, a as int);
    }
    let mut trimmed: Vec<char> = Vec::new();
    let mut k: usize = a;
    while k < n - b
        invariant
            n == part@.len(),
            a <= k <= n - b,
            trimmed@ == part@.subrange(a as int, k as int),
        decreases n - b - k,
    {
        trimmed.push(part[k]);
        k = k + 1;
        proof {
            assert(trimmed@ =~= part@.subrange(a as int, k as int));
        }
    }
    proof {
        if a < n {
            if b < n - a {
                lemma_ws_trail(part@, b as int);
            } else {
                assert(!is_space(part@[a as int]));
                assert(false);
            }
            assert(trimmed@ =~= trim_ws(part@));
        } else {
            assert(trimmed@ =~= Seq::<char>::empty());
            assert(trim_ws(part@) == Seq::<char>::empty());
        }
    }
    trimmed
}

/// `text` without leading and trailing white space.
pub fn trim_text(text: &str) -> (r: String)
    ensures
        r@ == trim_ws(text@),
{
    let v = chars_of(text);
    let t = trim_chars(&v);
    string_from_chars(&t)
}

/// Splits off the punctuation around a word: the leading and the trailing
/// runs of non-alphabetic characters. For a word with no letter both are
/// the whole word.
pub fn extract_punctuation(word: &str) -> (r: (&str, &str))
    ensures
        r.0@ == word@.take(lead_len(word@) as int),
        r.1@ == word@.skip(word@.len() - trail_len(word@)),
{
    let n = word.unicode_len();
    let mut p: usize = 0;
    while p < n && !alphabetic(word.get_char(p))
        invariant
            n == word@.len(),
            0 <= p <= n,
            forall|j: int| 0 <= j < p ==> !is_alpha(#[trigger] word@[j]),
        decreases n - p,
    {
        p = p + 1;
    }
    let mut q: usize = 0;
    while q < n && !alphabetic(word.get_char(n - 1 - q))
        invariant
            n == word@.len(),
            0 <= q <= n,
            forall|j: int| n - q <= j < n ==> !is_alpha(#[trigger] word@[j]),
        decreases n - q,
    {
        q = q + 1;
    }
    proof {
        lemma_lead_len(word@, p as int);
        lemma_trail_len(word@, q as int);
    }
    let prefix = word.substring_char(0, p);
    let suffix = word.substring_char(n - q, n);
    proof {
        assert(prefix@ =~= word@.take(p as int));
        assert(suffix@ =~= word@.skip(n - q));
    }
    (prefix, suffix)
}

/// Whether every character of `s` is upper case (true of the empty string).
pub open spec fn all_upper(s: Seq<char>) -> bool {
    forall|i: int| 0 <= i < s.len() ==> is_upper(#[trigger] s[i])
}

/// `replacement` in the case pattern of `original`: all capitals, a leading
/// capital, or as it is.
pub open spec fn case_applied(original: Seq<char>, replacement: Seq<char>) -> Seq<char> {
    if all_upper(original) {
        upper_of(replacement)
    } else if is_upper(original[0]) {
        if replacement.len() == 0 {
            replacement
        } else {
            replacement.update(0, first_upper(replacement[0]))
        }
    } else {
        replacement
    }
}

/// Applies the case pattern of `original` to `replacement`.
pub fn preserve_case_pattern(original: &str, replacement: &str) -> (r: String)
    ensures
        r@ == case_applied(original@, replacement@),
{
    let n = original.unicode_len();
    let mut i: usize = 0;
    let mut all = true;
    while i < n
        invariant
            n == original@.len(),
            0 <= i <= n,
            all == (forall|j: int| 0 <= j < i ==> is_upper(#[trigger] original@[j])),
        decreases n - i,
    {
        if !uppercase(original.get_char(i)) {
            all = false;
        }
        i = i + 1;
    }
    if all {
        to_upper(replacement)
    } else if uppercase(original.get_char(0)) {
        let m = replacement.unicode_len();
        if m == 0 {
            return string_from_chars(&Vec::new());
        }
        let mut chars: Vec<char> = Vec::new();
        chars.push(upper_first_char(replacement.get_char(0)));
        let mut k: usize = 1;
        while k < m
            invariant
                m == replacement@.len(),
                1 <= k <= m,
                chars@ == replacement@.update(0, first_upper(replacement@[0])).take(k as int),
            decreases m - k,
        {
            chars.push(replacement.get_char(k));
            k = k + 1;
            proof {
                assert(chars@ =~= replacement@.update(0, first_upper(replacement@[0])).take(k as int));
            }
        }
        proof {
            assert(chars@ =~= replacement@.update(0, first_upper(replacement@[0])));
        }
        string_from_chars(&chars)
    } else {
        string_from_chars(&chars_of(replacement))
    }
}

/// The characters of `s`, in order.
fn chars_of(s: &str) -> (r: Vec<char>)
    ensures
        r@ == s@,
{
    let n = s.unicode_len();
    let mut out: Vec<char> = Vec::new();
    let mut i: usize = 0;
    while i < n
        invariant
            n == s@.len(),
            0 <= i <= n,
            out@ == s@.take(i as int),
        decreases n - i,
    {
        out.push(s.get_char(i));
        i = i + 1;
        proof {
            assert(out@ =~= s@.take(i as int));
        }
    }
    proof {
        assert(out@ =~= s@);
    }
    out
}


/// A correction threshold as the fraction `num / den`: a token is replaced
/// only by a word whose score is below it. A zero `den` stands for an
/// unbounded threshold (every near-length word qualifies when `num > 0`),
/// and a zero `num` for a threshold no score is below.
#[derive(Debug, Clone, Copy, PartialEq, Eq, Structural)]
pub struct Threshold {
    pub num: u32,
    pub den: u32,
}

/// Tokens whose core is longer than this many bytes of UTF-8 are left
/// alone.
pub const MAX_TOKEN_BYTES: usize = 50;

/// Words whose UTF-8 length differs from the core's by more than this many
/// bytes are not considered.
pub const MAX_LEN_GAP: usize = 5;

/// Bytes in the UTF-8 encoding of `c`.
pub open spec fn char_utf8_len(c: char) -> nat {
    if (c as u32) < 0x80 {
        1
    } else if (c as u32) < 0x800 {
        2
    } else if (c as u32) < 0x10000 {
        3
    } else {
        4
    }
}

/// Bytes in the UTF-8 encoding of `s`.
pub open spec fn utf8_len(s: Seq<char>) -> nat
    decreases s.len(),
{
    if s.len() == 0 {
        0
    } else {
        utf8_len(s.drop_last()) + char_utf8_len(s.last())
    }
}

/// The UTF-8 length of `s`, in bytes.
fn utf8_len_of(s: &str) -> (r: u128)
    ensures
        r == utf8_len(s@),
{
    let n = s.unicode_len();
    let mut acc: u128 = 0;
    let mut i: usize = 0;
    while i < n
        invariant
            n == s@.len(),
            0 <= i <= n,
            acc == utf8_len(s@.take(i as int)),
            acc <= 4 * i,
        decreases n - i,
    {
        let c = s.get_char(i);
        let u = c as u32;
        let w: u128 = if u < 0x80 { 1 } else if u < 0x800 { 2 } else if u < 0x10000 { 3 } else { 4 };
        proof {
            assert(s@.take(i + 1).drop_last() =~= s@.take(i as int));
            assert(s@.take(i + 1).last() == c);
        }
        acc = acc + w;
        i = i + 1;
    }
    proof {
        assert(s@.take(i as int) =~= s@);
    }
    acc
}

/// The alphabetic core of a token: the token without its leading and
/// trailing non-alphabetic runs (empty when it holds no letter).
pub open spec fn core_of(tok: Seq<char>) -> Seq<char> {
    if lead_len(tok) >= tok.len() {
        Seq::empty()
    } else {
        tok.subrange(lead_len(tok) as int, tok.len() - trail_len(tok))
    }
}

/// The larger UTF-8 length of the two, the score's normaliser.
pub open spec fn max_len(c: Seq<char>, w: Seq<char>) -> int {
    if utf8_len(c) >= utf8_len(w) { utf8_len(c) as int } else { utf8_len(w) as int }
}

/// The score's multiplier, in tenths: a phonetic match divides the
/// normalised distance by 10/3.
pub open spec fn weight(c: Seq<char>, w: Seq<char>) -> int {
    if w.len() > 0 && sounds_alike(c, w) { 3 } else { 10 }
}

/// The score of `w` for core `c` is
/// `edit_distance(c, w) / max_len(c, w) * weight(c, w) / 10`. This says that
/// it is below the threshold.
pub open spec fn below_threshold(c: Seq<char>, w: Seq<char>, t: Threshold) -> bool {
    edit_distance(c, w) * weight(c, w) * t.den < t.num * max_len(c, w) * 10
}

/// The score of `a` is below the score of `b`, for core `c`.
pub open spec fn scores_lower(c: Seq<char>, a: Seq<char>, b: Seq<char>) -> bool {
    edit_distance(c, a) * weight(c, a) * max_len(c, b) < edit_distance(c, b) * weight(c, b) * max_len(c, a)
}

pub open spec fn near_in_length(c: Seq<char>, w: Seq<char>) -> bool {
    -(MAX_LEN_GAP as int) <= utf8_len(c) - utf8_len(w) <= MAX_LEN_GAP as int
}

pub open spec fn candidate(c: Seq<char>, w: Seq<char>, t: Threshold) -> bool {
    near_in_length(c, w) && below_threshold(c, w, t)
}

/// Among the first `k` words, the index of the first one with the lowest
/// score among the candidates.
pub open spec fn best_match(c: Seq<char>, words: Seq<Seq<char>>, t: Threshold, k: nat) -> Option<int>
    decreases k,
{
    if k == 0 {
        None
    } else {
        let prev = best_match(c, words, t, (k - 1) as nat);
        let j = k - 1;
        if candidate(c, words[j], t) && (prev is None || scores_lower(c, words[j], words[prev.unwrap()])) {
            Some(j)
        } else {
            prev
        }
    }
}

/// One token after correction against `words` (as given) and `lowered`
/// (their lower-case forms).
pub open spec fn correct_token(tok: Seq<char>, words: Seq<Seq<char>>, lowered: Seq<Seq<char>>, t: Threshold) -> Seq<char> {
    let c = lower_of(core_of(tok));
    if c.len() == 0 || utf8_len(c) > MAX_TOKEN_BYTES {
        tok
    } else {
        match best_match(c, lowered, t, lowered.len()) {
            None => tok,
            Some(j) => tok.take(lead_len(tok) as int) + case_applied(tok, words[j])
                + tok.skip(tok.len() - trail_len(tok)),
        }
    }
}

/// A token separator: white space (the ASCII space is white space too).
pub open spec fn is_sep(c: char) -> bool {
    c == ' ' || is_space(c)
}

/// The maximal runs of non-separator characters of `s`, with `cur` the run
/// in progress before `s`.
pub open spec fn split_from(s: Seq<char>, cur: Seq<char>) -> Seq<Seq<char>>
    decreases s.len(),
{
    if s.len() == 0 {
        if cur.len() > 0 { seq![cur] } else { Seq::empty() }
    } else if is_sep(s[0]) {
        (if cur.len() > 0 { seq![cur] } else { Seq::empty() }) + split_from(s.drop_first(), Seq::empty())
    } else {
        split_from(s.drop_first(), cur.push(s[0]))
    }
}

/// The whitespace-separated tokens of `s`.
pub open spec fn tokens_of(s: Seq<char>) -> Seq<Seq<char>> {
    split_from(s, Seq::empty())
}

/// The tokens joined by single spaces.
pub open spec fn join_spaced(ws: Seq<Seq<char>>) -> Seq<char>
    decreases ws.len(),
{
    if ws.len() == 0 {
        Seq::empty()
    } else if ws.len() == 1 {
        ws[0]
    } else {
        join_spaced(ws.drop_last()) + seq![' '] + ws.last()
    }
}

pub open spec fn string_views(s: Seq<String>) -> Seq<Seq<char>> {
    s.map_values(|x: String| x@)
}

pub open spec fn lowered_all(ws: Seq<Seq<char>>) -> Seq<Seq<char>> {
    ws.map_values(|w: Seq<char>| lower_of(w))
}

/// The corrected transcript: unchanged without words; otherwise every token
/// corrected, and the tokens joined by single spaces.
pub open spec fn corrected_text(text: Seq<char>, words: Seq<Seq<char>>, t: Threshold) -> Seq<char> {
    if words.len() == 0 {
        text
    } else {
        join_spaced(tokens_of(text).map_values(|tok: Seq<char>| correct_token(tok, words, lowered_all(words), t)))
    }
}


proof fn lemma_lead_props(s: Seq<char>)
    ensures
        lead_len(s) <= s.len(),
        forall|j: int| 0 <= j < lead_len(s) ==> !is_alpha(#[trigger] s[j]),
        lead_len(s) < s.len() ==> is_alpha(s[lead_len(s) as int]),
    decreases s.len(),
{
    if s.len() > 0 && !is_alpha(s[0]) {
        lemma_lead_props(s.drop_first());
        assert forall|j: int| 0 <= j < lead_len(s) implies !is_alpha(#[trigger] s[j]) by {
            if j > 0 {
                assert(s[j] == s.drop_first()[j - 1]);
            }
        }
        if lead_len(s) < s.len() {
            assert(s[lead_len(s) as int] == s.drop_first()[lead_len(s.drop_first()) as int]);
        }
    }
}

proof fn lemma_trail_props(s: Seq<char>)
    ensures
        trail_len(s) <= s.len(),
        forall|j: int| s.len() - trail_len(s) <= j < s.len() ==> !is_alpha(#[trigger] s[j]),
    decreases s.len(),
{
    if s.len() > 0 && !is_alpha(s.last()) {
        lemma_trail_props(s.drop_last());
        assert forall|j: int| s.len() - trail_len(s) <= j < s.len() implies !is_alpha(#[trigger] s[j]) by {
            if j < s.len() - 1 {
                assert(s[j] == s.drop_last()[j]);
            }
        }
    }
}

/// A token whose core has a letter has its runs of punctuation apart.
proof fn lemma_runs_apart(s: Seq<char>)
    requires
        lead_len(s) < s.len(),
    ensures
        lead_len(s) + trail_len(s) < s.len(),
{
    lemma_lead_props(s);
    lemma_trail_props(s);
    if lead_len(s) + trail_len(s) >= s.len() {
        assert(!is_alpha(s[lead_len(s) as int]));
    }
}

/// The core of a token, taken from its text.
fn core_str(tok: &str) -> (r: &str)
    ensures
        r@ == core_of(tok@),
{
    let n = tok.unicode_len();
    let (prefix, suffix) = extract_punctuation(tok);
    let p = prefix.unicode_len();
    let q = suffix.unicode_len();
    proof {
        lemma_lead_props(tok@);
        lemma_trail_props(tok@);
    }
    if p >= n {
        let r = tok.substring_char(0, 0);
        proof {
            assert(r@ =~= Seq::<char>::empty());
        }
        r
    } else {
        proof {
            lemma_runs_apart(tok@);
        }
        tok.substring_char(p, n - q)
    }
}

/// One token corrected against the user words.
fn correct_word(tok: &str, custom_words: &[String], lowered: &Vec<String>, t: Threshold) -> (r: String)
    requires
        string_views(lowered@) == lowered_all(string_views(custom_words@)),
    ensures
        r@ == correct_token(tok@, string_views(custom_words@), string_views(lowered@), t),
{
    let ghost words = string_views(custom_words@);
    let ghost low = string_views(lowered@);
    let core = core_str(tok);
    let cleaned = to_lower(core);
    let c = cleaned.as_str();
    let mc = c.unicode_len();
    let m = utf8_len_of(c);
    if mc == 0 || m > MAX_TOKEN_BYTES as u128 {
        return String::from_str(tok);
    }
    let mut best: Option<usize> = None;
    let mut best_ed: u128 = 0;
    let mut best_wt: u128 = 0;
    let mut best_ml: u128 = 0;
    let mut i: usize = 0;
    while i < lowered.len()
        invariant
            0 <= i <= lowered@.len(),
            low == string_views(lowered@),
            low.len() == lowered@.len(),
            c@ == lower_of(core_of(tok@)),
            m == utf8_len(c@),
            0 < c@.len(),
            m <= MAX_TOKEN_BYTES,
            best_ed < 0x1_0000_0000_0000_0000,
            best_wt <= 10,
            best_ml <= MAX_TOKEN_BYTES + MAX_LEN_GAP,
            match best {
                None => best_match(c@, low, t, i as nat) is None,
                Some(j) => best_match(c@, low, t, i as nat) == Some(j as int)
                    && j < i
                    && best_ed == edit_distance(c@, low[j as int])
                    && best_ed < 0x1_0000_0000_0000_0000
                    && best_wt == weight(c@, low[j as int])
                    && best_ml == max_len(c@, low[j as int])
                    && best_ml <= MAX_TOKEN_BYTES + MAX_LEN_GAP,
            },
        decreases lowered@.len() - i,
    {
        let w = lowered[i].as_str();
        let wl = utf8_len_of(w);
        let wc = w.unicode_len();
        proof {
            assert(low[i as int] == w@);
        }
        let near = if m >= wl { m - wl <= MAX_LEN_GAP as u128 } else { wl - m <= MAX_LEN_GAP as u128 };
        if near {
            let ed = levenshtein(c, w);
            let ml: u128 = if m >= wl { m } else { wl };
            let alike = if wc > 0 { soundex(c, w) } else { false };
            let wt: u128 = if alike { 3 } else { 10 };
            let e = ed as u128;
            proof {
                assert(e * wt * (t.den as u128) < 0x1_0000_0000_0000_0000 * 10 * 0x1_0000_0000) by (nonlinear_arith)
                    requires e < 0x1_0000_0000_0000_0000, wt <= 10, t.den < 0x1_0000_0000;
                assert((t.num as u128) * ml * 10 <= 0x1_0000_0000 * 55 * 10) by (nonlinear_arith)
                    requires t.num < 0x1_0000_0000, ml <= 55;
                assert(e * wt * best_ml <= 0x1_0000_0000_0000_0000 * 10 * 55) by (nonlinear_arith)
                    requires e < 0x1_0000_0000_0000_0000, wt <= 10, best_ml <= 55;
                assert(best_ed * best_wt * ml <= 0x1_0000_0000_0000_0000 * 10 * 55) by (nonlinear_arith)
                    requires best_ed < 0x1_0000_0000_0000_0000, best_wt <= 10, ml <= 55;
            }
            let below = e * wt * (t.den as u128) < (t.num as u128) * ml * 10;
            let better = match best {
                None => true,
                Some(_) => e * wt * best_ml < best_ed * best_wt * ml,
            };
            if below && better {
                best = Some(i);
                best_ed = e;
                best_wt = wt;
                best_ml = ml;
            }
        }
        i = i + 1;
    }
    match best {
        None => String::from_str(tok),
        Some(j) => {
            let (prefix, suffix) = extract_punctuation(tok);
            let fixed = preserve_case_pattern(tok, custom_words[j].as_str());
            proof {
                assert(words[j as int] == custom_words@[j as int]@);
            }
            let mut out = String::from_str(prefix);
            out.append(fixed.as_str());
            out.append(suffix);
            out
        },
    }
}


proof fn lemma_join_push(ws: Seq<Seq<char>>, w: Seq<char>)
    ensures
        join_spaced(ws.push(w)) == if ws.len() == 0 { w } else { join_spaced(ws) + seq![' '] + w },
{
    assert(ws.push(w).drop_last() =~= ws);
    assert(ws.push(w).last() == w);
    if ws.len() == 0 {
        assert(ws.push(w)[0] == w);
    }
}

/// Appends `v` to `out`, preceded by a space unless it is the first token.
fn push_token(out: &mut Vec<char>, first: bool, v: &str)
    ensures
        final(out)@ == if first { old(out)@ + v@ } else { old(out)@ + seq![' '] + v@ },
{
    if !first {
        out.push(' ');
    }
    let mut cs = chars_of(v);
    let ghost mid = out@;
    out.append(&mut cs);
    proof {
        if !first {
            assert(mid == old(out)@ + seq![' ']);
        }
    }
}

/// The whitespace-separated tokens of `text`.
pub fn split_tokens(text: &str) -> (r: Vec<String>)
    ensures
        string_views(r@) == tokens_of(text@),
{
    let n = text.unicode_len();
    let mut out: Vec<String> = Vec::new();
    let mut cur: Vec<char> = Vec::new();
    let mut i: usize = 0;
    proof {
        assert(text@.skip(0) =~= text@);
        assert(string_views(out@) + split_from(text@.skip(0), cur@) =~= tokens_of(text@));
    }
    while i < n
        invariant
            n == text@.len(),
            0 <= i <= n,
            tokens_of(text@) == string_views(out@) + split_from(text@.skip(i as int), cur@),
        decreases n - i,
    {
        let ch = text.get_char(i);
        proof {
            assert(text@.skip(i as int)[0] == ch);
            assert(text@.skip(i as int).drop_first() =~= text@.skip(i + 1));
        }
        if ch == ' ' || whitespace(ch) {
            if cur.len() > 0 {
                let ghost before = string_views(out@);
                let tok = string_from_chars(&cur);
                out.push(tok);
                proof {
                    assert(string_views(out@) =~= before.push(cur@));
                    assert(before + (seq![cur@] + split_from(text@.skip(i + 1), Seq::empty()))
                        =~= before.push(cur@) + split_from(text@.skip(i + 1), Seq::empty()));
                }
                cur = Vec::new();
            } else {
                proof {
                    assert(string_views(out@) + (Seq::<Seq<char>>::empty() + split_from(text@.skip(i + 1), Seq::empty()))
                        =~= string_views(out@) + split_from(text@.skip(i + 1), Seq::empty()));
                }
            }
            proof {
                assert(cur@ =~= Seq::<char>::empty());
            }
        } else {
            cur.push(ch);
        }
        i = i + 1;
    }
    proof {
        assert(text@.skip(i as int) =~= Seq::<char>::empty());
    }
    if cur.len() > 0 {
        let ghost before = string_views(out@);
        let tok = string_from_chars(&cur);
        out.push(tok);
        proof {
            assert(string_views(out@) =~= before.push(cur@));
            assert(before + seq![cur@] =~= before.push(cur@));
        }
    } else {
        proof {
            assert(string_views(out@) + Seq::<Seq<char>>::empty() =~= string_views(out@));
        }
    }
    out
}

/// Corrects each whitespace-separated token of `text` against
/// `custom_words`, keeping its punctuation and case pattern, and joins the
/// tokens with single spaces. Without words the text is returned as it is.
pub fn apply_custom_words(text: &str, custom_words: &[String], threshold: Threshold) -> (r: String)
    ensures
        r@ == corrected_text(text@, string_views(custom_words@), threshold),
{
    if custom_words.len() == 0 {
        return String::from_str(text);
    }
    let ghost words = string_views(custom_words@);
    let mut lowered: Vec<String> = Vec::new();
    let mut k: usize = 0;
    while k < custom_words.len()
        invariant
            0 <= k <= custom_words@.len(),
            words == string_views(custom_words@),
            string_views(lowered@) == lowered_all(words).take(k as int),
        decreases custom_words@.len() - k,
    {
        let ghost before = string_views(lowered@);
        let lw = to_lower(custom_words[k].as_str());
        let ghost lv = lw@;
        lowered.push(lw);
        proof {
            assert(string_views(lowered@) =~= before.push(lv));
            assert(words[k as int] == custom_words@[k as int]@);
            assert(lowered_all(words)[k as int] == lv);
            assert(lowered_all(words).take(k + 1) =~= lowered_all(words).take(k as int).push(lv));
        }
        k = k + 1;
    }
    proof {
        assert(string_views(lowered@) =~= lowered_all(words));
    }
    let ghost low = string_views(lowered@);
    let ghost fix = |tok: Seq<char>| correct_token(tok, words, low, threshold);
    let n = text.unicode_len();
    let mut out: Vec<char> = Vec::new();
    let mut cur: Vec<char> = Vec::new();
    let mut n_done: usize = 0;
    let ghost mut done: Seq<Seq<char>> = Seq::empty();
    let mut i: usize = 0;
    proof {
        assert(text@.skip(0) =~= text@);
        assert(cur@ =~= Seq::<char>::empty());
        assert(done + split_from(text@.skip(0), cur@) =~= tokens_of(text@));
        assert(done.map_values(fix) =~= Seq::<Seq<char>>::empty());
        assert(out@ =~= join_spaced(done.map_values(fix)));
    }
    while i < n
        invariant
            n == text@.len(),
            0 <= i <= n,
            words == string_views(custom_words@),
            low == string_views(lowered@),
            low == lowered_all(words),
            fix == (|tok: Seq<char>| correct_token(tok, words, low, threshold)),
            tokens_of(text@) == done + split_from(text@.skip(i as int), cur@),
            out@ == join_spaced(done.map_values(fix)),
            n_done == done.len(),
            n_done <= i,
        decreases n - i,
    {
        let ch = text.get_char(i);
        proof {
            assert(text@.skip(i as int)[0] == ch);
            assert(text@.skip(i as int).drop_first() =~= text@.skip(i + 1));
        }
        if ch == ' ' || whitespace(ch) {
            if cur.len() > 0 {
                let tok = string_from_chars(&cur);
                let fixed = correct_word(tok.as_str(), custom_words, &lowered, threshold);
                push_token(&mut out, n_done == 0, fixed.as_str());
                proof {
                    lemma_join_push(done.map_values(fix), fixed@);
                    assert(done.push(cur@).map_values(fix) =~= done.map_values(fix).push(fixed@));
                    assert(done + seq![cur@] =~= done.push(cur@));
                    done = done.push(cur@);
                }
                n_done = n_done + 1;
                cur = Vec::new();
            } else {
                proof {
                    assert(done + (Seq::<Seq<char>>::empty() + split_from(text@.skip(i + 1), Seq::empty()))
                        =~= done + split_from(text@.skip(i + 1), Seq::empty()));
                }
            }
            proof {
                assert(cur@ =~= Seq::<char>::empty());
                assert(tokens_of(text@) =~= done + split_from(text@.skip(i + 1), cur@));
            }
        } else {
            cur.push(ch);
        }
        i = i + 1;
    }
    proof {
        assert(text@.skip(i as int) =~= Seq::<char>::empty());
    }
    if cur.len() > 0 {
        let tok = string_from_chars(&cur);
        let fixed = correct_word(tok.as_str(), custom_words, &lowered, threshold);
        push_token(&mut out, n_done == 0, fixed.as_str());
        proof {
            lemma_join_push(done.map_values(fix), fixed@);
            assert(done.push(cur@).map_values(fix) =~= done.map_values(fix).push(fixed@));
            assert(done + seq![cur@] =~= done.push(cur@));
            done = done.push(cur@);
        }
    } else {
        proof {
            assert(done + Seq::<Seq<char>>::empty() =~= done);
        }
    }
    proof {
        assert(tokens_of(text@) == done);
        assert(tokens_of(text@).map_values(fix) == done.map_values(fix));
    }
    string_from_chars(&out)
}


/// Without user words the transcript is left exactly as it is.
pub proof fn lemma_no_words_identity(text: Seq<char>, t: Threshold)
    ensures
        corrected_text(text, Seq::empty(), t) == text,
{
}


/// `s` holds no separator.
pub open spec fn sep_free(s: Seq<char>) -> bool {
    forall|i: int| 0 <= i < s.len() ==> !is_sep(#[trigger] s[i])
}

proof fn lemma_split_word(w: Seq<char>, s: Seq<char>, cur: Seq<char>)
    requires
        sep_free(w),
    ensures
        split_from(w + s, cur) == split_from(s, cur + w),
    decreases w.len(),
{
    if w.len() == 0 {
        assert(w + s =~= s);
        assert(cur + w =~= cur);
    } else {
        assert((w + s)[0] == w[0]);
        assert((w + s).drop_first() =~= w.drop_first() + s);
        assert(sep_free(w.drop_first())) by {
            assert forall|i: int| 0 <= i < w.drop_first().len() implies !is_sep(#[trigger] w.drop_first()[i]) by {
                assert(w.drop_first()[i] == w[i + 1]);
            }
        }
        lemma_split_word(w.drop_first(), s, cur.push(w[0]));
        assert(cur.push(w[0]) + w.drop_first() =~= cur + w);
    }
}

proof fn lemma_split_joined(ws: Seq<Seq<char>>, s: Seq<char>)
    requires
        ws.len() > 0,
        forall|i: int| 0 <= i < ws.len() ==> #[trigger] ws[i].len() > 0 && sep_free(ws[i]),
    ensures
        split_from(join_spaced(ws) + s, Seq::empty()) == ws.drop_last() + split_from(s, ws.last()),
    decreases ws.len(),
{
    if ws.len() == 1 {
        assert(ws[0].len() > 0 && sep_free(ws[0]));
        lemma_split_word(ws[0], s, Seq::empty());
        assert(Seq::<char>::empty() + ws[0] =~= ws[0]);
        assert(ws.drop_last() =~= Seq::<Seq<char>>::empty());
        assert(ws.drop_last() + split_from(s, ws.last()) =~= split_from(s, ws.last()));
    } else {
        let rest = ws.drop_last();
        let last = ws.last();
        assert(ws[ws.len() - 1].len() > 0 && sep_free(ws[ws.len() - 1]));
        assert forall|i: int| 0 <= i < rest.len() implies #[trigger] rest[i].len() > 0 && sep_free(rest[i]) by {
            assert(rest[i] == ws[i]);
            assert(ws[i].len() > 0 && sep_free(ws[i]));
        }
        let s2 = seq![' '] + last + s;
        assert(join_spaced(ws) + s =~= join_spaced(rest) + s2);
        lemma_split_joined(rest, s2);
        assert(rest[rest.len() - 1] == ws[ws.len() - 2]);
        assert(ws[ws.len() - 2].len() > 0);
        assert(s2[0] == ' ');
        assert(s2.drop_first() =~= last + s);
        assert(split_from(s2, rest.last()) == seq![rest.last()] + split_from(last + s, Seq::empty()));
        lemma_split_word(last, s, Seq::empty());
        assert(Seq::<char>::empty() + last =~= last);
        assert(rest.drop_last() + (seq![rest.last()] + split_from(s, last)) =~= ws.drop_last() + split_from(s, ws.last()));
    }
}

proof fn lemma_split_tokens(s: Seq<char>, cur: Seq<char>)
    requires
        sep_free(cur),
    ensures
        forall|i: int| 0 <= i < split_from(s, cur).len() ==>
            #[trigger] split_from(s, cur)[i].len() > 0 && sep_free(split_from(s, cur)[i]),
    decreases s.len(),
{
    if s.len() == 0 {
        if cur.len() > 0 {
            assert(split_from(s, cur) == seq![cur]);
            assert forall|i: int| 0 <= i < split_from(s, cur).len() implies
                #[trigger] split_from(s, cur)[i].len() > 0 && sep_free(split_from(s, cur)[i]) by {
                assert(split_from(s, cur)[i] == cur);
            }
        } else {
            assert(split_from(s, cur).len() == 0);
        }
    } else if is_sep(s[0]) {
        lemma_split_tokens(s.drop_first(), Seq::empty());
        let head: Seq<Seq<char>> = if cur.len() > 0 { seq![cur] } else { Seq::empty() };
        let tail = split_from(s.drop_first(), Seq::empty());
        assert forall|i: int| 0 <= i < split_from(s, cur).len() implies
            #[trigger] split_from(s, cur)[i].len() > 0 && sep_free(split_from(s, cur)[i]) by {
            if i < head.len() {
                assert(split_from(s, cur)[i] == cur);
            } else {
                assert(split_from(s, cur)[i] == tail[i - head.len()]);
            }
        }
    } else {
        assert(sep_free(cur.push(s[0]))) by {
            assert forall|i: int| 0 <= i < cur.push(s[0]).len() implies !is_sep(#[trigger] cur.push(s[0])[i]) by {
                if i < cur.len() {
                    assert(cur.push(s[0])[i] == cur[i]);
                }
            }
        }
        lemma_split_tokens(s.drop_first(), cur.push(s[0]));
        assert(split_from(s, cur) == split_from(s.drop_first(), cur.push(s[0])));
    }
}

/// Splitting tokens joined by spaces gives the tokens back.
proof fn lemma_tokens_of_joined(ws: Seq<Seq<char>>)
    requires
        forall|i: int| 0 <= i < ws.len() ==> #[trigger] ws[i].len() > 0 && sep_free(ws[i]),
    ensures
        tokens_of(join_spaced(ws)) == ws,
{
    if ws.len() > 0 {
        lemma_split_joined(ws, Seq::empty());
        assert(join_spaced(ws) + Seq::<char>::empty() =~= join_spaced(ws));
        assert(ws[ws.len() - 1].len() > 0);
        assert(split_from(Seq::<char>::empty(), ws.last()) == seq![ws.last()]);
        assert(ws.drop_last() + seq![ws.last()] =~= ws);
    } else {
        assert(join_spaced(ws) == Seq::<char>::empty());
    }
}

proof fn lemma_zero_threshold_no_match(c: Seq<char>, words: Seq<Seq<char>>, t: Threshold, k: nat)
    requires
        t.num == 0,
    ensures
        best_match(c, words, t, k) is None,
    decreases k,
{
    if k > 0 {
        lemma_zero_threshold_no_match(c, words, t, (k - 1) as nat);
        let w = words[k - 1];
        assert(edit_distance(c, w) * weight(c, w) * t.den >= 0) by (nonlinear_arith)
            requires weight(c, w) >= 0;
        assert(!below_threshold(c, w, t));
    }
}

/// Idempotence on stable fixpoints: when every corrected token is a
/// non-empty run without white space that the pass leaves as it is, running
/// the pass on its own output changes nothing.
pub proof fn lemma_idempotent_on_fixpoints(text: Seq<char>, words: Seq<Seq<char>>, t: Threshold)
    requires
        forall|i: int| 0 <= i < tokens_of(text).len() ==> {
            let c = #[trigger] correct_token(tokens_of(text)[i], words, lowered_all(words), t);
            c.len() > 0 && sep_free(c) && correct_token(c, words, lowered_all(words), t) == c
        },
    ensures
        corrected_text(corrected_text(text, words, t), words, t) == corrected_text(text, words, t),
{
    if words.len() > 0 {
        let fix = |tok: Seq<char>| correct_token(tok, words, lowered_all(words), t);
        let fixed = tokens_of(text).map_values(fix);
        assert forall|i: int| 0 <= i < fixed.len() implies #[trigger] fixed[i].len() > 0 && sep_free(fixed[i]) by {
            assert(fixed[i] == correct_token(tokens_of(text)[i], words, lowered_all(words), t));
        }
        lemma_tokens_of_joined(fixed);
        assert forall|i: int| 0 <= i < fixed.len() implies #[trigger] fix(fixed[i]) == fixed[i] by {
            assert(fixed[i] == correct_token(tokens_of(text)[i], words, lowered_all(words), t));
        }
        assert(fixed.map_values(fix) =~= fixed);
    }
}

/// With a zero threshold no token is replaced, and the pass only
/// normalises the spacing; running it a second time changes nothing.
pub proof fn lemma_zero_threshold_idempotent(text: Seq<char>, words: Seq<Seq<char>>, t: Threshold)
    requires
        t.num == 0,
    ensures
        corrected_text(corrected_text(text, words, t), words, t) == corrected_text(text, words, t),
{
    if words.len() > 0 {
        let fix = |tok: Seq<char>| correct_token(tok, words, lowered_all(words), t);
        assert forall|tok: Seq<char>| #[trigger] fix(tok) == tok by {
            lemma_zero_threshold_no_match(lower_of(core_of(tok)), lowered_all(words), t, lowered_all(words).len());
        }
        let toks = tokens_of(text);
        assert(sep_free(Seq::<char>::empty()));
        lemma_split_tokens(text, Seq::empty());
        assert(toks.map_values(fix) =~= toks);
        let once = join_spaced(toks);
        assert(corrected_text(text, words, t) == once);
        lemma_tokens_of_joined(toks);
        assert(tokens_of(once).map_values(fix) =~= toks);
    }
}

} // verus!
