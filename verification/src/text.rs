//! Character-level string helpers shared by the library.
use vstd::prelude::*;
use vstd::string::*;

verus! {

/// `String::push` (std). Claimed: the string's characters gain `c` at the
/// end, as std documents.
#[verifier::external_body]
pub(crate) fn push_char(s: &mut String, c: char)
    ensures
        final(s)@ == old(s)@.push(c),
{
    s.push(c);
}

/// The characters of a string slice, in order.
pub fn chars_of(s: &str) -> (r: Vec<char>)
    ensures
        r@ == s@,
{
    let mut out: Vec<char> = Vec::new();
    for c in iter: s.chars()
        invariant
            out@ == iter.seq().take(iter.index() as int),
            iter.seq() == s@,
    {
        out.push(c);
    }
    out
}

/// Builds a string from a slice of characters.
pub fn string_of(cs: &[char]) -> (r: String)
    ensures
        r@ == cs@,
{
    let mut out = String::new();
    let mut i: usize = 0;
    while i < cs.len()
        invariant
            0 <= i <= cs.len(),
            out@ == cs@.take(i as int),
        decreases cs.len() - i,
    {
        push_char(&mut out, cs[i]);
        assert(cs@.take(i as int).push(cs@[i as int]) =~= cs@.take(i + 1));
        i = i + 1;
    }
    assert(cs@.take(cs.len() as int) =~= cs@);
    out
}

/// Builds a string from the characters `cs[a..b]`.
pub fn string_of_range(cs: &Vec<char>, a: usize, b: usize) -> (r: String)
    requires
        a <= b <= cs.len(),
    ensures
        r@ == cs@.subrange(a as int, b as int),
{
    let mut out = String::new();
    let mut i: usize = a;
    while i < b
        invariant
            a <= i <= b <= cs.len(),
            out@ == cs@.subrange(a as int, i as int),
        decreases b - i,
    {
        push_char(&mut out, cs[i]);
        assert(cs@.subrange(a as int, i as int).push(cs@[i as int]) =~= cs@.subrange(a as int, i + 1));
        i = i + 1;
    }
    out
}

/// Owned copy of a string slice.
pub fn owned(s: &str) -> (r: String)
    ensures
        r@ == s@,
{
    String::from_str(s)
}

/// Appends a string slice to a string.
pub fn append_str(s: &mut String, t: &str)
    ensures
        final(s)@ == old(s)@ + t@,
{
    s.append(t);
}

/// Equality of two string slices, character by character.
pub fn str_eq(a: &str, b: &str) -> (r: bool)
    ensures
        r == (a@ == b@),
{
    let x = String::from_str(a);
    let y = String::from_str(b);
    x == y
}

pub open spec fn is_prefix(p: Seq<char>, s: Seq<char>) -> bool {
    p.len() <= s.len() && s.take(p.len() as int) == p
}

/// Whether `s` begins with `p` (`str::starts_with`).
pub fn starts_with(s: &str, p: &str) -> (r: bool)
    ensures
        r == is_prefix(p@, s@),
{
    let sc = chars_of(s);
    let pc = chars_of(p);
    seq_starts_with(&sc, &pc)
}

/// Prefix test on character vectors.
pub fn seq_starts_with(s: &Vec<char>, p: &Vec<char>) -> (r: bool)
    ensures
        r == is_prefix(p@, s@),
{
    if p.len() > s.len() {
        return false;
    }
    let mut i: usize = 0;
    while i < p.len()
        invariant
            p.len() <= s.len(),
            0 <= i <= p.len(),
            forall|j: int| 0 <= j < i ==> s@[j] == p@[j],
        decreases p.len() - i,
    {
        if s[i] != p[i] {
            assert(s@.take(p.len() as int)[i as int] != p@[i as int]);
            return false;
        }
        i = i + 1;
    }
    assert(s@.take(p.len() as int) =~= p@);
    true
}

pub open spec fn occurs_at(s: Seq<char>, p: Seq<char>, i: int) -> bool {
    0 <= i && i + p.len() <= s.len() && s.subrange(i, i + p.len()) == p
}

pub open spec fn contains_seq(s: Seq<char>, p: Seq<char>) -> bool {
    exists|i: int| occurs_at(s, p, i)
}

/// Substring test on character vectors (`str::contains`).
pub fn seq_contains(s: &Vec<char>, p: &Vec<char>) -> (r: bool)
    ensures
        r == contains_seq(s@, p@),
{
    if p.len() > s.len() {
        assert forall|i: int| !occurs_at(s@, p@, i) by {}
        return false;
    }
    let mut i: usize = 0;
    while i <= s.len() - p.len()
        invariant
            p.len() <= s.len(),
            0 <= i <= s.len() - p.len() + 1,
            forall|k: int| 0 <= k < i ==> !occurs_at(s@, p@, k),
        decreases s.len() - i,
    {
        let mut j: usize = 0;
        let mut same = true;
        while j < p.len()
            invariant
                i + p.len() <= s.len(),
                0 <= j <= p.len(),
                same == (forall|k: int| 0 <= k < j ==> s@[i + k] == p@[k]),
            decreases p.len() - j,
        {
            if s[i + j] != p[j] {
                same = false;
            }
            j = j + 1;
        }
        if same {
            assert(s@.subrange(i as int, i + p.len()) =~= p@);
            assert(occurs_at(s@, p@, i as int));
            return true;
        }
        assert(s@.subrange(i as int, i + p.len()) != p@) by {
            let k = choose|k: int| 0 <= k < p.len() && s@[i + k] != p@[k];
            assert(s@.subrange(i as int, i + p.len())[k] != p@[k]);
        }
        i = i + 1;
    }
    assert forall|k: int| !occurs_at(s@, p@, k) by {
        if 0 <= k && k + p.len() <= s.len() {
            assert(k < i);
        }
    }
    false
}

/// ASCII lower-casing of one character (`char::to_ascii_lowercase`).
pub open spec fn ascii_lower(c: char) -> char {
    if 'A' <= c && c <= 'Z' {
        ((c as u32) + 32) as char
    } else {
        c
    }
}

pub open spec fn ascii_lower_seq(s: Seq<char>) -> Seq<char> {
    s.map_values(|c: char| ascii_lower(c))
}

pub fn lower_char(c: char) -> (r: char)
    ensures
        r == ascii_lower(c),
{
    if 'A' <= c && c <= 'Z' {
        let b: u8 = c as u8;
        (b + 32) as char
    } else {
        c
    }
}

/// ASCII lower-casing of a string (`str::to_ascii_lowercase`), as characters.
pub fn ascii_lowercase_chars(s: &str) -> (r: Vec<char>)
    ensures
        r@ == ascii_lower_seq(s@),
{
    let cs = chars_of(s);
    let mut out: Vec<char> = Vec::new();
    let mut i: usize = 0;
    while i < cs.len()
        invariant
            0 <= i <= cs.len(),
            cs@ == s@,
            out@ == ascii_lower_seq(cs@.take(i as int)),
        decreases cs.len() - i,
    {
        out.push(lower_char(cs[i]));
        assert(ascii_lower_seq(cs@.take(i + 1)) =~= ascii_lower_seq(cs@.take(i as int)).push(
            ascii_lower(cs@[i as int]),
        ));
        i = i + 1;
    }
    assert(cs@.take(cs.len() as int) =~= cs@);
    out
}

/// Unicode `White_Space` (what `char::is_whitespace` tests).
pub open spec fn is_ws(c: char) -> bool {
    let u = c as u32;
    (0x9 <= u && u <= 0xd) || u == 0x20 || u == 0x85 || u == 0xa0 || u == 0x1680 || (0x2000 <= u
        && u <= 0x200a) || u == 0x2028 || u == 0x2029 || u == 0x202f || u == 0x205f || u == 0x3000
}

pub fn is_whitespace(c: char) -> (r: bool)
    ensures
        r == is_ws(c),
{
    let u = c as u32;
    (0x9 <= u && u <= 0xd) || u == 0x20 || u == 0x85 || u == 0xa0 || u == 0x1680 || (0x2000 <= u
        && u <= 0x200a) || u == 0x2028 || u == 0x2029 || u == 0x202f || u == 0x205f || u == 0x3000
}

/// Index of the first non-whitespace character (or the length).
pub open spec fn lead_ws(s: Seq<char>) -> int
    decreases s.len(),
{
    if s.len() == 0 {
        0
    } else if is_ws(s[0]) {
        1 + lead_ws(s.drop_first())
    } else {
        0
    }
}

/// Index just past the last non-whitespace character (or 0).
pub open spec fn trail_end(s: Seq<char>) -> int
    decreases s.len(),
{
    if s.len() == 0 {
        0
    } else if is_ws(s.last()) {
        trail_end(s.drop_last())
    } else {
        s.len() as int
    }
}

pub proof fn lemma_lead_ws_bounds(s: Seq<char>)
    ensures
        0 <= lead_ws(s) <= s.len(),
        forall|k: int| 0 <= k < lead_ws(s) ==> is_ws(#[trigger] s[k]),
        lead_ws(s) < s.len() ==> !is_ws(s[lead_ws(s)]),
    decreases s.len(),
{
    if s.len() > 0 && is_ws(s[0]) {
        lemma_lead_ws_bounds(s.drop_first());
        assert forall|k: int| 0 <= k < lead_ws(s) implies is_ws(#[trigger] s[k]) by {
            if k > 0 {
                assert(s[k] == s.drop_first()[k - 1]);
            }
        }
    }
}

pub proof fn lemma_trail_end_bounds(s: Seq<char>)
    ensures
        0 <= trail_end(s) <= s.len(),
        forall|k: int| trail_end(s) <= k < s.len() ==> is_ws(#[trigger] s[k]),
        trail_end(s) > 0 ==> !is_ws(s[trail_end(s) - 1]),
    decreases s.len(),
{
    if s.len() > 0 && is_ws(s.last()) {
        lemma_trail_end_bounds(s.drop_last());
        assert forall|k: int| trail_end(s) <= k < s.len() implies is_ws(#[trigger] s[k]) by {
            if k < s.len() - 1 {
                assert(s[k] == s.drop_last()[k]);
            }
        }
    }
}

/// `str::trim` on a character sequence.
pub open spec fn trim_seq(s: Seq<char>) -> Seq<char> {
    let a = lead_ws(s);
    let b = trail_end(s);
    if a >= b {
        Seq::empty()
    } else {
        s.subrange(a, b)
    }
}

/// `str::trim_start` on a character sequence.
pub open spec fn trim_start_seq(s: Seq<char>) -> Seq<char> {
    s.skip(lead_ws(s))
}

proof fn lemma_lead_ws_step(s: Seq<char>, i: int)
    requires
        0 <= i < s.len(),
        forall|k: int| 0 <= k < i ==> is_ws(#[trigger] s[k]),
    ensures
        is_ws(s[i]) ==> (forall|k: int| 0 <= k < i + 1 ==> is_ws(#[trigger] s[k])),
        !is_ws(s[i]) ==> lead_ws(s) == i,
    decreases i,
{
    if !is_ws(s[i]) {
        if i > 0 {
            assert(is_ws(s[0]));
            lemma_lead_ws_step(s.drop_first(), i - 1);
        }
    }
}

proof fn lemma_lead_ws_all(s: Seq<char>)
    requires
        forall|k: int| 0 <= k < s.len() ==> is_ws(#[trigger] s[k]),
    ensures
        lead_ws(s) == s.len(),
    decreases s.len(),
{
    if s.len() > 0 {
        assert forall|k: int| 0 <= k < s.drop_first().len() implies is_ws(
            #[trigger] s.drop_first()[k],
        ) by {
            assert(s.drop_first()[k] == s[k + 1]);
        }
        lemma_lead_ws_all(s.drop_first());
    }
}

/// Number of leading whitespace characters of a character vector.
pub fn leading_ws_count(cs: &Vec<char>) -> (r: usize)
    ensures
        r == lead_ws(cs@),
{
    let mut i: usize = 0;
    while i < cs.len()
        invariant
            0 <= i <= cs.len(),
            forall|k: int| 0 <= k < i ==> is_ws(#[trigger] cs@[k]),
        decreases cs.len() - i,
    {
        proof {
            lemma_lead_ws_step(cs@, i as int);
        }
        if !is_whitespace(cs[i]) {
            return i;
        }
        i = i + 1;
    }
    proof {
        lemma_lead_ws_all(cs@);
    }
    i
}

proof fn lemma_trail_end_all(s: Seq<char>, e: int)
    requires
        0 <= e <= s.len(),
        forall|k: int| e <= k < s.len() ==> is_ws(#[trigger] s[k]),
    ensures
        trail_end(s) == trail_end(s.take(e)),
    decreases s.len() - e,
{
    if e < s.len() {
        assert(s.drop_last() =~= s.take(s.len() - 1));
        assert(s.take(s.len() - 1).take(e) =~= s.take(e));
        assert forall|k: int| e <= k < s.drop_last().len() implies is_ws(
            #[trigger] s.drop_last()[k],
        ) by {
            assert(s.drop_last()[k] == s[k]);
        }
        lemma_trail_end_all(s.drop_last(), e);
    } else {
        assert(s.take(e) =~= s);
    }
}

/// Position just past the last non-whitespace character.
pub fn trailing_end(cs: &Vec<char>) -> (r: usize)
    ensures
        r == trail_end(cs@),
{
    let mut e: usize = cs.len();
    while e > 0
        invariant
            0 <= e <= cs.len(),
            forall|k: int| e <= k < cs.len() ==> is_ws(#[trigger] cs@[k]),
        decreases e,
    {
        if !is_whitespace(cs[e - 1]) {
            proof {
                lemma_trail_end_all(cs@, e as int);
                assert(cs@.take(e as int).last() == cs@[e - 1]);
            }
            return e;
        }
        e = e - 1;
    }
    proof {
        lemma_trail_end_all(cs@, 0);
    }
    0
}

/// `str::trim`, returning the trimmed characters.
pub fn trim_chars(s: &str) -> (r: Vec<char>)
    ensures
        r@ == trim_seq(s@),
{
    let cs = chars_of(s);
    let a = leading_ws_count(&cs);
    let b = trailing_end(&cs);
    proof {
        lemma_lead_ws_bounds(cs@);
        lemma_trail_end_bounds(cs@);
    }
    if a >= b {
        return Vec::new();
    }
    let mut out: Vec<char> = Vec::new();
    let mut i = a;
    while i < b
        invariant
            a <= i <= b <= cs.len(),
            out@ == cs@.subrange(a as int, i as int),
        decreases b - i,
    {
        out.push(cs[i]);
        assert(cs@.subrange(a as int, i + 1) =~= cs@.subrange(a as int, i as int).push(cs@[i as int]));
        i = i + 1;
    }
    out
}

/// `str::trim`, as a string.
pub fn trim(s: &str) -> (r: String)
    ensures
        r@ == trim_seq(s@),
{
    let cs = trim_chars(s);
    string_of(cs.as_slice())
}

/// Whether the trimmed text is empty (`s.trim().is_empty()`).
pub fn is_blank(s: &str) -> (r: bool)
    ensures
        r == (trim_seq(s@).len() == 0),
{
    let cs = trim_chars(s);
    cs.len() == 0
}


/// The first `max` characters, with `...` appended when characters were cut.
pub open spec fn truncated(s: Seq<char>, max: int) -> Seq<char> {
    if s.len() > max {
        s.take(max) + "..."@
    } else {
        s
    }
}

/// Cuts a string to at most `max` characters (never inside a character),
/// appending `...` when something was cut.
pub fn truncate(s: &str, max: usize) -> (r: String)
    ensures
        r@ == truncated(s@, max as int),
{
    let cs = chars_of(s);
    if cs.len() > max {
        let mut out = string_of_range(&cs, 0, max);
        proof {
            assert(cs@.subrange(0, max as int) =~= cs@.take(max as int));
        }
        append_str(&mut out, "...");
        out
    } else {
        owned(s)
    }
}

pub open spec fn is_dash(c: char) -> bool {
    c == '\u{2014}' || c == '\u{2013}'
}

/// Drops trailing ASCII spaces.
pub open spec fn strip_trailing_spaces(s: Seq<char>) -> Seq<char>
    decreases s.len(),
{
    if s.len() > 0 && s.last() == ' ' {
        strip_trailing_spaces(s.drop_last())
    } else {
        s
    }
}

/// One step of outbound normalization: an em or en dash becomes a comma
/// (after dropping the spaces before it, and only when something precedes it)
/// followed by a space when a non-space character follows.
pub open spec fn normalize_step(acc: Seq<char>, cs: Seq<char>, n: int) -> Seq<char> {
    if is_dash(cs[n]) {
        let a = strip_trailing_spaces(acc);
        let b = if a.len() > 0 {
            a.push(',')
        } else {
            a
        };
        if n + 1 < cs.len() && !is_ws(cs[n + 1]) {
            b.push(' ')
        } else {
            b
        }
    } else {
        acc.push(cs[n])
    }
}

/// Outbound normalization of the first `n` characters.
pub open spec fn normalized_upto(cs: Seq<char>, n: int) -> Seq<char>
    decreases n,
{
    if n <= 0 {
        Seq::empty()
    } else {
        normalize_step(normalized_upto(cs, n - 1), cs, n - 1)
    }
}

pub open spec fn normalized(cs: Seq<char>) -> Seq<char> {
    normalized_upto(cs, cs.len() as int)
}

fn pop_trailing_spaces(v: &mut Vec<char>)
    ensures
        final(v)@ == strip_trailing_spaces(old(v)@),
{
    while v.len() > 0 && v[v.len() - 1] == ' '
        invariant
            strip_trailing_spaces(v@) == strip_trailing_spaces(old(v)@),
        decreases v.len(),
    {
        let ghost before = v@;
        v.pop();
        assert(v@ =~= before.drop_last());
    }
}

/// Replaces em and en dashes in outgoing text with commas.
pub fn normalize_outbound_text(content: &str) -> (r: String)
    ensures
        r@ == normalized(content@),
{
    let cs = chars_of(content);
    let mut out: Vec<char> = Vec::new();
    let mut i: usize = 0;
    while i < cs.len()
        invariant
            0 <= i <= cs.len(),
            cs@ == content@,
            out@ == normalized_upto(cs@, i as int),
        decreases cs.len() - i,
    {
        let ch = cs[i];
        if ch == '\u{2014}' || ch == '\u{2013}' {
            pop_trailing_spaces(&mut out);
            if out.len() > 0 {
                out.push(',');
            }
            if i + 1 < cs.len() && !is_whitespace(cs[i + 1]) {
                out.push(' ');
            }
        } else {
            out.push(ch);
        }
        i = i + 1;
    }
    string_of(out.as_slice())
}

proof fn lemma_strip_keeps_no_dash(s: Seq<char>)
    requires
        forall|k: int| 0 <= k < s.len() ==> !is_dash(#[trigger] s[k]),
    ensures
        forall|k: int| 0 <= k < strip_trailing_spaces(s).len() ==> !is_dash(#[trigger] strip_trailing_spaces(s)[k]),
        strip_trailing_spaces(s).len() <= s.len(),
    decreases s.len(),
{
    if s.len() > 0 && s.last() == ' ' {
        assert forall|k: int| 0 <= k < s.drop_last().len() implies !is_dash(#[trigger] s.drop_last()[k]) by {
            assert(s.drop_last()[k] == s[k]);
        }
        lemma_strip_keeps_no_dash(s.drop_last());
    }
}

/// Normalized outbound text holds no em or en dash.
pub proof fn lemma_normalized_has_no_dash(cs: Seq<char>, n: int)
    requires
        0 <= n <= cs.len(),
    ensures
        forall|k: int| 0 <= k < normalized_upto(cs, n).len() ==> !is_dash(#[trigger] normalized_upto(cs, n)[k]),
    decreases n,
{
    if n > 0 {
        lemma_normalized_has_no_dash(cs, n - 1);
        let acc = normalized_upto(cs, n - 1);
        if is_dash(cs[n - 1]) {
            lemma_strip_keeps_no_dash(acc);
        }
    }
}

proof fn lemma_dash_free_prefix(cs: Seq<char>, n: int)
    requires
        0 <= n <= cs.len(),
        forall|k: int| 0 <= k < cs.len() ==> !is_dash(#[trigger] cs[k]),
    ensures
        normalized_upto(cs, n) == cs.take(n),
    decreases n,
{
    if n > 0 {
        lemma_dash_free_prefix(cs, n - 1);
        assert(cs.take(n - 1).push(cs[n - 1]) =~= cs.take(n));
    }
}

/// Text without em or en dashes goes out unchanged.
pub proof fn lemma_dash_free_text_unchanged(cs: Seq<char>)
    requires
        forall|k: int| 0 <= k < cs.len() ==> !is_dash(#[trigger] cs[k]),
    ensures
        normalized(cs) == cs,
{
    lemma_dash_free_prefix(cs, cs.len() as int);
    assert(cs.take(cs.len() as int) =~= cs);
}

/// Normalizing outbound text twice changes nothing more than normalizing it
/// once.
pub proof fn lemma_normalize_idempotent(cs: Seq<char>)
    ensures
        normalized(normalized(cs)) == normalized(cs),
{
    lemma_normalized_has_no_dash(cs, cs.len() as int);
    lemma_dash_free_text_unchanged(normalized(cs));
}

/// The items joined with a separator between each two.
pub open spec fn joined(items: Seq<Seq<char>>, sep: Seq<char>) -> Seq<char>
    decreases items.len(),
{
    if items.len() == 0 {
        Seq::empty()
    } else if items.len() == 1 {
        items[0]
    } else {
        joined(items.drop_last(), sep) + sep + items.last()
    }
}

/// `items.join(sep)`.
pub fn join(items: &Vec<String>, sep: &str) -> (r: String)
    ensures
        r@ == joined(items@.map_values(|s: String| s@), sep@),
{
    let ghost v = items@.map_values(|s: String| s@);
    let mut out = String::new();
    let mut i: usize = 0;
    while i < items.len()
        invariant
            0 <= i <= items.len(),
            v == items@.map_values(|s: String| s@),
            out@ == joined(v.take(i as int), sep@),
        decreases items.len() - i,
    {
        assert(v.take(i + 1).drop_last() =~= v.take(i as int));
        assert(v.take(i + 1).last() == items@[i as int]@);
        if i > 0 {
            append_str(&mut out, sep);
        } else {
            assert(v.take(1) =~= seq![items@[0]@]);
        }
        append_str(&mut out, items[i].as_str());
        assert(out@ =~= joined(v.take(i + 1), sep@));
        i = i + 1;
    }
    assert(v.take(items.len() as int) =~= v);
    out
}

/// Words of the text joined by single spaces, as the characters are read:
/// the text so far, and whether whitespace is pending before the next word.
pub open spec fn squash_state(cs: Seq<char>) -> (Seq<char>, bool)
    decreases cs.len(),
{
    if cs.len() == 0 {
        (Seq::empty(), false)
    } else {
        let (out, pending) = squash_state(cs.drop_last());
        let c = cs.last();
        if is_ws(c) {
            (out, true)
        } else if pending && out.len() > 0 {
            (out.push(' ').push(c), false)
        } else {
            (out.push(c), false)
        }
    }
}

/// `split_whitespace().collect::<Vec<_>>().join(" ")`.
pub open spec fn squashed(cs: Seq<char>) -> Seq<char> {
    squash_state(cs).0
}

/// A display name with its words separated by single spaces
/// (`clean_display_name`).
pub fn clean_display_name(name: &str) -> (r: String)
    ensures
        r@ == squashed(name@),
{
    let cs = chars_of(name);
    let mut out = String::new();
    let mut pending = false;
    let mut i: usize = 0;
    while i < cs.len()
        invariant
            0 <= i <= cs.len(),
            cs@ == name@,
            (out@, pending) == squash_state(cs@.take(i as int)),
        decreases cs.len() - i,
    {
        assert(cs@.take(i + 1).drop_last() =~= cs@.take(i as int));
        let c = cs[i];
        if is_whitespace(c) {
            pending = true;
        } else {
            if pending && out.as_str().unicode_len() > 0 {
                push_char(&mut out, ' ');
            }
            push_char(&mut out, c);
            pending = false;
        }
        i = i + 1;
    }
    assert(cs@.take(cs.len() as int) =~= cs@);
    out
}

/// Whether `p` occurs in `s` at `i`.
pub fn matches_at(s: &Vec<char>, p: &Vec<char>, i: usize) -> (r: bool)
    ensures
        r == occurs_at(s@, p@, i as int),
{
    if p.len() > s.len() || i > s.len() - p.len() {
        return false;
    }
    let mut j: usize = 0;
    while j < p.len()
        invariant
            i + p.len() <= s.len(),
            0 <= j <= p.len(),
            forall|k: int| 0 <= k < j ==> s@[i + k] == p@[k],
        decreases p.len() - j,
    {
        if s[i + j] != p[j] {
            assert(s@.subrange(i as int, i + p.len())[j as int] != p@[j as int]);
            return false;
        }
        j = j + 1;
    }
    assert(s@.subrange(i as int, i + p.len()) =~= p@);
    true
}

/// The last place before `n` where `p` occurs in `s`.
pub open spec fn last_occurrence(s: Seq<char>, p: Seq<char>, n: int) -> Option<int>
    decreases n,
{
    if n <= 0 {
        None
    } else if occurs_at(s, p, n - 1) {
        Some(n - 1)
    } else {
        last_occurrence(s, p, n - 1)
    }
}

/// The last place where `p` occurs in `s` (`str::rfind`).
pub fn rfind(s: &Vec<char>, p: &Vec<char>) -> (r: Option<usize>)
    ensures
        match r {
            Some(i) => last_occurrence(s@, p@, s@.len() + 1int) == Some(i as int),
            None => last_occurrence(s@, p@, s@.len() + 1int) is None,
        },
{
    if matches_at(s, p, s.len()) {
        return Some(s.len());
    }
    let mut n: usize = s.len();
    while n > 0
        invariant
            0 <= n <= s.len(),
            last_occurrence(s@, p@, s@.len() + 1int) == last_occurrence(s@, p@, n as int),
        decreases n,
    {
        if matches_at(s, p, n - 1) {
            return Some(n - 1);
        }
        n = n - 1;
    }
    None
}

} // verus!
