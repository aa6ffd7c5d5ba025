//! Link detection: scans message text for the first citation link and
//! extracts its structured identifiers.
//!
//! A citation link has the shape
//! `https://discord.com/channels/{community}/{channel}/{message}`,
//! where the host may also be `discordapp.com` and may carry a `ptb.` or
//! `canary.` subdomain, and each path segment is one or more decimal digits.
//! Each digit segment is maximal: it ends at the first non-digit character.

use vstd::prelude::*;

verus! {

/// Structured identifiers extracted from a citation link: the community
/// (guild) that scopes the link, the channel within it, and the message
/// within the channel.  Values of this type are only produced by a
/// successful pattern match.
#[derive(Clone, Copy, Debug, PartialEq, Eq, Structural)]
pub struct LinkReference {
    pub community_id: u64,
    pub channel_id: u64,
    pub message_id: u64,
}

/// A decimal digit as the link grammar understands it.
pub open spec fn is_link_digit(c: char) -> bool {
    '0' as u32 <= c as u32 && c as u32 <= '9' as u32
}

/// Numeric value of a decimal digit.
pub open spec fn digit_val(c: char) -> int {
    c as u32 - '0' as u32
}

/// `https://` occurs at position `i`.
pub open spec fn https_at(s: Seq<char>, i: int) -> bool {
    &&& 0 <= i
    &&& i + 8 <= s.len()
    &&& s[i] == 'h'
    &&& s[i + 1] == 't'
    &&& s[i + 2] == 't'
    &&& s[i + 3] == 'p'
    &&& s[i + 4] == 's'
    &&& s[i + 5] == ':'
    &&& s[i + 6] == '/'
    &&& s[i + 7] == '/'
}

/// `ptb.` occurs at position `i`.
pub open spec fn ptb_at(s: Seq<char>, i: int) -> bool {
    &&& 0 <= i
    &&& i + 4 <= s.len()
    &&& s[i] == 'p'
    &&& s[i + 1] == 't'
    &&& s[i + 2] == 'b'
    &&& s[i + 3] == '.'
}

/// `canary.` occurs at position `i`.
pub open spec fn canary_at(s: Seq<char>, i: int) -> bool {
    &&& 0 <= i
    &&& i + 7 <= s.len()
    &&& s[i] == 'c'
    &&& s[i + 1] == 'a'
    &&& s[i + 2] == 'n'
    &&& s[i + 3] == 'a'
    &&& s[i + 4] == 'r'
    &&& s[i + 5] == 'y'
    &&& s[i + 6] == '.'
}

/// `discord` occurs at position `i`.
pub open spec fn discord_at(s: Seq<char>, i: int) -> bool {
    &&& 0 <= i
    &&& i + 7 <= s.len()
    &&& s[i] == 'd'
    &&& s[i + 1] == 'i'
    &&& s[i + 2] == 's'
    &&& s[i + 3] == 'c'
    &&& s[i + 4] == 'o'
    &&& s[i + 5] == 'r'
    &&& s[i + 6] == 'd'
}

/// `app` occurs at position `i`.
pub open spec fn app_at(s: Seq<char>, i: int) -> bool {
    &&& 0 <= i
    &&& i + 3 <= s.len()
    &&& s[i] == 'a'
    &&& s[i + 1] == 'p'
    &&& s[i + 2] == 'p'
}

/// `.com/channels/` occurs at position `i`.
pub open spec fn channels_at(s: Seq<char>, i: int) -> bool {
    &&& 0 <= i
    &&& i + 14 <= s.len()
    &&& s[i] == '.'
    &&& s[i + 1] == 'c'
    &&& s[i + 2] == 'o'
    &&& s[i + 3] == 'm'
    &&& s[i + 4] == '/'
    &&& s[i + 5] == 'c'
    &&& s[i + 6] == 'h'
    &&& s[i + 7] == 'a'
    &&& s[i + 8] == 'n'
    &&& s[i + 9] == 'n'
    &&& s[i + 10] == 'e'
    &&& s[i + 11] == 'l'
    &&& s[i + 12] == 's'
    &&& s[i + 13] == '/'
}

/// Length of the optional subdomain starting at `i`.  The two candidates
/// start with distinct characters, and neither starts like `discord`, so the
/// choice is forced by the text itself.
pub open spec fn subdomain_len(s: Seq<char>, i: int) -> int {
    if ptb_at(s, i) {
        4
    } else if canary_at(s, i) {
        7
    } else {
        0
    }
}

/// Length of the optional `app` host infix starting at `i`.  `app` never
/// begins like the mandatory `.com` that follows, so the choice is forced.
pub open spec fn app_len(s: Seq<char>, i: int) -> int {
    if app_at(s, i) {
        3
    } else {
        0
    }
}

/// The scheme-and-host head of a citation link occurs at position `i`:
/// `https://`, an optional subdomain, `discord`, an optional `app`, and
/// `.com/channels/`.
pub open spec fn head_at(s: Seq<char>, i: int) -> bool {
    &&& https_at(s, i)
    &&& {
        let d = i + 8 + subdomain_len(s, i + 8);
        &&& discord_at(s, d)
        &&& channels_at(s, d + 7 + app_len(s, d + 7))
    }
}

/// Position just past the head that starts at `i` (meaningful when
/// `head_at(s, i)` holds): where the first digit segment begins.
pub open spec fn head_end(s: Seq<char>, i: int) -> int {
    let d = i + 8 + subdomain_len(s, i + 8);
    d + 7 + app_len(s, d + 7) + 14
}

/// End of the maximal run of decimal digits starting at `j`.
pub open spec fn digit_run_end(s: Seq<char>, j: int) -> int
    decreases s.len() - j,
{
    if 0 <= j && j < s.len() && is_link_digit(s[j]) {
        digit_run_end(s, j + 1)
    } else {
        j
    }
}

pub proof fn lemma_digit_run_end(s: Seq<char>, j: int)
    requires
        0 <= j <= s.len(),
    ensures
        j <= digit_run_end(s, j) <= s.len(),
        forall|k: int| j <= k < digit_run_end(s, j) ==> is_link_digit(#[trigger] s[k]),
        digit_run_end(s, j) < s.len() ==> !is_link_digit(s[digit_run_end(s, j)]),
    decreases s.len() - j,
{
    if j < s.len() && is_link_digit(s[j]) {
        lemma_digit_run_end(s, j + 1);
    }
}

/// The maximal digit run starting at `a` ends exactly at `b` when everything
/// in `[a, b)` is a digit and `b` is the end of the text or a non-digit.
pub proof fn lemma_digit_run_exact(s: Seq<char>, a: int, b: int)
    requires
        0 <= a <= b <= s.len(),
        forall|k: int| a <= k < b ==> is_link_digit(#[trigger] s[k]),
        b == s.len() || !is_link_digit(s[b]),
    ensures
        digit_run_end(s, a) == b,
    decreases b - a,
{
    if a < b {
        lemma_digit_run_exact(s, a + 1, b);
    }
}

/// Start of the community digit segment of a match at `i`.
pub open spec fn seg1_start(s: Seq<char>, i: int) -> int {
    head_end(s, i)
}

pub open spec fn seg1_end(s: Seq<char>, i: int) -> int {
    digit_run_end(s, seg1_start(s, i))
}

/// Start of the channel digit segment of a match at `i`.
pub open spec fn seg2_start(s: Seq<char>, i: int) -> int {
    seg1_end(s, i) + 1
}

pub open spec fn seg2_end(s: Seq<char>, i: int) -> int {
    digit_run_end(s, seg2_start(s, i))
}

/// Start of the message digit segment of a match at `i`.
pub open spec fn seg3_start(s: Seq<char>, i: int) -> int {
    seg2_end(s, i) + 1
}

pub open spec fn seg3_end(s: Seq<char>, i: int) -> int {
    digit_run_end(s, seg3_start(s, i))
}

/// A complete citation link occurs at position `i`: the head, then three
/// non-empty digit segments separated by `/`.  The first two segments are
/// followed by `/` (they are maximal digit runs, so the run ending on any
/// other character fails); the third ends at the first non-digit or at the
/// end of the text.
pub open spec fn match_at(s: Seq<char>, i: int) -> bool {
    &&& head_at(s, i)
    &&& seg1_end(s, i) > seg1_start(s, i)
    &&& seg1_end(s, i) < s.len() && s[seg1_end(s, i)] == '/'
    &&& seg2_end(s, i) > seg2_start(s, i)
    &&& seg2_end(s, i) < s.len() && s[seg2_end(s, i)] == '/'
    &&& seg3_end(s, i) > seg3_start(s, i)
}

/// Position just past the matched link that starts at `i`.
pub open spec fn match_end(s: Seq<char>, i: int) -> int {
    seg3_end(s, i)
}

/// Value of a sequence of decimal digits, most significant first.
pub open spec fn digits_val(ds: Seq<char>) -> int
    decreases ds.len(),
{
    if ds.len() == 0 {
        0
    } else {
        digits_val(ds.drop_last()) * 10 + digit_val(ds.last())
    }
}

pub proof fn lemma_digits_val_nonneg(ds: Seq<char>)
    requires
        forall|k: int| 0 <= k < ds.len() ==> is_link_digit(#[trigger] ds[k]),
    ensures
        digits_val(ds) >= 0,
    decreases ds.len(),
{
    if ds.len() > 0 {
        lemma_digits_val_nonneg(ds.drop_last());
    }
}

/// Extending a digit segment to the right never decreases its value.
pub proof fn lemma_digits_val_extend(s: Seq<char>, a: int, m: int, b: int)
    requires
        0 <= a <= m <= b <= s.len(),
        forall|k: int| a <= k < b ==> is_link_digit(#[trigger] s[k]),
    ensures
        digits_val(s.subrange(a, b)) >= digits_val(s.subrange(a, m)),
    decreases b - m,
{
    if m < b {
        lemma_digits_val_extend(s, a, m, b - 1);
        let long = s.subrange(a, b);
        let short = s.subrange(a, b - 1);
        assert(long.drop_last() =~= short);
        lemma_digits_val_nonneg(short);
    }
}

/// Values of the three digit segments of a match at `i`.
pub open spec fn seg1_val(s: Seq<char>, i: int) -> int {
    digits_val(s.subrange(seg1_start(s, i), seg1_end(s, i)))
}

pub open spec fn seg2_val(s: Seq<char>, i: int) -> int {
    digits_val(s.subrange(seg2_start(s, i), seg2_end(s, i)))
}

pub open spec fn seg3_val(s: Seq<char>, i: int) -> int {
    digits_val(s.subrange(seg3_start(s, i), seg3_end(s, i)))
}

/// Position of the leftmost match at or after `i`, if any.
pub open spec fn first_match_from(s: Seq<char>, i: int) -> Option<int>
    decreases s.len() - i,
{
    if i >= s.len() {
        None
    } else if match_at(s, i) {
        Some(i)
    } else {
        first_match_from(s, i + 1)
    }
}

/// Position of the leftmost match in the whole text, if any.
pub open spec fn first_match(s: Seq<char>) -> Option<int> {
    first_match_from(s, 0)
}

/// The identifiers the matcher returns for a text: those of the leftmost
/// match, provided all three segment values fit in 64 bits.  A leftmost
/// match with an oversized segment yields nothing; later matches are not
/// considered.
pub open spec fn spec_extract(s: Seq<char>) -> Option<LinkReference> {
    match first_match(s) {
        Option::None => Option::None,
        Option::Some(i) => {
            if seg1_val(s, i) <= u64::MAX && seg2_val(s, i) <= u64::MAX && seg3_val(s, i)
                <= u64::MAX {
                Option::Some(
                    (LinkReference {
                        community_id: seg1_val(s, i) as u64,
                        channel_id: seg2_val(s, i) as u64,
                        message_id: seg3_val(s, i) as u64,
                    }),
                )
            } else {
                Option::None
            }
        },
    }
}

/// The text of the leftmost matched link, if any.
pub open spec fn spec_first_link(s: Seq<char>) -> Option<Seq<char>> {
    match first_match(s) {
        Option::None => Option::None,
        Option::Some(i) => Option::Some(s.subrange(i, match_end(s, i))),
    }
}

proof fn lemma_first_match_from_none(s: Seq<char>, i: int)
    requires
        forall|j: int| i <= j < s.len() ==> !match_at(s, j),
    ensures
        first_match_from(s, i) is None,
    decreases s.len() - i,
{
    if i < s.len() {
        lemma_first_match_from_none(s, i + 1);
    }
}

proof fn lemma_first_match_from_skip(s: Seq<char>, i: int, m: int)
    requires
        i <= m,
        match_at(s, m),
        forall|j: int| i <= j < m ==> !match_at(s, j),
    ensures
        first_match_from(s, i) == Some(m),
    decreases m - i,
{
    assert(m < s.len()) by {
        assert(head_at(s, m));
    }
    if i < m {
        lemma_first_match_from_skip(s, i + 1, m);
    }
}

/// A text without a single occurrence of the link pattern yields nothing.
pub proof fn lemma_no_pattern_no_result(s: Seq<char>)
    requires
        forall|i: int| !match_at(s, i),
    ensures
        spec_extract(s) is None,
        spec_first_link(s) is None,
{
    lemma_first_match_from_none(s, 0);
}

/// Only the first occurrence counts: if a match starts at `i` and no match
/// starts earlier, the matcher's result is determined by position `i` alone,
/// whatever follows it.
pub proof fn lemma_extract_takes_first(s: Seq<char>, i: int)
    requires
        0 <= i,
        match_at(s, i),
        forall|j: int| 0 <= j < i ==> !match_at(s, j),
    ensures
        first_match(s) == Some(i),
        spec_first_link(s) == Some(s.subrange(i, match_end(s, i))),
        spec_extract(s) == (if seg1_val(s, i) <= u64::MAX && seg2_val(s, i) <= u64::MAX
            && seg3_val(s, i) <= u64::MAX {
            Some(
                (LinkReference {
                    community_id: seg1_val(s, i) as u64,
                    channel_id: seg2_val(s, i) as u64,
                    message_id: seg3_val(s, i) as u64,
                }),
            )
        } else {
            None
        }),
{
    lemma_first_match_from_skip(s, 0, i);
}

proof fn lemma_link_tail(s: Seq<char>, hl: int, gd: Seq<char>, cd: Seq<char>, md: Seq<char>)
    requires
        head_at(s, 0),
        head_end(s, 0) == hl,
        gd.len() > 0,
        cd.len() > 0,
        md.len() > 0,
        s.len() == hl + gd.len() + cd.len() + md.len() + 2,
        forall|k: int| 0 <= k < gd.len() ==> s[hl + k] == #[trigger] gd[k],
        s[hl + gd.len()] == '/',
        forall|k: int| 0 <= k < cd.len() ==> s[hl + gd.len() + 1 + k] == #[trigger] cd[k],
        s[hl + gd.len() + 1 + cd.len()] == '/',
        forall|k: int| 0 <= k < md.len() ==> s[hl + gd.len() + cd.len() + 2 + k] == #[trigger] md[k],
        forall|k: int| 0 <= k < gd.len() ==> is_link_digit(#[trigger] gd[k]),
        forall|k: int| 0 <= k < cd.len() ==> is_link_digit(#[trigger] cd[k]),
        forall|k: int| 0 <= k < md.len() ==> is_link_digit(#[trigger] md[k]),
    ensures
        match_at(s, 0),
        match_end(s, 0) == s.len(),
        seg1_val(s, 0) == digits_val(gd),
        seg2_val(s, 0) == digits_val(cd),
        seg3_val(s, 0) == digits_val(md),
{
    let g0 = hl;
    let g1 = hl + gd.len();
    let c0 = g1 + 1;
    let c1 = c0 + cd.len();
    let m0 = c1 + 1;
    let m1 = m0 + md.len();
    assert(!is_link_digit('/'));
    assert forall|k: int| g0 <= k < g1 implies is_link_digit(#[trigger] s[k]) by {
        assert(s[k] == gd[k - g0]);
    }
    assert forall|k: int| c0 <= k < c1 implies is_link_digit(#[trigger] s[k]) by {
        assert(s[k] == cd[k - c0]);
    }
    assert forall|k: int| m0 <= k < m1 implies is_link_digit(#[trigger] s[k]) by {
        assert(s[k] == md[k - m0]);
    }
    lemma_digit_run_exact(s, g0, g1);
    lemma_digit_run_exact(s, c0, c1);
    lemma_digit_run_exact(s, m0, m1);
    assert(seg1_end(s, 0) == g1);
    assert(seg2_end(s, 0) == c1);
    assert(seg3_end(s, 0) == m1);
    assert(s.subrange(g0, g1) =~= gd);
    assert(s.subrange(c0, c1) =~= cd);
    assert(s.subrange(m0, m1) =~= md);
}

/// A text that consists of exactly one well-formed citation link yields its
/// three digit segments, read as integers: for either host, with or without
/// the `ptb.` or `canary.` subdomain.
pub proof fn lemma_well_formed_link(head: Seq<char>, gd: Seq<char>, cd: Seq<char>, md: Seq<char>)
    requires
        head == "https://discord.com/channels/"@ || head == "https://discordapp.com/channels/"@
            || head == "https://ptb.discord.com/channels/"@ || head
            == "https://ptb.discordapp.com/channels/"@ || head
            == "https://canary.discord.com/channels/"@ || head
            == "https://canary.discordapp.com/channels/"@,
        gd.len() > 0 && cd.len() > 0 && md.len() > 0,
        forall|k: int| 0 <= k < gd.len() ==> is_link_digit(#[trigger] gd[k]),
        forall|k: int| 0 <= k < cd.len() ==> is_link_digit(#[trigger] cd[k]),
        forall|k: int| 0 <= k < md.len() ==> is_link_digit(#[trigger] md[k]),
        digits_val(gd) <= u64::MAX,
        digits_val(cd) <= u64::MAX,
        digits_val(md) <= u64::MAX,
    ensures
        spec_extract(head + gd + seq!['/'] + cd + seq!['/'] + md) == Some(
            (LinkReference {
                community_id: digits_val(gd) as u64,
                channel_id: digits_val(cd) as u64,
                message_id: digits_val(md) as u64,
            }),
        ),
{
    let s = head + gd + seq!['/'] + cd + seq!['/'] + md;
    let hl = head.len() as int;
    assert forall|k: int| 0 <= k < hl implies s[k] == head[k] by {}
    assert forall|k: int| 0 <= k < gd.len() implies s[hl + k] == gd[k] by {}
    assert(s[hl + gd.len()] == '/');
    assert forall|k: int| 0 <= k < cd.len() implies s[hl + gd.len() + 1 + k] == cd[k] by {}
    assert(s[hl + gd.len() + 1 + cd.len()] == '/');
    assert forall|k: int| 0 <= k < md.len() implies s[hl + gd.len() + cd.len() + 2 + k]
        == md[k] by {}
    if head == "https://discord.com/channels/"@ {
        reveal_strlit("https://discord.com/channels/");
        assert(hl == 29);
        assert(https_at(s, 0));
        assert(!ptb_at(s, 8) && !canary_at(s, 8));
        assert(discord_at(s, 8));
        assert(!app_at(s, 15));
        assert(channels_at(s, 15));
        assert(head_at(s, 0) && head_end(s, 0) == hl);
    } else if head == "https://discordapp.com/channels/"@ {
        reveal_strlit("https://discordapp.com/channels/");
        assert(hl == 32);
        assert(https_at(s, 0));
        assert(!ptb_at(s, 8) && !canary_at(s, 8));
        assert(discord_at(s, 8));
        assert(app_at(s, 15));
        assert(channels_at(s, 18));
        assert(head_at(s, 0) && head_end(s, 0) == hl);
    } else if head == "https://ptb.discord.com/channels/"@ {
        reveal_strlit("https://ptb.discord.com/channels/");
        assert(hl == 33);
        assert(https_at(s, 0));
        assert(ptb_at(s, 8));
        assert(discord_at(s, 12));
        assert(!app_at(s, 19));
        assert(channels_at(s, 19));
        assert(head_at(s, 0) && head_end(s, 0) == hl);
    } else if head == "https://ptb.discordapp.com/channels/"@ {
        reveal_strlit("https://ptb.discordapp.com/channels/");
        assert(hl == 36);
        assert(https_at(s, 0));
        assert(ptb_at(s, 8));
        assert(discord_at(s, 12));
        assert(app_at(s, 19));
        assert(channels_at(s, 22));
        assert(head_at(s, 0) && head_end(s, 0) == hl);
    } else if head == "https://canary.discord.com/channels/"@ {
        reveal_strlit("https://canary.discord.com/channels/");
        assert(hl == 36);
        assert(https_at(s, 0));
        assert(!ptb_at(s, 8));
        assert(canary_at(s, 8));
        assert(discord_at(s, 15));
        assert(!app_at(s, 22));
        assert(channels_at(s, 22));
        assert(head_at(s, 0) && head_end(s, 0) == hl);
    } else {
        reveal_strlit("https://canary.discordapp.com/channels/");
        assert(hl == 39);
        assert(https_at(s, 0));
        assert(!ptb_at(s, 8));
        assert(canary_at(s, 8));
        assert(discord_at(s, 15));
        assert(app_at(s, 22));
        assert(channels_at(s, 25));
        assert(head_at(s, 0) && head_end(s, 0) == hl);
    }
    lemma_link_tail(s, hl, gd, cd, md);
    lemma_extract_takes_first(s, 0);
}

/// Recognises the link head starting at `i`; on success returns the position
/// just past it, where the first digit segment begins.
fn head_check(s: &str, i: usize, n: usize) -> (r: Option<usize>)
    requires
        n == s@.len(),
        i <= n,
    ensures
        r is Some <==> head_at(s@, i as int),
        r is Some ==> r.unwrap() == head_end(s@, i as int) && i < r.unwrap() && r.unwrap() <= n,
{
    if n - i < 8 {
        return None;
    }
    if !(s.get_char(i) == 'h' && s.get_char(i + 1) == 't' && s.get_char(i + 2) == 't'
        && s.get_char(i + 3) == 'p' && s.get_char(i + 4) == 's' && s.get_char(i + 5) == ':'
        && s.get_char(i + 6) == '/' && s.get_char(i + 7) == '/') {
        return None;
    }
    let mut d = i + 8;
    if n - d >= 4 && s.get_char(d) == 'p' && s.get_char(d + 1) == 't' && s.get_char(d + 2) == 'b'
        && s.get_char(d + 3) == '.' {
        d = d + 4;
    } else if n - d >= 7 && s.get_char(d) == 'c' && s.get_char(d + 1) == 'a' && s.get_char(d + 2)
        == 'n' && s.get_char(d + 3) == 'a' && s.get_char(d + 4) == 'r' && s.get_char(d + 5) == 'y'
        && s.get_char(d + 6) == '.' {
        d = d + 7;
    }
    assert(d == i + 8 + subdomain_len(s@, i as int + 8));
    if n - d < 7 {
        return None;
    }
    if !(s.get_char(d) == 'd' && s.get_char(d + 1) == 'i' && s.get_char(d + 2) == 's' && s.get_char(
        d + 3,
    ) == 'c' && s.get_char(d + 4) == 'o' && s.get_char(d + 5) == 'r' && s.get_char(d + 6) == 'd') {
        return None;
    }
    let mut e = d + 7;
    if n - e >= 3 && s.get_char(e) == 'a' && s.get_char(e + 1) == 'p' && s.get_char(e + 2) == 'p' {
        e = e + 3;
    }
    assert(e == d + 7 + app_len(s@, d as int + 7));
    if n - e < 14 {
        return None;
    }
    if s.get_char(e) == '.' && s.get_char(e + 1) == 'c' && s.get_char(e + 2) == 'o' && s.get_char(
        e + 3,
    ) == 'm' && s.get_char(e + 4) == '/' && s.get_char(e + 5) == 'c' && s.get_char(e + 6) == 'h'
        && s.get_char(e + 7) == 'a' && s.get_char(e + 8) == 'n' && s.get_char(e + 9) == 'n'
        && s.get_char(e + 10) == 'e' && s.get_char(e + 11) == 'l' && s.get_char(e + 12) == 's'
        && s.get_char(e + 13) == '/' {
        Some(e + 14)
    } else {
        None
    }
}

/// Scans the maximal run of decimal digits starting at `start`.
fn scan_digits(s: &str, start: usize, n: usize) -> (r: usize)
    requires
        n == s@.len(),
        start <= n,
    ensures
        r == digit_run_end(s@, start as int),
        start <= r <= n,
{
    let mut j = start;
    while j < n
        invariant
            n == s@.len(),
            start <= j <= n,
            digit_run_end(s@, start as int) == digit_run_end(s@, j as int),
        decreases n - j,
    {
        let c = s.get_char(j);
        let u = c as u32;
        if !(48 <= u && u <= 57) {
            return j;
        }
        j = j + 1;
    }
    j
}

/// Parses the all-digit segment `[a, b)` as an unsigned 64-bit integer;
/// yields nothing when the value does not fit.
fn parse_u64_digits(s: &str, a: usize, b: usize) -> (r: Option<u64>)
    requires
        a <= b <= s@.len(),
        forall|k: int| a <= k < b ==> is_link_digit(#[trigger] s@[k]),
    ensures
        match r {
            Some(v) => v == digits_val(s@.subrange(a as int, b as int)),
            None => digits_val(s@.subrange(a as int, b as int)) > u64::MAX,
        },
{
    let mut acc: u64 = 0;
    let mut i = a;
    assert(s@.subrange(a as int, a as int) =~= Seq::<char>::empty());
    while i < b
        invariant
            a <= i <= b <= s@.len(),
            forall|k: int| a <= k < b ==> is_link_digit(#[trigger] s@[k]),
            acc == digits_val(s@.subrange(a as int, i as int)),
        decreases b - i,
    {
        let c = s.get_char(i);
        let u = c as u32;
        let d = (u - 48) as u64;
        proof {
            assert(is_link_digit(s@[i as int]));
            assert(d == digit_val(s@[i as int]));
            assert(s@.subrange(a as int, i as int + 1).drop_last() =~= s@.subrange(
                a as int,
                i as int,
            ));
            assert(s@.subrange(a as int, i as int + 1).last() == s@[i as int]);
        }
        if acc > u64::MAX / 10 {
            proof {
                lemma_digits_val_extend(s@, a as int, i as int + 1, b as int);
            }
            return None;
        }
        let shifted = acc * 10;
        if shifted > u64::MAX - d {
            proof {
                lemma_digits_val_extend(s@, a as int, i as int + 1, b as int);
            }
            return None;
        }
        acc = shifted + d;
        i = i + 1;
    }
    Some(acc)
}

/// Finds the leftmost match and its segment boundaries:
/// `(start, seg1_start, seg1_end, seg2_end, seg3_end)`.
fn find_first_match(s: &str) -> (r: Option<(usize, usize, usize, usize, usize)>)
    ensures
        s@.len() <= usize::MAX,
        r is None ==> first_match(s@) is None,
        r matches Some(t) ==> {
            &&& first_match(s@) == Some(t.0 as int)
            &&& match_at(s@, t.0 as int)
            &&& t.1 == seg1_start(s@, t.0 as int)
            &&& t.2 == seg1_end(s@, t.0 as int)
            &&& t.3 == seg2_end(s@, t.0 as int)
            &&& t.4 == seg3_end(s@, t.0 as int)
        },
{
    let n = s.unicode_len();
    let mut i: usize = 0;
    while i < n
        invariant
            n == s@.len(),
            i <= n,
            forall|j: int| 0 <= j < i ==> !match_at(s@, j),
        decreases n - i,
    {
        match try_match_here(s, i, n) {
            Some((g0, g1, c1, m1)) => {
                proof {
                    lemma_first_match_from_skip(s@, 0, i as int);
                }
                return Some((i, g0, g1, c1, m1));
            },
            None => {
                i = i + 1;
            },
        }
    }
    proof {
        lemma_first_match_from_none(s@, 0);
    }
    None
}

/// Tries to recognise a complete link at position `i`; on success returns
/// `(seg1_start, seg1_end, seg2_end, seg3_end)`.
fn try_match_here(s: &str, i: usize, n: usize) -> (r: Option<(usize, usize, usize, usize)>)
    requires
        n == s@.len(),
        i <= n,
    ensures
        r is Some <==> match_at(s@, i as int),
        r matches Some(t) ==> {
            &&& t.0 == seg1_start(s@, i as int)
            &&& t.1 == seg1_end(s@, i as int)
            &&& t.2 == seg2_end(s@, i as int)
            &&& t.3 == seg3_end(s@, i as int)
        },
{
    let g0 = match head_check(s, i, n) {
        Some(g0) => g0,
        None => {
            return None;
        },
    };
    let g1 = scan_digits(s, g0, n);
    if g1 == g0 || g1 >= n {
        return None;
    }
    if !(s.get_char(g1) == '/') {
        return None;
    }
    let c0 = g1 + 1;
    let c1 = scan_digits(s, c0, n);
    if c1 == c0 || c1 >= n {
        return None;
    }
    if !(s.get_char(c1) == '/') {
        return None;
    }
    let m0 = c1 + 1;
    let m1 = scan_digits(s, m0, n);
    if m1 == m0 {
        return None;
    }
    Some((g0, g1, c1, m1))
}

/// Scans `text` for the first citation link and extracts its identifiers.
/// Returns nothing when no link occurs, and also when the first link's
/// segments do not all fit in 64 bits (no partial result in that case, and
/// later links are not considered).
pub fn extract(text: &str) -> (r: Option<LinkReference>)
    ensures
        r == spec_extract(text@),
{
    match find_first_match(text) {
        None => None,
        Some((i, g0, g1, c1, m1)) => {
            proof {
                lemma_digit_run_end(text@, g0 as int);
                lemma_digit_run_end(text@, g1 as int + 1);
                lemma_digit_run_end(text@, c1 as int + 1);
            }
            let gv = parse_u64_digits(text, g0, g1);
            let cv = parse_u64_digits(text, g1 + 1, c1);
            let mv = parse_u64_digits(text, c1 + 1, m1);
            match (gv, cv, mv) {
                (Some(g), Some(c), Some(m)) => Some(
                    LinkReference { community_id: g, channel_id: c, message_id: m },
                ),
                _ => None,
            }
        },
    }
}

/// Scans `text` for the first citation link and returns its text, whether or
/// not its numeric segments fit in 64 bits.
pub fn extract_link(text: &str) -> (r: Option<String>)
    ensures
        match spec_first_link(text@) {
            Option::None => r is None,
            Option::Some(l) => r is Some && r.unwrap()@ == l,
        },
{
    match find_first_match(text) {
        None => None,
        Some((i, g0, g1, c1, m1)) => {
            proof {
                lemma_digit_run_end(text@, c1 as int + 1);
            }
            let piece = text.substring_char(i, m1);
            Some(piece.to_owned())
        },
    }
}

} // verus!
