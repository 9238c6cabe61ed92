//! Locating and parsing the kernel build banner inside a kernel image.
//!
//! Candidates are the occurrences of the literal `"Linux version "`; at each,
//! in order, the full banner pattern is tried, anchored at the candidate. The
//! first candidate where it matches gives the banner.

use vstd::prelude::*;
use vstd::slice::slice_subrange;

verus! {

/// The banner pattern: `Linux version <release> (<builder>) (<compiler>) <extra>\n`,
/// where `<release>` starts with a `<version>` of the form `N.N.N`. Anchored at
/// the start of the haystack.
pub const BANNER_PATTERN: &'static str =
    r"^Linux version (?<release>(?<version>[0-9]+\.[0-9]+\.[0-9]+).*) \((?<builder>.*@.*)\) \((?<compiler>.*)\) (?<extra>.*)\n";

/// The literal `"Linux version "` that starts every banner.
pub open spec fn banner_prefix() -> Seq<u8> {
    seq![76u8, 105u8, 110u8, 117u8, 120u8, 32u8, 118u8, 101u8, 114u8, 115u8, 105u8, 111u8, 110u8, 32u8]
}

/// `needle` occurs in `h` starting at index `i`.
pub open spec fn occurs_at(h: Seq<u8>, needle: Seq<u8>, i: int) -> bool {
    &&& 0 <= i
    &&& i + needle.len() <= h.len()
    &&& h.subrange(i, i + needle.len()) == needle
}

/// What the banner pattern captures at the start of `h`: the spans of the
/// whole match and of the groups release, version, builder, compiler and
/// extra, in that order, or `None` where it does not match.
pub uninterp spec fn banner_captures_of(h: Seq<u8>) -> Option<Seq<(usize, usize)>>;

/// Six spans in `0 ..= len`, nested as the banner pattern nests them: the
/// match starts at 0 and ends just after a newline, the release follows the
/// literal prefix, and the version starts the release.
pub open spec fn banner_spans_fit(s: Seq<(usize, usize)>, h: Seq<u8>) -> bool {
    &&& s.len() == 6
    &&& forall|k: int| 0 <= k < 6 ==> (#[trigger] s[k]).0 <= s[k].1 && s[k].1 <= h.len()
    &&& s[0].0 == 0
    &&& s[0].1 >= 1
    &&& h[s[0].1 - 1] == 10u8
    &&& s[1].0 == 14
    &&& s[2].0 == s[1].0
    &&& s[2].1 <= s[1].1
    &&& s[1].1 <= s[0].1
}

/// Relies on memchr::memmem::find: the position of the first occurrence of
/// `needle` in `haystack[from..]`, or `None` where there is none.
#[verifier::external_body]
fn find_from(haystack: &[u8], from: usize, needle: &[u8]) -> (r: Option<usize>)
    requires
        from <= haystack@.len(),
    ensures
        r matches Some(k) ==> occurs_at(haystack@, needle@, from + k) && forall|j: int|
            from <= j < from + k ==> !occurs_at(haystack@, needle@, j),
        r is None ==> forall|j: int| from <= j ==> !occurs_at(haystack@, needle@, j),
{
    memchr::memmem::find(&haystack[from..], needle)
}

/// Relies on regex::bytes::Regex::captures with `BANNER_PATTERN`: the spans
/// of the match and of its five named groups.
#[verifier::external_body]
fn banner_captures(haystack: &[u8]) -> (r: Option<Vec<(usize, usize)>>)
    ensures
        r matches Some(v) ==> banner_captures_of(haystack@) == Some(v@) && banner_spans_fit(
            v@,
            haystack@,
        ),
        r is None ==> banner_captures_of(haystack@) is None,
{
    let caps = regex::bytes::Regex::new(BANNER_PATTERN).unwrap().captures(haystack)?;
    let span = |m: regex::bytes::Match| (m.start(), m.end());
    Some(
        vec![
            span(caps.get(0)?),
            span(caps.name("release")?),
            span(caps.name("version")?),
            span(caps.name("builder")?),
            span(caps.name("compiler")?),
            span(caps.name("extra")?),
        ],
    )
}

/// The parts of a kernel banner, each a view into the scanned buffer.
pub struct ParsedKernelBanner<'banner> {
    /// The whole banner line, newline included.
    pub banner: &'banner [u8],
    /// Kernel version with any suffixes, for example "w.x.y-flavor".
    pub release: &'banner [u8],
    /// Kernel version, for example "w.x.y".
    pub version: &'banner [u8],
    /// Builder machine's info, for example "username@hostname".
    pub builder: &'banner [u8],
    /// Compiler information, for example "gcc ..., GNU ld ...".
    pub compiler: &'banner [u8],
    /// Anything extra, for example "#1 SMP PREEMPT Thu Jan 1 00:00:01 UTC 1970".
    pub extra: &'banner [u8],
}

impl<'banner> ParsedKernelBanner<'banner> {
    /// Each part is the bytes of `h` under the matching span of `s`.
    pub open spec fn cut_from(&self, h: Seq<u8>, s: Seq<(usize, usize)>) -> bool {
        &&& self.banner@ == h.subrange(s[0].0 as int, s[0].1 as int)
        &&& self.release@ == h.subrange(s[1].0 as int, s[1].1 as int)
        &&& self.version@ == h.subrange(s[2].0 as int, s[2].1 as int)
        &&& self.builder@ == h.subrange(s[3].0 as int, s[3].1 as int)
        &&& self.compiler@ == h.subrange(s[4].0 as int, s[4].1 as int)
        &&& self.extra@ == h.subrange(s[5].0 as int, s[5].1 as int)
    }
}

/// Cuts the banner parts out of `haystack` along the six spans `caps` (the
/// whole match, then release, version, builder, compiler and extra).
pub fn banner_from_captures<'a>(haystack: &'a [u8], caps: &Vec<(usize, usize)>) -> (r:
    ParsedKernelBanner<'a>)
    requires
        caps@.len() == 6,
        forall|k: int| 0 <= k < 6 ==> (#[trigger] caps@[k]).0 <= caps@[k].1 && caps@[k].1 <= haystack@.len(),
    ensures
        r.cut_from(haystack@, caps@),
{
    assert(caps@[0].1 <= haystack@.len() && caps@[1].1 <= haystack@.len() && caps@[2].1 <= haystack@.len());
    assert(caps@[3].1 <= haystack@.len() && caps@[4].1 <= haystack@.len() && caps@[5].1 <= haystack@.len());
    let c0 = caps[0];
    let c1 = caps[1];
    let c2 = caps[2];
    let c3 = caps[3];
    let c4 = caps[4];
    let c5 = caps[5];
    ParsedKernelBanner {
        banner: slice_subrange(haystack, c0.0, c0.1),
        release: slice_subrange(haystack, c1.0, c1.1),
        version: slice_subrange(haystack, c2.0, c2.1),
        builder: slice_subrange(haystack, c3.0, c3.1),
        compiler: slice_subrange(haystack, c4.0, c4.1),
        extra: slice_subrange(haystack, c5.0, c5.1),
    }
}

/// Matches the banner pattern at the very start of `haystack`.
pub fn parse_kernel_banner<'a>(haystack: &'a [u8]) -> (r: Option<ParsedKernelBanner<'a>>)
    ensures
        banner_captures_of(haystack@) is None ==> r is None,
        banner_captures_of(haystack@) matches Some(s) ==> r matches Some(b) && b.cut_from(
            haystack@,
            s,
        ) && banner_spans_fit(s, haystack@),
{
    match banner_captures(haystack) {
        None => None,
        Some(caps) => Some(banner_from_captures(haystack, &caps)),
    }
}

/// The literal prefix as bytes.
fn prefix_bytes() -> (r: Vec<u8>)
    ensures
        r@ == banner_prefix(),
{
    let r: Vec<u8> = vec![76, 105, 110, 117, 120, 32, 118, 101, 114, 115, 105, 111, 110, 32];
    assert(r@ =~= banner_prefix());
    r
}

/// Two occurrences of the prefix never overlap: its first byte `L` occurs
/// nowhere else in it.
proof fn lemma_prefix_occurrences_apart(h: Seq<u8>, i: int, j: int)
    requires
        occurs_at(h, banner_prefix(), i),
        i < j < i + 14,
    ensures
        !occurs_at(h, banner_prefix(), j),
{
    let p = banner_prefix();
    if occurs_at(h, p, j) {
        assert(h.subrange(j, j + 14)[0] == h[j]);
        assert(h.subrange(i, i + 14)[j - i] == h[j]);
        assert(p[0] == 76u8);
        assert(forall|k: int| 1 <= k < 14 ==> p[k] != 76u8) by {
            assert(p[1] == 105u8 && p[2] == 110u8 && p[3] == 117u8 && p[4] == 120u8);
            assert(p[5] == 32u8 && p[6] == 118u8 && p[7] == 101u8 && p[8] == 114u8);
            assert(p[9] == 115u8 && p[10] == 105u8 && p[11] == 111u8 && p[12] == 110u8);
            assert(p[13] == 32u8);
        }
    }
}

/// `h[i..]` starts a candidate on which the banner pattern matches.
pub open spec fn banner_at(h: Seq<u8>, i: int) -> bool {
    occurs_at(h, banner_prefix(), i) && banner_captures_of(h.subrange(i, h.len() as int)) is Some
}

/// Finds the kernel banner in `haystack`: the first occurrence of
/// `"Linux version "` at which the banner pattern matches. Occurrences are
/// visited in order, each search resuming after the previous occurrence.
pub fn find_kernel_banner<'a>(haystack: &'a [u8]) -> (r: Option<ParsedKernelBanner<'a>>)
    ensures
        r is None ==> forall|i: int| !banner_at(haystack@, i),
        r matches Some(b) ==> exists|i: int|
            #![trigger banner_at(haystack@, i)]
            {
                &&& banner_at(haystack@, i)
                &&& forall|j: int| 0 <= j < i ==> !banner_at(haystack@, j)
                &&& banner_captures_of(haystack@.subrange(i, haystack@.len() as int)) matches Some(
                    s,
                ) && b.cut_from(haystack@.subrange(i, haystack@.len() as int), s)
            },
{
    let prefix = prefix_bytes();
    let mut pos: usize = 0;
    while pos <= haystack.len()
        invariant
            prefix@ == banner_prefix(),
            forall|j: int| 0 <= j < pos ==> !banner_at(haystack@, j),
        decreases haystack.len() + 1 - pos,
    {
        match find_from(haystack, pos, &prefix) {
            None => {
                return None;
            },
            Some(k) => {
                let i = pos + k;
                let rest = slice_subrange(haystack, i, haystack.len());
                let parsed = parse_kernel_banner(rest);
                if parsed.is_some() {
                    assert(banner_at(haystack@, i as int));
                    return parsed;
                }
                assert forall|j: int| 0 <= j < i + 14 implies !banner_at(haystack@, j) by {
                    if i < j {
                        lemma_prefix_occurrences_apart(haystack@, i as int, j);
                    }
                }
                pos = i + 14;
            },
        }
    }
    None
}

} // verus!
