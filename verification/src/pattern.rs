//! Pattern matching on address strings, modelled as byte sequences.
//!
//! Bech32m address strings are ASCII, so the matcher works on the
//! UTF-8 bytes of the address. Case-insensitive comparison lower-cases
//! the ASCII letters of both sides before a literal comparison.

use vstd::prelude::*;

verus! {

/// ASCII lower-casing of one byte: `A`..`Z` map to `a`..`z`,
/// every other byte is unchanged.
pub open spec fn lower_byte(b: u8) -> u8 {
    if 65 <= b && b <= 90 {
        (b + 32) as u8
    } else {
        b
    }
}

/// ASCII lower-casing of a whole byte sequence.
pub open spec fn lower_seq(s: Seq<u8>) -> Seq<u8> {
    s.map(|_i: int, b: u8| lower_byte(b))
}

/// Lower-cases the ASCII letters of a byte string.
pub fn lower_bytes(s: &[u8]) -> (r: Vec<u8>)
    ensures
        r@ == lower_seq(s@),
{
    let mut r: Vec<u8> = Vec::new();
    let mut i: usize = 0;
    while i < s.len()
        invariant
            i <= s@.len(),
            r@ == lower_seq(s@.subrange(0, i as int)),
        decreases s@.len() - i,
    {
        let b = s[i];
        if 65 <= b && b <= 90 {
            r.push(b + 32);
        } else {
            r.push(b);
        }
        proof {
            assert(lower_seq(s@.subrange(0, i + 1)) =~= lower_seq(s@.subrange(0, i as int)).push(
                lower_byte(s@[i as int]),
            ));
        }
        i = i + 1;
    }
    proof {
        assert(s@.subrange(0, s@.len() as int) =~= s@);
    }
    r
}

/// The pattern occurs in the text at position `i`.
pub open spec fn matches_at(text: Seq<u8>, pat: Seq<u8>, i: int) -> bool {
    0 <= i && i + pat.len() <= text.len() && text.subrange(i, i + pat.len()) == pat
}

/// Number of non-overlapping occurrences of `pat` in `text` found by a
/// left-to-right scan that resumes after the end of each occurrence.
pub open spec fn count_from(text: Seq<u8>, pat: Seq<u8>, i: int) -> nat
    decreases text.len() - i,
    when pat.len() >= 1 && 0 <= i
{
    if i + pat.len() > text.len() {
        0
    } else if matches_at(text, pat, i) {
        1 + count_from(text, pat, i + pat.len())
    } else {
        count_from(text, pat, i + 1)
    }
}

/// Non-overlapping occurrence count of `pat` in `text`, for a
/// non-empty pattern.
pub open spec fn count_nonoverlap(text: Seq<u8>, pat: Seq<u8>) -> nat {
    count_from(text, pat, 0)
}

/// The pattern occurs in the text at position `i` (byte comparison).
fn eq_at(text: &[u8], pat: &[u8], i: usize) -> (r: bool)
    requires
        i + pat@.len() <= text@.len(),
    ensures
        r == matches_at(text@, pat@, i as int),
{
    let n = text.len();
    let mut j: usize = 0;
    let mut k: usize = i;
    while j < pat.len()
        invariant
            n == text@.len(),
            i + pat@.len() <= text@.len(),
            j <= pat@.len(),
            k == i + j,
            forall|t: int| 0 <= t < j ==> text@[i + t] == pat@[t],
        decreases pat@.len() - j,
    {
        if text[k] != pat[j] {
            proof {
                assert(text@.subrange(i as int, i + pat@.len())[j as int] == text@[i + j]);
            }
            return false;
        }
        j = j + 1;
        k = k + 1;
    }
    proof {
        assert(text@.subrange(i as int, i + pat@.len()) =~= pat@);
    }
    true
}

/// Counts the non-overlapping occurrences of `pattern` in `text`,
/// scanning left to right and resuming after each occurrence.
pub fn count_occurrences(text: &[u8], pattern: &[u8]) -> (count: usize)
    requires
        pattern@.len() >= 1,
    ensures
        count == count_nonoverlap(text@, pattern@),
{
    let mut count: usize = 0;
    let mut i: usize = 0;
    if pattern.len() > text.len() {
        return 0;
    }
    while i <= text.len() - pattern.len()
        invariant
            1 <= pattern@.len() <= text@.len(),
            0 <= i,
            count <= i,
            count + count_from(text@, pattern@, i as int) == count_nonoverlap(text@, pattern@),
        decreases text@.len() - i,
    {
        if eq_at(text, pattern, i) {
            count = count + 1;
            i = i + pattern.len();
        } else {
            i = i + 1;
        }
    }
    count
}

/// The human-readable prefix of a mainnet Taproot address.
pub open spec fn taproot_hrp() -> Seq<u8> {
    seq![98u8, 99u8, 49u8, 112u8]
}

/// The bytes of `"bc1p"`, the mainnet Taproot address prefix.
pub fn taproot_hrp_bytes() -> (r: Vec<u8>)
    ensures
        r@ == taproot_hrp(),
{
    let r: Vec<u8> = vec![98u8, 99u8, 49u8, 112u8];
    proof {
        assert(r@ =~= taproot_hrp());
    }
    r
}

/// The search criterion, fixed at startup and read-only afterwards.
pub enum MatchSpec {
    /// After the `"bc1p"` network prefix is stripped, the remainder
    /// must start with `prefix` and end with `suffix`.
    PrefixSuffix { prefix: Vec<u8>, suffix: Vec<u8>, case_sensitive: bool },
    /// The address must start with `required_prefix`, and the whole
    /// address must hold at least `min_count` non-overlapping
    /// occurrences of `substring`.
    SubstringCount {
        required_prefix: Vec<u8>,
        substring: Vec<u8>,
        min_count: usize,
        case_sensitive: bool,
    },
}

impl MatchSpec {
    /// A specification is valid when the counting variant asks for a
    /// non-empty substring and a positive occurrence threshold.
    pub open spec fn wf(&self) -> bool {
        match self {
            MatchSpec::PrefixSuffix { .. } => true,
            MatchSpec::SubstringCount { substring, min_count, .. } => substring@.len() >= 1
                && min_count >= 1,
        }
    }

    /// Checks validity of the specification; invalid ones are rejected
    /// before any worker is spawned.
    pub fn validate(&self) -> (r: bool)
        ensures
            r == self.wf(),
    {
        match self {
            MatchSpec::PrefixSuffix { .. } => true,
            MatchSpec::SubstringCount { substring, min_count, .. } => substring.len() >= 1
                && *min_count >= 1,
        }
    }
}

/// A prefix/suffix criterion holds of an address: after lower-casing
/// when case-insensitive, the address starts with the network prefix,
/// and the remainder starts with `prefix` and ends with `suffix`.
pub open spec fn prefix_suffix_matches(
    addr: Seq<u8>,
    prefix: Seq<u8>,
    suffix: Seq<u8>,
    case_sensitive: bool,
) -> bool {
    let t = if case_sensitive {
        addr
    } else {
        lower_seq(addr)
    };
    let p = if case_sensitive {
        prefix
    } else {
        lower_seq(prefix)
    };
    let s = if case_sensitive {
        suffix
    } else {
        lower_seq(suffix)
    };
    taproot_hrp().is_prefix_of(t) && {
        let rem = t.subrange(taproot_hrp().len() as int, t.len() as int);
        p.is_prefix_of(rem) && s.is_suffix_of(rem)
    }
}

/// The occurrence count a substring-count criterion assigns to an
/// address, or `None` when the required prefix is absent.
pub open spec fn substring_count_metric(
    addr: Seq<u8>,
    required_prefix: Seq<u8>,
    substring: Seq<u8>,
    case_sensitive: bool,
) -> Option<nat> {
    let t = if case_sensitive {
        addr
    } else {
        lower_seq(addr)
    };
    let rp = if case_sensitive {
        required_prefix
    } else {
        lower_seq(required_prefix)
    };
    let sub = if case_sensitive {
        substring
    } else {
        lower_seq(substring)
    };
    if rp.is_prefix_of(t) {
        Some(count_nonoverlap(t, sub))
    } else {
        None
    }
}

/// What the matcher returns for an address under a criterion: the
/// metric of a match, or `None` when the address does not qualify.
pub open spec fn spec_match(addr: Seq<u8>, m: &MatchSpec) -> Option<nat> {
    match m {
        MatchSpec::PrefixSuffix { prefix, suffix, case_sensitive } => {
            if prefix_suffix_matches(addr, prefix@, suffix@, *case_sensitive) {
                Some(0 as nat)
            } else {
                None
            }
        },
        MatchSpec::SubstringCount { required_prefix, substring, min_count, case_sensitive } => {
            match substring_count_metric(addr, required_prefix@, substring@, *case_sensitive) {
                Some(c) => if c >= *min_count {
                    Some(c)
                } else {
                    None
                },
                None => None,
            }
        },
    }
}

/// Whether `p` is a prefix of `s`.
pub fn starts_with_bytes(s: &[u8], p: &[u8]) -> (r: bool)
    ensures
        r == p@.is_prefix_of(s@),
{
    if p.len() > s.len() {
        return false;
    }
    let r = eq_at(s, p, 0);
    proof {
        if p@.is_prefix_of(s@) {
            assert(s@.subrange(0, p@.len() as int) == p@);
        }
    }
    r
}

/// Whether `p` is a suffix of `s`.
pub fn ends_with_bytes(s: &[u8], p: &[u8]) -> (r: bool)
    ensures
        r == p@.is_suffix_of(s@),
{
    if p.len() > s.len() {
        return false;
    }
    let r = eq_at(s, p, s.len() - p.len());
    proof {
        assert(s@.len() - p@.len() >= 0);
        assert(r == (s@.subrange(s@.len() - p@.len(), s@.len() as int) == p@));
    }
    r
}

/// Tests an address against a match specification. Returns the match
/// metric (`0` for a prefix/suffix match, the occurrence count for a
/// substring-count match), or `None` when the address does not match.
pub fn match_address(address: &[u8], m: &MatchSpec) -> (r: Option<usize>)
    requires
        m.wf(),
    ensures
        match r {
            Some(c) => spec_match(address@, m) == Some(c as nat),
            None => spec_match(address@, m) is None,
        },
{
    match m {
        MatchSpec::PrefixSuffix { prefix, suffix, case_sensitive } => {
            let cs = *case_sensitive;
            let t: Vec<u8> = if cs {
                slice_to_vec_u8(address)
            } else {
                lower_bytes(address)
            };
            let p: Vec<u8> = if cs {
                slice_to_vec_u8(prefix.as_slice())
            } else {
                lower_bytes(prefix.as_slice())
            };
            let s: Vec<u8> = if cs {
                slice_to_vec_u8(suffix.as_slice())
            } else {
                lower_bytes(suffix.as_slice())
            };
            let hrp = taproot_hrp_bytes();
            if !starts_with_bytes(t.as_slice(), hrp.as_slice()) {
                return None;
            }
            let rem = subslice_to_vec(t.as_slice(), hrp.len(), t.len());
            if starts_with_bytes(rem.as_slice(), p.as_slice()) && ends_with_bytes(
                rem.as_slice(),
                s.as_slice(),
            ) {
                Some(0)
            } else {
                None
            }
        },
        MatchSpec::SubstringCount { required_prefix, substring, min_count, case_sensitive } => {
            let cs = *case_sensitive;
            let t: Vec<u8> = if cs {
                slice_to_vec_u8(address)
            } else {
                lower_bytes(address)
            };
            let rp: Vec<u8> = if cs {
                slice_to_vec_u8(required_prefix.as_slice())
            } else {
                lower_bytes(required_prefix.as_slice())
            };
            let sub: Vec<u8> = if cs {
                slice_to_vec_u8(substring.as_slice())
            } else {
                lower_bytes(substring.as_slice())
            };
            if !starts_with_bytes(t.as_slice(), rp.as_slice()) {
                return None;
            }
            let count = count_occurrences(t.as_slice(), sub.as_slice());
            if count >= *min_count {
                Some(count)
            } else {
                None
            }
        },
    }
}

/// Copies a byte slice into a vector.
fn slice_to_vec_u8(s: &[u8]) -> (r: Vec<u8>)
    ensures
        r@ == s@,
{
    let mut r: Vec<u8> = Vec::new();
    let mut i: usize = 0;
    while i < s.len()
        invariant
            i <= s@.len(),
            r@ == s@.subrange(0, i as int),
        decreases s@.len() - i,
    {
        r.push(s[i]);
        proof {
            assert(s@.subrange(0, i + 1) =~= s@.subrange(0, i as int).push(s@[i as int]));
        }
        i = i + 1;
    }
    proof {
        assert(s@.subrange(0, s@.len() as int) =~= s@);
    }
    r
}

/// Copies the range `[from, to)` of a byte slice into a vector.
fn subslice_to_vec(s: &[u8], from: usize, to: usize) -> (r: Vec<u8>)
    requires
        from <= to <= s@.len(),
    ensures
        r@ == s@.subrange(from as int, to as int),
{
    let mut r: Vec<u8> = Vec::new();
    let mut i: usize = from;
    while i < to
        invariant
            from <= i <= to <= s@.len(),
            r@ == s@.subrange(from as int, i as int),
        decreases to - i,
    {
        r.push(s[i]);
        proof {
            assert(s@.subrange(from as int, i + 1) =~= s@.subrange(from as int, i as int).push(
                s@[i as int],
            ));
        }
        i = i + 1;
    }
    r
}

/// The bytes of `"kek"`, the substring the original search hunts for.
pub open spec fn kek_pattern() -> Seq<u8> {
    seq![107u8, 101u8, 107u8]
}

/// The bytes of `"bc1pkek"`: the mainnet Taproot prefix followed by
/// the hunted substring.
pub open spec fn bc1pkek_prefix() -> Seq<u8> {
    seq![98u8, 99u8, 49u8, 112u8, 107u8, 101u8, 107u8]
}

/// What `count_bc1pkek_occurrences` returns on the UTF-8 bytes of an
/// address. The case rule governs the whole comparison, the required
/// prefix included: when case-insensitive the address is lower-cased
/// first. `None` unless the (possibly lower-cased) address starts with
/// `"bc1pkek"`; otherwise the non-overlapping `"kek"` count over that
/// whole text.
pub open spec fn spec_bc1pkek_count(addr: Seq<u8>, case_sensitive: bool) -> Option<nat> {
    let t = if case_sensitive {
        addr
    } else {
        lower_seq(addr)
    };
    if bc1pkek_prefix().is_prefix_of(t) {
        Some(count_nonoverlap(t, kek_pattern()))
    } else {
        None
    }
}

/// Tests whether an address starts with `"bc1pkek"` and, if so, counts
/// the non-overlapping occurrences of `"kek"` in the entire address
/// string, the required prefix included. The case rule governs the
/// prefix test as well as the counting: a case-insensitive search
/// lower-cases the address before both.
pub fn count_bc1pkek_occurrences(address: &str, case_sensitive: bool) -> (r: Option<usize>)
    ensures
        match r {
            Some(c) => spec_bc1pkek_count(vstd::utf8::encode_utf8(address@), case_sensitive)
                == Some(c as nat),
            None => spec_bc1pkek_count(vstd::utf8::encode_utf8(address@), case_sensitive) is None,
        },
{
    let bytes = address.as_bytes();
    let text: Vec<u8> = if case_sensitive {
        slice_to_vec_u8(bytes)
    } else {
        lower_bytes(bytes)
    };
    let required: Vec<u8> = vec![98u8, 99u8, 49u8, 112u8, 107u8, 101u8, 107u8];
    proof {
        assert(required@ =~= bc1pkek_prefix());
    }
    if !starts_with_bytes(text.as_slice(), required.as_slice()) {
        return None;
    }
    let pattern: Vec<u8> = vec![107u8, 101u8, 107u8];
    proof {
        assert(pattern@ =~= kek_pattern());
    }
    Some(count_occurrences(text.as_slice(), pattern.as_slice()))
}

/// The `"bc1pkek"` counter is the general substring-count criterion
/// instantiated at the fixed required prefix and substring, in either
/// case mode.
pub proof fn lemma_bc1pkek_is_substring_count(addr: Seq<u8>, case_sensitive: bool)
    ensures
        spec_bc1pkek_count(addr, case_sensitive) == substring_count_metric(
            addr,
            bc1pkek_prefix(),
            kek_pattern(),
            case_sensitive,
        ),
{
    assert(lower_seq(bc1pkek_prefix()) =~= bc1pkek_prefix());
    assert(lower_seq(kek_pattern()) =~= kek_pattern());
}

/// The case-insensitive `"bc1pkek"` count equals the case-sensitive
/// count of the lower-cased address: the case rule governs the prefix
/// test and the occurrence count alike.
pub proof fn lemma_bc1pkek_case_insensitive(addr: Seq<u8>)
    ensures
        spec_bc1pkek_count(addr, false) == spec_bc1pkek_count(lower_seq(addr), true),
{
}

/// Case-insensitive prefix/suffix matching is equivalent to
/// case-sensitive matching against lower-cased inputs: for every
/// address, matching under a case-insensitive criterion returns
/// exactly what the lower-cased address returns under the criterion
/// with lower-cased prefix and suffix and literal comparison.
pub proof fn lemma_prefix_suffix_case_insensitive(
    addr: Seq<u8>,
    insensitive: &MatchSpec,
    lowered: &MatchSpec,
)
    requires
        insensitive is PrefixSuffix,
        lowered is PrefixSuffix,
        !insensitive->PrefixSuffix_case_sensitive,
        lowered->PrefixSuffix_case_sensitive,
        lowered->PrefixSuffix_prefix@ == lower_seq(insensitive->PrefixSuffix_prefix@),
        lowered->PrefixSuffix_suffix@ == lower_seq(insensitive->PrefixSuffix_suffix@),
    ensures
        spec_match(addr, insensitive) == spec_match(lower_seq(addr), lowered),
{
}

} // verus!
