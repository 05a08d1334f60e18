//! The bit-pattern instruction matcher: compiles a textual pattern over
//! `0`, `1`, `?` and space into a `(key, mask, shift)` matching rule.
//!
//! Each literal character shifts `key` and `mask` left by one and sets the
//! new mask bit; each wildcard shifts both left leaving the mask bit unset
//! and counts itself when it trails the pattern; spaces are ignored.  The
//! compiled rule recognises a word through
//! `((word >> shift) & mask) == key`.

use vstd::prelude::*;

use crate::common::low_mask;

verus! {

/// The running state of the pattern scan: the accumulated key and mask and
/// the count of wildcards seen since the last literal.
pub struct PatState {
    pub key: u64,
    pub mask: u64,
    pub trail: u64,
}

/// The compilation error: the offending character and its position in the
/// pattern string.
#[derive(Clone, Copy, PartialEq, Eq, Structural, Debug)]
pub struct PatternError {
    pub position: usize,
    pub character: char,
}

/// The characters a pattern may hold.
pub open spec fn pattern_char_ok(c: char) -> bool {
    c == '0' || c == '1' || c == '?' || c == ' '
}

/// A well-formed pattern holds only `0`, `1`, `?` and spaces.
pub open spec fn pattern_ok(p: Seq<char>) -> bool {
    forall|i: int| 0 <= i < p.len() ==> pattern_char_ok(#[trigger] p[i])
}

/// The pattern's symbols: its characters with the spaces removed.
pub open spec fn syms(p: Seq<char>) -> Seq<char>
    decreases p.len(),
{
    if p.len() == 0 {
        Seq::empty()
    } else if p.last() == ' ' {
        syms(p.drop_last())
    } else {
        syms(p.drop_last()).push(p.last())
    }
}

/// A symbol sequence: every character is a literal bit or a wildcard.
pub open spec fn syms_only(s: Seq<char>) -> bool {
    forall|i: int| 0 <= i < s.len() ==> (#[trigger] s[i] == '0' || s[i] == '1' || s[i] == '?')
}

/// One step of the scan over a single pattern character.
pub open spec fn pat_step(st: PatState, c: char) -> PatState {
    if c == '0' {
        PatState { key: st.key << 1, mask: (st.mask << 1) | 1, trail: 0 }
    } else if c == '1' {
        PatState { key: (st.key << 1) | 1, mask: (st.mask << 1) | 1, trail: 0 }
    } else if c == '?' {
        PatState { key: st.key << 1, mask: st.mask << 1, trail: ((st.trail + 1) as u64) }
    } else {
        st
    }
}

/// The scan folded over a whole pattern, starting from the empty state.
pub open spec fn pat_scan(p: Seq<char>) -> PatState
    decreases p.len(),
{
    if p.len() == 0 {
        PatState { key: 0, mask: 0, trail: 0 }
    } else {
        pat_step(pat_scan(p.drop_last()), p.last())
    }
}

/// The compiled rule of a well-formed pattern: key and mask with the
/// trailing wildcards shifted out, and the count of those wildcards.
pub open spec fn spec_compile(p: Seq<char>) -> (u64, u64, u64) {
    let st = pat_scan(p);
    if st.trail >= 64 {
        (0, 0, st.trail)
    } else {
        (st.key >> st.trail, st.mask >> st.trail, st.trail)
    }
}

/// The compiled match rule applied to a word.
pub open spec fn pattern_matches(key: u64, mask: u64, shift: u64, word: u64) -> bool
    recommends
        shift < 64,
{
    ((word >> shift) & mask) == key
}

/// Bit `p` of `w`.
pub open spec fn wbit(w: u64, p: u64) -> bool
    recommends
        p < 64,
{
    (w >> p) & 1 == 1
}

/// A word agrees with every literal of a symbol sequence: symbol `j` speaks
/// of word bit `len - 1 - j`, and wildcards impose nothing.
pub open spec fn literals_agree(s: Seq<char>, w: u64) -> bool {
    forall|j: int|
        0 <= j < s.len() && s[j] != '?' ==> (wbit(w, ((s.len() - 1 - j) as u64)) <==> #[trigger] s[j]
            == '1')
}

/// Spaces leave the scan unchanged, so a pattern compiles exactly as its
/// symbol sequence does.
proof fn lemma_scan_spaces(p: Seq<char>)
    requires
        pattern_ok(p),
    ensures
        pat_scan(p) == pat_scan(syms(p)),
        syms_only(syms(p)),
        syms(p).len() <= p.len(),
    decreases p.len(),
{
    if p.len() == 0 {
    } else {
        let p0 = p.drop_last();
        assert(pattern_ok(p0)) by {
            assert(forall|i: int| 0 <= i < p0.len() ==> pattern_char_ok(#[trigger] p0[i])) by {
                assert(forall|i: int|
                    0 <= i < p0.len() ==> p0[i] == #[trigger] p[i] && pattern_char_ok(p[i]));
            }
        }
        lemma_scan_spaces(p0);
        assert(pattern_char_ok(p.last()));
        if p.last() == ' ' {
        } else {
            let s = syms(p);
            assert(s == syms(p0).push(p.last()));
            assert(s.len() > 0);
            assert(s.drop_last() =~= syms(p0));
            assert(pat_scan(s) == pat_step(pat_scan(syms(p0)), p.last()));
        }
    }
}

/// Bounds kept by the scan over a symbol sequence: the trailing count never
/// exceeds the length, the key and mask fit in the scanned width, and their
/// low `trail` bits are clear.
proof fn lemma_scan_bounds(s: Seq<char>)
    requires
        syms_only(s),
        s.len() <= 64,
    ensures
        pat_scan(s).trail <= s.len(),
        s.len() < 64 ==> (pat_scan(s).key >> (s.len() as u64)) == 0 && (pat_scan(s).mask >> (
        s.len() as u64)) == 0,
        pat_scan(s).trail < 64 ==> (pat_scan(s).key & low_mask(pat_scan(s).trail)) == 0 && (
        pat_scan(s).mask & low_mask(pat_scan(s).trail)) == 0,
    decreases s.len(),
{
    if s.len() == 0 {
        assert((0u64 >> 0u64) == 0 && (0u64 & low_mask(0)) == 0) by (bit_vector);
        assert(forall|n: u64| #![trigger (0u64 >> n)] n < 64 ==> (0u64 >> n) == 0) by (bit_vector);
    } else {
        let s0 = s.drop_last();
        let c = s.last();
        assert(syms_only(s0) && (c == '0' || c == '1' || c == '?')) by {
            assert(forall|i: int|
                0 <= i < s0.len() ==> s0[i] == #[trigger] s[i] && (s[i] == '0' || s[i] == '1'
                    || s[i] == '?'));
            assert(s[s.len() - 1] == c);
        }
        lemma_scan_bounds(s0);
        let st0 = pat_scan(s0);
        let st = pat_scan(s);
        let k0 = st0.key;
        let m0 = st0.mask;
        let t0 = st0.trail;
        let n0: u64 = s0.len() as u64;
        assert(st == pat_step(st0, c));
        if c == '?' {
            assert(st.key == k0 << 1 && st.mask == m0 << 1 && st.trail == ((t0 + 1) as u64));
            if s.len() < 64 {
                assert((k0 >> n0 == 0 && m0 >> n0 == 0 && n0 < 63) ==> ((k0 << 1) >> ((n0
                    + 1) as u64) == 0 && (m0 << 1) >> ((n0 + 1) as u64) == 0)) by (bit_vector);
            }
            if st.trail < 64 {
                assert((k0 & (((1u64 << t0) - 1) as u64) == 0 && m0 & (((1u64 << t0) - 1) as u64)
                    == 0 && t0 < 63) ==> ((k0 << 1) & (((1u64 << ((t0 + 1) as u64)) - 1) as u64)
                    == 0 && (m0 << 1) & (((1u64 << ((t0 + 1) as u64)) - 1) as u64) == 0))
                    by (bit_vector);
            }
        } else {
            let b: u64 = if c == '1' {
                1
            } else {
                0
            };
            assert(forall|x: u64| (#[trigger] (x | 0u64)) == x) by (bit_vector);
            assert(st.key == ((k0 << 1) | b) && st.mask == ((m0 << 1) | 1) && st.trail == 0);
            if s.len() < 64 {
                assert((k0 >> n0 == 0 && m0 >> n0 == 0 && n0 < 63 && b < 2) ==> (((k0 << 1) | b)
                    >> ((n0 + 1) as u64) == 0 && ((m0 << 1) | 1) >> ((n0 + 1) as u64) == 0))
                    by (bit_vector);
            }
            assert(forall|x: u64| (#[trigger] (x & (((1u64 << 0u64) - 1) as u64))) == 0)
                by (bit_vector);
        }
    }
}

/// The unshifted scan result recognises a word exactly when the word agrees
/// with every literal symbol.
proof fn lemma_scan_match(s: Seq<char>, w: u64)
    requires
        syms_only(s),
        s.len() <= 64,
    ensures
        ((w & pat_scan(s).mask) == pat_scan(s).key) <==> literals_agree(s, w),
    decreases s.len(),
{
    if s.len() == 0 {
        assert((w & 0) == 0) by (bit_vector);
    } else {
        let s0 = s.drop_last();
        let c = s.last();
        assert(syms_only(s0) && (c == '0' || c == '1' || c == '?')) by {
            assert(forall|i: int|
                0 <= i < s0.len() ==> s0[i] == #[trigger] s[i] && (s[i] == '0' || s[i] == '1'
                    || s[i] == '?'));
            assert(s[s.len() - 1] == c);
        }
        lemma_scan_match(s0, w >> 1);
        lemma_scan_bounds(s0);
        let st0 = pat_scan(s0);
        let st = pat_scan(s);
        let k0 = st0.key;
        let m0 = st0.mask;
        let n0: u64 = s0.len() as u64;
        assert(st == pat_step(st0, c));
        assert(k0 >> 63 == 0 && m0 >> 63 == 0) by {
            if s0.len() < 64 {
                assert((k0 >> n0 == 0 && n0 <= 63) ==> k0 >> 63u64 == 0) by (bit_vector);
                assert((m0 >> n0 == 0 && n0 <= 63) ==> m0 >> 63u64 == 0) by (bit_vector);
            }
        }
        // Literal agreement at the old positions is agreement of the shifted
        // word: symbol j sits at bit n0 - j of `w` and at bit n0 - 1 - j of
        // `w >> 1`.
        assert(forall|p: u64| p < 63 ==> (wbit(w, ((p + 1) as u64)) <==> #[trigger] wbit(
            w >> 1,
            p,
        ))) by {
            assert(forall|p: u64|
                p < 63 ==> ((w >> ((p + 1) as u64)) & 1 == (#[trigger] ((w >> 1) >> p)) & 1))
                by (bit_vector);
        }
        assert(literals_agree(s, w) <==> (literals_agree(s0, w >> 1) && (c != '?' ==> (wbit(w, 0)
            <==> c == '1')))) by {
            assert(s[s.len() - 1] == c);
            assert(forall|j: int| 0 <= j < s0.len() ==> s0[j] == #[trigger] s[j]);
            if literals_agree(s, w) {
                assert forall|j: int| 0 <= j < s0.len() && s0[j] != '?' implies (wbit(
                    w >> 1,
                    ((s0.len() - 1 - j) as u64),
                ) <==> s0[j] == '1') by {
                    assert(s[j] != '?');
                    assert(wbit(w, ((s.len() - 1 - j) as u64)) <==> s[j] == '1');
                    assert(((s0.len() - 1 - j) as u64) < 63);
                }
            }
            if literals_agree(s0, w >> 1) && (c != '?' ==> (wbit(w, 0) <==> c == '1')) {
                assert forall|j: int| 0 <= j < s.len() && s[j] != '?' implies (wbit(
                    w,
                    ((s.len() - 1 - j) as u64),
                ) <==> s[j] == '1') by {
                    if j < s0.len() {
                        assert(wbit(w >> 1, ((s0.len() - 1 - j) as u64)) <==> s0[j] == '1');
                        assert(((s0.len() - 1 - j) as u64) < 63);
                    } else {
                        assert(j == s.len() - 1);
                    }
                }
            }
        }
        if c == '?' {
            assert(st.key == (k0 << 1) && st.mask == (m0 << 1));
            assert((k0 >> 63 == 0 && m0 >> 63 == 0) ==> (((w & (m0 << 1)) == (k0 << 1)) <==> (((w
                >> 1) & m0) == k0))) by (bit_vector);
        } else {
            let b: u64 = if c == '1' {
                1
            } else {
                0
            };
            assert(forall|x: u64| (#[trigger] (x | 0u64)) == x) by (bit_vector);
            assert(st.key == ((k0 << 1) | b) && st.mask == ((m0 << 1) | 1));
            assert((k0 >> 63 == 0 && m0 >> 63 == 0 && b < 2) ==> (((w & ((m0 << 1) | 1)) == ((k0
                << 1) | b)) <==> ((((w >> 1) & m0) == k0) && ((w & 1) == b)))) by (bit_vector);
            assert((w & 1 == b) <==> (wbit(w, 0) <==> c == '1')) by {
                assert((w >> 0u64) & 1 == (w & 1)) by (bit_vector);
                assert((w & 1 == 1) || (w & 1 == 0)) by (bit_vector);
            }
        }
    }
}

/// For any well-formed pattern, the compiled rule matches every word that
/// agrees with the pattern's literal bits and mismatches any word that
/// differs at a literal position; wildcards, trailing or not, never take
/// part in the comparison.  The premise on `trail` excludes only a pattern
/// of 64 wildcard symbols; any pattern with at most 63 symbols meets it.
pub proof fn lemma_pattern_match_characterization(p: Seq<char>, word: u64)
    requires
        pattern_ok(p),
        syms(p).len() <= 64,
        pat_scan(p).trail < 64,
    ensures
        ({
            let (key, mask, shift) = spec_compile(p);
            pattern_matches(key, mask, shift, word) <==> literals_agree(syms(p), word)
        }),
{
    lemma_scan_spaces(p);
    lemma_scan_bounds(syms(p));
    lemma_scan_match(syms(p), word);
    let st = pat_scan(p);
    let k = st.key;
    let m = st.mask;
    let t = st.trail;
    assert((k & (((1u64 << t) - 1) as u64) == 0 && m & (((1u64 << t) - 1) as u64) == 0 && t < 64)
        ==> ((((word >> t) & (m >> t)) == (k >> t)) <==> ((word & m) == k))) by (bit_vector);
}

/// Compiles a textual bit pattern into its `(key, mask, shift)` rule, or
/// reports the first character outside `0`, `1`, `?`, space together with
/// its position.
pub fn pattern_decode(pattern: &str) -> (r: Result<(u64, u64, u64), PatternError>)
    ensures
        r is Ok <==> pattern_ok(pattern@),
        pattern_ok(pattern@) ==> r == Ok::<(u64, u64, u64), PatternError>(spec_compile(pattern@)),
        r matches Err(e) ==> {
            &&& e.position < pattern@.len()
            &&& e.character == pattern@[e.position as int]
            &&& !pattern_char_ok(e.character)
            &&& forall|j: int| 0 <= j < e.position ==> pattern_char_ok(#[trigger] pattern@[j])
        },
{
    let n = pattern.unicode_len();
    let mut key: u64 = 0;
    let mut mask: u64 = 0;
    let mut temp_shift: u64 = 0;
    let mut i: usize = 0;
    while i < n
        invariant
            n == pattern@.len(),
            0 <= i <= n,
            temp_shift <= i,
            forall|j: int| 0 <= j < i ==> pattern_char_ok(#[trigger] pattern@[j]),
            (PatState { key, mask, trail: temp_shift }) == pat_scan(
                pattern@.subrange(0, i as int),
            ),
        decreases n - i,
    {
        let c = pattern.get_char(i);
        let ghost prefix = pattern@.subrange(0, i as int);
        match c {
            '0' => {
                key = key << 1;
                mask = (mask << 1) | 1;
                temp_shift = 0;
            },
            '1' => {
                key = (key << 1) | 1;
                mask = (mask << 1) | 1;
                temp_shift = 0;
            },
            '?' => {
                key = key << 1;
                mask = mask << 1;
                temp_shift = temp_shift + 1;
            },
            ' ' => {},
            _ => {
                proof {
                    assert(!pattern_ok(pattern@)) by {
                        assert(!pattern_char_ok(pattern@[i as int]));
                    }
                }
                return Err(PatternError { position: i, character: c });
            },
        }
        proof {
            let longer = pattern@.subrange(0, i + 1);
            assert(longer.drop_last() =~= prefix);
            assert(longer.last() == pattern@[i as int]);
        }
        i = i + 1;
    }
    proof {
        assert(pattern@.subrange(0, n as int) =~= pattern@);
    }
    if temp_shift >= 64 {
        Ok((0, 0, temp_shift))
    } else {
        Ok((key >> temp_shift, mask >> temp_shift, temp_shift))
    }
}

} // verus!
