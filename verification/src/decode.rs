//! Incremental UTF-8 reassembly and control-byte filtering for the terminal
//! bridge's output path.
//!
//! The child shell's output arrives in arbitrary read-sized chunks, so a
//! multi-byte UTF-8 character can straddle a chunk boundary. The decode buffer
//! withholds such a trailing fragment until the bytes that complete it arrive,
//! and emits everything before it. A chunk whose emitted part is exactly one
//! bell byte (0x07) is suppressed, so the pane shows no artifact for the
//! terminal bell.
//!
//! The mathematical model is built on `vstd::utf8`. A byte sequence is split
//! into a *ready prefix*, which is handed to the display sink, and a *partial
//! suffix*: the longest trailing run of bytes that is a proper prefix of some
//! valid scalar encoding and can therefore still be completed by later input.
//! Bytes that can never be completed (stray continuation bytes, overlong or
//! out-of-range lead pairs) are never withheld; they fall into the ready
//! prefix and pass through to the sink, which interprets raw bytes itself.

use vstd::prelude::*;
use vstd::slice::slice_to_vec;
use vstd::utf8::{
    codepoint_width_2, codepoint_width_3, codepoint_width_4, is_continuation_byte,
    is_leading_byte_width_2, is_leading_byte_width_3, is_leading_byte_width_4,
    length_of_first_scalar, pop_first_scalar, valid_first_scalar, valid_utf8,
};

verus! {

/// True when `b` can begin a multi-byte scalar encoding that later
/// continuation bytes could complete into a valid scalar.
///
/// `0xC2..=0xDF` lead a 2-byte encoding; `0xC0` and `0xC1` are excluded
/// because every completion of them is an overlong encoding. `0xE0..=0xEF`
/// lead a 3-byte encoding; every such lead has at least one valid completion.
/// `0xF0..=0xF4` lead a 4-byte encoding; leads above `0xF4` are excluded
/// because every completion of them exceeds the greatest scalar `0x10FFFF`.
pub open spec fn can_begin_scalar(b: u8) -> bool {
    (0xC2 <= b && b <= 0xDF) || (0xE0 <= b && b <= 0xEF) || (0xF0 <= b && b <= 0xF4)
}

/// True when `b` may stand directly after the lead byte `lead` in a valid
/// scalar encoding. For most leads any continuation byte does; the four
/// special leads restrict the range further so that overlong encodings
/// (`0xE0`, `0xF0`), surrogates (`0xED`) and values above `0x10FFFF` (`0xF4`)
/// are ruled out.
pub open spec fn can_follow_lead(lead: u8, b: u8) -> bool {
    if lead == 0xE0 {
        0xA0 <= b && b <= 0xBF
    } else if lead == 0xED {
        0x80 <= b && b <= 0x9F
    } else if lead == 0xF0 {
        0x90 <= b && b <= 0xBF
    } else if lead == 0xF4 {
        0x80 <= b && b <= 0x8F
    } else {
        is_continuation_byte(b)
    }
}

/// True when `s` is a proper prefix of some valid UTF-8 scalar encoding:
/// one to three bytes that do not yet form a scalar but that further
/// continuation bytes could complete into one.
///
/// [`lemma_partial_scalar_characterization`] proves this table equivalent
/// to being a strict prefix of a full scalar encoding as `vstd` defines it.
pub open spec fn is_partial_scalar(s: Seq<u8>) -> bool {
    if s.len() == 1 {
        can_begin_scalar(s[0])
    } else if s.len() == 2 {
        &&& can_begin_scalar(s[0])
        &&& is_leading_byte_width_3(s[0]) || is_leading_byte_width_4(s[0])
        &&& can_follow_lead(s[0], s[1])
    } else if s.len() == 3 {
        &&& can_begin_scalar(s[0])
        &&& is_leading_byte_width_4(s[0])
        &&& can_follow_lead(s[0], s[1])
        &&& is_continuation_byte(s[2])
    } else {
        false
    }
}

/// Length of the partial suffix of `s`: the longest suffix, of at most three
/// bytes, that is a proper prefix of a valid scalar encoding. Those bytes are
/// withheld by the decode buffer; everything before them is ready to emit.
pub open spec fn partial_suffix_len(s: Seq<u8>) -> int {
    if s.len() >= 3 && is_partial_scalar(s.skip(s.len() - 3)) {
        3
    } else if s.len() >= 2 && is_partial_scalar(s.skip(s.len() - 2)) {
        2
    } else if s.len() >= 1 && is_partial_scalar(s.skip(s.len() - 1)) {
        1
    } else {
        0
    }
}

/// The bytes of `s` that are ready to be emitted: everything except the
/// partial suffix.
pub open spec fn ready_prefix(s: Seq<u8>) -> Seq<u8> {
    s.take(s.len() - partial_suffix_len(s))
}

/// The trailing bytes of `s` withheld for the next chunk.
pub open spec fn partial_suffix(s: Seq<u8>) -> Seq<u8> {
    s.skip(s.len() - partial_suffix_len(s))
}

/// The partial suffix is well formed: at most three bytes, no longer than
/// `s`, and when non-empty it is itself a proper prefix of a scalar encoding.
/// Splitting at the suffix boundary reassembles `s`.
pub proof fn lemma_split_shape(s: Seq<u8>)
    ensures
        0 <= partial_suffix_len(s) <= 3,
        partial_suffix_len(s) <= s.len(),
        partial_suffix(s).len() == partial_suffix_len(s),
        ready_prefix(s) + partial_suffix(s) == s,
        partial_suffix(s).len() > 0 ==> is_partial_scalar(partial_suffix(s)),
{
    assert(ready_prefix(s) + partial_suffix(s) =~= s);
}

/// Every non-empty prefix of a proper prefix of a scalar encoding is itself
/// a proper prefix of a scalar encoding.
proof fn lemma_partial_prefix_closed(s: Seq<u8>, j: int)
    requires
        is_partial_scalar(s),
        1 <= j <= s.len(),
    ensures
        is_partial_scalar(s.take(j)),
{
    if j == s.len() {
        assert(s.take(j) =~= s);
    }
}

/// The partial suffix is the longest suffix of at most three bytes that is a
/// proper prefix of a scalar encoding: any such suffix bounds it from below.
proof fn lemma_partial_suffix_at_least(s: Seq<u8>, k: int)
    requires
        1 <= k <= 3,
        k <= s.len(),
        is_partial_scalar(s.skip(s.len() - k)),
    ensures
        partial_suffix_len(s) >= k,
{
}

/// The partial suffix looks the same whether computed over the whole input
/// or over only the previously withheld bytes plus the new chunk.
#[verifier::rlimit(100)]
proof fn lemma_suffix_len_agree(s: Seq<u8>, t: Seq<u8>)
    ensures
        partial_suffix_len(s + t) == partial_suffix_len(partial_suffix(s) + t),
        partial_suffix_len(s + t) <= partial_suffix(s).len() + t.len(),
{
    let a = s + t;
    let u = partial_suffix(s);
    let b = u + t;
    assert(b =~= a.skip(a.len() - b.len()));
    let pa = partial_suffix_len(a);
    let pb = partial_suffix_len(b);
    if pa > b.len() {
        let w = a.skip(a.len() - pa);
        let j = pa - t.len();
        lemma_partial_prefix_closed(w, j);
        assert(w.take(j) =~= s.skip(s.len() - j));
        lemma_partial_suffix_at_least(s, j);
        assert(false);
    }
    if pa >= 1 {
        assert(a.skip(a.len() - pa) =~= b.skip(b.len() - pa));
        lemma_partial_suffix_at_least(b, pa);
    }
    if pb >= 1 {
        assert(b.skip(b.len() - pb) =~= a.skip(a.len() - pb));
        lemma_partial_suffix_at_least(a, pb);
    }
}

/// Withholding the partial suffix loses nothing at a chunk boundary:
/// processing `t` with the partial suffix of `s` re-joined in front leaves
/// the same suffix, and emits the same bytes after those of `s`, as
/// processing `s + t` whole.
#[verifier::rlimit(100)]
pub proof fn lemma_partial_suffix_unsplit(s: Seq<u8>, t: Seq<u8>)
    ensures
        partial_suffix(s + t) == partial_suffix(partial_suffix(s) + t),
        ready_prefix(s + t) == ready_prefix(s) + ready_prefix(partial_suffix(s) + t),
{
    let a = s + t;
    let u = partial_suffix(s);
    let b = u + t;
    lemma_suffix_len_agree(s, t);
    assert(b =~= a.skip(a.len() - b.len()));
    assert(partial_suffix(a) =~= partial_suffix(b));
    assert(ready_prefix(a) =~= ready_prefix(s) + ready_prefix(b));
}

/// No trailing window of up to three bytes of a valid UTF-8 sequence is a
/// proper prefix of a scalar encoding: complete input leaves nothing to
/// withhold.
proof fn lemma_valid_suffix_not_partial(s: Seq<u8>, k: int)
    requires
        valid_utf8(s),
        1 <= k <= 3,
        k <= s.len(),
    ensures
        !is_partial_scalar(s.skip(s.len() - k)),
    decreases s.len(),
{
    let ln = length_of_first_scalar(s);
    let rest = pop_first_scalar(s);
    assert(rest.len() == s.len() - ln);
    if k <= rest.len() {
        assert(s.skip(s.len() - k) =~= rest.skip(rest.len() - k));
        lemma_valid_suffix_not_partial(rest, k);
    } else {
        if is_partial_scalar(s.skip(s.len() - k)) {
            let j = k - rest.len();
            lemma_partial_prefix_closed(s.skip(s.len() - k), j);
            assert(s.skip(s.len() - k).take(j) =~= s.subrange(ln - j, ln));
            if j < ln {
                // The window starts on a continuation byte of the first
                // scalar's encoding, which cannot begin one.
                assert(is_continuation_byte(s[ln - j]));
                assert(!can_begin_scalar(s[ln - j]));
            } else {
                // The window is the whole first encoding, which is complete:
                // its lead byte's width equals its length, one short of what
                // a partial window of that length would need.
                assert(s.subrange(0, ln) =~= s.take(ln));
            }
            assert(false);
        }
    }
}

/// A wholly valid UTF-8 sequence is emitted in full: nothing is withheld.
pub proof fn lemma_valid_has_no_partial_suffix(s: Seq<u8>)
    requires
        valid_utf8(s),
    ensures
        partial_suffix_len(s) == 0,
        ready_prefix(s) == s,
        partial_suffix(s) == Seq::<u8>::empty(),
{
    if s.len() >= 3 && is_partial_scalar(s.skip(s.len() - 3)) {
        lemma_valid_suffix_not_partial(s, 3);
    }
    if s.len() >= 2 && is_partial_scalar(s.skip(s.len() - 2)) {
        lemma_valid_suffix_not_partial(s, 2);
    }
    if s.len() >= 1 && is_partial_scalar(s.skip(s.len() - 1)) {
        lemma_valid_suffix_not_partial(s, 1);
    }
    assert(ready_prefix(s) =~= s);
    assert(partial_suffix(s) =~= Seq::<u8>::empty());
}

/// When the input consists of a valid UTF-8 part followed by the proper
/// prefix of one more character, the split falls exactly at that boundary:
/// the valid part is emitted, the fragment is withheld.
pub proof fn lemma_ready_prefix_exact(v: Seq<u8>, t: Seq<u8>)
    requires
        valid_utf8(v),
        t.len() == 0 || is_partial_scalar(t),
    ensures
        ready_prefix(v + t) == v,
        partial_suffix(v + t) == t,
{
    let a = v + t;
    let pl = partial_suffix_len(a);
    if t.len() >= 1 {
        assert(a.skip(a.len() - t.len()) =~= t);
        lemma_partial_suffix_at_least(a, t.len() as int);
    }
    if pl > t.len() {
        let w = a.skip(a.len() - pl);
        let j = pl - t.len();
        lemma_partial_prefix_closed(w, j);
        assert(w.take(j) =~= v.skip(v.len() - j));
        lemma_valid_suffix_not_partial(v, j);
        assert(false);
    }
    assert(pl == t.len());
    assert(partial_suffix(a) =~= t);
    assert(ready_prefix(a) =~= v);
}

fn byte_begins_scalar(b: u8) -> (r: bool)
    ensures
        r == can_begin_scalar(b),
{
    (0xC2 <= b && b <= 0xDF) || (0xE0 <= b && b <= 0xEF) || (0xF0 <= b && b <= 0xF4)
}

fn byte_follows_lead(lead: u8, b: u8) -> (r: bool)
    ensures
        r == can_follow_lead(lead, b),
{
    if lead == 0xE0 {
        0xA0 <= b && b <= 0xBF
    } else if lead == 0xED {
        0x80 <= b && b <= 0x9F
    } else if lead == 0xF0 {
        0x90 <= b && b <= 0xBF
    } else if lead == 0xF4 {
        0x80 <= b && b <= 0x8F
    } else {
        0x80 <= b && b <= 0xBF
    }
}

fn window_is_partial_1(a: u8) -> (r: bool)
    ensures
        r == is_partial_scalar(seq![a]),
{
    byte_begins_scalar(a)
}

fn window_is_partial_2(a: u8, b: u8) -> (r: bool)
    ensures
        r == is_partial_scalar(seq![a, b]),
{
    byte_begins_scalar(a) && (0xE0 <= a) && byte_follows_lead(a, b)
}

fn window_is_partial_3(a: u8, b: u8, c: u8) -> (r: bool)
    ensures
        r == is_partial_scalar(seq![a, b, c]),
{
    byte_begins_scalar(a) && (0xF0 <= a) && byte_follows_lead(a, b) && (0x80 <= c && c <= 0xBF)
}

/// Computes the length of the partial suffix of `s`, examining only its last
/// three bytes.
pub fn scan_partial_suffix(s: &[u8]) -> (k: usize)
    ensures
        k as int == partial_suffix_len(s@),
        k <= 3,
        k <= s.len(),
{
    let n = s.len();
    if n >= 3 && window_is_partial_3(s[n - 3], s[n - 2], s[n - 1]) {
        proof {
            assert(s@.skip(n - 3) =~= seq![s@[n - 3], s@[n - 2], s@[n - 1]]);
        }
        3
    } else if n >= 2 && window_is_partial_2(s[n - 2], s[n - 1]) {
        proof {
            if n >= 3 {
                assert(s@.skip(n - 3) =~= seq![s@[n - 3], s@[n - 2], s@[n - 1]]);
            }
            assert(s@.skip(n - 2) =~= seq![s@[n - 2], s@[n - 1]]);
        }
        2
    } else if n >= 1 && window_is_partial_1(s[n - 1]) {
        proof {
            if n >= 3 {
                assert(s@.skip(n - 3) =~= seq![s@[n - 3], s@[n - 2], s@[n - 1]]);
            }
            if n >= 2 {
                assert(s@.skip(n - 2) =~= seq![s@[n - 2], s@[n - 1]]);
            }
            assert(s@.skip(n - 1) =~= seq![s@[n - 1]]);
        }
        1
    } else {
        proof {
            if n >= 3 {
                assert(s@.skip(n - 3) =~= seq![s@[n - 3], s@[n - 2], s@[n - 1]]);
            }
            if n >= 2 {
                assert(s@.skip(n - 2) =~= seq![s@[n - 2], s@[n - 1]]);
            }
            if n >= 1 {
                assert(s@.skip(n - 1) =~= seq![s@[n - 1]]);
            }
        }
        0
    }
}

proof fn bv_cp2_bounds(b1: u8, b2: u8)
    by (bit_vector)
    requires
        0xC0 <= b1 <= 0xDF,
        0x80 <= b2 <= 0xBF,
    ensures
        codepoint_width_2(b1, b2) <= 0x7FF,
        b1 >= 0xC2 ==> codepoint_width_2(b1, b2) >= 0x80,
        b1 <= 0xC1 ==> codepoint_width_2(b1, b2) < 0x80,
{
}

proof fn bv_cp3_bounds(b1: u8, b2: u8, b3: u8)
    by (bit_vector)
    requires
        0xE0 <= b1 <= 0xEF,
        0x80 <= b2 <= 0xBF,
        0x80 <= b3 <= 0xBF,
    ensures
        b1 != 0xE0 ==> codepoint_width_3(b1, b2, b3) >= 0x800,
        b1 == 0xE0 && b2 >= 0xA0 ==> codepoint_width_3(b1, b2, b3) >= 0x800,
        b1 == 0xE0 && b2 < 0xA0 ==> codepoint_width_3(b1, b2, b3) < 0x800,
        b1 != 0xED ==> !(0xD800 <= codepoint_width_3(b1, b2, b3) <= 0xDFFF),
        b1 == 0xED && b2 < 0xA0 ==> codepoint_width_3(b1, b2, b3) < 0xD800,
        b1 == 0xED && b2 >= 0xA0 ==> 0xD800 <= codepoint_width_3(b1, b2, b3) <= 0xDFFF,
{
}

proof fn bv_cp4_bounds(b1: u8, b2: u8, b3: u8, b4: u8)
    by (bit_vector)
    requires
        0xF0 <= b1 <= 0xF7,
        0x80 <= b2 <= 0xBF,
        0x80 <= b3 <= 0xBF,
        0x80 <= b4 <= 0xBF,
    ensures
        b1 == 0xF0 && b2 >= 0x90 ==> codepoint_width_4(b1, b2, b3, b4) >= 0x10000,
        b1 == 0xF0 && b2 < 0x90 ==> codepoint_width_4(b1, b2, b3, b4) < 0x10000,
        b1 >= 0xF1 ==> codepoint_width_4(b1, b2, b3, b4) >= 0x10000,
        b1 <= 0xF3 ==> codepoint_width_4(b1, b2, b3, b4) <= 0x10FFFF,
        b1 == 0xF4 && b2 <= 0x8F ==> codepoint_width_4(b1, b2, b3, b4) <= 0x10FFFF,
        b1 == 0xF4 && b2 >= 0x90 ==> codepoint_width_4(b1, b2, b3, b4) > 0x10FFFF,
        b1 >= 0xF5 ==> codepoint_width_4(b1, b2, b3, b4) > 0x10FFFF,
{
}

/// True when `u` is, in full, the valid UTF-8 encoding of one scalar.
pub open spec fn is_scalar_encoding(u: Seq<u8>) -> bool {
    valid_first_scalar(u) && length_of_first_scalar(u) == u.len()
}

proof fn lemma_encoding_prefix_is_partial(u: Seq<u8>, j: int)
    requires
        is_scalar_encoding(u),
        1 <= j < u.len(),
    ensures
        is_partial_scalar(u.take(j)),
{
    let w = u.take(j);
    let b1 = u[0];
    if is_leading_byte_width_2(b1) {
        bv_cp2_bounds(b1, u[1]);
        assert(b1 >= 0xC2);
    } else if is_leading_byte_width_3(b1) {
        bv_cp3_bounds(b1, u[1], u[2]);
        assert(j == 2 ==> can_follow_lead(b1, u[1]));
    } else {
        assert(is_leading_byte_width_4(b1));
        bv_cp4_bounds(b1, u[1], u[2], u[3]);
        assert(b1 <= 0xF4);
        assert(j >= 2 ==> can_follow_lead(b1, u[1]));
    }
}

proof fn lemma_completable_1(s: Seq<u8>)
    requires
        is_partial_scalar(s),
        s.len() == 1,
    ensures
        exists|t: Seq<u8>| t.len() >= 1 && #[trigger] is_scalar_encoding(s + t),
{
    let b1 = s[0];
    if b1 <= 0xDF {
        let tt = seq![0x80u8];
        assert(s + tt =~= seq![b1, 0x80u8]);
        bv_cp2_bounds(b1, 0x80);
        assert(is_scalar_encoding(s + tt));
    } else if b1 <= 0xEF {
        let second: u8 = if b1 == 0xE0 {
            0xA0
        } else {
            0x80
        };
        let tt = seq![second, 0x80u8];
        assert(s + tt =~= seq![b1, second, 0x80u8]);
        bv_cp3_bounds(b1, second, 0x80);
        assert(is_scalar_encoding(s + tt));
    } else {
        let second: u8 = if b1 == 0xF0 {
            0x90
        } else {
            0x80
        };
        let tt = seq![second, 0x80u8, 0x80u8];
        assert(s + tt =~= seq![b1, second, 0x80u8, 0x80u8]);
        bv_cp4_bounds(b1, second, 0x80, 0x80);
        assert(is_scalar_encoding(s + tt));
    }
}

proof fn lemma_completable_2(s: Seq<u8>)
    requires
        is_partial_scalar(s),
        s.len() == 2,
    ensures
        exists|t: Seq<u8>| t.len() >= 1 && #[trigger] is_scalar_encoding(s + t),
{
    let b1 = s[0];
    let b2 = s[1];
    assert(0x80 <= b2 <= 0xBF);
    if is_leading_byte_width_3(b1) {
        let tt = seq![0x80u8];
        let u = s + tt;
        assert(u =~= seq![b1, b2, 0x80u8]);
        assert(u[0] == b1 && u[1] == b2 && u[2] == 0x80);
        bv_cp3_bounds(b1, b2, 0x80);
        assert(is_scalar_encoding(u));
    } else {
        let tt = seq![0x80u8, 0x80u8];
        let u = s + tt;
        assert(u =~= seq![b1, b2, 0x80u8, 0x80u8]);
        assert(u[0] == b1 && u[1] == b2 && u[2] == 0x80 && u[3] == 0x80);
        bv_cp4_bounds(b1, b2, 0x80, 0x80);
        assert(is_scalar_encoding(u));
    }
}

proof fn lemma_completable_3(s: Seq<u8>)
    requires
        is_partial_scalar(s),
        s.len() == 3,
    ensures
        exists|t: Seq<u8>| t.len() >= 1 && #[trigger] is_scalar_encoding(s + t),
{
    let b1 = s[0];
    let b2 = s[1];
    let b3 = s[2];
    assert(0x80 <= b2 <= 0xBF);
    let tt = seq![0x80u8];
    let u = s + tt;
    assert(u =~= seq![b1, b2, b3, 0x80u8]);
    assert(u[0] == b1 && u[1] == b2 && u[2] == b3 && u[3] == 0x80);
    bv_cp4_bounds(b1, b2, b3, 0x80);
    assert(is_scalar_encoding(u));
}

proof fn lemma_partial_scalar_completable(s: Seq<u8>)
    requires
        is_partial_scalar(s),
    ensures
        exists|t: Seq<u8>| t.len() >= 1 && #[trigger] is_scalar_encoding(s + t),
{
    if s.len() == 1 {
        lemma_completable_1(s);
    } else if s.len() == 2 {
        lemma_completable_2(s);
    } else {
        lemma_completable_3(s);
    }
}

/// Grounds the partial-scalar predicate in the UTF-8 model of `vstd`: a
/// non-empty byte sequence satisfies it exactly when some further bytes
/// would extend it to the complete encoding of one scalar. So the decode
/// buffer withholds a fragment precisely when the next read can still
/// complete it into a character.
pub proof fn lemma_partial_scalar_characterization(s: Seq<u8>)
    requires
        s.len() >= 1,
    ensures
        is_partial_scalar(s) <==> exists|t: Seq<u8>|
            t.len() >= 1 && #[trigger] is_scalar_encoding(s + t),
{
    if is_partial_scalar(s) {
        lemma_partial_scalar_completable(s);
    }
    if exists|t: Seq<u8>| t.len() >= 1 && #[trigger] is_scalar_encoding(s + t) {
        let t = choose|t: Seq<u8>| t.len() >= 1 && #[trigger] is_scalar_encoding(s + t);
        lemma_encoding_prefix_is_partial(s + t, s.len() as int);
        assert((s + t).take(s.len() as int) =~= s);
    }
}

/// All bytes emitted when `chunks` are fed in order into a buffer that
/// starts out withholding `pending`.
pub open spec fn relay_emits(pending: Seq<u8>, chunks: Seq<Seq<u8>>) -> Seq<u8>
    decreases chunks.len(),
{
    if chunks.len() == 0 {
        Seq::empty()
    } else {
        ready_prefix(pending + chunks[0]) + relay_emits(
            partial_suffix(pending + chunks[0]),
            chunks.skip(1),
        )
    }
}

/// What the buffer withholds after `chunks` are fed in order, starting out
/// withholding `pending`.
pub open spec fn relay_withheld(pending: Seq<u8>, chunks: Seq<Seq<u8>>) -> Seq<u8>
    decreases chunks.len(),
{
    if chunks.len() == 0 {
        pending
    } else {
        relay_withheld(partial_suffix(pending + chunks[0]), chunks.skip(1))
    }
}

proof fn lemma_relay_general(pending: Seq<u8>, chunks: Seq<Seq<u8>>)
    requires
        pending.len() == 0 || is_partial_scalar(pending),
    ensures
        relay_emits(pending, chunks) == ready_prefix(pending + chunks.flatten()),
        relay_withheld(pending, chunks) == partial_suffix(pending + chunks.flatten()),
    decreases chunks.len(),
{
    if chunks.len() == 0 {
        if pending.len() >= 1 {
            lemma_partial_suffix_at_least(pending, pending.len() as int);
        }
        assert(pending + chunks.flatten() =~= pending);
        assert(ready_prefix(pending) =~= Seq::<u8>::empty());
        assert(partial_suffix(pending) =~= pending);
    } else {
        let s1 = pending + chunks[0];
        let rest = chunks.skip(1);
        lemma_split_shape(s1);
        lemma_relay_general(partial_suffix(s1), rest);
        assert(chunks.drop_first() =~= rest);
        lemma_partial_suffix_unsplit(s1, rest.flatten());
        assert(s1 + rest.flatten() =~= pending + chunks.flatten());
    }
}

/// Boundary-insensitivity of the reassembly: however a byte stream is split
/// into successive read chunks, the emitted bytes concatenate to exactly the
/// ready prefix of the whole stream, and the buffer ends up withholding
/// exactly its partial suffix — the same as feeding the stream in one chunk.
pub proof fn lemma_chunking_insensitive(chunks: Seq<Seq<u8>>)
    ensures
        relay_emits(Seq::empty(), chunks) == ready_prefix(chunks.flatten()),
        relay_withheld(Seq::empty(), chunks) == partial_suffix(chunks.flatten()),
{
    lemma_relay_general(Seq::empty(), chunks);
    assert(Seq::<u8>::empty() + chunks.flatten() =~= chunks.flatten());
}

/// When the whole stream is a valid UTF-8 text followed by at most one
/// incomplete trailing fragment, the reassembly emits exactly the text,
/// however the stream was chunked.
pub proof fn lemma_relay_emits_exactly(chunks: Seq<Seq<u8>>, v: Seq<u8>, t: Seq<u8>)
    requires
        chunks.flatten() == v + t,
        valid_utf8(v),
        t.len() == 0 || is_partial_scalar(t),
    ensures
        relay_emits(Seq::empty(), chunks) == v,
        relay_withheld(Seq::empty(), chunks) == t,
{
    lemma_chunking_insensitive(chunks);
    lemma_ready_prefix_exact(v, t);
}

/// True when `s` is exactly one bell byte (0x07).
pub open spec fn is_lone_bell(s: Seq<u8>) -> bool {
    s.len() == 1 && s[0] == 7
}

/// What the display sink receives of an emitted run `s`: nothing when the run
/// is exactly one bell byte, otherwise the run unchanged. A bell embedded in
/// a longer run passes through.
pub open spec fn bell_filtered(s: Seq<u8>) -> Seq<u8> {
    if is_lone_bell(s) {
        Seq::empty()
    } else {
        s
    }
}

/// Drops `out` when it is exactly one bell byte, and returns it unchanged
/// otherwise.
///
/// This alone is the byte-preserving append path: a sink that interprets
/// escape sequences itself may take each chunk raw, with only the bell
/// suppressed. The text-reassembling path is
/// [`DecodeBuffer::feed_filtered`].
pub fn suppress_lone_bell(out: Vec<u8>) -> (r: Vec<u8>)
    ensures
        r@ == bell_filtered(out@),
{
    if out.len() == 1 && out[0] == 7 {
        Vec::new()
    } else {
        out
    }
}

/// A standalone bell never reaches the display: a cycle whose reassembled
/// output is exactly one bell byte contributes nothing, and any other output
/// run passes through the filter unchanged.
pub proof fn lemma_lone_bell_never_displayed(pending: Seq<u8>, chunk: Seq<u8>)
    ensures
        !is_lone_bell(bell_filtered(ready_prefix(pending + chunk))),
        !is_lone_bell(ready_prefix(pending + chunk)) ==> bell_filtered(
            ready_prefix(pending + chunk),
        ) == ready_prefix(pending + chunk),
{
}

/// Everything the display sink receives when `chunks` are fed in order
/// through bell filtering into a buffer that starts out withholding
/// `pending`.
pub open spec fn filtered_relay(pending: Seq<u8>, chunks: Seq<Seq<u8>>) -> Seq<u8>
    decreases chunks.len(),
{
    if chunks.len() == 0 {
        Seq::empty()
    } else {
        bell_filtered(ready_prefix(pending + chunks[0])) + filtered_relay(
            partial_suffix(pending + chunks[0]),
            chunks.skip(1),
        )
    }
}

/// Unrolls one chunk off the end of a filtered relay: the display receives
/// what it received before, then the filtered output of the last chunk fed
/// to the buffer state reached before it.
pub proof fn lemma_filtered_relay_snoc(pending: Seq<u8>, chunks: Seq<Seq<u8>>, c: Seq<u8>)
    ensures
        filtered_relay(pending, chunks.push(c)) == filtered_relay(pending, chunks) + bell_filtered(
            ready_prefix(relay_withheld(pending, chunks) + c),
        ),
        relay_withheld(pending, chunks.push(c)) == partial_suffix(
            relay_withheld(pending, chunks) + c,
        ),
    decreases chunks.len(),
{
    if chunks.len() == 0 {
        let step = bell_filtered(ready_prefix(pending + c));
        let single = chunks.push(c);
        let after = partial_suffix(pending + c);
        assert(single[0] == c);
        assert(single.skip(1) =~= Seq::<Seq<u8>>::empty());
        assert(relay_withheld(pending, chunks) == pending);
        assert(relay_withheld(after, Seq::<Seq<u8>>::empty()) == after);
        assert(relay_withheld(pending, single) == relay_withheld(after, single.skip(1)));
        assert(filtered_relay(after, Seq::<Seq<u8>>::empty()) == Seq::<u8>::empty());
        assert(filtered_relay(pending, single) == step + filtered_relay(after, single.skip(1)));
        assert(step + Seq::<u8>::empty() =~= step);
        assert(Seq::<u8>::empty() + step =~= step);
    } else {
        let ps = partial_suffix(pending + chunks[0]);
        let head = bell_filtered(ready_prefix(pending + chunks[0]));
        let mid = filtered_relay(ps, chunks.skip(1));
        assert(chunks.push(c)[0] == chunks[0]);
        assert(chunks.push(c).skip(1) =~= chunks.skip(1).push(c));
        lemma_filtered_relay_snoc(ps, chunks.skip(1), c);
        let tailstep = bell_filtered(ready_prefix(relay_withheld(ps, chunks.skip(1)) + c));
        assert(filtered_relay(pending, chunks.push(c)) == head + (mid + tailstep));
        assert(head + (mid + tailstep) =~= (head + mid) + tailstep);
    }
}

/// The byte accumulator of the output path: holds the trailing fragment of an
/// incomplete multi-byte character between reads.
///
/// Its view is the withheld bytes. After every [`feed`](Self::feed) the
/// buffer is either empty or holds exactly the partial suffix of all input so
/// far: the minimal trailing bytes that the next chunk could complete into a
/// character.
pub struct DecodeBuffer {
    withheld: Vec<u8>,
}

impl View for DecodeBuffer {
    type V = Seq<u8>;

    closed spec fn view(&self) -> Seq<u8> {
        self.withheld@
    }
}

impl DecodeBuffer {
    /// A session starts with nothing withheld.
    pub fn new() -> (r: Self)
        ensures
            r@ == Seq::<u8>::empty(),
    {
        DecodeBuffer { withheld: Vec::new() }
    }

    /// Accepts one chunk read from the transport and returns the bytes that
    /// are ready to emit: the ready prefix of the withheld bytes followed by
    /// the chunk. The partial suffix stays in the buffer for the next chunk.
    ///
    /// No byte is lost or invented: the emitted bytes plus the new buffer
    /// contents are exactly the old buffer contents plus the chunk.
    pub fn feed(&mut self, chunk: &[u8]) -> (out: Vec<u8>)
        ensures
            out@ == ready_prefix(old(self)@ + chunk@),
            final(self)@ == partial_suffix(old(self)@ + chunk@),
            out@ + final(self)@ == old(self)@ + chunk@,
    {
        let mut acc: Vec<u8> = Vec::new();
        acc.append(&mut self.withheld);
        let mut rest = slice_to_vec(chunk);
        acc.append(&mut rest);
        let k = scan_partial_suffix(acc.as_slice());
        let n = acc.len();
        let suffix = acc.split_off(n - k);
        self.withheld = suffix;
        proof {
            lemma_split_shape(old(self)@ + chunk@);
        }
        acc
    }

    /// [`feed`](Self::feed) followed by bell suppression: what the reader
    /// loop hands to the display sink for one chunk.
    pub fn feed_filtered(&mut self, chunk: &[u8]) -> (out: Vec<u8>)
        ensures
            out@ == bell_filtered(ready_prefix(old(self)@ + chunk@)),
            final(self)@ == partial_suffix(old(self)@ + chunk@),
    {
        let emitted = self.feed(chunk);
        suppress_lone_bell(emitted)
    }
}

} // verus!
