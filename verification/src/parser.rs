//! The hand-pair parser: scans a byte sequence for hand tokens and
//! accumulates the two sides' piece counts.

use vstd::prelude::*;
use vstd::slice::slice_index_get;
use vstd::slice::slice_subrange;

use crate::hand::max_count;
use crate::hand::spec_empty_pair;
use crate::hand::HandPair;
use crate::piece::decode_piece;
use crate::piece::decode_spec;
use crate::piece::PieceKind;
use crate::piece::Side;

verus! {

/// A parse failure: the half-open byte range `[from, to)` of the input it
/// points at, and a description of what was expected there.
#[derive(Clone, Copy, Debug)]
pub enum Error {
    InvalidInput { from: usize, to: usize, description: &'static str },
}

/// Whether `b` is an ASCII decimal digit.
pub open spec fn is_digit(b: u8) -> bool {
    48 <= b <= 57
}

/// Whether `b` is an ASCII decimal digit, as an executable test.
pub fn is_digit_byte(b: u8) -> (r: bool)
    ensures
        r == is_digit(b),
{
    48 <= b && b <= 57
}

/// How many digit bytes the count prefix of a token starting at `i` takes:
/// two if two digits stand there, one if only one does, zero if none does.
/// The prefix is greedy, so a longer run of digits still yields two.
pub open spec fn count_len_at(s: Seq<u8>, i: int) -> int {
    if 0 <= i < s.len() && is_digit(s[i]) {
        if i + 1 < s.len() && is_digit(s[i + 1]) {
            2
        } else {
            1
        }
    } else {
        0
    }
}

/// The count a token starting at `i` asks for: the value of its one- or
/// two-digit prefix, or one when no digit stands there.
pub open spec fn count_at(s: Seq<u8>, i: int) -> nat {
    if 0 <= i < s.len() && is_digit(s[i]) {
        if i + 1 < s.len() && is_digit(s[i + 1]) {
            (10 * (s[i] - 48) + (s[i + 1] - 48)) as nat
        } else {
            (s[i] - 48) as nat
        }
    } else {
        1
    }
}

/// What the piece letter of a token starting at `i` decodes to, or `None`
/// when no token starts at `i`: the digits run past the end of the input, or
/// the byte after them is not a piece letter.
pub open spec fn token_at(s: Seq<u8>, i: int) -> Option<(PieceKind, Side)> {
    if 0 <= i && i + count_len_at(s, i) < s.len() {
        decode_spec(s[i + count_len_at(s, i)])
    } else {
        None
    }
}

/// Where the token run that starts at `i` with hands `p` ends, and the hands
/// it accumulates: each token adds its count of its piece's kind to its
/// side's hand, capped at the kind's maximum, and the scan stops at the
/// first position where no token starts.
pub open spec fn scan(s: Seq<u8>, i: int, p: HandPair) -> (int, HandPair)
    decreases s.len() - i,
{
    match token_at(s, i) {
        Some(t) => scan(
            s,
            i + count_len_at(s, i) + 1,
            p.spec_add_capped(t.1, t.0, count_at(s, i)),
        ),
        None => (i, p),
    }
}

/// The outcome the parser owes on input `s`: `Ok((consumed, hands))`, or
/// `Err((from, to))` with the error's byte range.  Empty input is refused
/// with range `[0, 0)`; a lone `-` (and anything after it) yields two empty
/// hands and one consumed byte; otherwise the token scan runs from the
/// start, and consuming nothing is refused with range `[0, 1)`.
pub open spec fn spec_parse(s: Seq<u8>) -> Result<(int, HandPair), (int, int)> {
    if s.len() == 0 {
        Err((0int, 0int))
    } else if s[0] == 45 {
        Ok((1int, spec_empty_pair()))
    } else {
        let r = scan(s, 0, spec_empty_pair());
        if r.0 == 0 {
            Err((0int, 1int))
        } else {
            Ok(r)
        }
    }
}

/// The total count the token run starting at `i` asks to add to `side`'s
/// hand for `kind`: the sum of the counts of that run's tokens whose letter
/// decodes to that kind and side.
pub open spec fn token_sum(s: Seq<u8>, i: int, kind: PieceKind, side: Side) -> nat
    decreases s.len() - i,
{
    match token_at(s, i) {
        Some(t) => (if t == (kind, side) {
            count_at(s, i)
        } else {
            0
        }) + token_sum(s, i + count_len_at(s, i) + 1, kind, side),
        None => 0,
    }
}

/// A scan accumulates, for each kind and side, the token run's total count
/// on top of what the starting hands held, capped at the kind's maximum.
pub proof fn lemma_scan_counts(s: Seq<u8>, i: int, p: HandPair, kind: PieceKind, side: Side)
    requires
        p.wf(),
    ensures
        scan(s, i, p).1.wf(),
        scan(s, i, p).1.spec_hand(side).spec_count(kind) == vstd::math::min(
            p.spec_hand(side).spec_count(kind) + token_sum(s, i, kind, side) as int,
            max_count(kind) as int,
        ),
    decreases s.len() - i,
{
    match token_at(s, i) {
        Some(t) => {
            let q = p.spec_add_capped(t.1, t.0, count_at(s, i));
            crate::hand::lemma_add_capped_counts(p, t.1, t.0, count_at(s, i));
            lemma_scan_counts(s, i + count_len_at(s, i) + 1, q, kind, side);
        }
        None => {}
    }
}

/// Law: for any input, the count a scan from empty hands accumulates for a
/// kind and side is the sum of the counts its tokens ask for that kind and
/// side, capped at the kind's maximum; reaching the cap never is an error.
pub proof fn lemma_count_is_capped_token_sum(s: Seq<u8>, kind: PieceKind, side: Side)
    ensures
        scan(s, 0, spec_empty_pair()).1.spec_hand(side).spec_count(kind) == vstd::math::min(
            token_sum(s, 0, kind, side) as int,
            max_count(kind) as int,
        ),
{
    lemma_scan_counts(s, 0, spec_empty_pair(), kind, side);
}

/// Law: token order is irrelevant.  Two inputs whose token runs ask for the
/// same per-kind, per-side totals accumulate the same hands, whatever order
/// and grouping their tokens come in.
pub proof fn lemma_token_order_irrelevant(s1: Seq<u8>, s2: Seq<u8>)
    requires
        forall|kind: PieceKind, side: Side| #[trigger] token_sum(s1, 0, kind, side) == token_sum(
            s2,
            0,
            kind,
            side,
        ),
    ensures
        scan(s1, 0, spec_empty_pair()).1 == scan(s2, 0, spec_empty_pair()).1,
{
    let p1 = scan(s1, 0, spec_empty_pair()).1;
    let p2 = scan(s2, 0, spec_empty_pair()).1;
    assert forall|kind: PieceKind, side: Side| #[trigger] p1.spec_hand(side).spec_count(kind)
        == p2.spec_hand(side).spec_count(kind) by {
        lemma_count_is_capped_token_sum(s1, kind, side);
        lemma_count_is_capped_token_sum(s2, kind, side);
    }
    assert(p1.spec_hand(Side::Black).spec_count(PieceKind::Pawn) == p2.spec_hand(
        Side::Black,
    ).spec_count(PieceKind::Pawn));
    assert(p1.spec_hand(Side::Black).spec_count(PieceKind::Lance) == p2.spec_hand(
        Side::Black,
    ).spec_count(PieceKind::Lance));
    assert(p1.spec_hand(Side::Black).spec_count(PieceKind::Knight) == p2.spec_hand(
        Side::Black,
    ).spec_count(PieceKind::Knight));
    assert(p1.spec_hand(Side::Black).spec_count(PieceKind::Silver) == p2.spec_hand(
        Side::Black,
    ).spec_count(PieceKind::Silver));
    assert(p1.spec_hand(Side::Black).spec_count(PieceKind::Gold) == p2.spec_hand(
        Side::Black,
    ).spec_count(PieceKind::Gold));
    assert(p1.spec_hand(Side::Black).spec_count(PieceKind::Bishop) == p2.spec_hand(
        Side::Black,
    ).spec_count(PieceKind::Bishop));
    assert(p1.spec_hand(Side::Black).spec_count(PieceKind::Rook) == p2.spec_hand(
        Side::Black,
    ).spec_count(PieceKind::Rook));
    assert(p1.spec_hand(Side::White).spec_count(PieceKind::Pawn) == p2.spec_hand(
        Side::White,
    ).spec_count(PieceKind::Pawn));
    assert(p1.spec_hand(Side::White).spec_count(PieceKind::Lance) == p2.spec_hand(
        Side::White,
    ).spec_count(PieceKind::Lance));
    assert(p1.spec_hand(Side::White).spec_count(PieceKind::Knight) == p2.spec_hand(
        Side::White,
    ).spec_count(PieceKind::Knight));
    assert(p1.spec_hand(Side::White).spec_count(PieceKind::Silver) == p2.spec_hand(
        Side::White,
    ).spec_count(PieceKind::Silver));
    assert(p1.spec_hand(Side::White).spec_count(PieceKind::Gold) == p2.spec_hand(
        Side::White,
    ).spec_count(PieceKind::Gold));
    assert(p1.spec_hand(Side::White).spec_count(PieceKind::Bishop) == p2.spec_hand(
        Side::White,
    ).spec_count(PieceKind::Bishop));
    assert(p1.spec_hand(Side::White).spec_count(PieceKind::Rook) == p2.spec_hand(
        Side::White,
    ).spec_count(PieceKind::Rook));
    assert(p1.black == p2.black);
    assert(p1.white == p2.white);
}

/// A scan stops at a position where no token starts.
pub proof fn lemma_scan_stops_at_non_token(s: Seq<u8>, i: int, p: HandPair)
    ensures
        token_at(s, scan(s, i, p).0) is None,
    decreases s.len() - i,
{
    match token_at(s, i) {
        Some(t) => {
            lemma_scan_stops_at_non_token(
                s,
                i + count_len_at(s, i) + 1,
                p.spec_add_capped(t.1, t.0, count_at(s, i)),
            );
        }
        None => {}
    }
}

/// Law: a scan consumes maximally.  Re-scanning the unconsumed suffix of the
/// input consumes nothing, from any starting hands: picking the parse up
/// again is the caller's choice, never something the parser left undone.
pub proof fn lemma_suffix_not_reparsable(s: Seq<u8>, q: HandPair)
    ensures
        ({
            let end = scan(s, 0, spec_empty_pair()).0;
            scan(s.subrange(end, s.len() as int), 0, q) == (0int, q)
        }),
{
    let end = scan(s, 0, spec_empty_pair()).0;
    lemma_scan_bounds(s, 0, spec_empty_pair());
    lemma_scan_stops_at_non_token(s, 0, spec_empty_pair());
    let suf = s.subrange(end, s.len() as int);
    assert(suf.len() == s.len() - end);
    assert forall|j: int| 0 <= j < suf.len() implies suf[j] == s[end + j] by {}
    assert(count_len_at(suf, 0) == count_len_at(s, end));
    assert(token_at(suf, 0) is None);
    assert(scan(suf, 0, q) == (0int, q));
}

/// A scan never walks backwards nor past the end of the input.
pub proof fn lemma_scan_bounds(s: Seq<u8>, i: int, p: HandPair)
    requires
        0 <= i <= s.len(),
    ensures
        i <= scan(s, i, p).0 <= s.len(),
    decreases s.len() - i,
{
    match token_at(s, i) {
        Some(t) => {
            lemma_scan_bounds(
                s,
                i + count_len_at(s, i) + 1,
                p.spec_add_capped(t.1, t.0, count_at(s, i)),
            );
        }
        None => {}
    }
}

impl HandPair {
    /// Parses the hand segment at the front of `s`.
    ///
    /// On success the result holds the unconsumed suffix of `s` and the two
    /// accumulated hands; [`spec_parse`] pins down both, and which inputs
    /// fail.  Only two inputs do: the empty one, and one whose first bytes
    /// neither are `-` nor start a hand token.
    pub fn parse_usi_slice(s: &[u8]) -> (r: Result<(&[u8], HandPair), Error>)
        ensures
            spec_parse(s@) matches Ok(v) ==> (r matches Ok(ok) && ok.0@ == s@.subrange(
                v.0,
                s@.len() as int,
            ) && ok.1 == v.1 && ok.1.wf()),
            spec_parse(s@) matches Err(ft) ==> (r matches Err(e)
                && e matches Error::InvalidInput { from, to, description: _ } && from == ft.0
                && to == ft.1),
            s@.len() == 0 ==> (r matches Err(e) && e matches Error::InvalidInput {
                from: _,
                to: _,
                description,
            } && description@ == "a hand pair expected, but nothing found"@),
            s@.len() > 0 && s@[0] != 45 && scan(s@, 0, spec_empty_pair()).0 == 0 ==> (r matches Err(
                e,
            ) && e matches Error::InvalidInput { from: _, to: _, description } && description@
                == "a hand pair expected, but no pieces were found"@),
    {
        if s.len() == 0 {
            return Err(
                Error::InvalidInput {
                    from: 0,
                    to: 0,
                    description: "a hand pair expected, but nothing found",
                },
            );
        }
        if *slice_index_get(s, 0) == 45 {
            let rest = slice_subrange(s, 1, s.len());
            return Ok((rest, HandPair::new()));
        }
        let mut index: usize = 0;
        let mut pair = HandPair::new();
        loop
            invariant
                index <= s@.len(),
                pair.wf(),
                scan(s@, index as int, pair) == scan(s@, 0, spec_empty_pair()),
            ensures
                (index as int, pair) == scan(s@, 0, spec_empty_pair()),
                pair.wf(),
            decreases s@.len() - index,
        {
            let mut count: u8 = 1;
            let mut count_len: usize = 0;
            if index < s.len() && is_digit_byte(*slice_index_get(s, index)) {
                let d0: u8 = *slice_index_get(s, index) - 48;
                if index + 1 < s.len() && is_digit_byte(*slice_index_get(s, index + 1)) {
                    count = 10 * d0 + (*slice_index_get(s, index + 1) - 48);
                    count_len = 2;
                } else {
                    count = d0;
                    count_len = 1;
                }
            }
            assert(count_len as int == count_len_at(s@, index as int));
            assert(count as nat == count_at(s@, index as int));
            if count_len >= s.len() - index {
                // The digits leave no byte for a piece letter: no token here.
                assert(token_at(s@, index as int) is None);
                assert(scan(s@, index as int, pair) == (index as int, pair));
                break;
            }
            let letter: u8 = *slice_index_get(s, index + count_len);
            match decode_piece(letter) {
                Some(ks) => {
                    assert(token_at(s@, index as int) == Some(ks));
                    let next = pair.add_up_to(ks.1, ks.0, count);
                    proof {
                        assert(scan(s@, index as int, pair) == scan(
                            s@,
                            index as int + count_len as int + 1,
                            pair.spec_add_capped(ks.1, ks.0, count as nat),
                        ));
                    }
                    pair = next;
                    index = index + count_len + 1;
                }
                None => {
                    assert(token_at(s@, index as int) is None);
                    assert(scan(s@, index as int, pair) == (index as int, pair));
                    break;
                }
            }
        }
        if index == 0 {
            return Err(
                Error::InvalidInput {
                    from: 0,
                    to: 1,
                    description: "a hand pair expected, but no pieces were found",
                },
            );
        }
        let rest = slice_subrange(s, index, s.len());
        Ok((rest, pair))
    }

    /// Parses as [`HandPair::parse_usi_slice`] does, but reports the number
    /// of consumed bytes instead of the unconsumed suffix, and collapses the
    /// error to `None`: the shape a foreign-call boundary hands on.  It
    /// returns `Some` with the consumed length exactly when the safe entry
    /// point succeeds, and `None` exactly when that fails.
    pub fn parse_usi_consumed(s: &[u8]) -> (r: Option<(usize, HandPair)>)
        ensures
            spec_parse(s@) matches Ok(v) ==> r == Some((v.0 as usize, v.1)),
            spec_parse(s@) is Err ==> r is None,
    {
        match Self::parse_usi_slice(s) {
            Ok((rest, pair)) => {
                proof {
                    match spec_parse(s@) {
                        Ok(v) => {
                            if s@[0] != 45 {
                                lemma_scan_bounds(s@, 0, spec_empty_pair());
                            }
                            assert(0 <= v.0 <= s@.len());
                            assert(rest@ == s@.subrange(v.0, s@.len() as int));
                            assert(rest@.len() == s@.len() - v.0);
                        }
                        Err(_) => {
                            assert(false);
                        }
                    }
                }
                Some((s.len() - rest.len(), pair))
            }
            Err(_) => None,
        }
    }
}

} // verus!
