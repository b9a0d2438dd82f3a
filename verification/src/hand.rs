//! Per-side piece counts with their per-kind maxima.

use vstd::prelude::*;

use crate::piece::PieceKind;
use crate::piece::Side;

verus! {

/// The number of pieces of each kind one side holds in hand.
///
/// Invariant ([`Hand::wf`]): each count stays at or below the kind's maximum
/// ([`max_count`]); [`Hand::added`] refuses to go past it.
#[derive(Clone, Copy, Debug, PartialEq, Eq, Structural)]
pub struct Hand {
    pub pawn: u8,
    pub lance: u8,
    pub knight: u8,
    pub silver: u8,
    pub gold: u8,
    pub bishop: u8,
    pub rook: u8,
}

/// The largest number of pieces of `kind` one side can hold: every piece of
/// that kind in the game, eighteen for the pawn, four each for lance,
/// knight, silver and gold, and two each for bishop and rook.
pub open spec fn max_count(kind: PieceKind) -> nat {
    match kind {
        PieceKind::Pawn => 18,
        PieceKind::Lance => 4,
        PieceKind::Knight => 4,
        PieceKind::Silver => 4,
        PieceKind::Gold => 4,
        PieceKind::Bishop => 2,
        PieceKind::Rook => 2,
    }
}

/// The empty hand as a spec value.
pub open spec fn spec_empty_hand() -> Hand {
    Hand { pawn: 0, lance: 0, knight: 0, silver: 0, gold: 0, bishop: 0, rook: 0 }
}

/// Two empty hands as a spec value.
pub open spec fn spec_empty_pair() -> HandPair {
    HandPair { black: spec_empty_hand(), white: spec_empty_hand() }
}

impl Hand {
    /// The count this hand holds for `kind`.
    pub open spec fn spec_count(self, kind: PieceKind) -> nat {
        match kind {
            PieceKind::Pawn => self.pawn as nat,
            PieceKind::Lance => self.lance as nat,
            PieceKind::Knight => self.knight as nat,
            PieceKind::Silver => self.silver as nat,
            PieceKind::Gold => self.gold as nat,
            PieceKind::Bishop => self.bishop as nat,
            PieceKind::Rook => self.rook as nat,
        }
    }

    /// This hand with the count for `kind` set to `n`.
    pub open spec fn spec_set(self, kind: PieceKind, n: u8) -> Hand {
        match kind {
            PieceKind::Pawn => Hand { pawn: n, ..self },
            PieceKind::Lance => Hand { lance: n, ..self },
            PieceKind::Knight => Hand { knight: n, ..self },
            PieceKind::Silver => Hand { silver: n, ..self },
            PieceKind::Gold => Hand { gold: n, ..self },
            PieceKind::Bishop => Hand { bishop: n, ..self },
            PieceKind::Rook => Hand { rook: n, ..self },
        }
    }

    /// This hand after `n` single additions of `kind`: the count rises by `n`
    /// but never past the kind's maximum.
    pub open spec fn spec_add_capped(self, kind: PieceKind, n: nat) -> Hand {
        if self.spec_count(kind) + n <= max_count(kind) {
            self.spec_set(kind, (self.spec_count(kind) + n) as u8)
        } else {
            self.spec_set(kind, max_count(kind) as u8)
        }
    }

    /// Every count is at or below its kind's maximum.
    pub open spec fn wf(self) -> bool {
        forall|kind: PieceKind| #[trigger] self.spec_count(kind) <= max_count(kind)
    }

    /// All counts are zero.
    pub open spec fn is_empty(self) -> bool {
        forall|kind: PieceKind| #[trigger] self.spec_count(kind) == 0
    }

    /// An empty hand: no piece of any kind.
    pub fn new() -> (h: Hand)
        ensures
            h.is_empty(),
            h.wf(),
            h == spec_empty_hand(),
    {
        Hand { pawn: 0, lance: 0, knight: 0, silver: 0, gold: 0, bishop: 0, rook: 0 }
    }

    /// The count this hand holds for `kind`.
    pub fn count(&self, kind: PieceKind) -> (n: u8)
        ensures
            n == self.spec_count(kind),
    {
        match kind {
            PieceKind::Pawn => self.pawn,
            PieceKind::Lance => self.lance,
            PieceKind::Knight => self.knight,
            PieceKind::Silver => self.silver,
            PieceKind::Gold => self.gold,
            PieceKind::Bishop => self.bishop,
            PieceKind::Rook => self.rook,
        }
    }

    /// The maximum count for `kind`, as an executable value.
    pub fn kind_max(kind: PieceKind) -> (n: u8)
        ensures
            n == max_count(kind),
    {
        match kind {
            PieceKind::Pawn => 18,
            PieceKind::Lance => 4,
            PieceKind::Knight => 4,
            PieceKind::Silver => 4,
            PieceKind::Gold => 4,
            PieceKind::Bishop => 2,
            PieceKind::Rook => 2,
        }
    }

    /// A copy of this hand with one more piece of `kind`, or `None` if the
    /// count already stands at the kind's maximum.  Adding past the maximum
    /// is refused, never applied in part and never a panic.
    pub fn added(self, kind: PieceKind) -> (r: Option<Hand>)
        requires
            self.wf(),
        ensures
            self.spec_count(kind) < max_count(kind) ==> r == Some(
                self.spec_set(kind, (self.spec_count(kind) + 1) as u8),
            ),
            self.spec_count(kind) >= max_count(kind) ==> r is None,
            r matches Some(h) ==> h.wf(),
    {
        let c: u8 = self.count(kind);
        if c < Self::kind_max(kind) {
            let h = match kind {
                PieceKind::Pawn => Hand { pawn: c + 1, ..self },
                PieceKind::Lance => Hand { lance: c + 1, ..self },
                PieceKind::Knight => Hand { knight: c + 1, ..self },
                PieceKind::Silver => Hand { silver: c + 1, ..self },
                PieceKind::Gold => Hand { gold: c + 1, ..self },
                PieceKind::Bishop => Hand { bishop: c + 1, ..self },
                PieceKind::Rook => Hand { rook: c + 1, ..self },
            };
            assert(forall|j: PieceKind| j != kind ==> #[trigger] h.spec_count(j)
                == self.spec_count(j));
            Some(h)
        } else {
            None
        }
    }

    /// This hand after `n` single additions of `kind`, each through
    /// [`Hand::added`]; once an addition is refused the rest are dropped, so
    /// the count caps at the kind's maximum.
    pub fn add_up_to(self, kind: PieceKind, n: u8) -> (r: Hand)
        requires
            self.wf(),
        ensures
            r == self.spec_add_capped(kind, n as nat),
            r.wf(),
    {
        let mut cur = self;
        let mut i: u8 = 0;
        while i < n
            invariant_except_break
                i <= n,
                self.wf(),
                cur.wf(),
                cur == self.spec_add_capped(kind, i as nat),
            ensures
                cur == self.spec_add_capped(kind, n as nat),
            decreases n - i,
        {
            match cur.added(kind) {
                Some(h) => {
                    cur = h;
                }
                None => {
                    break;
                }
            }
            i = i + 1;
        }
        assert(cur.spec_count(kind) <= max_count(kind));
        assert(forall|j: PieceKind| j != kind ==> #[trigger] cur.spec_count(j)
            == self.spec_count(j));
        cur
    }
}

impl Default for Hand {
    /// An empty hand, as [`Hand::new`] gives.
    fn default() -> (h: Hand)
        ensures
            h.is_empty(),
            h.wf(),
    {
        Hand::new()
    }
}

/// The hands of both sides.
#[derive(Clone, Copy, Debug, PartialEq, Eq, Structural)]
pub struct HandPair {
    pub black: Hand,
    pub white: Hand,
}

impl HandPair {
    /// The hand of `side`.
    pub open spec fn spec_hand(self, side: Side) -> Hand {
        match side {
            Side::Black => self.black,
            Side::White => self.white,
        }
    }

    /// Both hands satisfy the per-kind maxima.
    pub open spec fn wf(self) -> bool {
        self.black.wf() && self.white.wf()
    }

    /// Both hands are empty.
    pub open spec fn is_empty(self) -> bool {
        self.black.is_empty() && self.white.is_empty()
    }

    /// The pair after `n` capped additions of `kind` to the hand of `side`;
    /// the other side's hand is untouched.
    pub open spec fn spec_add_capped(self, side: Side, kind: PieceKind, n: nat) -> HandPair {
        match side {
            Side::Black => HandPair { black: self.black.spec_add_capped(kind, n), ..self },
            Side::White => HandPair { white: self.white.spec_add_capped(kind, n), ..self },
        }
    }

    /// Two empty hands.
    pub fn new() -> (p: HandPair)
        ensures
            p.is_empty(),
            p.wf(),
            p == spec_empty_pair(),
    {
        HandPair { black: Hand::new(), white: Hand::new() }
    }

    /// The hand of `side`.
    pub fn hand(&self, side: Side) -> (h: Hand)
        ensures
            h == self.spec_hand(side),
    {
        match side {
            Side::Black => self.black,
            Side::White => self.white,
        }
    }

    /// Adds `kind` to the hand of `side` up to `n` times, capped at the
    /// kind's maximum.
    pub fn add_up_to(self, side: Side, kind: PieceKind, n: u8) -> (r: HandPair)
        requires
            self.wf(),
        ensures
            r == self.spec_add_capped(side, kind, n as nat),
            r.wf(),
    {
        match side {
            Side::Black => HandPair { black: self.black.add_up_to(kind, n), ..self },
            Side::White => HandPair { white: self.white.add_up_to(kind, n), ..self },
        }
    }
}

/// What capped addition does to a pair's counts: the chosen side's count of
/// the chosen kind rises by `n` but never past the kind's maximum, and every
/// other count, on either side, stays as it was.  Well-formedness is kept.
pub proof fn lemma_add_capped_counts(p: HandPair, side: Side, kind: PieceKind, n: nat)
    requires
        p.wf(),
    ensures
        p.spec_add_capped(side, kind, n).wf(),
        p.spec_add_capped(side, kind, n).spec_hand(side).spec_count(kind) == vstd::math::min(
            p.spec_hand(side).spec_count(kind) + n as int,
            max_count(kind) as int,
        ),
        forall|k2: PieceKind, s2: Side|
            !(k2 == kind && s2 == side) ==> #[trigger] p.spec_add_capped(
                side,
                kind,
                n,
            ).spec_hand(s2).spec_count(k2) == p.spec_hand(s2).spec_count(k2),
{
    let q = p.spec_add_capped(side, kind, n);
    assert forall|k2: PieceKind, s2: Side|
        !(k2 == kind && s2 == side) implies #[trigger] q.spec_hand(s2).spec_count(k2)
        == p.spec_hand(s2).spec_count(k2) by {
        assert(q.spec_hand(s2).spec_count(k2) == p.spec_hand(s2).spec_count(k2));
    }
    assert forall|k2: PieceKind| #[trigger] q.black.spec_count(k2) <= max_count(k2) by {
        assert(p.black.spec_count(k2) <= max_count(k2));
    }
    assert forall|k2: PieceKind| #[trigger] q.white.spec_count(k2) <= max_count(k2) by {
        assert(p.white.spec_count(k2) <= max_count(k2));
    }
}

impl Default for HandPair {
    /// Two empty hands, as [`HandPair::new`] gives.
    fn default() -> (p: HandPair)
        ensures
            p.is_empty(),
            p.wf(),
    {
        HandPair::new()
    }
}

} // verus!
