use usi_hand_parser::hand::Hand;
use usi_hand_parser::hand::HandPair;
use usi_hand_parser::parser::Error;
use usi_hand_parser::piece::PieceKind;
use usi_hand_parser::piece::Side;

fn counts(pair: &HandPair, side: Side) -> [u8; 7] {
    let h = pair.hand(side);
    [
        h.count(PieceKind::Pawn),
        h.count(PieceKind::Lance),
        h.count(PieceKind::Knight),
        h.count(PieceKind::Silver),
        h.count(PieceKind::Gold),
        h.count(PieceKind::Bishop),
        h.count(PieceKind::Rook),
    ]
}

fn assert_all_zero(pair: &HandPair) {
    assert_eq!(counts(pair, Side::Black), [0; 7]);
    assert_eq!(counts(pair, Side::White), [0; 7]);
}

#[test]
fn dash_gives_two_empty_hands() {
    let (rest, pair) = HandPair::parse_usi_slice(b"-").unwrap();
    assert_eq!(rest, b"");
    assert_all_zero(&pair);
}

#[test]
fn dash_consumes_one_byte_only() {
    let (rest, pair) = HandPair::parse_usi_slice(b"- 1").unwrap();
    assert_eq!(rest, b" 1");
    assert_all_zero(&pair);
}

#[test]
fn single_letter_counts_one() {
    let (rest, pair) = HandPair::parse_usi_slice(b"P").unwrap();
    assert_eq!(rest, b"");
    assert_eq!(pair.hand(Side::Black).count(PieceKind::Pawn), 1);
    assert_eq!(counts(&pair, Side::White), [0; 7]);
}

#[test]
fn two_digit_count_is_greedy() {
    let (rest, pair) = HandPair::parse_usi_slice(b"18p").unwrap();
    assert_eq!(rest, b"");
    assert_eq!(pair.hand(Side::White).count(PieceKind::Pawn), 18);
    assert_eq!(counts(&pair, Side::Black), [0; 7]);
}

#[test]
fn mixed_example_credits_both_sides() {
    let input: &[u8] = b"RG4P2b2s3p";
    let (rest, pair) = HandPair::parse_usi_slice(input).unwrap();
    assert_eq!(rest, b"");
    assert_eq!(pair.hand(Side::Black).count(PieceKind::Rook), 1);
    assert_eq!(pair.hand(Side::Black).count(PieceKind::Gold), 1);
    assert_eq!(pair.hand(Side::Black).count(PieceKind::Pawn), 4);
    assert_eq!(pair.hand(Side::Black).count(PieceKind::Silver), 0);
    assert_eq!(pair.hand(Side::White).count(PieceKind::Bishop), 2);
    assert_eq!(pair.hand(Side::White).count(PieceKind::Silver), 2);
    assert_eq!(pair.hand(Side::White).count(PieceKind::Pawn), 3);
    let (consumed, _) = HandPair::parse_usi_consumed(input).unwrap();
    assert_eq!(consumed, input.len());
}

#[test]
fn token_order_is_irrelevant() {
    let (_, a) = HandPair::parse_usi_slice(b"PNSP").unwrap();
    let (_, b) = HandPair::parse_usi_slice(b"PPNS").unwrap();
    assert_eq!(counts(&a, Side::Black), counts(&b, Side::Black));
    assert_eq!(counts(&a, Side::White), counts(&b, Side::White));
    assert_eq!(a.hand(Side::Black).count(PieceKind::Pawn), 2);
    assert_eq!(a.hand(Side::Black).count(PieceKind::Knight), 1);
    assert_eq!(a.hand(Side::Black).count(PieceKind::Silver), 1);
}

#[test]
fn counts_cap_at_kind_maximum_without_error() {
    // 19 pawns asked for, 18 kept.
    let (rest, pair) = HandPair::parse_usi_slice(b"19P").unwrap();
    assert_eq!(rest, b"");
    assert_eq!(pair.hand(Side::Black).count(PieceKind::Pawn), 18);
    // Counts add up across repeated tokens, then cap.
    let (_, pair) = HandPair::parse_usi_slice(b"9p9p9p").unwrap();
    assert_eq!(pair.hand(Side::White).count(PieceKind::Pawn), 18);
    // A rook's maximum is two.
    let (_, pair) = HandPair::parse_usi_slice(b"5R").unwrap();
    assert_eq!(pair.hand(Side::Black).count(PieceKind::Rook), 2);
}

#[test]
fn zero_count_token_is_consumed() {
    let (rest, pair) = HandPair::parse_usi_slice(b"0P").unwrap();
    assert_eq!(rest, b"");
    assert_all_zero(&pair);
}

#[test]
fn empty_input_is_refused() {
    let e = HandPair::parse_usi_slice(b"").unwrap_err();
    let Error::InvalidInput { from, to, description } = e;
    assert_eq!((from, to), (0, 0));
    assert_eq!(description, "a hand pair expected, but nothing found");
}

#[test]
fn input_without_a_leading_token_is_refused() {
    let e = HandPair::parse_usi_slice(b"x").unwrap_err();
    let Error::InvalidInput { from, to, description } = e;
    assert_eq!((from, to), (0, 1));
    assert_eq!(description, "a hand pair expected, but no pieces were found");
}

#[test]
fn digits_without_a_letter_are_refused() {
    let e = HandPair::parse_usi_slice(b"18").unwrap_err();
    let Error::InvalidInput { from, to, .. } = e;
    assert_eq!((from, to), (0, 1));
}

#[test]
fn king_letter_is_not_a_hand_token() {
    let e = HandPair::parse_usi_slice(b"K").unwrap_err();
    let Error::InvalidInput { from, to, .. } = e;
    assert_eq!((from, to), (0, 1));
}

#[test]
fn parse_stops_at_first_non_token() {
    let (rest, pair) = HandPair::parse_usi_slice(b"PN w - 1").unwrap();
    assert_eq!(rest, b" w - 1");
    assert_eq!(pair.hand(Side::Black).count(PieceKind::Pawn), 1);
    assert_eq!(pair.hand(Side::Black).count(PieceKind::Knight), 1);
    // Re-parsing the suffix is the caller's business and consumes nothing.
    assert!(HandPair::parse_usi_slice(rest).is_err());
}

#[test]
fn suffix_may_start_a_new_parse() {
    let (rest, pair) = HandPair::parse_usi_slice(b"P-").unwrap();
    assert_eq!(rest, b"-");
    assert_eq!(pair.hand(Side::Black).count(PieceKind::Pawn), 1);
    // The suffix happens to be the empty-hand marker: a fresh parse of it
    // succeeds, but that is the caller's call, nothing retried internally.
    let (rest2, pair2) = HandPair::parse_usi_slice(rest).unwrap();
    assert_eq!(rest2, b"");
    assert_all_zero(&pair2);
}

#[test]
fn trailing_digits_stay_unconsumed() {
    let (rest, pair) = HandPair::parse_usi_slice(b"P1").unwrap();
    assert_eq!(rest, b"1");
    assert_eq!(pair.hand(Side::Black).count(PieceKind::Pawn), 1);
}

#[test]
fn consumed_matches_safe_entry_point() {
    let inputs: [&[u8]; 8] =
        [b"-", b"P", b"18p", b"RG4P2b2s3p", b"PN w", b"P1", b"", b"x"];
    for input in inputs {
        match HandPair::parse_usi_slice(input) {
            Ok((rest, pair)) => {
                let (consumed, pair2) = HandPair::parse_usi_consumed(input).unwrap();
                assert_eq!(consumed, input.len() - rest.len());
                assert_eq!(counts(&pair2, Side::Black), counts(&pair, Side::Black));
                assert_eq!(counts(&pair2, Side::White), counts(&pair, Side::White));
            }
            Err(_) => {
                assert!(HandPair::parse_usi_consumed(input).is_none());
            }
        }
    }
}

#[test]
fn every_letter_decodes_to_its_kind_and_side() {
    let letters: [(u8, PieceKind); 7] = [
        (b'P', PieceKind::Pawn),
        (b'L', PieceKind::Lance),
        (b'N', PieceKind::Knight),
        (b'S', PieceKind::Silver),
        (b'G', PieceKind::Gold),
        (b'B', PieceKind::Bishop),
        (b'R', PieceKind::Rook),
    ];
    for (upper, kind) in letters {
        let upper_input = [upper];
        let (_, pair) = HandPair::parse_usi_slice(&upper_input).unwrap();
        assert_eq!(pair.hand(Side::Black).count(kind), 1);
        assert_eq!(counts(&pair, Side::White), [0; 7]);
        let lower_input = [upper + 32];
        let (_, pair) = HandPair::parse_usi_slice(&lower_input).unwrap();
        assert_eq!(pair.hand(Side::White).count(kind), 1);
        assert_eq!(counts(&pair, Side::Black), [0; 7]);
    }
}

#[test]
fn new_and_default_hands_are_empty() {
    let h = Hand::new();
    let d = <Hand as Default>::default();
    for kind in [
        PieceKind::Pawn,
        PieceKind::Lance,
        PieceKind::Knight,
        PieceKind::Silver,
        PieceKind::Gold,
        PieceKind::Bishop,
        PieceKind::Rook,
    ] {
        assert_eq!(h.count(kind), 0);
        assert_eq!(d.count(kind), 0);
    }
    assert_all_zero(&HandPair::new());
    assert_all_zero(&<HandPair as Default>::default());
}

#[test]
fn added_refuses_only_at_the_maximum() {
    let mut h = Hand::new();
    for expected in 1..=2u8 {
        h = h.added(PieceKind::Bishop).unwrap();
        assert_eq!(h.count(PieceKind::Bishop), expected);
    }
    assert!(h.added(PieceKind::Bishop).is_none());
    assert_eq!(h.count(PieceKind::Bishop), 2);
    assert_eq!(Hand::kind_max(PieceKind::Pawn), 18);
    assert_eq!(Hand::kind_max(PieceKind::Lance), 4);
    assert_eq!(Hand::kind_max(PieceKind::Rook), 2);
}
