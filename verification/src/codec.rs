//! A stable structural interchange representation: every enumeration has a
//! one-byte code, every composite value a fixed-width byte record, and
//! decoding an encoded value always reproduces it exactly.
use crate::contract::Call;
use crate::contract::Card;
use crate::contract::Contract;
use crate::contract::Doubling;
use crate::holding::Holding;
use crate::seats::Seat;
use crate::seats::SeatRelation;
use crate::seats::Side;
use crate::suits::Strain;
use crate::suits::Suit;
use vstd::prelude::*;

verus! {

/// The interchange code of a suit.
pub open spec fn suit_code_spec(s: Suit) -> u8 {
    match s {
        Suit::Spades => 0,
        Suit::Hearts => 1,
        Suit::Diamonds => 2,
        Suit::Clubs => 3,
    }
}

/// The suit a code stands for, if any.
pub open spec fn suit_from_code_spec(c: u8) -> Option<Suit> {
    if c == 0 {
        Some(Suit::Spades)
    } else if c == 1 {
        Some(Suit::Hearts)
    } else if c == 2 {
        Some(Suit::Diamonds)
    } else if c == 3 {
        Some(Suit::Clubs)
    } else {
        None
    }
}

/// The interchange code of a suit.
pub fn suit_code(s: Suit) -> (r: u8)
    ensures
        r == suit_code_spec(s),
{
    match s {
        Suit::Spades => 0,
        Suit::Hearts => 1,
        Suit::Diamonds => 2,
        Suit::Clubs => 3,
    }
}

/// The suit a code stands for, if any.
pub fn suit_from_code(c: u8) -> (r: Option<Suit>)
    ensures
        r == suit_from_code_spec(c),
{
    if c == 0 {
        Some(Suit::Spades)
    } else if c == 1 {
        Some(Suit::Hearts)
    } else if c == 2 {
        Some(Suit::Diamonds)
    } else if c == 3 {
        Some(Suit::Clubs)
    } else {
        None
    }
}

/// Decoding a suit's code reproduces the suit.
pub proof fn lemma_suit_round_trip(s: Suit)
    ensures
        suit_from_code_spec(suit_code_spec(s)) == Some(s),
{
}

/// The interchange code of a strain: 0 for NoTrump, one past the suit's code
/// otherwise.
pub open spec fn strain_code_point_spec(s: Strain) -> u8 {
    match s {
        Strain::NoTrump => 0,
        Strain::Suit(inner) => (1 + suit_code_spec(inner)) as u8,
    }
}

/// The strain a code stands for, if any.
pub open spec fn strain_from_code_spec(c: u8) -> Option<Strain> {
    if c == 0 {
        Some(Strain::NoTrump)
    } else {
        match suit_from_code_spec((c - 1) as u8) {
            Some(s) => Some(Strain::Suit(s)),
            None => None,
        }
    }
}

/// The interchange code of a strain.
pub fn strain_code_point(s: Strain) -> (r: u8)
    ensures
        r == strain_code_point_spec(s),
{
    match s {
        Strain::NoTrump => 0,
        Strain::Suit(inner) => 1 + suit_code(inner),
    }
}

/// The strain a code stands for, if any.
pub fn strain_from_code(c: u8) -> (r: Option<Strain>)
    ensures
        r == strain_from_code_spec(c),
{
    if c == 0 {
        Some(Strain::NoTrump)
    } else {
        match suit_from_code(c - 1) {
            Some(s) => Some(Strain::Suit(s)),
            None => None,
        }
    }
}

/// Decoding a strain's code reproduces the strain.
pub proof fn lemma_strain_round_trip(s: Strain)
    ensures
        strain_from_code_spec(strain_code_point_spec(s)) == Some(s),
{
}

/// The interchange code of a seat.
pub open spec fn seat_code_spec(s: Seat) -> u8 {
    match s {
        Seat::North => 0,
        Seat::East => 1,
        Seat::South => 2,
        Seat::West => 3,
    }
}

/// The seat a code stands for, if any.
pub open spec fn seat_from_code_spec(c: u8) -> Option<Seat> {
    if c == 0 {
        Some(Seat::North)
    } else if c == 1 {
        Some(Seat::East)
    } else if c == 2 {
        Some(Seat::South)
    } else if c == 3 {
        Some(Seat::West)
    } else {
        None
    }
}

/// The interchange code of a seat.
pub fn seat_code(s: Seat) -> (r: u8)
    ensures
        r == seat_code_spec(s),
{
    match s {
        Seat::North => 0,
        Seat::East => 1,
        Seat::South => 2,
        Seat::West => 3,
    }
}

/// The seat a code stands for, if any.
pub fn seat_from_code(c: u8) -> (r: Option<Seat>)
    ensures
        r == seat_from_code_spec(c),
{
    if c == 0 {
        Some(Seat::North)
    } else if c == 1 {
        Some(Seat::East)
    } else if c == 2 {
        Some(Seat::South)
    } else if c == 3 {
        Some(Seat::West)
    } else {
        None
    }
}

/// Decoding a seat's code reproduces the seat.
pub proof fn lemma_seat_round_trip(s: Seat)
    ensures
        seat_from_code_spec(seat_code_spec(s)) == Some(s),
{
}

/// The interchange code of a seat relation.
pub open spec fn seat_relation_code_spec(s: SeatRelation) -> u8 {
    match s {
        SeatRelation::Me => 0,
        SeatRelation::LHO => 1,
        SeatRelation::Partner => 2,
        SeatRelation::RHO => 3,
    }
}

/// The seat relation a code stands for, if any.
pub open spec fn seat_relation_from_code_spec(c: u8) -> Option<SeatRelation> {
    if c == 0 {
        Some(SeatRelation::Me)
    } else if c == 1 {
        Some(SeatRelation::LHO)
    } else if c == 2 {
        Some(SeatRelation::Partner)
    } else if c == 3 {
        Some(SeatRelation::RHO)
    } else {
        None
    }
}

/// The interchange code of a seat relation.
pub fn seat_relation_code(s: SeatRelation) -> (r: u8)
    ensures
        r == seat_relation_code_spec(s),
{
    match s {
        SeatRelation::Me => 0,
        SeatRelation::LHO => 1,
        SeatRelation::Partner => 2,
        SeatRelation::RHO => 3,
    }
}

/// The seat relation a code stands for, if any.
pub fn seat_relation_from_code(c: u8) -> (r: Option<SeatRelation>)
    ensures
        r == seat_relation_from_code_spec(c),
{
    if c == 0 {
        Some(SeatRelation::Me)
    } else if c == 1 {
        Some(SeatRelation::LHO)
    } else if c == 2 {
        Some(SeatRelation::Partner)
    } else if c == 3 {
        Some(SeatRelation::RHO)
    } else {
        None
    }
}

/// Decoding a seat relation's code reproduces the relation.
pub proof fn lemma_seat_relation_round_trip(s: SeatRelation)
    ensures
        seat_relation_from_code_spec(seat_relation_code_spec(s)) == Some(s),
{
}

/// The interchange code of a side.
pub open spec fn side_code_spec(s: Side) -> u8 {
    match s {
        Side::NS => 0,
        Side::EW => 1,
    }
}

/// The side a code stands for, if any.
pub open spec fn side_from_code_spec(c: u8) -> Option<Side> {
    if c == 0 {
        Some(Side::NS)
    } else if c == 1 {
        Some(Side::EW)
    } else {
        None
    }
}

/// The interchange code of a side.
pub fn side_code(s: Side) -> (r: u8)
    ensures
        r == side_code_spec(s),
{
    match s {
        Side::NS => 0,
        Side::EW => 1,
    }
}

/// The side a code stands for, if any.
pub fn side_from_code(c: u8) -> (r: Option<Side>)
    ensures
        r == side_from_code_spec(c),
{
    if c == 0 {
        Some(Side::NS)
    } else if c == 1 {
        Some(Side::EW)
    } else {
        None
    }
}

/// Decoding a side's code reproduces the side.
pub proof fn lemma_side_round_trip(s: Side)
    ensures
        side_from_code_spec(side_code_spec(s)) == Some(s),
{
}

/// The interchange code of a doubling state.
pub open spec fn doubling_code_spec(d: Doubling) -> u8 {
    match d {
        Doubling::Undoubled => 0,
        Doubling::Doubled => 1,
        Doubling::Redoubled => 2,
    }
}

/// The doubling state a code stands for, if any.
pub open spec fn doubling_from_code_spec(c: u8) -> Option<Doubling> {
    if c == 0 {
        Some(Doubling::Undoubled)
    } else if c == 1 {
        Some(Doubling::Doubled)
    } else if c == 2 {
        Some(Doubling::Redoubled)
    } else {
        None
    }
}

/// The interchange code of a doubling state.
pub fn doubling_code(d: Doubling) -> (r: u8)
    ensures
        r == doubling_code_spec(d),
{
    match d {
        Doubling::Undoubled => 0,
        Doubling::Doubled => 1,
        Doubling::Redoubled => 2,
    }
}

/// The doubling state a code stands for, if any.
pub fn doubling_from_code(c: u8) -> (r: Option<Doubling>)
    ensures
        r == doubling_from_code_spec(c),
{
    if c == 0 {
        Some(Doubling::Undoubled)
    } else if c == 1 {
        Some(Doubling::Doubled)
    } else if c == 2 {
        Some(Doubling::Redoubled)
    } else {
        None
    }
}

/// Decoding a doubling state's code reproduces it.
pub proof fn lemma_doubling_round_trip(d: Doubling)
    ensures
        doubling_from_code_spec(doubling_code_spec(d)) == Some(d),
{
}

/// The four little-endian bytes of a 32-bit word.
pub open spec fn u32_le_bytes(x: u32) -> Seq<u8> {
    seq![
        (x & 0xff) as u8,
        ((x >> 8) & 0xff) as u8,
        ((x >> 16) & 0xff) as u8,
        ((x >> 24) & 0xff) as u8,
    ]
}

/// The 32-bit word assembled from four little-endian bytes.
pub open spec fn u32_from_le(b0: u8, b1: u8, b2: u8, b3: u8) -> u32 {
    (b0 as u32) | ((b1 as u32) << 8) | ((b2 as u32) << 16) | ((b3 as u32) << 24)
}

/// Splitting a word into bytes and reassembling them is the identity.
proof fn lemma_u32_le_round_trip(x: u32)
    ensures
        u32_from_le(
            (x & 0xff) as u8,
            ((x >> 8) & 0xff) as u8,
            ((x >> 16) & 0xff) as u8,
            ((x >> 24) & 0xff) as u8,
        ) == x,
{
    assert((((x & 0xff) as u8 as u32) | ((((x >> 8) & 0xff) as u8 as u32) << 8) | ((((x >> 16)
        & 0xff) as u8 as u32) << 16) | ((((x >> 24) & 0xff) as u8 as u32) << 24)) == x)
        by (bit_vector);
}

/// Appends the four little-endian bytes of `x`.
fn push_u32_le(v: &mut Vec<u8>, x: u32)
    ensures
        final (v)@ == old(v)@ + u32_le_bytes(x),
{
    proof {
        assert((x & 0xff) < 256 && ((x >> 8) & 0xff) < 256 && ((x >> 16) & 0xff) < 256 && ((x >> 24)
            & 0xff) < 256) by (bit_vector);
    }
    v.push((x & 0xff) as u8);
    v.push(((x >> 8) & 0xff) as u8);
    v.push(((x >> 16) & 0xff) as u8);
    v.push(((x >> 24) & 0xff) as u8);
    proof {
        assert(v@ =~= old(v)@ + u32_le_bytes(x));
    }
}

/// The interchange record of a holding: the bit pattern's four little-endian
/// bytes.
pub open spec fn encode_holding_spec(h: Holding) -> Seq<u8> {
    u32_le_bytes(h.0)
}

/// The holding a record stands for, if any.
pub open spec fn decode_holding_spec(b: Seq<u8>) -> Option<Holding> {
    if b.len() == 4 {
        Some(Holding(u32_from_le(b[0], b[1], b[2], b[3])))
    } else {
        None
    }
}

/// Encodes a holding into its interchange record.
pub fn encode_holding(h: &Holding) -> (r: Vec<u8>)
    ensures
        r@ == encode_holding_spec(*h),
{
    let mut v: Vec<u8> = Vec::new();
    push_u32_le(&mut v, h.0);
    proof {
        assert(v@ =~= encode_holding_spec(*h));
    }
    v
}

/// Decodes a holding from its interchange record.
pub fn decode_holding(b: &Vec<u8>) -> (r: Option<Holding>)
    ensures
        r == decode_holding_spec(b@),
{
    if b.len() == 4 {
        Some(Holding(u32_from_le_exec(b[0], b[1], b[2], b[3])))
    } else {
        None
    }
}

/// The 32-bit word assembled from four little-endian bytes.
fn u32_from_le_exec(b0: u8, b1: u8, b2: u8, b3: u8) -> (r: u32)
    ensures
        r == u32_from_le(b0, b1, b2, b3),
{
    (b0 as u32) | ((b1 as u32) << 8) | ((b2 as u32) << 16) | ((b3 as u32) << 24)
}

/// Decoding an encoded holding reproduces it.
pub proof fn lemma_holding_round_trip(h: Holding)
    ensures
        decode_holding_spec(encode_holding_spec(h)) == Some(h),
{
    lemma_u32_le_round_trip(h.0);
}

/// The interchange record of a card: the rank's four little-endian bytes,
/// then the suit's code.
pub open spec fn encode_card_spec(c: Card) -> Seq<u8> {
    u32_le_bytes(c.0).push(suit_code_spec(c.1))
}

/// The card a record stands for, if any.
pub open spec fn decode_card_spec(b: Seq<u8>) -> Option<Card> {
    if b.len() == 5 {
        match suit_from_code_spec(b[4]) {
            Some(s) => Some(Card(u32_from_le(b[0], b[1], b[2], b[3]), s)),
            None => None,
        }
    } else {
        None
    }
}

/// Encodes a card into its interchange record.
pub fn encode_card(c: &Card) -> (r: Vec<u8>)
    ensures
        r@ == encode_card_spec(*c),
{
    let mut v: Vec<u8> = Vec::new();
    push_u32_le(&mut v, c.0);
    v.push(suit_code(c.1));
    proof {
        assert(v@ =~= encode_card_spec(*c));
    }
    v
}

/// Decodes a card from its interchange record.
pub fn decode_card(b: &Vec<u8>) -> (r: Option<Card>)
    ensures
        r == decode_card_spec(b@),
{
    if b.len() == 5 {
        match suit_from_code(b[4]) {
            Some(s) => Some(Card(u32_from_le_exec(b[0], b[1], b[2], b[3]), s)),
            None => None,
        }
    } else {
        None
    }
}

/// Decoding an encoded card reproduces it.
pub proof fn lemma_card_round_trip(c: Card)
    ensures
        decode_card_spec(encode_card_spec(c)) == Some(c),
{
    lemma_u32_le_round_trip(c.0);
    lemma_suit_round_trip(c.1);
}

/// The interchange record of a contract: level, strain code, doubling code.
pub open spec fn encode_contract_spec(c: Contract) -> Seq<u8> {
    seq![c.level, strain_code_point_spec(c.strain), doubling_code_spec(c.doubling)]
}

/// The contract a record stands for, if any.
pub open spec fn decode_contract_spec(b: Seq<u8>) -> Option<Contract> {
    if b.len() == 3 {
        match (strain_from_code_spec(b[1]), doubling_from_code_spec(b[2])) {
            (Some(s), Some(d)) => Some(Contract { level: b[0], strain: s, doubling: d }),
            _ => None,
        }
    } else {
        None
    }
}

/// Encodes a contract into its interchange record.
pub fn encode_contract(c: &Contract) -> (r: Vec<u8>)
    ensures
        r@ == encode_contract_spec(*c),
{
    let mut v: Vec<u8> = Vec::new();
    v.push(c.level);
    v.push(strain_code_point(c.strain));
    v.push(doubling_code(c.doubling));
    proof {
        assert(v@ =~= encode_contract_spec(*c));
    }
    v
}

/// Decodes a contract from its interchange record.
pub fn decode_contract(b: &Vec<u8>) -> (r: Option<Contract>)
    ensures
        r == decode_contract_spec(b@),
{
    if b.len() == 3 {
        match (strain_from_code(b[1]), doubling_from_code(b[2])) {
            (Some(s), Some(d)) => Some(Contract { level: b[0], strain: s, doubling: d }),
            _ => None,
        }
    } else {
        None
    }
}

/// Decoding an encoded contract reproduces it.
pub proof fn lemma_contract_round_trip(c: Contract)
    ensures
        decode_contract_spec(encode_contract_spec(c)) == Some(c),
{
    lemma_strain_round_trip(c.strain);
    lemma_doubling_round_trip(c.doubling);
}

/// The interchange record of a call: a variant tag, then for a bid its level
/// and strain code, zero padding otherwise.
pub open spec fn encode_call_spec(c: Call) -> Seq<u8> {
    match c {
        Call::Pass => seq![0u8, 0u8, 0u8],
        Call::Bid(level, strain) => seq![1u8, level, strain_code_point_spec(strain)],
        Call::Double => seq![2u8, 0u8, 0u8],
        Call::Redouble => seq![3u8, 0u8, 0u8],
    }
}

/// The call a record stands for, if any.
pub open spec fn decode_call_spec(b: Seq<u8>) -> Option<Call> {
    if b.len() == 3 {
        if b[0] == 0 && b[1] == 0 && b[2] == 0 {
            Some(Call::Pass)
        } else if b[0] == 1 {
            match strain_from_code_spec(b[2]) {
                Some(s) => Some(Call::Bid(b[1], s)),
                None => None,
            }
        } else if b[0] == 2 && b[1] == 0 && b[2] == 0 {
            Some(Call::Double)
        } else if b[0] == 3 && b[1] == 0 && b[2] == 0 {
            Some(Call::Redouble)
        } else {
            None
        }
    } else {
        None
    }
}

/// Encodes a call into its interchange record.
pub fn encode_call(c: &Call) -> (r: Vec<u8>)
    ensures
        r@ == encode_call_spec(*c),
{
    let mut v: Vec<u8> = Vec::new();
    match c {
        Call::Pass => {
            v.push(0);
            v.push(0);
            v.push(0);
        },
        Call::Bid(level, strain) => {
            v.push(1);
            v.push(*level);
            v.push(strain_code_point(*strain));
        },
        Call::Double => {
            v.push(2);
            v.push(0);
            v.push(0);
        },
        Call::Redouble => {
            v.push(3);
            v.push(0);
            v.push(0);
        },
    }
    proof {
        assert(v@ =~= encode_call_spec(*c));
    }
    v
}

/// Decodes a call from its interchange record.
pub fn decode_call(b: &Vec<u8>) -> (r: Option<Call>)
    ensures
        r == decode_call_spec(b@),
{
    if b.len() == 3 {
        let t = b[0];
        let x = b[1];
        let y = b[2];
        if t == 0 && x == 0 && y == 0 {
            Some(Call::Pass)
        } else if t == 1 {
            match strain_from_code(y) {
                Some(s) => Some(Call::Bid(x, s)),
                None => None,
            }
        } else if t == 2 && x == 0 && y == 0 {
            Some(Call::Double)
        } else if t == 3 && x == 0 && y == 0 {
            Some(Call::Redouble)
        } else {
            None
        }
    } else {
        None
    }
}

/// Decoding an encoded call reproduces it.
pub proof fn lemma_call_round_trip(c: Call)
    ensures
        decode_call_spec(encode_call_spec(c)) == Some(c),
{
    match c {
        Call::Bid(_, strain) => {
            lemma_strain_round_trip(strain);
        },
        _ => {},
    }
}

} // verus!
