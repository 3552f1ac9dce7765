//! Domain vocabulary for the card game of contract bridge: the four suits and
//! the bidding strains with their ranking, the four seats with their rotation
//! and partnership structure, a compact bitset of held card ranks, exhaustive
//! per-key containers, and small value types for cards, calls and contracts.
mod codec;
mod contract;
mod holding;
mod per_seat;
mod per_side;
mod per_strain;
mod per_suit;
mod seats;
mod suits;

pub use codec::decode_call;
pub use codec::decode_card;
pub use codec::decode_contract;
pub use codec::decode_holding;
pub use codec::doubling_code;
pub use codec::doubling_from_code;
pub use codec::encode_call;
pub use codec::encode_card;
pub use codec::encode_contract;
pub use codec::encode_holding;
pub use codec::lemma_call_round_trip;
pub use codec::lemma_card_round_trip;
pub use codec::lemma_contract_round_trip;
pub use codec::lemma_doubling_round_trip;
pub use codec::lemma_holding_round_trip;
pub use codec::lemma_seat_relation_round_trip;
pub use codec::lemma_seat_round_trip;
pub use codec::lemma_side_round_trip;
pub use codec::lemma_strain_round_trip;
pub use codec::lemma_suit_round_trip;
pub use codec::seat_code;
pub use codec::seat_from_code;
pub use codec::seat_relation_code;
pub use codec::seat_relation_from_code;
pub use codec::side_code;
pub use codec::side_from_code;
pub use codec::strain_code_point;
pub use codec::strain_from_code;
pub use codec::suit_code;
pub use codec::suit_from_code;
pub use contract::decimal_rep;
pub use contract::digit_char;
pub use contract::doubling_suffix;
pub use contract::strain_code;
pub use contract::Call;
pub use contract::Card;
pub use contract::Contract;
pub use contract::Doubling;
pub use holding::lemma_fold_yields_sorted_dedup;
pub use holding::lemma_ranks_sorted_complete;
pub use holding::Holding;
pub use holding::HoldingIterator;
pub use per_seat::PerSeat;
pub use per_seat::PerSeatIter;
pub use per_side::PerSide;
pub use per_strain::PerStrain;
pub use per_suit::PerSuit;
pub use per_suit::PerSuitIter;
pub use seats::lemma_relation_partition;
pub use seats::lemma_seat_cycle;
pub use seats::lemma_side_structure;
pub use seats::Seat;
pub use seats::SeatRelation;
pub use seats::Side;
pub use suits::lemma_strain_order;
pub use suits::lemma_suit_order_total;
pub use suits::Strain;
pub use suits::Suit;
