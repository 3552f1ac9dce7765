use bridge_core::decode_call;
use bridge_core::decode_card;
use bridge_core::decode_contract;
use bridge_core::decode_holding;
use bridge_core::doubling_code;
use bridge_core::doubling_from_code;
use bridge_core::encode_call;
use bridge_core::encode_card;
use bridge_core::encode_contract;
use bridge_core::encode_holding;
use bridge_core::seat_code;
use bridge_core::seat_from_code;
use bridge_core::seat_relation_code;
use bridge_core::seat_relation_from_code;
use bridge_core::side_code;
use bridge_core::side_from_code;
use bridge_core::strain_code_point;
use bridge_core::strain_from_code;
use bridge_core::suit_code;
use bridge_core::suit_from_code;
use bridge_core::Call;
use bridge_core::Card;
use bridge_core::Contract;
use bridge_core::Doubling;
use bridge_core::Holding;
use bridge_core::PerSeat;
use bridge_core::PerSide;
use bridge_core::PerStrain;
use bridge_core::PerSuit;
use bridge_core::Seat;
use bridge_core::SeatRelation;
use bridge_core::Side;
use bridge_core::Strain;
use bridge_core::Suit;

fn collect_forward(holding: Holding) -> Vec<u32> {
    let mut out = Vec::new();
    let mut it = holding.iter();
    while let Some(rank) = it.next() {
        out.push(rank);
    }
    out
}

fn collect_backward(holding: Holding) -> Vec<u32> {
    let mut out = Vec::new();
    let mut it = holding.iter();
    while let Some(rank) = it.next_back() {
        out.push(rank);
    }
    out
}

#[test]
fn test_holding_iterator() {
    let holding = Holding(0x124);
    let held_cards: Vec<u32> = collect_forward(holding);
    assert_eq!(held_cards, vec![2, 5, 8]);
}

#[test]
fn holding_iterator_backward() {
    let holding = Holding(0x124);
    assert_eq!(collect_backward(holding), vec![8, 5, 2]);
}

#[test]
fn holding_iterator_both_ends() {
    let holding = Holding(0x124);
    let mut it = holding.iter();
    assert_eq!(it.next(), Some(2));
    assert_eq!(it.next_back(), Some(8));
    assert_eq!(it.next(), Some(5));
    assert_eq!(it.next_back(), None);
    assert_eq!(it.next(), None);
}

#[test]
fn holding_iterator_empty() {
    let holding = Holding::new();
    let mut it = holding.iter();
    assert_eq!(it.next(), None);
    let mut it2 = holding.iter();
    assert_eq!(it2.next_back(), None);
}

#[test]
fn holding_iterator_full() {
    let mut holding = Holding::new();
    for rank in 2..=14 {
        holding.add(rank);
    }
    let all: Vec<u32> = (2..=14).collect();
    let mut rev = all.clone();
    rev.reverse();
    assert_eq!(collect_forward(holding), all);
    assert_eq!(collect_backward(holding), rev);
}

#[test]
fn holding_from_ranks_dedupes_and_sorts() {
    let holding = Holding::from_ranks(&vec![5, 2, 14, 5, 2, 9]);
    assert_eq!(collect_forward(holding), vec![2, 5, 9, 14]);
    assert_eq!(holding.count(), 4);
}

#[test]
fn holding_add_remove_contains() {
    let mut holding = Holding::new();
    assert!(!holding.contains(11));
    holding.add(11);
    assert!(holding.contains(11));
    holding.add(11);
    assert_eq!(holding.count(), 1);
    holding.remove(11);
    assert!(!holding.contains(11));
    holding.remove(11);
    assert_eq!(holding.count(), 0);
}

#[test]
fn holding_count_matches_iteration() {
    let samples = [Holding(0x124), Holding::new(), Holding::from_ranks(&vec![2, 14])];
    for holding in samples {
        assert_eq!(holding.count() as usize, collect_forward(holding).len());
    }
}

#[test]
fn seat_relations_of_north() {
    assert_eq!(Seat::North.next(), Seat::East);
    assert_eq!(Seat::North.partner(), Seat::South);
    assert_eq!(Seat::North.lho(), Seat::East);
    assert_eq!(Seat::North.rho(), Seat::West);
}

#[test]
fn seat_cycle_laws() {
    let seats = [Seat::North, Seat::East, Seat::South, Seat::West];
    for s in seats {
        assert_eq!(s.next().next().next().next(), s);
        assert_eq!(s.partner().partner(), s);
        assert_eq!(s.lho(), s.next());
        assert_eq!(s.rho().next(), s);
        assert_eq!(s.next().rho(), s);
    }
}

#[test]
fn seat_relation_classification() {
    let seats = [Seat::North, Seat::East, Seat::South, Seat::West];
    for a in seats {
        for b in seats {
            let expected = if a == b {
                SeatRelation::Me
            } else if a == b.next() {
                SeatRelation::LHO
            } else if a == b.partner() {
                SeatRelation::Partner
            } else {
                SeatRelation::RHO
            };
            assert_eq!(a.relation_to(b), expected);
        }
    }
    assert_eq!(Seat::East.relation_to(Seat::North), SeatRelation::LHO);
    assert_eq!(Seat::South.relation_to(Seat::North), SeatRelation::Partner);
    assert_eq!(Seat::West.relation_to(Seat::North), SeatRelation::RHO);
}

#[test]
fn sides_and_opponents() {
    assert_eq!(Side::NS.opponents(), Side::EW);
    assert_eq!(Side::EW.opponents(), Side::NS);
    assert_eq!(Seat::North.side(), Side::NS);
    assert_eq!(Seat::East.side(), Side::EW);
    assert_eq!(Seat::South.side(), Side::NS);
    assert_eq!(Seat::West.side(), Side::EW);
}

#[test]
fn suit_order_pairwise() {
    let descending = [Suit::Spades, Suit::Hearts, Suit::Diamonds, Suit::Clubs];
    for (i, &a) in descending.iter().enumerate() {
        for (j, &b) in descending.iter().enumerate() {
            let expected = j.cmp(&i);
            assert_eq!(a.cmp(&b), expected);
            assert_eq!(a.partial_cmp(&b), Some(expected));
        }
    }
    assert!(Suit::Spades > Suit::Hearts);
    assert!(Suit::Hearts > Suit::Diamonds);
    assert!(Suit::Diamonds > Suit::Clubs);
    assert_eq!(Suit::Spades.cmp(&Suit::Spades), std::cmp::Ordering::Equal);
}

#[test]
fn strain_order() {
    assert!(Strain::NoTrump > Strain::from(Suit::Spades));
    assert!(Strain::from(Suit::Spades) > Strain::from(Suit::Hearts));
    assert!(Strain::from(Suit::Hearts) > Strain::from(Suit::Diamonds));
    assert!(Strain::from(Suit::Diamonds) > Strain::from(Suit::Clubs));
    assert_eq!(Strain::from(Suit::Hearts), Strain::Suit(Suit::Hearts));
}

#[test]
fn doubling_order() {
    assert!(Doubling::Undoubled < Doubling::Doubled);
    assert!(Doubling::Doubled < Doubling::Redoubled);
    assert!(Doubling::Undoubled < Doubling::Redoubled);
}

#[test]
fn contract_rendering() {
    let four_nt = Contract { level: 4, strain: Strain::NoTrump, doubling: Doubling::Undoubled };
    assert_eq!(four_nt.render(), "4NT");
    let three_spades_doubled =
        Contract { level: 3, strain: Strain::Suit(Suit::Spades), doubling: Doubling::Doubled };
    assert_eq!(three_spades_doubled.render(), "3Sx");
    let seven_clubs_redoubled =
        Contract { level: 7, strain: Strain::Suit(Suit::Clubs), doubling: Doubling::Redoubled };
    assert_eq!(seven_clubs_redoubled.render(), "7Cxx");
    let hearts = Contract { level: 2, strain: Strain::Suit(Suit::Hearts), doubling: Doubling::Undoubled };
    assert_eq!(hearts.render(), "2H");
    let diamonds = Contract { level: 1, strain: Strain::Suit(Suit::Diamonds), doubling: Doubling::Doubled };
    assert_eq!(diamonds.render(), "1Dx");
}

#[test]
fn per_suit_new_and_get() {
    let per = PerSuit::new(7u32);
    for suit in [Suit::Spades, Suit::Hearts, Suit::Diamonds, Suit::Clubs] {
        assert_eq!(*per.get(suit), 7);
    }
}

#[test]
fn per_suit_new_with_and_map() {
    let per = PerSuit::new_with(|| 3u32);
    let doubled = per.map(|x| x * 2);
    for suit in [Suit::Spades, Suit::Hearts, Suit::Diamonds, Suit::Clubs] {
        assert_eq!(*doubled.get(suit), 6);
    }
}

#[test]
fn per_suit_map_with_suit() {
    let per = PerSuit::new(0u32);
    let tagged = per.map_with_suit(|suit, x| (suit, x + 1));
    assert_eq!(*tagged.get(Suit::Hearts), (Suit::Hearts, 1));
    assert_eq!(*tagged.get(Suit::Clubs), (Suit::Clubs, 1));
}

#[test]
fn per_suit_set_and_iter_order() {
    let mut per = PerSuit::new(0u32);
    per.set(Suit::Spades, 1);
    per.set(Suit::Hearts, 2);
    per.set(Suit::Diamonds, 3);
    per.set(Suit::Clubs, 4);
    let mut seen = Vec::new();
    let mut it = per.iter();
    while let Some(v) = it.next() {
        seen.push(*v);
    }
    assert_eq!(seen, vec![1, 2, 3, 4]);
}

#[test]
fn per_suit_sum() {
    let mut per = PerSuit::new(1u32);
    per.set(Suit::Clubs, 10);
    assert_eq!(per.sum(), 13);
}

#[test]
fn per_seat_new_and_map() {
    let per = PerSeat::new(2i32);
    let negated = per.map(|x| -x);
    for seat in [Seat::North, Seat::East, Seat::South, Seat::West] {
        assert_eq!(*negated.get(seat), -2);
    }
}

#[test]
fn per_seat_new_with_map_with_seat_and_iter() {
    let per = PerSeat::new_with(|| 5u32);
    let tagged = per.map_with_seat(|seat, x| (seat, x));
    assert_eq!(*tagged.get(Seat::West), (Seat::West, 5));
    let mut per2 = PerSeat::new(0u32);
    per2.set(Seat::North, 10);
    per2.set(Seat::East, 20);
    per2.set(Seat::South, 30);
    per2.set(Seat::West, 40);
    let mut seen = Vec::new();
    let mut it = per2.iter();
    while let Some(v) = it.next() {
        seen.push(*v);
    }
    assert_eq!(seen, vec![10, 20, 30, 40]);
}

#[test]
fn per_strain_new_get_set() {
    let mut per = PerStrain::new(0u32);
    let strains = [
        Strain::NoTrump,
        Strain::Suit(Suit::Spades),
        Strain::Suit(Suit::Hearts),
        Strain::Suit(Suit::Diamonds),
        Strain::Suit(Suit::Clubs),
    ];
    for strain in strains {
        assert_eq!(*per.get(strain), 0);
    }
    per.set(Strain::NoTrump, 9);
    assert_eq!(*per.get(Strain::NoTrump), 9);
    assert_eq!(*per.get(Strain::Suit(Suit::Spades)), 0);
}

#[test]
fn per_side_new_map_get_set() {
    let mut per = PerSide::new(1u32);
    assert_eq!(*per.get(Side::NS), 1);
    assert_eq!(*per.get(Side::EW), 1);
    per.set(Side::EW, 8);
    let shifted = per.map(|x| x + 100);
    assert_eq!(*shifted.get(Side::NS), 101);
    assert_eq!(*shifted.get(Side::EW), 108);
}

#[test]
fn enum_code_round_trips() {
    for suit in [Suit::Spades, Suit::Hearts, Suit::Diamonds, Suit::Clubs] {
        assert_eq!(suit_from_code(suit_code(suit)), Some(suit));
    }
    for strain in [
        Strain::NoTrump,
        Strain::Suit(Suit::Spades),
        Strain::Suit(Suit::Hearts),
        Strain::Suit(Suit::Diamonds),
        Strain::Suit(Suit::Clubs),
    ] {
        assert_eq!(strain_from_code(strain_code_point(strain)), Some(strain));
    }
    for seat in [Seat::North, Seat::East, Seat::South, Seat::West] {
        assert_eq!(seat_from_code(seat_code(seat)), Some(seat));
    }
    for relation in
        [SeatRelation::Me, SeatRelation::LHO, SeatRelation::Partner, SeatRelation::RHO]
    {
        assert_eq!(seat_relation_from_code(seat_relation_code(relation)), Some(relation));
    }
    for side in [Side::NS, Side::EW] {
        assert_eq!(side_from_code(side_code(side)), Some(side));
    }
    for doubling in [Doubling::Undoubled, Doubling::Doubled, Doubling::Redoubled] {
        assert_eq!(doubling_from_code(doubling_code(doubling)), Some(doubling));
    }
}

#[test]
fn enum_code_rejects_unknown() {
    assert_eq!(suit_from_code(4), None);
    assert_eq!(strain_from_code(5), None);
    assert_eq!(seat_from_code(9), None);
    assert_eq!(seat_relation_from_code(200), None);
    assert_eq!(side_from_code(2), None);
    assert_eq!(doubling_from_code(3), None);
}

#[test]
fn composite_codec_round_trips() {
    let holding = Holding(0x124);
    assert_eq!(decode_holding(&encode_holding(&holding)), Some(holding));
    let card = Card(14, Suit::Spades);
    assert_eq!(decode_card(&encode_card(&card)), Some(card));
    let contract =
        Contract { level: 3, strain: Strain::Suit(Suit::Hearts), doubling: Doubling::Redoubled };
    assert_eq!(decode_contract(&encode_contract(&contract)), Some(contract));
    let calls = [
        Call::Pass,
        Call::Bid(4, Strain::NoTrump),
        Call::Bid(1, Strain::Suit(Suit::Clubs)),
        Call::Double,
        Call::Redouble,
    ];
    for call in calls {
        assert_eq!(decode_call(&encode_call(&call)), Some(call));
    }
}

#[test]
fn composite_codec_rejects_malformed() {
    assert_eq!(decode_holding(&vec![1, 2, 3]), None);
    assert_eq!(decode_card(&vec![0, 0, 0, 0, 9]), None);
    assert_eq!(decode_contract(&vec![1, 9, 0]), None);
    assert_eq!(decode_call(&vec![7, 0, 0]), None);
    assert_eq!(decode_call(&vec![]), None);
}

#[test]
fn holding_encoding_is_little_endian() {
    let holding = Holding(0x124);
    assert_eq!(encode_holding(&holding), vec![0x24, 0x01, 0x00, 0x00]);
}

#[test]
fn contract_encoding_layout() {
    let contract =
        Contract { level: 4, strain: Strain::NoTrump, doubling: Doubling::Undoubled };
    assert_eq!(encode_contract(&contract), vec![4, 0, 0]);
}
