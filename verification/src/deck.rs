use vstd::prelude::*;
use rand::seq::SliceRandom;
use rand::SeedableRng;
use crate::card::{Card, Symbol, valid_card};

verus! {

/// The suit block a deck index falls in: the deck is built suit by suit in
/// the order clubs, diamonds, hearts, spades.
pub open spec fn suit_of_block(b: int) -> Symbol {
    if b == 0 {
        Symbol::Clubs
    } else if b == 1 {
        Symbol::Diamonds
    } else if b == 2 {
        Symbol::Hearts
    } else {
        Symbol::Spades
    }
}

/// The card at position `i` of the freshly built (unshuffled) deck.
pub open spec fn deck_card(i: int) -> Card {
    Card { value: (i % 13 + 1) as u32, symbol: suit_of_block(i / 13) }
}

/// The canonical 52-card deck: each of the 4 suits crossed with ranks 1..=13,
/// each combination exactly once.
pub open spec fn deck_seq() -> Seq<Card> {
    Seq::new(52, |i: int| deck_card(i))
}

/// The suits in deck-construction order, as executable code.
fn suit_of_block_exec(b: usize) -> (s: Symbol)
    ensures
        s == suit_of_block(b as int),
{
    if b == 0 {
        Symbol::Clubs
    } else if b == 1 {
        Symbol::Diamonds
    } else if b == 2 {
        Symbol::Hearts
    } else {
        Symbol::Spades
    }
}

/// Build the full 52-card deck, suit by suit, rank 1 through 13 within each
/// suit.
pub fn full_deck() -> (cards: Vec<Card>)
    ensures
        cards@ == deck_seq(),
{
    let mut cards: Vec<Card> = Vec::with_capacity(52);
    let mut b: usize = 0;
    while b < 4
        invariant
            b <= 4,
            cards@.len() == 13 * b,
            forall|j: int| 0 <= j < cards@.len() ==> cards@[j] == deck_card(j),
        decreases 4 - b,
    {
        let symbol = suit_of_block_exec(b);
        let mut v: u32 = 1;
        while v <= 13
            invariant
                b < 4,
                1 <= v <= 14,
                symbol == suit_of_block(b as int),
                cards@.len() == 13 * b + (v - 1),
                forall|j: int| 0 <= j < cards@.len() ==> cards@[j] == deck_card(j),
            decreases 14 - v,
        {
            let ghost n = cards@.len() as int;
            cards.push(Card { value: v, symbol });
            proof {
                assert(n / 13 == b as int && n % 13 == v - 1) by (nonlinear_arith)
                    requires
                        n == 13 * (b as int) + (v - 1),
                        0 <= b < 4,
                        1 <= v <= 13,
                ;
            }
            v = v + 1;
        }
        b = b + 1;
    }
    proof {
        assert(cards@ =~= deck_seq());
    }
    cards
}

/// Every card of the canonical deck is a valid card, and no card appears
/// twice in it.
pub proof fn lemma_deck_seq_distinct()
    ensures
        deck_seq().no_duplicates(),
        forall|i: int| 0 <= i < 52 ==> valid_card(#[trigger] deck_seq()[i]),
{
    assert forall|i: int, j: int|
        0 <= i < 52 && 0 <= j < 52 && i != j implies deck_seq()[i] != deck_seq()[j] by {
        assert(13 * (i / 13) + i % 13 == i) by (nonlinear_arith);
        assert(13 * (j / 13) + j % 13 == j) by (nonlinear_arith);
    }
}

/// Relies on rand's `SliceRandom::shuffle`: a Fisher-Yates shuffle that
/// rearranges the slice in place by swaps, so the multiset of elements is
/// unchanged.  The resulting order depends on the thread-local generator.
#[verifier::external_body]
pub fn shuffle_cards(cards: &mut Vec<Card>)
    ensures
        final(cards)@.to_multiset() == old(cards)@.to_multiset(),
        final(cards)@.len() == old(cards)@.len(),
{
    let mut rng = rand::thread_rng();
    cards.shuffle(&mut rng);
}

/// Relies on rand's `SliceRandom::shuffle` driven by `StdRng::seed_from_u64`:
/// the same in-place permutation by swaps, but drawn from a generator fully
/// determined by `seed`, so repeated calls with equal inputs give equal
/// output.  Only the multiset-preservation is assumed here.
#[verifier::external_body]
pub fn shuffle_cards_seeded(cards: &mut Vec<Card>, seed: u64)
    ensures
        final(cards)@.to_multiset() == old(cards)@.to_multiset(),
        final(cards)@.len() == old(cards)@.len(),
{
    let mut rng = rand::rngs::StdRng::seed_from_u64(seed);
    cards.shuffle(&mut rng);
}

/// Relies on rand's `Standard` distribution for `bool`: an unbiased coin
/// flip.  Nothing is assumed of the outcome.
#[verifier::external_body]
pub fn coin_flip() -> bool {
    rand::random::<bool>()
}

/// Split a shuffled 52-card deck into two 26-card hands by alternating
/// assignment: even positions go to the first hand, odd positions to the
/// second.  Together the two hands hold exactly the cards of the input.
pub fn deal(cards: &Vec<Card>) -> (hands: (Vec<Card>, Vec<Card>))
    requires
        cards@.len() == 52,
    ensures
        hands.0@.len() == 26,
        hands.1@.len() == 26,
        forall|i: int| 0 <= i < 26 ==> hands.0@[i] == cards@[2 * i],
        forall|i: int| 0 <= i < 26 ==> hands.1@[i] == cards@[2 * i + 1],
        hands.0@.to_multiset().add(hands.1@.to_multiset()) == cards@.to_multiset(),
{
    broadcast use vstd::seq_lib::group_to_multiset_ensures;
    broadcast use vstd::multiset::group_multiset_axioms;

    let mut a: Vec<Card> = Vec::with_capacity(26);
    let mut b: Vec<Card> = Vec::with_capacity(26);
    let mut i: usize = 0;
    while i < 26
        invariant
            cards@.len() == 52,
            i <= 26,
            a@.len() == i,
            b@.len() == i,
            forall|j: int| 0 <= j < i ==> a@[j] == cards@[2 * j],
            forall|j: int| 0 <= j < i ==> b@[j] == cards@[2 * j + 1],
            a@.to_multiset().add(b@.to_multiset()) == cards@.take(2 * i).to_multiset(),
        decreases 26 - i,
    {
        let ghost a0 = a@;
        let ghost b0 = b@;
        let ghost k = 2 * i as int;
        a.push(cards[2 * i]);
        b.push(cards[2 * i + 1]);
        proof {
            assert(cards@.take(k + 1) =~= cards@.take(k).push(cards@[k]));
            assert(cards@.take(k + 2) =~= cards@.take(k + 1).push(cards@[k + 1]));
            assert(a@ == a0.push(cards@[k]));
            assert(b@ == b0.push(cards@[k + 1]));
            vstd::seq_lib::to_multiset_build::<Card>(a0, cards@[k]);
            vstd::seq_lib::to_multiset_build::<Card>(b0, cards@[k + 1]);
            vstd::seq_lib::to_multiset_build::<Card>(cards@.take(k), cards@[k]);
            vstd::seq_lib::to_multiset_build::<Card>(cards@.take(k + 1), cards@[k + 1]);
            assert(cards@.take(k + 1).to_multiset() =~= cards@.take(k).to_multiset().insert(
                cards@[k],
            ));
            assert(cards@.take(k + 2).to_multiset() =~= cards@.take(k + 1).to_multiset().insert(
                cards@[k + 1],
            ));
            assert(a@.to_multiset().add(b@.to_multiset()) =~= cards@.take(k + 2).to_multiset());
        }
        i = i + 1;
    }
    proof {
        assert(cards@.take(52) =~= cards@);
    }
    (a, b)
}

/// For any deal of any reordering of the full deck, the two hands are
/// disjoint, each holds 26 distinct cards, and together they hold exactly
/// the 52 cards of the deck.
pub proof fn lemma_deal_partitions_deck(shuffled: Seq<Card>, a: Seq<Card>, b: Seq<Card>)
    requires
        shuffled.to_multiset() == deck_seq().to_multiset(),
        a.to_multiset().add(b.to_multiset()) == shuffled.to_multiset(),
    ensures
        forall|c: Card| !(a.contains(c) && b.contains(c)),
        a.no_duplicates(),
        b.no_duplicates(),
        forall|c: Card| a.contains(c) || b.contains(c) <==> deck_seq().contains(c),
        forall|c: Card| a.contains(c) ==> valid_card(c),
        forall|c: Card| b.contains(c) ==> valid_card(c),
{
    broadcast use vstd::seq_lib::group_to_multiset_ensures;
    broadcast use vstd::multiset::group_multiset_axioms;

    lemma_deck_seq_distinct();
    deck_seq().lemma_multiset_has_no_duplicates();
    assert forall|c: Card| a.to_multiset().contains(c) implies a.to_multiset().count(c) == 1 by {
        assert(deck_seq().to_multiset().count(c) >= a.to_multiset().count(c));
    }
    assert forall|c: Card| b.to_multiset().contains(c) implies b.to_multiset().count(c) == 1 by {
        assert(deck_seq().to_multiset().count(c) >= b.to_multiset().count(c));
    }
    a.lemma_multiset_has_no_duplicates_conv();
    b.lemma_multiset_has_no_duplicates_conv();
    assert forall|c: Card| !(a.contains(c) && b.contains(c)) by {
        if a.contains(c) && b.contains(c) {
            assert(deck_seq().to_multiset().count(c) >= 2);
        }
    }
    assert forall|c: Card| a.contains(c) || b.contains(c) <==> deck_seq().contains(c) by {
        assert(a.contains(c) <==> a.to_multiset().count(c) > 0);
        assert(b.contains(c) <==> b.to_multiset().count(c) > 0);
        assert(deck_seq().contains(c) <==> deck_seq().to_multiset().count(c) > 0);
        assert(deck_seq().to_multiset().count(c) == a.to_multiset().count(c)
            + b.to_multiset().count(c));
    }
    lemma_deck_seq_distinct();
    assert forall|c: Card| a.contains(c) implies valid_card(c) by {
        assert(deck_seq().contains(c));
        let i = choose|i: int| 0 <= i < deck_seq().len() && deck_seq()[i] == c;
        assert(valid_card(deck_seq()[i]));
    }
    assert forall|c: Card| b.contains(c) implies valid_card(c) by {
        assert(deck_seq().contains(c));
        let i = choose|i: int| 0 <= i < deck_seq().len() && deck_seq()[i] == c;
        assert(valid_card(deck_seq()[i]));
    }
}

} // verus!
