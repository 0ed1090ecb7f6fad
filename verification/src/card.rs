use vstd::prelude::*;

verus! {

/// One of the four French suits.
#[derive(Clone, Copy, Debug, PartialEq, Eq, Structural)]
pub enum Symbol {
    Clubs,
    Spades,
    Diamonds,
    Hearts,
}

impl Symbol {
    /// Is `s` the lowercase wire name of this suit?
    pub open spec fn wire_name_is(self, s: Seq<char>) -> bool {
        match self {
            Symbol::Clubs => s == "clubs"@,
            Symbol::Spades => s == "spades"@,
            Symbol::Diamonds => s == "diamonds"@,
            Symbol::Hearts => s == "hearts"@,
        }
    }

    /// The lowercase wire name of the suit.
    pub fn name(&self) -> (r: String)
        ensures
            self.wire_name_is(r@),
    {
        match self {
            Symbol::Clubs => "clubs".to_owned(),
            Symbol::Spades => "spades".to_owned(),
            Symbol::Diamonds => "diamonds".to_owned(),
            Symbol::Hearts => "hearts".to_owned(),
        }
    }
}

/// A playing card.  `value` is the stored rank, 1 (ace) through 13 (king);
/// the stored value is never changed by the engine.
#[derive(Clone, Copy, Debug, PartialEq, Eq, Structural)]
pub struct Card {
    pub value: u32,
    pub symbol: Symbol,
}

/// A card the deck can contain: rank 1 through 13.
pub open spec fn valid_card(c: Card) -> bool {
    1 <= c.value <= 13
}

impl Card {
    /// The rank used for the single comparison step of a bet: an ace (stored
    /// as 1) outranks a king, so it is normalized to 14.  Every other rank
    /// compares as stored.
    pub open spec fn comparison_rank(self) -> u32 {
        if self.value == 1 {
            14u32
        } else {
            self.value
        }
    }

    /// Raise an ace to rank 14 in place.  Used only on throwaway copies right
    /// before a comparison; a card stored in a hand or as a pending reveal
    /// keeps value 1.
    pub fn normalize(&mut self)
        ensures
            final(self).value == old(self).comparison_rank(),
            final(self).symbol == old(self).symbol,
    {
        if self.value == 1 {
            self.value = 14;
        }
    }
}

} // verus!
