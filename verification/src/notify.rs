use vstd::prelude::*;
use crate::card::{Card, valid_card};

verus! {

/// Sent to each player when a match is made: the player's own hand, and the
/// opponent's name and current rating.
pub struct GameStartNotification {
    pub id: String,
    pub cards: Vec<Card>,
    pub opponent_elo: i32,
    pub opponent_name: String,
}

/// Announces the current turn-holder to both players.
pub struct GameTurnNotification {
    pub id: String,
    pub turn: String,
}

/// Sent to the non-acting player after a reveal.  Carries the revealed
/// card's stored value and suit when a bet is now pending; value 0 and an
/// empty suit when nothing is pending.
pub struct TurnedCardNotif {
    pub id: String,
    pub value: i32,
    pub symbol: String,
}

/// Announces the winner to both players when a game ends.
pub struct GameEndNotification {
    pub id: String,
    pub winner: String,
}

impl GameStartNotification {
    /// Build a `gamestart` message.
    pub fn new(cards: Vec<Card>, opponent_elo: i32, opponent_name: String) -> (r: Self)
        ensures
            r.id@ == "gamestart"@,
            r.cards@ == cards@,
            r.opponent_elo == opponent_elo,
            r.opponent_name@ == opponent_name@,
    {
        GameStartNotification { id: "gamestart".to_owned(), cards, opponent_elo, opponent_name }
    }
}

impl GameTurnNotification {
    /// Build a `turnnotif` message naming the turn-holder.
    pub fn new(turn: String) -> (r: Self)
        ensures
            r.id@ == "turnnotif"@,
            r.turn@ == turn@,
    {
        GameTurnNotification { id: "turnnotif".to_owned(), turn }
    }
}

impl TurnedCardNotif {
    /// Build a `turnedcardnotif` message from the pending reveal left by a
    /// turn: the revealed card's stored value and lowercase suit name, or
    /// value 0 with an empty suit when no bet is pending.
    pub fn new(reveal: Option<Card>) -> (r: Self)
        requires
            reveal matches Some(c) ==> valid_card(c),
        ensures
            r.id@ == "turnedcardnotif"@,
            match reveal {
                Some(c) => r.value == c.value as i32 && c.symbol.wire_name_is(r.symbol@),
                None => r.value == 0 && r.symbol@ == Seq::<char>::empty(),
            },
    {
        match reveal {
            Some(c) => TurnedCardNotif {
                id: "turnedcardnotif".to_owned(),
                value: c.value as i32,
                symbol: c.symbol.name(),
            },
            None => TurnedCardNotif {
                id: "turnedcardnotif".to_owned(),
                value: 0,
                symbol: String::new(),
            },
        }
    }
}

impl GameEndNotification {
    /// Build a `gameend` message naming the winner.
    pub fn new(winner: String) -> (r: Self)
        ensures
            r.id@ == "gameend"@,
            r.winner@ == winner@,
    {
        GameEndNotification { id: "gameend".to_owned(), winner }
    }
}

} // verus!
