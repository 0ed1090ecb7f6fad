use vstd::prelude::*;
use crate::card::{Card, Symbol, valid_card};

verus! {

/// Does some card of `s` have suit `sym`?
pub open spec fn seq_has_symbol(s: Seq<Card>, sym: Symbol) -> bool {
    exists|i: int| 0 <= i < s.len() && s[i].symbol == sym
}

/// One live session of the two-player game.  `turn` names the player
/// currently allowed to reveal a card; `turned_card` is the pending reveal
/// the other player is forced to answer, if there is one.
pub struct GameState {
    pub p1: String,
    pub p2: String,
    pub turn: String,
    pub p1_cards: Vec<Card>,
    pub p2_cards: Vec<Card>,
    pub turned_card: Option<Card>,
}

impl GameState {
    /// Is `p` one of the two participants?
    pub open spec fn has_player(self, p: Seq<char>) -> bool {
        p == self.p1@ || p == self.p2@
    }

    /// The other participant, seen from `p`.
    pub open spec fn opponent_of(self, p: Seq<char>) -> Seq<char> {
        if p == self.p1@ {
            self.p2@
        } else {
            self.p1@
        }
    }

    /// The hand belonging to participant `p`.
    pub open spec fn hand_of(self, p: Seq<char>) -> Seq<Card> {
        if p == self.p1@ {
            self.p1_cards@
        } else {
            self.p2_cards@
        }
    }

    /// Session invariant: the participants are distinct, the turn-holder is
    /// one of them, each hand holds distinct valid cards (stored ranks 1..13,
    /// an ace stays 1), the hands share no card, and a pending reveal is a
    /// valid card.
    pub open spec fn wf(self) -> bool {
        &&& self.p1@ != self.p2@
        &&& (self.turn@ == self.p1@ || self.turn@ == self.p2@)
        &&& self.p1_cards@.no_duplicates()
        &&& self.p2_cards@.no_duplicates()
        &&& forall|c: Card| #[trigger] self.p1_cards@.contains(c) ==> !self.p2_cards@.contains(c)
        &&& forall|c: Card| #[trigger] self.p1_cards@.contains(c) ==> valid_card(c)
        &&& forall|c: Card| #[trigger] self.p2_cards@.contains(c) ==> valid_card(c)
        &&& match self.turned_card {
            Some(c) => valid_card(c),
            None => true,
        }
    }
}

/// Whether session `pre` accepts a reveal of card `c` by player `p`: it must
/// be `p`'s turn and `c` must lie in `p`'s hand.  Anything else is ignored
/// as a no-op.
pub open spec fn turn_accepted(pre: GameState, p: Seq<char>, c: Card) -> bool {
    pre.turn@ == p && pre.hand_of(p).contains(c)
}

/// The accepted-reveal transition of the turn resolver, relating the session
/// before and after player `p` reveals card `c`:
/// - `c` leaves `p`'s hand (one occurrence, at its position); the opponent's
///   hand and both identities are untouched;
/// - if a reveal `prev` was pending, this reveal answers the bet: the pending
///   reveal is cleared, and the turn ends on the opponent exactly when `c`'s
///   comparison rank (ace counted as 14) is below `prev`'s, otherwise it
///   stays with `p`;
/// - if no reveal was pending: when the opponent holds no card of `c`'s
///   suit, the reveal has no consequence and the turn stays with `p`; when
///   the opponent holds a matching suit, `c` (with its stored rank) becomes
///   the pending reveal and the turn passes to the opponent.
pub open spec fn turn_played(pre: GameState, post: GameState, p: Seq<char>, c: Card) -> bool {
    let opp = pre.opponent_of(p);
    &&& post.p1@ == pre.p1@
    &&& post.p2@ == pre.p2@
    &&& post.hand_of(opp) == pre.hand_of(opp)
    &&& (exists|i: int|
        0 <= i < pre.hand_of(p).len() && pre.hand_of(p)[i] == c && post.hand_of(p)
            == pre.hand_of(p).remove(i))
    &&& match pre.turned_card {
        Some(prev) => {
            &&& post.turned_card is None
            &&& post.turn@ == if c.comparison_rank() < prev.comparison_rank() {
                opp
            } else {
                p
            }
        },
        None => {
            if seq_has_symbol(pre.hand_of(opp), c.symbol) {
                &&& post.turned_card == Some(c)
                &&& post.turn@ == opp
            } else {
                &&& post.turned_card is None
                &&& post.turn@ == p
            }
        },
    }
}

/// How a session answered a reveal request.
pub enum TurnReply {
    /// The request came from a player who does not hold the turn.
    NotYourTurn,
    /// The named card is not in the acting player's hand.
    CardNotHeld,
    /// The reveal was accepted and the session advanced.
    Played,
}

/// Position of the first card of `hand` equal to `card`, if any.
fn find_card(hand: &Vec<Card>, card: Card) -> (r: Option<usize>)
    ensures
        match r {
            Some(i) => i < hand@.len() && hand@[i as int] == card,
            None => !hand@.contains(card),
        },
{
    let mut i: usize = 0;
    while i < hand.len()
        invariant
            i <= hand@.len(),
            forall|j: int| 0 <= j < i ==> hand@[j] != card,
        decreases hand@.len() - i,
    {
        if hand[i].value == card.value && hand[i].symbol == card.symbol {
            return Some(i);
        }
        i = i + 1;
    }
    None
}

/// Does `hand` hold some card of suit `sym`?
fn hand_has_symbol(hand: &Vec<Card>, sym: Symbol) -> (r: bool)
    ensures
        r == seq_has_symbol(hand@, sym),
{
    let mut i: usize = 0;
    while i < hand.len()
        invariant
            i <= hand@.len(),
            forall|j: int| 0 <= j < i ==> hand@[j].symbol != sym,
        decreases hand@.len() - i,
    {
        if hand[i].symbol == sym {
            return true;
        }
        i = i + 1;
    }
    false
}

/// Removing one position from a duplicate-free sequence keeps it
/// duplicate-free, and removes no other value.
proof fn lemma_remove_keeps_distinct(s: Seq<Card>, i: int)
    requires
        0 <= i < s.len(),
        s.no_duplicates(),
    ensures
        s.remove(i).no_duplicates(),
        forall|c: Card| #[trigger] s.remove(i).contains(c) ==> s.contains(c),
{
    s.remove_ensures(i);
    assert forall|c: Card| #[trigger] s.remove(i).contains(c) implies s.contains(c) by {
        let j = choose|j: int| 0 <= j < s.remove(i).len() && s.remove(i)[j] == c;
        if j < i {
            assert(s[j] == c);
        } else {
            assert(s[j + 1] == c);
        }
    }
}

/// Turn alternation law.  After an accepted reveal with no bet pending:
/// when the opponent holds no card of the revealed suit, the turn-holder is
/// unchanged and still nothing is pending; when the opponent holds a
/// matching suit, the turn flips to the opponent and the revealed card is
/// recorded as the pending reveal.
pub proof fn lemma_turn_alternation(pre: GameState, post: GameState, p: Seq<char>, c: Card)
    requires
        pre.wf(),
        turn_accepted(pre, p, c),
        turn_played(pre, post, p, c),
        pre.turned_card is None,
    ensures
        !seq_has_symbol(pre.hand_of(pre.opponent_of(p)), c.symbol) ==> post.turn@ == pre.turn@
            && post.turned_card is None,
        seq_has_symbol(pre.hand_of(pre.opponent_of(p)), c.symbol) ==> post.turn@
            == pre.opponent_of(p) && post.turn@ != pre.turn@ && post.turned_card == Some(c),
{
}

/// Bet resolution law.  An accepted response `c` to the pending reveal `r0`
/// always clears the pending reveal, and the turn ends on the other player
/// exactly when `c`'s comparison rank is below `r0`'s (ace counted as 14);
/// otherwise the responder keeps the turn.
pub proof fn lemma_bet_resolution(
    pre: GameState,
    post: GameState,
    p: Seq<char>,
    c: Card,
    r0: Card,
)
    requires
        pre.wf(),
        turn_accepted(pre, p, c),
        turn_played(pre, post, p, c),
        pre.turned_card == Some(r0),
    ensures
        post.turned_card is None,
        post.turn@ == pre.opponent_of(p) <==> c.comparison_rank() < r0.comparison_rank(),
        c.comparison_rank() >= r0.comparison_rank() ==> post.turn@ == pre.turn@,
{
}

/// Ace normalization touches only the comparison step: whenever an accepted
/// reveal leaves a pending reveal behind, the recorded card is the revealed
/// card with its stored rank (an ace stays 1, never 14), and the acting
/// player's hand keeps only cards it already held, unaltered.
pub proof fn lemma_stored_values_unnormalized(
    pre: GameState,
    post: GameState,
    p: Seq<char>,
    c: Card,
)
    requires
        pre.wf(),
        turn_accepted(pre, p, c),
        turn_played(pre, post, p, c),
    ensures
        post.turned_card is Some ==> post.turned_card == Some(c),
        post.turned_card matches Some(t) ==> t.value == c.value && valid_card(t),
        forall|x: Card| #[trigger] post.hand_of(p).contains(x) ==> pre.hand_of(p).contains(x),
{
    let h = pre.hand_of(p);
    let i = choose|i: int| 0 <= i < h.len() && h[i] == c && post.hand_of(p) == h.remove(i);
    if p == pre.p1@ {
        lemma_remove_keeps_distinct(pre.p1_cards@, i);
    } else {
        lemma_remove_keeps_distinct(pre.p2_cards@, i);
    }
    assert(h.contains(c)) by {
        assert(h[i] == c);
    }
}

impl GameState {
    /// Apply a `turncard` request from `player` revealing `card`.  A request
    /// out of turn, or naming a card the player does not hold, is rejected
    /// and leaves the session untouched; an accepted reveal advances the
    /// session by the turn-resolver transition `turn_played`.
    pub fn apply_turn(&mut self, player: &String, card: Card) -> (r: TurnReply)
        requires
            old(self).wf(),
        ensures
            final(self).wf(),
            r is NotYourTurn <==> old(self).turn@ != player@,
            r is CardNotHeld <==> (old(self).turn@ == player@ && !old(self).hand_of(
                player@,
            ).contains(card)),
            (r is NotYourTurn || r is CardNotHeld) ==> *final(self) == *old(self),
            r is Played <==> turn_accepted(*old(self), player@, card),
            r is Played ==> turn_played(*old(self), *final(self), player@, card),
    {
        if !(self.turn == *player) {
            return TurnReply::NotYourTurn;
        }
        let is_p1 = *player == self.p1;

        let found = if is_p1 {
            find_card(&self.p1_cards, card)
        } else {
            find_card(&self.p2_cards, card)
        };
        let idx = match found {
            Some(i) => i,
            None => {
                return TurnReply::CardNotHeld;
            },
        };

        let ghost pre = *self;
        let turned: Card = if is_p1 {
            self.p1_cards.remove(idx)
        } else {
            self.p2_cards.remove(idx)
        };
        proof {
            assert(player@ == pre.turn@);
            if is_p1 {
                assert(player@ == pre.p1@);
                lemma_remove_keeps_distinct(pre.p1_cards@, idx as int);
                assert(self.p1_cards@ == pre.p1_cards@.remove(idx as int));
                assert(pre.p1_cards@.contains(card)) by {
                    assert(pre.p1_cards@[idx as int] == card);
                }
            } else {
                assert(player@ == pre.p2@);
                lemma_remove_keeps_distinct(pre.p2_cards@, idx as int);
                assert(self.p2_cards@ == pre.p2_cards@.remove(idx as int));
                assert(pre.p2_cards@.contains(card)) by {
                    assert(pre.p2_cards@[idx as int] == card);
                }
            }
            assert(turned == card);
        }

        match self.turned_card {
            Some(prev) => {
                self.turned_card = None;
                let mut mine = turned;
                let mut theirs = prev;
                mine.normalize();
                theirs.normalize();
                if mine.value < theirs.value {
                    if is_p1 {
                        self.turn = self.p2.clone();
                    } else {
                        self.turn = self.p1.clone();
                    }
                }
            },
            None => {
                let opponent_matches = if is_p1 {
                    hand_has_symbol(&self.p2_cards, turned.symbol)
                } else {
                    hand_has_symbol(&self.p1_cards, turned.symbol)
                };
                if opponent_matches {
                    self.turned_card = Some(turned);
                    if is_p1 {
                        self.turn = self.p2.clone();
                    } else {
                        self.turn = self.p1.clone();
                    }
                } else {
                    if is_p1 {
                        self.turn = self.p1.clone();
                    } else {
                        self.turn = self.p2.clone();
                    }
                }
            },
        }
        proof {
            assert(self.p1@ == pre.p1@ && self.p2@ == pre.p2@);
            let i = idx as int;
            let h = pre.hand_of(player@);
            assert(0 <= i < h.len() && h[i] == card && self.hand_of(player@) == h.remove(i));
        }
        TurnReply::Played
    }
}

} // verus!
