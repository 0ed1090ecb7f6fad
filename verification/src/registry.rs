use vstd::prelude::*;
use crate::card::Card;
use crate::deck::{full_deck, shuffle_cards, deal, coin_flip, deck_seq, lemma_deal_partitions_deck};
use crate::session::{GameState, TurnReply, turn_accepted, turn_played};

verus! {

/// Rating adjustment applied at game end: the winner gains this many points,
/// the loser gives up as many.
pub const RATING_DELTA: i32 = 15;

/// The single source of truth for all live sessions, plus the matchmaker's
/// one pending slot.  The caller serializes access to it; every mutation
/// goes through one of its methods.
pub struct State {
    pub games: Vec<GameState>,
    pub pending_match: Option<String>,
}

/// Two registry values that hold the same sessions and the same pending slot.
pub open spec fn same_state(a: State, b: State) -> bool {
    a.games@ == b.games@ && a.pending_match == b.pending_match
}

impl State {
    /// Does some live session contain participant `p`?
    pub open spec fn has_session_for(self, p: Seq<char>) -> bool {
        exists|i: int| 0 <= i < self.games@.len() && self.games@[i].has_player(p)
    }

    /// The index of the session containing `p`; unique under `wf`.
    pub open spec fn session_index(self, p: Seq<char>) -> int {
        choose|i: int| 0 <= i < self.games@.len() && self.games@[i].has_player(p)
    }

    /// Is `p` the waiting player of the pending slot?
    pub open spec fn is_pending(self, p: Seq<char>) -> bool {
        match self.pending_match {
            Some(w) => w@ == p,
            None => false,
        }
    }

    /// Registry invariant: every session is well-formed, no player sits in
    /// two sessions at once, and the waiting player sits in none.
    pub open spec fn wf(self) -> bool {
        &&& forall|i: int| 0 <= i < self.games@.len() ==> (#[trigger] self.games@[i]).wf()
        &&& forall|i: int, j: int, p: Seq<char>|
            0 <= i < self.games@.len() && 0 <= j < self.games@.len() && i != j
                && #[trigger] self.games@[i].has_player(p) ==> !(#[trigger] self.games@[
                j
            ].has_player(p))
        &&& match self.pending_match {
            Some(w) => forall|i: int|
                0 <= i < self.games@.len() ==> !(#[trigger] self.games@[i]).has_player(w@),
            None => true,
        }
    }

    /// A fresh registry: no sessions, nobody waiting.
    pub fn new() -> (s: Self)
        ensures
            s.wf(),
            s.games@ == Seq::<GameState>::empty(),
            s.pending_match is None,
    {
        let s = State { games: Vec::new(), pending_match: None };
        proof {
            assert(s.games@ =~= Seq::<GameState>::empty());
        }
        s
    }

    /// Look up the session `id` sits in, if any; the player may be seated
    /// first or second.  Absence is a handled outcome, never a failure.
    pub fn get_game(&self, id: &String) -> (r: Option<&GameState>)
        ensures
            match r {
                Some(g) => self.has_session_for(id@) && g.has_player(id@) && self.games@.contains(
                    *g,
                ),
                None => !self.has_session_for(id@),
            },
    {
        match self.find_session(id) {
            Some(i) => {
                let g = &self.games[i];
                proof {
                    assert(self.games@.contains(*g)) by {
                        assert(self.games@[i as int] == *g);
                    }
                }
                Some(g)
            },
            None => None,
        }
    }

    /// The position of the session `player` sits in, if there is one.
    fn find_session(&self, player: &String) -> (r: Option<usize>)
        ensures
            match r {
                Some(i) => i < self.games@.len() && self.games@[i as int].has_player(player@),
                None => !self.has_session_for(player@),
            },
    {
        let mut i: usize = 0;
        while i < self.games.len()
            invariant
                i <= self.games@.len(),
                forall|j: int| 0 <= j < i ==> !(#[trigger] self.games@[j].has_player(player@)),
            decreases self.games@.len() - i,
        {
            let g = &self.games[i];
            if g.p1 == *player || g.p2 == *player {
                return Some(i);
            }
            i = i + 1;
        }
        None
    }
}

/// What the matchmaker did with a `findmatch` request.
pub enum MatchOutcome {
    /// Nobody was waiting: the requester is now the sole pending entry.
    Waiting,
    /// The requester is already waiting or already sits in a session: the
    /// request is ignored, since a player belongs to at most one session.
    AlreadyActive,
    /// The requester was paired with the waiting player: a fresh session was
    /// dealt and entered into the registry.  `pending_hand` belongs to the
    /// formerly waiting player, `requester_hand` to the requester; `turn`
    /// names the coin-flip winner who reveals first.
    Paired {
        opponent: String,
        pending_hand: Vec<Card>,
        requester_hand: Vec<Card>,
        turn: String,
    },
}

/// The matchmaker step that stores `p` as the sole pending entry: nobody was
/// waiting and `p` was in no session; the sessions are untouched.
pub open spec fn match_waiting_post(pre: State, post: State, p: Seq<char>) -> bool {
    &&& pre.pending_match is None
    &&& !pre.has_session_for(p)
    &&& post.pending_match matches Some(w) && w@ == p
    &&& post.games@ == pre.games@
}

/// The matchmaker step that pairs requester `p` with the waiting player: the
/// new session `g` seats the waiting player first and `p` second, carries no
/// pending reveal, gives the turn to one of the two, and deals the two
/// 26-card hands out of the full 52-card deck; `g` is appended to the
/// sessions and the pending slot empties.
pub open spec fn match_paired_post(pre: State, post: State, p: Seq<char>, g: GameState) -> bool {
    &&& pre.pending_match matches Some(w) && w@ == g.p1@
    &&& g.p2@ == p
    &&& g.p1@ != p
    &&& g.turned_card is None
    &&& (g.turn@ == g.p1@ || g.turn@ == g.p2@)
    &&& g.p1_cards@.len() == 26
    &&& g.p2_cards@.len() == 26
    &&& g.p1_cards@.to_multiset().add(g.p2_cards@.to_multiset()) == deck_seq().to_multiset()
    &&& post.pending_match is None
    &&& post.games@ == pre.games@.push(g)
}

/// Copy a hand card by card.
fn copy_hand(hand: &Vec<Card>) -> (r: Vec<Card>)
    ensures
        r@ == hand@,
{
    let mut r: Vec<Card> = Vec::with_capacity(hand.len());
    let mut i: usize = 0;
    while i < hand.len()
        invariant
            i <= hand@.len(),
            r@ == hand@.take(i as int),
        decreases hand@.len() - i,
    {
        r.push(hand[i]);
        proof {
            assert(r@ =~= hand@.take(i + 1));
        }
        i = i + 1;
    }
    proof {
        assert(hand@.take(hand@.len() as int) =~= hand@);
    }
    r
}

impl State {
    /// Handle a `findmatch` request from `player`.
    ///
    /// With nobody waiting, `player` becomes the sole pending entry.  With a
    /// distinct player waiting, the two are paired atomically: a shuffled
    /// deck is dealt 26/26, a coin flip picks the first turn-holder, and the
    /// new session is entered into the registry.  A player who is already
    /// waiting or already in a session is ignored.
    pub fn request_match(&mut self, player: &String) -> (r: MatchOutcome)
        requires
            old(self).wf(),
        ensures
            final(self).wf(),
            r is AlreadyActive <==> (old(self).is_pending(player@) || old(self).has_session_for(
                player@,
            )),
            match r {
                MatchOutcome::AlreadyActive => same_state(*final(self), *old(self)),
                MatchOutcome::Waiting => match_waiting_post(*old(self), *final(self), player@),
                MatchOutcome::Paired { opponent, pending_hand, requester_hand, turn } => {
                    exists|g: GameState|
                        #![auto]
                        {
                            &&& match_paired_post(*old(self), *final(self), player@, g)
                            &&& g.p1@ == opponent@
                            &&& g.p1_cards@ == pending_hand@
                            &&& g.p2_cards@ == requester_hand@
                            &&& g.turn@ == turn@
                        }
                },
            },
    {
        let already_waiting = match &self.pending_match {
            Some(w) => *w == *player,
            None => false,
        };
        if already_waiting {
            return MatchOutcome::AlreadyActive;
        }
        let in_session = self.find_session(player);
        if in_session.is_some() {
            return MatchOutcome::AlreadyActive;
        }

        let waiting = self.pending_match.take();
        match waiting {
            None => {
                self.pending_match = Some(player.clone());
                MatchOutcome::Waiting
            },
            Some(w) => {
                let mut cards = full_deck();
                shuffle_cards(&mut cards);
                let (p1_cards, p2_cards) = deal(&cards);
                let flip = coin_flip();
                let turn = if flip {
                    w.clone()
                } else {
                    player.clone()
                };
                let pending_hand = copy_hand(&p1_cards);
                let requester_hand = copy_hand(&p2_cards);
                let game = GameState {
                    p1: w.clone(),
                    p2: player.clone(),
                    turn: turn.clone(),
                    p1_cards,
                    p2_cards,
                    turned_card: None,
                };
                let ghost g = game;
                proof {
                    lemma_deal_partitions_deck(cards@, g.p1_cards@, g.p2_cards@);
                    assert(g.wf());
                }
                let opponent = w;
                self.games.push(game);
                proof {
                    let n = old(self).games@.len();
                    assert forall|k: int| 0 <= k < self.games@.len() implies (
                    #[trigger] self.games@[k]).wf() by {
                        if k < n {
                            assert(self.games@[k] == old(self).games@[k]);
                        } else {
                            assert(self.games@[k] == g);
                        }
                    }
                    assert forall|k: int, l: int, p: Seq<char>|
                        0 <= k < self.games@.len() && 0 <= l < self.games@.len() && k != l
                            && #[trigger] self.games@[k].has_player(p) implies !(
                    #[trigger] self.games@[l].has_player(p)) by {
                        if k < n && l < n {
                            assert(self.games@[k] == old(self).games@[k]);
                            assert(self.games@[l] == old(self).games@[l]);
                        } else if k == n {
                            assert(self.games@[k] == g);
                            assert(self.games@[l] == old(self).games@[l]);
                            if old(self).games@[l].has_player(p) {
                                assert(p != g.p1@ && p != g.p2@);
                            }
                        } else {
                            assert(self.games@[l] == g);
                            assert(self.games@[k] == old(self).games@[k]);
                            if g.has_player(p) {
                                assert(!old(self).games@[k].has_player(p));
                            }
                        }
                    }
                }
                proof {
                    assert(match_paired_post(*old(self), *self, player@, g) && g.p1@ == opponent@
                        && g.p1_cards@ == pending_hand@ && g.p2_cards@ == requester_hand@
                        && g.turn@ == turn@);
                }
                MatchOutcome::Paired { opponent, pending_hand, requester_hand, turn }
            },
        }
    }
}

/// Matchmaking pairs exactly the first two distinct arrivals: with nobody
/// waiting, the first arrival `a` becomes the sole pending entry; the second
/// arrival `b` is paired with `a` into one new session (with `a` seated
/// first) and the pending slot empties; a third arrival `c` after the
/// pairing becomes the new sole pending entry and the paired session stays
/// as it is.
pub proof fn lemma_matchmaking_pairs_first_two(
    s0: State,
    s1: State,
    s2: State,
    s3: State,
    a: Seq<char>,
    b: Seq<char>,
    c: Seq<char>,
    g: GameState,
)
    requires
        match_waiting_post(s0, s1, a),
        match_paired_post(s1, s2, b, g),
        match_waiting_post(s2, s3, c),
    ensures
        s1.is_pending(a),
        s1.games@ == s0.games@,
        g.p1@ == a && g.p2@ == b && a != b,
        s2.games@ == s0.games@.push(g),
        s2.pending_match is None,
        s3.is_pending(c),
        s3.games@ == s0.games@.push(g),
{
}

/// What the registry decided about a reveal request, and what the caller
/// must send out.
pub enum TurnOutcome {
    /// No session for the player, a request out of turn, or a card the
    /// player does not hold: ignored, nothing changes.
    Rejected,
    /// The game goes on.  `opponent` is the non-acting player, to whom the
    /// pending reveal `reveal` is announced (`None` when nothing is
    /// pending); `turn` is the (possibly unchanged) turn-holder to announce
    /// to both players.
    Continue { opponent: String, turn: String, reveal: Option<Card> },
    /// A hand ran out: the game is over and the session is gone.  The winner
    /// is the final turn-holder.
    Ended { winner: String, loser: String, reveal: Option<Card> },
}

impl State {
    /// Resolve a `turncard` request from `player` revealing `card`.
    ///
    /// When `player` sits in a session and the reveal is accepted there, the
    /// session advances by the turn-resolver transition; if either hand is
    /// then empty the game ends: the final turn-holder wins and the session
    /// leaves the registry, so later lookups for both participants fail.
    /// Everything else is a no-op rejection.
    pub fn turn_card(&mut self, player: &String, card: Card) -> (r: TurnOutcome)
        requires
            old(self).wf(),
        ensures
            final(self).wf(),
            final(self).pending_match == old(self).pending_match,
            !old(self).has_session_for(player@) ==> r is Rejected && same_state(
                *final(self),
                *old(self),
            ),
            old(self).has_session_for(player@) ==> {
                let i = old(self).session_index(player@);
                let pre = old(self).games@[i];
                match r {
                    TurnOutcome::Rejected => same_state(*final(self), *old(self))
                        && !turn_accepted(pre, player@, card),
                    TurnOutcome::Continue { opponent, turn, reveal } => {
                        &&& turn_accepted(pre, player@, card)
                        &&& opponent@ == pre.opponent_of(player@)
                        &&& exists|post: GameState|
                            #![auto]
                            {
                                &&& turn_played(pre, post, player@, card)
                                &&& final(self).games@ == old(self).games@.update(i, post)
                                &&& turn@ == post.turn@
                                &&& reveal == post.turned_card
                                &&& post.p1_cards@.len() > 0
                                &&& post.p2_cards@.len() > 0
                            }
                    },
                    TurnOutcome::Ended { winner, loser, reveal } => {
                        &&& turn_accepted(pre, player@, card)
                        &&& final(self).games@ == old(self).games@.remove(i)
                        &&& !final(self).has_session_for(pre.p1@)
                        &&& !final(self).has_session_for(pre.p2@)
                        &&& exists|post: GameState|
                            #![auto]
                            {
                                &&& turn_played(pre, post, player@, card)
                                &&& (post.p1_cards@.len() == 0 || post.p2_cards@.len() == 0)
                                &&& winner@ == post.turn@
                                &&& loser@ == post.opponent_of(post.turn@)
                                &&& reveal == post.turned_card
                            }
                    },
                }
            },
    {
        let found = self.find_session(player);
        let idx = match found {
            Some(i) => i,
            None => {
                return TurnOutcome::Rejected;
            },
        };
        proof {
            assert(old(self).games@[idx as int].has_player(player@));
            assert forall|j: int|
                0 <= j < old(self).games@.len() && old(self).games@[j].has_player(
                    player@,
                ) implies j == idx as int by {
                if j != idx as int {
                    assert(!old(self).games@[j].has_player(player@));
                }
            }
            assert(old(self).session_index(player@) == idx as int);
        }

        let mut game = self.games.remove(idx);
        let ghost pre = game;
        let reply = game.apply_turn(player, card);
        match reply {
            TurnReply::Played => {},
            _ => {
                self.games.insert(idx, game);
                proof {
                    assert(self.games@ =~= old(self).games@);
                }
                return TurnOutcome::Rejected;
            },
        }
        let ghost post = game;

        let ended = game.p1_cards.is_empty() || game.p2_cards.is_empty();
        let reveal = game.turned_card;
        if ended {
            let winner = game.turn.clone();
            let loser = if game.turn == game.p1 {
                game.p2.clone()
            } else {
                game.p1.clone()
            };
            proof {
                let n = old(self).games@.len();
                let i = idx as int;
                assert forall|k: int| 0 <= k < self.games@.len() implies (#[trigger] self.games@[
                    k
                ]).wf() by {
                    if k < i {
                        assert(self.games@[k] == old(self).games@[k]);
                    } else {
                        assert(self.games@[k] == old(self).games@[k + 1]);
                    }
                }
                assert forall|k: int, l: int, p: Seq<char>|
                    0 <= k < self.games@.len() && 0 <= l < self.games@.len() && k != l
                        && #[trigger] self.games@[k].has_player(p) implies !(
                #[trigger] self.games@[l].has_player(p)) by {
                    let k0 = if k < i {
                        k
                    } else {
                        k + 1
                    };
                    let l0 = if l < i {
                        l
                    } else {
                        l + 1
                    };
                    assert(self.games@[k] == old(self).games@[k0]);
                    assert(self.games@[l] == old(self).games@[l0]);
                }
                assert forall|k: int|
                    0 <= k < self.games@.len() implies !(#[trigger] self.games@[k]).has_player(
                    pre.p1@,
                ) && !(#[trigger] self.games@[k]).has_player(pre.p2@) by {
                    let k0 = if k < i {
                        k
                    } else {
                        k + 1
                    };
                    assert(self.games@[k] == old(self).games@[k0]);
                    assert(old(self).games@[i].has_player(pre.p1@));
                    assert(old(self).games@[i].has_player(pre.p2@));
                }
                match old(self).pending_match {
                    Some(w) => {
                        assert forall|k: int|
                            0 <= k < self.games@.len() implies !(#[trigger] self.games@[
                            k
                        ]).has_player(w@) by {
                            let k0 = if k < i {
                                k
                            } else {
                                k + 1
                            };
                            assert(self.games@[k] == old(self).games@[k0]);
                        }
                    },
                    None => {},
                }
            }
            TurnOutcome::Ended { winner, loser, reveal }
        } else {
            let turn = game.turn.clone();
            let opponent = if *player == game.p1 {
                game.p2.clone()
            } else {
                game.p1.clone()
            };
            self.games.insert(idx, game);
            proof {
                let i = idx as int;
                assert(self.games@ =~= old(self).games@.update(i, post));
                assert forall|k: int| 0 <= k < self.games@.len() implies (#[trigger] self.games@[
                    k
                ]).wf() by {
                    if k != i {
                        assert(self.games@[k] == old(self).games@[k]);
                    }
                }
                assert forall|k: int, l: int, p: Seq<char>|
                    0 <= k < self.games@.len() && 0 <= l < self.games@.len() && k != l
                        && #[trigger] self.games@[k].has_player(p) implies !(
                #[trigger] self.games@[l].has_player(p)) by {
                    assert(post.has_player(p) == pre.has_player(p));
                    assert(self.games@[k] == if k == i {
                        post
                    } else {
                        old(self).games@[k]
                    });
                    assert(self.games@[l] == if l == i {
                        post
                    } else {
                        old(self).games@[l]
                    });
                    if k == i {
                        assert(old(self).games@[i].has_player(p));
                    } else if l == i {
                        if post.has_player(p) {
                            assert(old(self).games@[i].has_player(p));
                        }
                    }
                }
                match old(self).pending_match {
                    Some(w) => {
                        assert forall|k: int|
                            0 <= k < self.games@.len() implies !(#[trigger] self.games@[
                            k
                        ]).has_player(w@) by {
                            if k == i {
                                if post.has_player(w@) {
                                    assert(old(self).games@[i].has_player(w@));
                                }
                            } else {
                                assert(self.games@[k] == old(self).games@[k]);
                            }
                        }
                    },
                    None => {},
                }
            }
            TurnOutcome::Continue { opponent, turn, reveal }
        }
    }
}

} // verus!
