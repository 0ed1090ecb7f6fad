use drinkard::{
    Card, GameState, MatchOutcome, State, Symbol, TurnOutcome, TurnReply, TurnedCardNotif,
    RATING_DELTA,
};

fn card(value: u32, symbol: Symbol) -> Card {
    Card { value, symbol }
}

fn two_player_state(
    turn: &str,
    alice_cards: Vec<Card>,
    bob_cards: Vec<Card>,
    pending: Option<Card>,
) -> State {
    State {
        games: vec![GameState {
            p1: String::from("alice"),
            p2: String::from("bob"),
            turn: String::from(turn),
            p1_cards: alice_cards,
            p2_cards: bob_cards,
            turned_card: pending,
        }],
        pending_match: None,
    }
}

#[test]
fn matchmaking_pairs_first_two_arrivals() {
    let mut state = State::new();
    let alice = String::from("alice");
    let bob = String::from("bob");
    let carol = String::from("carol");

    assert!(matches!(state.request_match(&alice), MatchOutcome::Waiting));
    assert_eq!(state.pending_match.as_deref(), Some("alice"));

    match state.request_match(&bob) {
        MatchOutcome::Paired { opponent, pending_hand, requester_hand, turn } => {
            assert_eq!(opponent, "alice");
            assert_eq!(pending_hand.len(), 26);
            assert_eq!(requester_hand.len(), 26);
            assert!(turn == "alice" || turn == "bob");
            for c in &pending_hand {
                assert!(!requester_hand.contains(c));
            }
        }
        _ => panic!("second arrival must be paired"),
    }
    assert!(state.pending_match.is_none());
    assert_eq!(state.games.len(), 1);
    assert_eq!(state.games[0].p1, "alice");
    assert_eq!(state.games[0].p2, "bob");

    assert!(matches!(state.request_match(&carol), MatchOutcome::Waiting));
    assert_eq!(state.pending_match.as_deref(), Some("carol"));
    assert_eq!(state.games.len(), 1);

    // Lookup finds the session from either seat, and nothing for carol.
    assert!(state.get_game(&alice).is_some());
    assert!(state.get_game(&bob).is_some());
    assert!(state.get_game(&carol).is_none());
}

#[test]
fn matchmaking_ignores_players_already_active() {
    let mut state = State::new();
    let alice = String::from("alice");
    let bob = String::from("bob");

    assert!(matches!(state.request_match(&alice), MatchOutcome::Waiting));
    assert!(matches!(state.request_match(&alice), MatchOutcome::AlreadyActive));
    assert!(matches!(state.request_match(&bob), MatchOutcome::Paired { .. }));
    assert!(matches!(state.request_match(&alice), MatchOutcome::AlreadyActive));
    assert!(matches!(state.request_match(&bob), MatchOutcome::AlreadyActive));
}

#[test]
fn reveal_without_suit_match_keeps_turn() {
    // alice turns the 7 of hearts; bob holds no heart.
    let mut state = two_player_state(
        "alice",
        vec![card(7, Symbol::Hearts), card(2, Symbol::Clubs)],
        vec![card(3, Symbol::Spades)],
        None,
    );
    let alice = String::from("alice");
    match state.turn_card(&alice, card(7, Symbol::Hearts)) {
        TurnOutcome::Continue { opponent, turn, reveal } => {
            assert_eq!(opponent, "bob");
            assert_eq!(turn, "alice");
            assert_eq!(reveal, None);
            let notif = TurnedCardNotif::new(reveal);
            assert_eq!(notif.value, 0);
            assert_eq!(notif.symbol, "");
        }
        _ => panic!("game must continue with alice's turn"),
    }
    assert_eq!(state.games[0].turn, "alice");
    assert_eq!(state.games[0].turned_card, None);
    assert_eq!(state.games[0].p1_cards, vec![card(2, Symbol::Clubs)]);
}

#[test]
fn reveal_with_suit_match_passes_turn_and_records_bet() {
    // alice turns the 7 of hearts; bob holds the 3 of hearts.
    let mut state = two_player_state(
        "alice",
        vec![card(7, Symbol::Hearts), card(2, Symbol::Clubs)],
        vec![card(3, Symbol::Hearts), card(9, Symbol::Spades)],
        None,
    );
    let alice = String::from("alice");
    let bob = String::from("bob");
    match state.turn_card(&alice, card(7, Symbol::Hearts)) {
        TurnOutcome::Continue { opponent: _, turn, reveal } => {
            assert_eq!(turn, "bob");
            assert_eq!(reveal, Some(card(7, Symbol::Hearts)));
            let notif = TurnedCardNotif::new(reveal);
            assert_eq!(notif.value, 7);
            assert_eq!(notif.symbol, "hearts");
        }
        _ => panic!("game must continue with bob forced to respond"),
    }
    assert_eq!(state.games[0].turned_card, Some(card(7, Symbol::Hearts)));

    // bob responds with the 3 of hearts: 3 < 7, so the turn returns to the
    // original revealer and the bet is cleared.
    match state.turn_card(&bob, card(3, Symbol::Hearts)) {
        TurnOutcome::Continue { opponent: _, turn, reveal } => {
            assert_eq!(turn, "alice");
            assert_eq!(reveal, None);
        }
        _ => panic!("game must continue after the response"),
    }
    assert_eq!(state.games[0].turned_card, None);
}

#[test]
fn bet_response_with_higher_card_keeps_turn() {
    // bob must answer a pending 7 of hearts and plays the king of hearts.
    let mut state = two_player_state(
        "bob",
        vec![card(2, Symbol::Clubs)],
        vec![card(13, Symbol::Hearts), card(9, Symbol::Spades)],
        Some(card(7, Symbol::Hearts)),
    );
    let bob = String::from("bob");
    match state.turn_card(&bob, card(13, Symbol::Hearts)) {
        TurnOutcome::Continue { opponent: _, turn, reveal } => {
            assert_eq!(turn, "bob");
            assert_eq!(reveal, None);
        }
        _ => panic!("game must continue with bob keeping the turn"),
    }
}

#[test]
fn stored_ace_keeps_value_one() {
    // An ace is stored as 1; only the comparison treats it as 14.
    let mut ace = card(1, Symbol::Spades);
    ace.normalize();
    assert_eq!(ace.value, 14);
    let mut king = card(13, Symbol::Spades);
    king.normalize();
    assert_eq!(king.value, 13);

    // alice reveals the ace of hearts; bob holds a heart, so the pending
    // reveal records the ace with its stored value 1.
    let mut state = two_player_state(
        "alice",
        vec![card(1, Symbol::Hearts), card(2, Symbol::Clubs)],
        vec![card(5, Symbol::Hearts), card(9, Symbol::Spades)],
        None,
    );
    let alice = String::from("alice");
    let bob = String::from("bob");
    match state.turn_card(&alice, card(1, Symbol::Hearts)) {
        TurnOutcome::Continue { opponent: _, turn, reveal } => {
            assert_eq!(turn, "bob");
            assert_eq!(reveal, Some(card(1, Symbol::Hearts)));
            let notif = TurnedCardNotif::new(reveal);
            assert_eq!(notif.value, 1);
        }
        _ => panic!("bob must be forced to respond"),
    }
    assert_eq!(state.games[0].turned_card, Some(card(1, Symbol::Hearts)));

    // bob answers with the 5 of hearts: 5 < 14 (ace normalized only here),
    // so the turn returns to alice.
    match state.turn_card(&bob, card(5, Symbol::Hearts)) {
        TurnOutcome::Continue { turn, .. } => assert_eq!(turn, "alice"),
        _ => panic!("game must continue"),
    }
}

#[test]
fn game_ends_when_a_hand_empties() {
    // alice plays her last card; bob holds no heart, so the turn stays with
    // alice, her hand is empty, and she wins.
    let mut state = two_player_state(
        "alice",
        vec![card(7, Symbol::Hearts)],
        vec![card(3, Symbol::Spades)],
        None,
    );
    let alice = String::from("alice");
    match state.turn_card(&alice, card(7, Symbol::Hearts)) {
        TurnOutcome::Ended { winner, loser, reveal } => {
            assert_eq!(winner, "alice");
            assert_eq!(loser, "bob");
            assert_eq!(reveal, None);
        }
        _ => panic!("the game must end"),
    }
    assert!(state.games.is_empty());
    assert_eq!(RATING_DELTA, 15);

    // The session is gone: lookups for either player fail, and later
    // requests from either player are rejected.
    assert!(state.get_game(&alice).is_none());
    assert!(state.get_game(&String::from("bob")).is_none());
    assert!(matches!(
        state.turn_card(&alice, card(3, Symbol::Spades)),
        TurnOutcome::Rejected
    ));
    let bob = String::from("bob");
    assert!(matches!(
        state.turn_card(&bob, card(3, Symbol::Spades)),
        TurnOutcome::Rejected
    ));
}

#[test]
fn game_ends_when_the_second_players_hand_empties() {
    // bob (seated second) plays his last card; alice holds no spade, so the
    // turn stays with bob, whose empty hand ends the game in his favour.
    let mut state = two_player_state(
        "bob",
        vec![card(7, Symbol::Hearts)],
        vec![card(3, Symbol::Spades)],
        None,
    );
    let bob = String::from("bob");
    match state.turn_card(&bob, card(3, Symbol::Spades)) {
        TurnOutcome::Ended { winner, loser, .. } => {
            assert_eq!(winner, "bob");
            assert_eq!(loser, "alice");
        }
        _ => panic!("the game must end when either hand empties"),
    }
    assert!(state.games.is_empty());
}

#[test]
fn game_can_end_with_a_bet_left_pending() {
    // alice reveals her last card and bob holds a matching suit: the turn
    // passes to bob with the bet recorded, and alice's empty hand ends the
    // game at once — bob, the current turn-holder, wins.
    let mut state = two_player_state(
        "alice",
        vec![card(7, Symbol::Hearts)],
        vec![card(3, Symbol::Hearts)],
        None,
    );
    let alice = String::from("alice");
    match state.turn_card(&alice, card(7, Symbol::Hearts)) {
        TurnOutcome::Ended { winner, loser, reveal } => {
            assert_eq!(winner, "bob");
            assert_eq!(loser, "alice");
            assert_eq!(reveal, Some(card(7, Symbol::Hearts)));
        }
        _ => panic!("the game must end when alice's hand empties"),
    }
    assert!(state.games.is_empty());
}

#[test]
fn out_of_turn_and_unowned_reveals_are_ignored() {
    let mut state = two_player_state(
        "alice",
        vec![card(7, Symbol::Hearts)],
        vec![card(3, Symbol::Spades)],
        None,
    );
    let alice = String::from("alice");
    let bob = String::from("bob");
    let carol = String::from("carol");

    // bob does not hold the turn.
    assert!(matches!(
        state.turn_card(&bob, card(3, Symbol::Spades)),
        TurnOutcome::Rejected
    ));
    // alice does not hold the 2 of clubs.
    assert!(matches!(
        state.turn_card(&alice, card(2, Symbol::Clubs)),
        TurnOutcome::Rejected
    ));
    // carol sits in no session.
    assert!(matches!(
        state.turn_card(&carol, card(7, Symbol::Hearts)),
        TurnOutcome::Rejected
    ));
    // Nothing changed.
    assert_eq!(state.games[0].turn, "alice");
    assert_eq!(state.games[0].p1_cards.len(), 1);
    assert_eq!(state.games[0].p2_cards.len(), 1);
}

#[test]
fn a_full_game_plays_to_completion() {
    let mut state = State::new();
    let alice = String::from("alice");
    let bob = String::from("bob");
    assert!(matches!(state.request_match(&alice), MatchOutcome::Waiting));
    assert!(matches!(state.request_match(&bob), MatchOutcome::Paired { .. }));

    // Each accepted reveal removes one card from a hand, so a game lasts at
    // most 52 reveals.  The turn-holder always reveals the first card of
    // their hand; such a request is always accepted.
    let mut moves = 0;
    loop {
        moves += 1;
        assert!(moves <= 52, "a game takes at most 52 accepted reveals");
        let game = &state.games[0];
        let holder = game.turn.clone();
        let hand = if holder == game.p1 { &game.p1_cards } else { &game.p2_cards };
        assert!(!hand.is_empty(), "the turn-holder always has a card left");
        let reveal = hand[0];
        match state.turn_card(&holder, reveal) {
            TurnOutcome::Continue { .. } => {}
            TurnOutcome::Ended { winner, loser, .. } => {
                assert!(winner == "alice" || winner == "bob");
                assert_ne!(winner, loser);
                break;
            }
            TurnOutcome::Rejected => panic!("a turn-holder's held card must be accepted"),
        }
    }
    assert!(state.games.is_empty());
}

#[test]
fn session_reply_variants_match_the_request() {
    let mut game = GameState {
        p1: String::from("alice"),
        p2: String::from("bob"),
        turn: String::from("alice"),
        p1_cards: vec![card(7, Symbol::Hearts), card(2, Symbol::Clubs)],
        p2_cards: vec![card(3, Symbol::Spades)],
        turned_card: None,
    };
    let alice = String::from("alice");
    let bob = String::from("bob");
    assert!(matches!(
        game.apply_turn(&bob, card(3, Symbol::Spades)),
        TurnReply::NotYourTurn
    ));
    assert!(matches!(
        game.apply_turn(&alice, card(9, Symbol::Diamonds)),
        TurnReply::CardNotHeld
    ));
    assert!(matches!(
        game.apply_turn(&alice, card(7, Symbol::Hearts)),
        TurnReply::Played
    ));
}
