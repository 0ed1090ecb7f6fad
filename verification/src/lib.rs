//! In-memory engine for a two-player turn-based card-comparison game.
//!
//! The crate covers the card model (deck construction, dealing, ace
//! normalization), the matchmaker that pairs waiting players, the registry of
//! active sessions, and the turn-resolution state machine.  Transport,
//! persistence and credential storage are collaborators that live outside the
//! library; the engine works on plain values they hand in.

mod auth;
mod card;
mod deck;
mod notify;
mod registry;
mod session;

pub use auth::AuthError;
pub use auth::AuthenticationData;
pub use auth::User;
pub use auth::password_ok;
pub use auth::username_ok;
pub use auth::validate_registration;
pub use card::Card;
pub use card::Symbol;
pub use card::valid_card;
pub use deck::coin_flip;
pub use deck::deal;
pub use deck::deck_card;
pub use deck::deck_seq;
pub use deck::full_deck;
pub use deck::lemma_deal_partitions_deck;
pub use deck::lemma_deck_seq_distinct;
pub use deck::shuffle_cards;
pub use deck::shuffle_cards_seeded;
pub use deck::suit_of_block;
pub use notify::GameEndNotification;
pub use notify::GameStartNotification;
pub use notify::GameTurnNotification;
pub use notify::TurnedCardNotif;
pub use registry::MatchOutcome;
pub use registry::RATING_DELTA;
pub use registry::lemma_matchmaking_pairs_first_two;
pub use registry::match_paired_post;
pub use registry::match_waiting_post;
pub use registry::State;
pub use registry::TurnOutcome;
pub use registry::same_state;
pub use session::GameState;
pub use session::TurnReply;
pub use session::lemma_bet_resolution;
pub use session::lemma_stored_values_unnormalized;
pub use session::lemma_turn_alternation;
pub use session::seq_has_symbol;
pub use session::turn_accepted;
pub use session::turn_played;
