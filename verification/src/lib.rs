//! A verified Texas Hold'em round engine: cards, deck, players, pot
//! accounting, the per-stage betting loop, the stage state machine, and a
//! lookup-table hand evaluator.

pub mod advancement;
pub mod card;
pub mod database;
pub mod deck;
pub mod evaluator;
pub mod game;
pub mod game_loop;
pub mod hand_rank;
pub mod hand;
pub mod player;
pub mod player_driver;
pub mod pot;
pub mod rank;
pub mod scoring;
pub mod stages;
pub mod suit;

pub use advancement::Advancement;
pub use card::Card;
pub use database::DataBase;
pub use deck::Deck;
pub use evaluator::{DummyEvaluator, Evaluator, HandVal, LookupEvaluator};
pub use game::{Game, Stage};
pub use game_loop::{GameLoop, MoveOutcome, StageOutcome};
pub use hand::Hand;
pub use hand_rank::HandRank;
pub use player_driver::{Move, PlayerDriver};
pub use pot::Pot;
pub use rank::Rank;
pub use stages::finished::Finished;
pub use stages::flop::Flop;
pub use stages::pre_flop::PreFlop;
pub use stages::pre_round::{PreRound, SetupError};
pub use stages::river::River;
pub use stages::showdown::{PlayerRankPair, Showdown};
pub use stages::turn::Turn;
pub use suit::Suit;
