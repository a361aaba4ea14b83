pub mod finished;
pub mod flop;
pub mod pre_flop;
pub mod pre_round;
pub mod river;
pub mod showdown;
pub mod turn;
