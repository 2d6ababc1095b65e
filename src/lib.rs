pub mod random;
pub mod nnet;
pub mod snake;
pub mod genalgo;
