//! What holds of the library as a whole, over the models that its functions are stated in.

pub mod announced;
pub mod arguments;
pub mod cascade;
pub mod causes;
pub mod counting;
pub mod cutting;
pub mod details;
pub mod failure;
pub mod flags;
pub mod lines;
pub mod nested;
pub mod outcome;
pub mod reading;
pub mod record;
pub mod rendering;
pub mod tally;
pub mod trace;
