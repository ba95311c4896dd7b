pub mod breakpoint;
pub mod farm;
pub mod hangman;
pub mod linked_list;
pub mod parse;
pub mod session;
pub mod stack;
pub mod trace;
pub mod wc;
pub mod warmup;
