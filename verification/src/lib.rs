//! Greek Wordle: the rules of the game, the word list and its normalization,
//! lifetime statistics and their text file, the shareable result grid, the
//! daily puzzle, the animation schedule, what each key press does, and where
//! everything goes on the screen.

pub mod anim;
pub mod board;
pub mod calendar;
pub mod daily;
pub mod game;
pub mod glyphs;
pub mod layout;
pub mod screen;
pub mod session;
pub mod share;
pub mod stats;
pub mod text;
pub mod wordlist;
pub mod words;
