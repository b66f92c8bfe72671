//! Analysis of Spotify streaming histories (`endsong.json` files): the songs,
//! albums and artists streamed, how often and for how long.

pub mod aspect;
pub mod entry;
pub mod text;
pub mod gather;
pub mod find;
pub mod capitalization;
pub mod parse;
pub mod display;
pub mod help;
pub mod rank;
pub mod trace;
pub mod pages;
pub mod date;
pub mod command;
pub mod summary;
pub mod print;
pub mod columns;
pub mod browse;
