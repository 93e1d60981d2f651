//! A small verified simulation core: a Conway-style life grid that advances
//! a boolean cell field one generation at a time under fixed neighbor-counting
//! rules, and a world grid of typed blocks whose entities can be settled into
//! a roster. Both are pure in-memory data structures; rendering and windowing
//! live outside this crate and drive it by calling in.

pub mod game_rule;
pub mod game_start;
