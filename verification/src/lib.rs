//! A list of tasks with due dates that are read out of the text a user types.

pub mod app;
pub mod calendar;
pub mod digits;
pub mod due;
pub mod guard;
pub mod model;
pub mod resolver;
pub mod splitter;
pub mod store;
pub mod task;
pub mod text;
pub mod theme;
pub mod theorems;
pub mod times;
pub mod words;
