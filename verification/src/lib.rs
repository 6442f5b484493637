//! A terminal timetable: the cells, screens and menu decisions of a
//! two-week (A/B) school timetable, with their contracts.

pub mod text;
pub mod timetable;
pub mod calendar;
pub mod escape;
pub mod screen;
pub mod menu;
