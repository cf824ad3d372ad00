//! Counts how often chosen weekdays fall in each of a run of month-long
//! windows, where a window either follows the calendar month or runs from a
//! fixed day of one month to the day before it in the next.

pub mod calendar;
pub mod date;
pub mod text;
pub mod window;

pub use calendar::{Day, DayOfMonth, Month, NthDayExtension};
pub use date::Date;
pub use window::{MontheyBuilder, MontheyMonth, MontheyResult};
