//! A verified calendar renderer in the manner of Unix `cal`: Gregorian date
//! arithmetic, fixed-width month blocks with today's day highlighted, a
//! twelve-month year view, and validation of month and year arguments.

pub mod dates;
pub mod month;
pub mod parse;
pub mod text;
pub mod year;
