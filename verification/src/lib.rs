//! Rewrites bank-export transaction records into semicolon-delimited
//! spreadsheet lines: the date components reversed, a fixed expense label,
//! the amount with a decimal comma, the title, the capitalized category,
//! and a trailing installment marker extracted from the title.

use vstd::prelude::*;

pub mod amount;
pub mod date;
pub mod installment;
pub mod text;
pub mod transaction;

pub use amount::Amount;
pub use text::capitalize;
pub use transaction::InputRow;
pub use transaction::Transaction;
pub use transaction::adapt_rows;
pub use transaction::header_line;

verus! {

/// Why a record could not be turned into an output line.
#[derive(Clone, Copy, Debug, PartialEq, Eq, Structural)]
pub enum TransformError {
    /// The amount field is not a decimal number.
    InvalidAmount,
    /// The amount field is a decimal number whose magnitude is too
    /// large to represent exactly in whole cents.
    AmountTooLarge,
    /// The category field is present but empty.
    EmptyCategory,
}

} // verus!
