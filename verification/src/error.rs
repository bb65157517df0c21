use vstd::prelude::*;

verus! {

/// Why a budget calculation was refused.
#[derive(Clone, Copy, Debug, PartialEq, Eq, Structural)]
pub enum CalcError {
    /// The character level lies outside the levels that grant hyper stat points.
    OutOfRange,
    /// The levels already invested cost more points than the character level grants.
    BudgetUnderflow,
}

impl CalcError {
    /// A short description for messages.
    pub fn message(&self) -> (text: String)
        ensures
            text@ == match *self {
                CalcError::OutOfRange => "character level out of range"@,
                CalcError::BudgetUnderflow => "invested hyper stat levels exceed the point budget"@,
            },
    {
        match self {
            CalcError::OutOfRange => "character level out of range".to_string(),
            CalcError::BudgetUnderflow => "invested hyper stat levels exceed the point budget".to_string(),
        }
    }
}

} // verus!
