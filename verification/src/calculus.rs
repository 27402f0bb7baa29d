//! Calculus over expression trees: differentiation and integration.

pub mod differentiate;
pub mod integrate;
pub mod integration_rules;
pub mod integration_state;

use vstd::prelude::*;

verus! {

/// Why an integration attempt produced no antiderivative.
#[derive(Debug, Clone, Copy, PartialEq, Eq, Structural)]
pub enum IntegrationError {
    /// The recursion bound or the cycle guard stopped a runaway expansion.
    MaxDepthExceeded,
    /// No strategy and no table rule applied to the expression.
    NoMethodFound,
    /// The attempt reached a strategy that is an explicit stub.
    NotImplemented,
    /// Reserved for a caller-side validation layer; never produced here.
    InvalidInput,
    /// Reserved for a caller-side validation layer; never produced here.
    UnsupportedOperation,
}

impl IntegrationError {
    /// The wording of this error.
    pub open spec fn spec_message(self) -> Seq<char> {
        match self {
            IntegrationError::MaxDepthExceeded => "maximum recursion depth exceeded"@,
            IntegrationError::NoMethodFound => "no integration method found"@,
            IntegrationError::NotImplemented => "integration strategy not implemented"@,
            IntegrationError::InvalidInput => "invalid input"@,
            IntegrationError::UnsupportedOperation => "unsupported operation"@,
        }
    }

    /// A human-readable description of this error.
    pub fn message(&self) -> (r: &'static str)
        ensures
            r@ == self.spec_message(),
    {
        match self {
            IntegrationError::MaxDepthExceeded => "maximum recursion depth exceeded",
            IntegrationError::NoMethodFound => "no integration method found",
            IntegrationError::NotImplemented => "integration strategy not implemented",
            IntegrationError::InvalidInput => "invalid input",
            IntegrationError::UnsupportedOperation => "unsupported operation",
        }
    }
}

} // verus!
