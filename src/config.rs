use vstd::prelude::*;

verus! {

/// How a failed push of a fresh commit affects the create request.
#[derive(Debug, Clone, Copy, PartialEq, Eq, Structural)]
pub enum PushMode {
    /// No push is attempted.
    Off,
    /// A push is attempted; its failure is reported but the create succeeds.
    BestEffort,
    /// A push is attempted; its failure undoes the commit and fails the create.
    Strict,
}

/// The configuration word of a push mode.
pub open spec fn push_mode_word(m: PushMode) -> Seq<char> {
    match m {
        PushMode::Off => "off"@,
        PushMode::BestEffort => "best_effort"@,
        PushMode::Strict => "strict"@,
    }
}

impl PushMode {
    /// The configuration word of this mode: `off`, `best_effort` or `strict`.
    pub fn label(self) -> (r: &'static str)
        ensures
            r@ == push_mode_word(self),
    {
        match self {
            PushMode::Off => "off",
            PushMode::BestEffort => "best_effort",
            PushMode::Strict => "strict",
        }
    }
}

} // verus!
