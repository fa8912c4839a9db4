//! The choices that a run is started with.

use vstd::prelude::*;

verus! {

/// Which assertions an analysis checks of its result.
#[derive(Clone, Copy, Debug, PartialEq, Eq, Structural)]
pub enum Check {
    Default,
    /// No assertion is checked; its name is `none`.
    Off,
    Strict,
}

impl Check {
    /// The name of the choice.
    pub open spec fn text_spec(self) -> Seq<char> {
        match self {
            Check::Default => "default"@,
            Check::Off => "none"@,
            Check::Strict => "strict"@,
        }
    }

    pub fn text(&self) -> (r: String)
        ensures
            r@ == self.text_spec(),
    {
        match self {
            Check::Default => "default".to_owned(),
            Check::Off => "none".to_owned(),
            Check::Strict => "strict".to_owned(),
        }
    }

    /// Whether any assertion is checked.
    pub fn check_assertions(&self) -> (r: bool)
        ensures
            r == (*self is Default || *self is Strict),
    {
        match self {
            Check::Default => true,
            Check::Off => false,
            Check::Strict => true,
        }
    }

    /// Whether the strict assertions are checked.
    pub fn check_strict(&self) -> (r: bool)
        ensures
            r == (*self is Strict),
    {
        match self {
            Check::Strict => true,
            _ => false,
        }
    }
}

} // verus!
