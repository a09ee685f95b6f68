//! Task priority levels.

use vstd::prelude::*;

verus! {

/// The priority levels a task can carry.
#[derive(Debug, Clone, Copy, PartialEq, Eq, Structural)]
pub enum Priority {
    Low,
    Medium,
    High,
}

impl Priority {
    /// The display name of a priority level.
    pub fn to_string(&self) -> (r: String)
        ensures
            r@ == self.spec_name(),
    {
        match self {
            Priority::Low => String::from_str("Low"),
            Priority::Medium => String::from_str("Medium"),
            Priority::High => String::from_str("High"),
        }
    }

    /// Numeric rank of a priority: `Low` is 1, `Medium` is 2, `High` is 3.
    pub fn priority_value(&self) -> (v: u8)
        ensures
            v == self.spec_value(),
    {
        match self {
            Priority::Low => 1,
            Priority::Medium => 2,
            Priority::High => 3,
        }
    }

    /// Rank of a priority in specifications.
    pub open spec fn spec_value(&self) -> u8 {
        match self {
            Priority::Low => 1u8,
            Priority::Medium => 2u8,
            Priority::High => 3u8,
        }
    }

    /// Display name of a priority in specifications.
    pub open spec fn spec_name(&self) -> Seq<char> {
        match self {
            Priority::Low => "Low"@,
            Priority::Medium => "Medium"@,
            Priority::High => "High"@,
        }
    }

    /// Parses a priority from its lower-case name.
    pub fn parse(s: &str) -> (r: Option<Priority>)
        ensures
            s@ == "low"@ ==> r == Some(Priority::Low),
            s@ == "medium"@ ==> r == Some(Priority::Medium),
            s@ == "high"@ ==> r == Some(Priority::High),
            s@ != "low"@ && s@ != "medium"@ && s@ != "high"@ ==> r is None,
    {
        proof {
            reveal_strlit("low");
            reveal_strlit("medium");
            reveal_strlit("high");
            assert("low"@.len() == 3);
            assert("medium"@.len() == 6);
            assert("high"@.len() == 4);
            assert("low"@ != "medium"@);
            assert("low"@ != "high"@);
            assert("medium"@ != "high"@);
        }
        if crate::text::str_eq(s, "low") {
            Some(Priority::Low)
        } else if crate::text::str_eq(s, "medium") {
            Some(Priority::Medium)
        } else if crate::text::str_eq(s, "high") {
            Some(Priority::High)
        } else {
            None
        }
    }
}

impl Default for Priority {
    /// The default priority is `Low`.
    fn default() -> (r: Self)
        ensures
            r == Priority::Low,
    {
        Priority::Low
    }
}

} // verus!
