use vstd::prelude::*;

use crate::text::{blank, decimal, decimal_digits, is_blank, lower_of, lowercase, same_text};

verus! {

/// One action and the result it should produce.
#[derive(Debug, Clone)]
pub struct Step {
    pub action: String,
    pub expected: String,
}

/// One test case document.
#[derive(Debug, Clone)]
pub struct TestCase {
    pub id: String,
    pub name: String,
    pub platform: String,
    pub priority: String,
    pub tags: Vec<String>,
    pub author: String,
    pub created_at: String,
    pub linked_feature: Option<String>,
    pub last_run_status: Option<String>,
    pub description: String,
    pub preconditions: Option<Vec<String>>,
    pub steps: Vec<Step>,
}

/// The first rule that a test case breaks.
#[derive(Debug, Clone, Copy, PartialEq, Eq, Structural)]
pub enum ValidationError {
    EmptyId,
    EmptyName,
    EmptyPlatform,
    EmptyDescription,
    InvalidPriority,
    NoSteps,
    /// The step at this 1-based position has a blank action.
    EmptyAction(usize),
    /// The step at this 1-based position has a blank expected result.
    EmptyExpected(usize),
}

/// The priorities a test case may carry, in lower case.
pub open spec fn allowed_priority(p: Seq<char>) -> bool {
    p == "critical"@ || p == "high"@ || p == "medium"@ || p == "low"@
}

/// The first step, from position `i` on, with a blank action or expected result.
pub open spec fn step_error(steps: Seq<Step>, i: int) -> Option<ValidationError>
    decreases steps.len() - i,
{
    if i < 0 || i >= steps.len() {
        None
    } else if blank(steps[i].action@) {
        Some(ValidationError::EmptyAction((i + 1) as usize))
    } else if blank(steps[i].expected@) {
        Some(ValidationError::EmptyExpected((i + 1) as usize))
    } else {
        step_error(steps, i + 1)
    }
}

/// The first rule that `tc` breaks, checking the rules in their fixed order.
pub open spec fn validation_error(tc: TestCase) -> Option<ValidationError> {
    if blank(tc.id@) {
        Some(ValidationError::EmptyId)
    } else if blank(tc.name@) {
        Some(ValidationError::EmptyName)
    } else if blank(tc.platform@) {
        Some(ValidationError::EmptyPlatform)
    } else if blank(tc.description@) {
        Some(ValidationError::EmptyDescription)
    } else if !allowed_priority(lower_of(tc.priority@)) {
        Some(ValidationError::InvalidPriority)
    } else if tc.steps@.len() == 0 {
        Some(ValidationError::NoSteps)
    } else {
        step_error(tc.steps@, 0)
    }
}

/// A test case is valid when it breaks no rule.
pub open spec fn valid(tc: TestCase) -> bool {
    validation_error(tc) is None
}

/// The outcome of validating `tc`.
pub open spec fn validation_result(tc: TestCase) -> Result<(), ValidationError> {
    match validation_error(tc) {
        None => Ok(()),
        Some(e) => Err(e),
    }
}

impl ValidationError {
    /// The message that reports this error.
    pub open spec fn spec_message(self) -> Seq<char> {
        match self {
            ValidationError::EmptyId => "id must not be empty"@,
            ValidationError::EmptyName => "name must not be empty"@,
            ValidationError::EmptyPlatform => "platform must not be empty"@,
            ValidationError::EmptyDescription => "description must not be empty"@,
            ValidationError::InvalidPriority => "priority must be one of: critical, high, medium, low"@,
            ValidationError::NoSteps => "steps must not be empty"@,
            ValidationError::EmptyAction(n) => "Step "@ + decimal_digits(n as nat)
                + ": action must not be empty"@,
            ValidationError::EmptyExpected(n) => "Step "@ + decimal_digits(n as nat)
                + ": expected must not be empty"@,
        }
    }

    /// The human-readable message for this error.
    pub fn message(&self) -> (r: String)
        ensures
            r@ == self.spec_message(),
    {
        match self {
            ValidationError::EmptyId => String::from_str("id must not be empty"),
            ValidationError::EmptyName => String::from_str("name must not be empty"),
            ValidationError::EmptyPlatform => String::from_str("platform must not be empty"),
            ValidationError::EmptyDescription => String::from_str("description must not be empty"),
            ValidationError::InvalidPriority => String::from_str(
                "priority must be one of: critical, high, medium, low",
            ),
            ValidationError::NoSteps => String::from_str("steps must not be empty"),
            ValidationError::EmptyAction(n) => {
                let mut s = String::from_str("Step ");
                let d = decimal(*n);
                s.append(d.as_str());
                s.append(": action must not be empty");
                s
            },
            ValidationError::EmptyExpected(n) => {
                let mut s = String::from_str("Step ");
                let d = decimal(*n);
                s.append(d.as_str());
                s.append(": expected must not be empty");
                s
            },
        }
    }
}

/// Whether `p`, lower-cased, is one of the allowed priorities.
pub fn is_allowed_priority(p: &str) -> (r: bool)
    ensures
        r == allowed_priority(lower_of(p@)),
{
    let l = lowercase(p);
    same_text(l.as_str(), "critical") || same_text(l.as_str(), "high") || same_text(
        l.as_str(),
        "medium",
    ) || same_text(l.as_str(), "low")
}

/// Checks `tc` against the schema, stopping at the first rule it breaks.
pub fn validate_testcase(tc: &TestCase) -> (r: Result<(), ValidationError>)
    ensures
        r == validation_result(*tc),
        r is Ok <==> valid(*tc),
{
    if is_blank(tc.id.as_str()) {
        return Err(ValidationError::EmptyId);
    }
    if is_blank(tc.name.as_str()) {
        return Err(ValidationError::EmptyName);
    }
    if is_blank(tc.platform.as_str()) {
        return Err(ValidationError::EmptyPlatform);
    }
    if is_blank(tc.description.as_str()) {
        return Err(ValidationError::EmptyDescription);
    }
    if !is_allowed_priority(tc.priority.as_str()) {
        return Err(ValidationError::InvalidPriority);
    }
    if tc.steps.len() == 0 {
        return Err(ValidationError::NoSteps);
    }
    let n = tc.steps.len();
    let mut i: usize = 0;
    while i < n
        invariant
            n == tc.steps@.len(),
            i <= n,
            validation_error(*tc) == step_error(tc.steps@, 0),
            step_error(tc.steps@, 0) == step_error(tc.steps@, i as int),
        decreases n - i,
    {
        let step = &tc.steps[i];
        if is_blank(step.action.as_str()) {
            return Err(ValidationError::EmptyAction(i + 1));
        }
        if is_blank(step.expected.as_str()) {
            return Err(ValidationError::EmptyExpected(i + 1));
        }
        i = i + 1;
    }
    Ok(())
}

} // verus!
