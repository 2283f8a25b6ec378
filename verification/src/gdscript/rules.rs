//! The rules that a project can switch on and off.

use vstd::prelude::*;
use crate::utils::scan::same_str;

verus! {

#[derive(Clone, Copy, Debug, PartialEq, Eq, Hash)]
pub enum Rule {
    RequireTypeAnnotations,
    AssignmentType,
    StrictAny,
}

#[derive(Clone, Copy, Debug, PartialEq, Eq, Hash)]
pub enum RuleSeverity {
    Error,
    Warning,
    Info,
    Off,
}

impl Rule {
    /// The name of the rule as configuration writes it.
    pub open spec fn name(self) -> Seq<char> {
        match self {
            Rule::RequireTypeAnnotations => "RequireTypeAnnotations"@,
            Rule::AssignmentType => "AssignmentType"@,
            Rule::StrictAny => "StrictAny"@,
        }
    }

    /// The rule of the given name.
    pub fn from_str(s: &str) -> (r: Option<Rule>)
        ensures
            match r {
                Some(rule) => s@ == rule.name(),
                None => forall|rule: Rule| s@ != rule.name(),
            },
    {
        if same_str(s, "RequireTypeAnnotations") {
            Some(Rule::RequireTypeAnnotations)
        } else if same_str(s, "AssignmentType") {
            Some(Rule::AssignmentType)
        } else if same_str(s, "StrictAny") {
            Some(Rule::StrictAny)
        } else {
            None
        }
    }
}

impl RuleSeverity {
    /// The name of the severity as configuration writes it.
    pub open spec fn name(self) -> Seq<char> {
        match self {
            RuleSeverity::Error => "error"@,
            RuleSeverity::Warning => "warning"@,
            RuleSeverity::Info => "info"@,
            RuleSeverity::Off => "off"@,
        }
    }

    /// The severity of the given name.
    pub fn from_str(s: &str) -> (r: Option<RuleSeverity>)
        ensures
            match r {
                Some(severity) => s@ == severity.name(),
                None => forall|severity: RuleSeverity| s@ != severity.name(),
            },
    {
        if same_str(s, "error") {
            Some(RuleSeverity::Error)
        } else if same_str(s, "warning") {
            Some(RuleSeverity::Warning)
        } else if same_str(s, "info") {
            Some(RuleSeverity::Info)
        } else if same_str(s, "off") {
            Some(RuleSeverity::Off)
        } else {
            None
        }
    }
}

} // verus!
