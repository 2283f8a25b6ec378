//! A project as a whole: its metadata, its scripts and its rules.

use vstd::prelude::*;
use crate::gdproject_metadata::ast::GDProjectMetadata;
use crate::gdscript::ast::{ModuleID, SyntaxTree};
use crate::gdscript::rules::{Rule, RuleSeverity};

verus! {

/// Everything that checking a script may consult.
///
/// The scripts are a list of modules with their trees, and the severities a
/// list of rules with theirs. In either list no key occurs twice: setting
/// a key that is there replaces what it had.
#[derive(Debug, PartialEq)]
pub struct GodotProject {
    pub metadata: GDProjectMetadata,
    pub rule_severity: Vec<(Rule, RuleSeverity)>,
    pub scripts: Vec<(ModuleID, SyntaxTree)>,
}

/// Where `rule` stands in `severities`: at its first entry.
pub open spec fn rule_in(severities: Seq<(Rule, RuleSeverity)>, rule: Rule) -> Option<int>
    decreases severities.len(),
{
    if severities.len() == 0 {
        None
    } else if severities[0].0 == rule {
        Some(0)
    } else {
        match rule_in(severities.drop_first(), rule) {
            Some(at) => Some(at + 1),
            None => None,
        }
    }
}

/// The severity that `rule` has in `severities`.
pub open spec fn severity_in(severities: Seq<(Rule, RuleSeverity)>, rule: Rule) -> Option<
    RuleSeverity,
> {
    match rule_in(severities, rule) {
        Some(at) => Some(severities[at].1),
        None => None,
    }
}

/// Where the script of the module named `name` stands in `scripts`: at the
/// first entry of that name.
pub open spec fn script_in(scripts: Seq<(ModuleID, SyntaxTree)>, name: Seq<char>) -> Option<int>
    decreases scripts.len(),
{
    if scripts.len() == 0 {
        None
    } else if scripts[0].0.0@ == name {
        Some(0)
    } else {
        match script_in(scripts.drop_first(), name) {
            Some(at) => Some(at + 1),
            None => None,
        }
    }
}

/// No rule occurs twice.
pub open spec fn distinct_rules(severities: Seq<(Rule, RuleSeverity)>) -> bool {
    forall|i: int, j: int|
        0 <= i < j < severities.len() ==> (#[trigger] severities[i]).0 != (
        #[trigger] severities[j]).0
}

/// No module occurs twice, by its name.
pub open spec fn distinct_modules(scripts: Seq<(ModuleID, SyntaxTree)>) -> bool {
    forall|i: int, j: int|
        0 <= i < j < scripts.len() ==> (#[trigger] scripts[i]).0.0@ != (#[trigger] scripts[j]).0.0@
}

/// `rule_in` finds the first entry for the rule, where there is one.
pub proof fn lemma_rule_in(severities: Seq<(Rule, RuleSeverity)>, rule: Rule)
    ensures
        match rule_in(severities, rule) {
            Some(at) => 0 <= at < severities.len() && severities[at].0 == rule && forall|k: int|
                0 <= k < at ==> (#[trigger] severities[k]).0 != rule,
            None => forall|k: int| 0 <= k < severities.len() ==> (#[trigger] severities[k]).0 != rule,
        },
    decreases severities.len(),
{
    if severities.len() > 0 && severities[0].0 != rule {
        let rest = severities.drop_first();
        lemma_rule_in(rest, rule);
        match rule_in(rest, rule) {
            Some(at) => {
                assert forall|k: int| 0 <= k < at + 1 implies (#[trigger] severities[k]).0
                    != rule by {
                    if k > 0 {
                        assert(rest[k - 1] == severities[k]);
                    }
                }
            },
            None => {
                assert forall|k: int| 0 <= k < severities.len() implies (#[trigger] severities[k]).0
                    != rule by {
                    if k > 0 {
                        assert(rest[k - 1] == severities[k]);
                    }
                }
            },
        }
    }
}

/// `script_in` finds the first entry of the name, where there is one.
pub proof fn lemma_script_in(scripts: Seq<(ModuleID, SyntaxTree)>, name: Seq<char>)
    ensures
        match script_in(scripts, name) {
            Some(at) => 0 <= at < scripts.len() && scripts[at].0.0@ == name && forall|k: int|
                0 <= k < at ==> (#[trigger] scripts[k]).0.0@ != name,
            None => forall|k: int| 0 <= k < scripts.len() ==> (#[trigger] scripts[k]).0.0@ != name,
        },
    decreases scripts.len(),
{
    if scripts.len() > 0 && scripts[0].0.0@ != name {
        let rest = scripts.drop_first();
        lemma_script_in(rest, name);
        match script_in(rest, name) {
            Some(at) => {
                assert forall|k: int| 0 <= k < at + 1 implies (#[trigger] scripts[k]).0.0@
                    != name by {
                    if k > 0 {
                        assert(rest[k - 1] == scripts[k]);
                    }
                }
            },
            None => {
                assert forall|k: int| 0 <= k < scripts.len() implies (#[trigger] scripts[k]).0.0@
                    != name by {
                    if k > 0 {
                        assert(rest[k - 1] == scripts[k]);
                    }
                }
            },
        }
    }
}

/// The first entry for a rule is where `rule_in` finds it.
pub proof fn lemma_rule_at(severities: Seq<(Rule, RuleSeverity)>, rule: Rule, at: int)
    requires
        0 <= at < severities.len(),
        severities[at].0 == rule,
        forall|k: int| 0 <= k < at ==> (#[trigger] severities[k]).0 != rule,
    ensures
        rule_in(severities, rule) == Some(at),
{
    lemma_rule_in(severities, rule);
    match rule_in(severities, rule) {
        Some(found) => {
            if found < at {
                assert(severities[found].0 != rule);
            } else if found > at {
                assert(severities[at].0 != rule);
            }
        },
        None => {
            assert(severities[at].0 != rule);
        },
    }
}

/// A rule without an entry is one that `rule_in` does not find.
pub proof fn lemma_rule_absent(severities: Seq<(Rule, RuleSeverity)>, rule: Rule)
    requires
        forall|k: int| 0 <= k < severities.len() ==> (#[trigger] severities[k]).0 != rule,
    ensures
        rule_in(severities, rule) is None,
{
    lemma_rule_in(severities, rule);
    if let Some(found) = rule_in(severities, rule) {
        assert(severities[found].0 != rule);
    }
}

/// The first entry of a name is where `script_in` finds it.
pub proof fn lemma_script_at(scripts: Seq<(ModuleID, SyntaxTree)>, name: Seq<char>, at: int)
    requires
        0 <= at < scripts.len(),
        scripts[at].0.0@ == name,
        forall|k: int| 0 <= k < at ==> (#[trigger] scripts[k]).0.0@ != name,
    ensures
        script_in(scripts, name) == Some(at),
{
    lemma_script_in(scripts, name);
    match script_in(scripts, name) {
        Some(found) => {
            if found < at {
                assert(scripts[found].0.0@ != name);
            } else if found > at {
                assert(scripts[at].0.0@ != name);
            }
        },
        None => {
            assert(scripts[at].0.0@ != name);
        },
    }
}

/// A name without an entry is one that `script_in` does not find.
pub proof fn lemma_script_absent(scripts: Seq<(ModuleID, SyntaxTree)>, name: Seq<char>)
    requires
        forall|k: int| 0 <= k < scripts.len() ==> (#[trigger] scripts[k]).0.0@ != name,
    ensures
        script_in(scripts, name) is None,
{
    lemma_script_in(scripts, name);
    if let Some(found) = script_in(scripts, name) {
        assert(scripts[found].0.0@ != name);
    }
}

/// Whether two rules are the same.
pub fn same_rule(a: Rule, b: Rule) -> (r: bool)
    ensures
        r == (a == b),
{
    match (a, b) {
        (Rule::RequireTypeAnnotations, Rule::RequireTypeAnnotations) => true,
        (Rule::AssignmentType, Rule::AssignmentType) => true,
        (Rule::StrictAny, Rule::StrictAny) => true,
        _ => false,
    }
}

impl GodotProject {
    /// No module has two trees and no rule two severities.
    pub open spec fn wf(&self) -> bool {
        distinct_modules(self.scripts@) && distinct_rules(self.rule_severity@)
    }

    /// A project with the given metadata, without scripts, and with no
    /// rule set.
    pub fn new(metadata: GDProjectMetadata) -> (r: Self)
        ensures
            r.metadata == metadata,
            r.rule_severity@.len() == 0,
            r.scripts@.len() == 0,
            r.wf(),
    {
        GodotProject { metadata, rule_severity: Vec::new(), scripts: Vec::new() }
    }

    /// Where the entry for `rule` stands.
    pub fn rule_position(&self, rule: Rule) -> (r: Option<usize>)
        ensures
            match r {
                Some(at) => rule_in(self.rule_severity@, rule) == Some(at as int) && at
                    < self.rule_severity@.len(),
                None => rule_in(self.rule_severity@, rule) is None,
            },
    {
        let mut i: usize = 0;
        while i < self.rule_severity.len()
            invariant
                i <= self.rule_severity.len(),
                forall|k: int| 0 <= k < i ==> (#[trigger] self.rule_severity@[k]).0 != rule,
            decreases self.rule_severity.len() - i,
        {
            if same_rule(self.rule_severity[i].0, rule) {
                proof {
                    lemma_rule_at(self.rule_severity@, rule, i as int);
                }
                return Some(i);
            }
            i += 1;
        }
        proof {
            lemma_rule_absent(self.rule_severity@, rule);
        }
        None
    }

    /// The severity that is set for `rule`.
    pub fn severity(&self, rule: Rule) -> (r: Option<RuleSeverity>)
        ensures
            r == severity_in(self.rule_severity@, rule),
    {
        match self.rule_position(rule) {
            Some(at) => Some(self.rule_severity[at].1),
            None => None,
        }
    }

    /// Sets the severity of `rule`, in place of the one that it had.
    pub fn set_severity(&mut self, rule: Rule, severity: RuleSeverity)
        requires
            old(self).wf(),
        ensures
            final(self).wf(),
            severity_in(final(self).rule_severity@, rule) == Some(severity),
            forall|other: Rule|
                other != rule ==> severity_in(final(self).rule_severity@, other) == severity_in(
                    old(self).rule_severity@,
                    other,
                ),
            final(self).metadata == old(self).metadata,
            final(self).scripts == old(self).scripts,
    {
        let ghost before = self.rule_severity@;
        match self.rule_position(rule) {
            Some(at) => {
                self.rule_severity[at].1 = severity;
                assert(self.rule_severity@[at as int].0 == before[at as int].0);
            },
            None => {
                self.rule_severity.push((rule, severity));
            },
        }
        proof {
            let after = self.rule_severity@;
            lemma_rule_in(before, rule);
            assert forall|k: int| 0 <= k < before.len() implies (#[trigger] after[k]).0
                == before[k].0 by {}
            assert(distinct_rules(after)) by {
                assert forall|i: int, j: int| 0 <= i < j < after.len() implies (#[trigger] after[i]).0
                    != (#[trigger] after[j]).0 by {
                    if j < before.len() {
                        assert(before[i].0 != before[j].0);
                    } else {
                        assert(before[i].0 != rule);
                    }
                }
            }
            assert forall|k: int| 0 <= k < before.len() && before[k].0 != rule implies (
            #[trigger] after[k]) == before[k] by {}
            assert forall|other: Rule| other != rule implies severity_in(after, other)
                == severity_in(before, other) by {
                lemma_rule_in(before, other);
                if let Some(found) = rule_in(before, other) {
                    assert forall|k: int| 0 <= k < found implies (#[trigger] after[k]).0
                        != other by {
                        assert(before[k].0 != other);
                    }
                    lemma_rule_at(after, other, found);
                    assert(after[found] == before[found]);
                } else {
                    assert forall|k: int| 0 <= k < after.len() implies (#[trigger] after[k]).0
                        != other by {
                        if k < before.len() {
                            assert(before[k].0 != other);
                        }
                    }
                    lemma_rule_absent(after, other);
                }
            }
            assert forall|other: Rule|
                rule_in(after, other) == (if other == rule && rule_in(before, rule) is None {
                    Some(before.len() as int)
                } else {
                    rule_in(before, other)
                }) by {
                lemma_rule_in(before, other);
                match rule_in(before, other) {
                    Some(found) => {
                        assert forall|k: int| 0 <= k < found implies (#[trigger] after[k]).0
                            != other by {
                            assert(before[k].0 != other);
                        }
                        lemma_rule_at(after, other, found);
                    },
                    None => {
                        if other == rule {
                            assert forall|k: int| 0 <= k < before.len() implies (
                            #[trigger] after[k]).0 != other by {
                                assert(before[k].0 != other);
                            }
                            lemma_rule_at(after, other, before.len() as int);
                        } else {
                            assert forall|k: int| 0 <= k < after.len() implies (
                            #[trigger] after[k]).0 != other by {
                                if k < before.len() {
                                    assert(before[k].0 != other);
                                }
                            }
                            lemma_rule_absent(after, other);
                        }
                    },
                }
            }
        }
    }

    /// Where the entry for the module `module_id` stands.
    pub fn script_position(&self, module_id: &ModuleID) -> (r: Option<usize>)
        ensures
            match r {
                Some(at) => script_in(self.scripts@, module_id.0@) == Some(at as int) && at
                    < self.scripts@.len(),
                None => script_in(self.scripts@, module_id.0@) is None,
            },
    {
        let mut i: usize = 0;
        while i < self.scripts.len()
            invariant
                i <= self.scripts.len(),
                forall|k: int| 0 <= k < i ==> (#[trigger] self.scripts@[k]).0.0@ != module_id.0@,
            decreases self.scripts.len() - i,
        {
            if *self.scripts[i].0.0 == *module_id.0 {
                proof {
                    lemma_script_at(self.scripts@, module_id.0@, i as int);
                }
                return Some(i);
            }
            i += 1;
        }
        proof {
            lemma_script_absent(self.scripts@, module_id.0@);
        }
        None
    }

    /// The tree of the script of `module_id`.
    pub fn script(&self, module_id: &ModuleID) -> (r: Option<&SyntaxTree>)
        ensures
            match r {
                Some(tree) => script_in(self.scripts@, module_id.0@) matches Some(at) && *tree
                    == self.scripts@[at].1,
                None => script_in(self.scripts@, module_id.0@) is None,
            },
    {
        match self.script_position(module_id) {
            Some(at) => Some(&self.scripts[at].1),
            None => None,
        }
    }

    /// Sets the tree of the script of `module_id`, in place of the one that
    /// it had.
    pub fn set_script(&mut self, module_id: ModuleID, tree: SyntaxTree)
        requires
            old(self).wf(),
        ensures
            final(self).wf(),
            script_in(final(self).scripts@, module_id.0@) matches Some(at)
                && final(self).scripts@[at].1 == tree,
            forall|other: Seq<char>|
                other != module_id.0@ ==> script_in(final(self).scripts@, other) == script_in(
                    old(self).scripts@,
                    other,
                ),
            forall|k: int|
                0 <= k < old(self).scripts@.len() && old(self).scripts@[k].0.0@ != module_id.0@
                    ==> (#[trigger] final(self).scripts@[k]) == old(self).scripts@[k],
            final(self).metadata == old(self).metadata,
            final(self).rule_severity == old(self).rule_severity,
    {
        let ghost before = self.scripts@;
        let ghost name = module_id.0@;
        match self.script_position(&module_id) {
            Some(at) => {
                self.scripts[at].1 = tree;
                assert(self.scripts@[at as int].0 == before[at as int].0);
            },
            None => {
                self.scripts.push((module_id, tree));
            },
        }
        proof {
            let after = self.scripts@;
            lemma_script_in(before, name);
            assert forall|k: int| 0 <= k < before.len() implies (#[trigger] after[k]).0
                == before[k].0 by {}
            assert(distinct_modules(after)) by {
                assert forall|i: int, j: int| 0 <= i < j < after.len() implies (
                #[trigger] after[i]).0.0@ != (#[trigger] after[j]).0.0@ by {
                    if j < before.len() {
                        assert(before[i].0.0@ != before[j].0.0@);
                    } else {
                        assert(before[i].0.0@ != name);
                    }
                }
            }
            assert forall|other: Seq<char>|
                script_in(after, other) == (if other == name && script_in(before, name) is None {
                    Some(before.len() as int)
                } else {
                    script_in(before, other)
                }) by {
                lemma_script_in(before, other);
                match script_in(before, other) {
                    Some(found) => {
                        assert forall|k: int| 0 <= k < found implies (#[trigger] after[k]).0.0@
                            != other by {
                            assert(before[k].0.0@ != other);
                        }
                        lemma_script_at(after, other, found);
                    },
                    None => {
                        if other == name {
                            assert forall|k: int| 0 <= k < before.len() implies (
                            #[trigger] after[k]).0.0@ != other by {
                                assert(before[k].0.0@ != other);
                            }
                            lemma_script_at(after, other, before.len() as int);
                        } else {
                            assert forall|k: int| 0 <= k < after.len() implies (
                            #[trigger] after[k]).0.0@ != other by {
                                if k < before.len() {
                                    assert(before[k].0.0@ != other);
                                }
                            }
                            lemma_script_absent(after, other);
                        }
                    },
                }
            }
        }
    }
}

} // verus!
