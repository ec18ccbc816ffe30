//! Constant and immutable variables are named in capitals.

use crate::check::syntax::{
    member_views, part_views, ContractPart, ContractPartView, ContractTy, SourceUnitPart,
    SourceUnitPartView, VariableDefinition, VariableView,
};
use crate::check::utils::{finding_at, findings, Finding, InvalidItem, ValidatorKind};
use crate::check::validators::with;
use crate::check::{Parsed, ParsedView};
use crate::pattern::{found, regex_match, search};
use vstd::prelude::*;

verus! {

/// The regular expression that a valid name matches: capitals and digits,
/// with `$` and `_` anywhere between, before or after them.
pub const VALID_CONSTANT_NAME: &'static str = "^(?:[$_]*[A-Z0-9][$_]*)+$";

/// `name` is a valid name for a constant.
pub open spec fn constant_name_ok(name: Seq<char>) -> bool {
    regex_match(VALID_CONSTANT_NAME@, name) == Some(true)
}

/// The rule is run on every file.
pub fn is_matching_file(file: &str) -> (r: bool)
    ensures
        r,
{
    true
}

/// Whether `name` is a valid name for a constant.
pub fn is_valid_constant_name(name: &str) -> (r: bool)
    ensures
        r == constant_name_ok(name@),
{
    found(search(VALID_CONSTANT_NAME, name))
}

/// The finding for the variable `v` of the file `parsed`: one, at the
/// variable, with its name, if the variable is constant or immutable and its
/// name is not valid. A variable without a name is passed over.
pub open spec fn variable_finding(parsed: ParsedView, v: VariableView) -> Option<Finding> {
    match v.name {
        Some(name) => if v.is_constant() && !constant_name_ok(name) {
            Some(finding_at(ValidatorKind::Constant, parsed, v.loc, name))
        } else {
            None
        },
        None => None,
    }
}

/// The findings for the members `parts` of a contract, in order.
pub open spec fn member_findings(parsed: ParsedView, parts: Seq<ContractPartView>) -> Seq<Finding>
    decreases parts.len(),
{
    if parts.len() == 0 {
        Seq::empty()
    } else {
        let before = member_findings(parsed, parts.drop_last());
        match parts.last() {
            ContractPartView::VariableDefinition(v) => with(before, variable_finding(parsed, v)),
            _ => before,
        }
    }
}

/// The findings for the top-level items `parts`, in order: for each variable
/// of the file, and for each variable of each contract, abstract contract
/// and library. An interface holds no variable that could be initialised,
/// and is passed over.
pub open spec fn unit_findings(parsed: ParsedView, parts: Seq<SourceUnitPartView>) -> Seq<Finding>
    decreases parts.len(),
{
    if parts.len() == 0 {
        Seq::empty()
    } else {
        let before = unit_findings(parsed, parts.drop_last());
        match parts.last() {
            SourceUnitPartView::VariableDefinition(v) => with(before, variable_finding(parsed, v)),
            SourceUnitPartView::ContractDefinition(c) => if c.ty == ContractTy::Interface {
                before
            } else {
                before + member_findings(parsed, c.parts)
            },
            _ => before,
        }
    }
}

/// The findings of the rule for the file `parsed`.
pub open spec fn constant_findings(parsed: ParsedView) -> Seq<Finding> {
    unit_findings(parsed, parsed.pt)
}

/// Checks the name of one variable.
pub fn validate_name(parsed: &Parsed, v: &VariableDefinition) -> (r: Option<InvalidItem>)
    ensures
        match r {
            Some(item) => variable_finding(parsed@, v@) == Some(item@),
            None => variable_finding(parsed@, v@) is None,
        },
{
    match &v.name {
        Some(name) => {
            if v.has_constant_attribute() && !is_valid_constant_name(name.as_str()) {
                Some(InvalidItem::new(ValidatorKind::Constant, parsed, v.loc, name.clone()))
            } else {
                None
            }
        },
        None => None,
    }
}

/// Checks the variables among the members `parts` of a contract.
pub fn validate_members(parsed: &Parsed, parts: &Vec<ContractPart>) -> (items: Vec<InvalidItem>)
    ensures
        findings(items@) == member_findings(parsed@, member_views(parts@)),
{
    let mut items: Vec<InvalidItem> = Vec::new();
    let mut i: usize = 0;
    let ghost all = member_views(parts@);
    assert(findings(items@) =~= member_findings(parsed@, all.take(0)));
    while i < parts.len()
        invariant
            i <= parts.len(),
            all == member_views(parts@),
            findings(items@) == member_findings(parsed@, all.take(i as int)),
        decreases parts.len() - i,
    {
        assert(all.take(i + 1).drop_last() == all.take(i as int));
        assert(all.take(i + 1).last() == parts@[i as int]@);
        let ghost before = findings(items@);
        match &parts[i] {
            ContractPart::VariableDefinition(v) => {
                match validate_name(parsed, v) {
                    Some(item) => {
                        items.push(item);
                        assert(findings(items@) =~= before.push(item@));
                    },
                    None => {},
                }
            },
            _ => {},
        }
        i += 1;
    }
    assert(all.take(parts.len() as int) == all);
    items
}

/// Validates that constant and immutable variable names are in `ALL_CAPS`.
pub fn validate(parsed: &Parsed) -> (items: Vec<InvalidItem>)
    ensures
        findings(items@) == constant_findings(parsed@),
{
    let mut items: Vec<InvalidItem> = Vec::new();
    if !is_matching_file(parsed.file.as_str()) {
        return items;
    }
    let parts = &parsed.pt.0;
    let ghost all = part_views(parts@);
    let mut i: usize = 0;
    assert(findings(items@) =~= unit_findings(parsed@, all.take(0)));
    while i < parts.len()
        invariant
            i <= parts.len(),
            parts == &parsed.pt.0,
            all == part_views(parts@),
            findings(items@) == unit_findings(parsed@, all.take(i as int)),
        decreases parts.len() - i,
    {
        assert(all.take(i + 1).drop_last() == all.take(i as int));
        assert(all.take(i + 1).last() == parts@[i as int]@);
        let ghost before = findings(items@);
        match &parts[i] {
            SourceUnitPart::VariableDefinition(v) => {
                match validate_name(parsed, v) {
                    Some(item) => {
                        items.push(item);
                        assert(findings(items@) =~= before.push(item@));
                    },
                    None => {},
                }
            },
            SourceUnitPart::ContractDefinition(c) => {
                match c.ty {
                    ContractTy::Interface => {},
                    _ => {
                        let mut more = validate_members(parsed, &c.parts);
                        let ghost added = findings(more@);
                        items.append(&mut more);
                        assert(findings(items@) =~= before + added);
                    },
                }
            },
            _ => {},
        }
        i += 1;
    }
    assert(all.take(parts.len() as int) == all);
    items
}

/// A constant or immutable variable gets no finding if its name is valid
/// and exactly one if it is not: a file that declares such a variable named
/// `name` after the top-level items `before` has the findings of `before`
/// and, for a name that is not valid, one more.
pub proof fn theorem_one_finding_for_each_invalid_name(
    parsed: ParsedView,
    before: Seq<SourceUnitPartView>,
    v: VariableView,
)
    requires
        v.is_constant(),
        v.name is Some,
    ensures
        ({
            let parts = before.push(SourceUnitPartView::VariableDefinition(v));
            let name = v.name.unwrap();
            if constant_name_ok(name) {
                unit_findings(parsed, parts) == unit_findings(parsed, before)
            } else {
                unit_findings(parsed, parts) == unit_findings(parsed, before).push(
                    finding_at(ValidatorKind::Constant, parsed, v.loc, name),
                )
            }
        }),
{
    assert(before.push(SourceUnitPartView::VariableDefinition(v)).drop_last() == before);
}

/// The same holds of a variable of a contract: declared after the members
/// `before`, it adds no finding if its name is valid and exactly one if not.
pub proof fn theorem_one_finding_for_each_invalid_member_name(
    parsed: ParsedView,
    before: Seq<ContractPartView>,
    v: VariableView,
)
    requires
        v.is_constant(),
        v.name is Some,
    ensures
        ({
            let parts = before.push(ContractPartView::VariableDefinition(v));
            let name = v.name.unwrap();
            if constant_name_ok(name) {
                member_findings(parsed, parts) == member_findings(parsed, before)
            } else {
                member_findings(parsed, parts) == member_findings(parsed, before).push(
                    finding_at(ValidatorKind::Constant, parsed, v.loc, name),
                )
            }
        }),
{
    assert(before.push(ContractPartView::VariableDefinition(v)).drop_last() == before);
}

} // verus!
