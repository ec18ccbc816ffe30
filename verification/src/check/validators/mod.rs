//! The rules. Each one reads a parsed file and returns its findings, and no
//! rule depends on another.

use crate::check::syntax::{
    member_views, part_views, ContractPart, ContractPartView, ContractTy, ContractView,
    FunctionDefinition, FunctionView, SourceUnitPart, SourceUnitPartView,
};
use crate::check::utils::Finding;
use vstd::prelude::*;

/// Constant and immutable variable names are in `ALL_CAPS`.
pub mod constant_names;

/// Solidity and TOML files are formatted.
pub mod formatting;

/// A script has a single public method named `run`.
pub mod script_one_public_run_method;

/// Internal and private function names are prefixed with an underscore.
pub mod src_names_internal;

/// Test names are in the correct format.
pub mod test_names;

verus! {

/// `before`, followed by `finding` if there is one.
pub open spec fn with(before: Seq<Finding>, finding: Option<Finding>) -> Seq<Finding> {
    match finding {
        Some(f) => before.push(f),
        None => before,
    }
}

/// The functions among the members `parts` of a contract, in order.
pub open spec fn member_functions(parts: Seq<ContractPartView>) -> Seq<FunctionView>
    decreases parts.len(),
{
    if parts.len() == 0 {
        Seq::empty()
    } else {
        let before = member_functions(parts.drop_last());
        match parts.last() {
            ContractPartView::FunctionDefinition(f) => before.push(f),
            _ => before,
        }
    }
}

/// A rule that looks at the functions of libraries, or `c` is no library.
pub open spec fn is_read(c: ContractView, libraries: bool) -> bool {
    libraries || c.ty != ContractTy::Library
}

/// The functions that a rule looks at among the top-level items `parts`, in
/// source order: the free functions of the file, if the rule reads them
/// (`free`), and the functions of each contract, those of libraries only if
/// the rule reads them (`libraries`).
pub open spec fn functions_in(parts: Seq<SourceUnitPartView>, free: bool, libraries: bool) -> Seq<
    FunctionView,
>
    decreases parts.len(),
{
    if parts.len() == 0 {
        Seq::empty()
    } else {
        let before = functions_in(parts.drop_last(), free, libraries);
        match parts.last() {
            SourceUnitPartView::FunctionDefinition(f) => if free {
                before.push(f)
            } else {
                before
            },
            SourceUnitPartView::ContractDefinition(c) => if is_read(c, libraries) {
                before + member_functions(c.parts)
            } else {
                before
            },
            _ => before,
        }
    }
}

/// What the functions behind `refs` hold.
pub open spec fn targets(refs: Seq<&FunctionDefinition>) -> Seq<FunctionView> {
    Seq::new(refs.len(), |i: int| refs[i]@)
}

/// The functions that a rule looks at among the top-level items `parts`.
pub fn collect_functions(parts: &Vec<SourceUnitPart>, free: bool, libraries: bool) -> (out: Vec<
    &FunctionDefinition,
>)
    ensures
        targets(out@) == functions_in(part_views(parts@), free, libraries),
{
    let mut out: Vec<&FunctionDefinition> = Vec::new();
    let mut i: usize = 0;
    let ghost all = part_views(parts@);
    assert(targets(out@) =~= functions_in(all.take(0), free, libraries));
    while i < parts.len()
        invariant
            i <= parts.len(),
            all == part_views(parts@),
            targets(out@) == functions_in(all.take(i as int), free, libraries),
        decreases parts.len() - i,
    {
        assert(all.take(i + 1).drop_last() == all.take(i as int));
        assert(all.take(i + 1).last() == parts@[i as int]@);
        let ghost before = targets(out@);
        match &parts[i] {
            SourceUnitPart::FunctionDefinition(f) => {
                if free {
                    out.push(f);
                    assert(targets(out@) =~= before.push(f@));
                }
            },
            SourceUnitPart::ContractDefinition(c) => {
                let read = libraries || match c.ty {
                    ContractTy::Library => false,
                    _ => true,
                };
                if read {
                    let mut members = member_functions_of(&c.parts);
                    let ghost added = targets(members@);
                    out.append(&mut members);
                    assert(targets(out@) =~= before + added);
                }
            },
            _ => {},
        }
        i += 1;
    }
    assert(all.take(parts.len() as int) == all);
    out
}

/// The functions among the members `parts` of a contract, in order.
pub fn member_functions_of(parts: &Vec<ContractPart>) -> (out: Vec<&FunctionDefinition>)
    ensures
        targets(out@) == member_functions(member_views(parts@)),
{
    let mut out: Vec<&FunctionDefinition> = Vec::new();
    let mut i: usize = 0;
    let ghost all = member_views(parts@);
    assert(targets(out@) =~= member_functions(all.take(0)));
    while i < parts.len()
        invariant
            i <= parts.len(),
            all == member_views(parts@),
            targets(out@) == member_functions(all.take(i as int)),
        decreases parts.len() - i,
    {
        assert(all.take(i + 1).drop_last() == all.take(i as int));
        assert(all.take(i + 1).last() == parts@[i as int]@);
        let ghost before = targets(out@);
        match &parts[i] {
            ContractPart::FunctionDefinition(f) => {
                out.push(f);
                assert(targets(out@) =~= before.push(f@));
            },
            _ => {},
        }
        i += 1;
    }
    assert(all.take(parts.len() as int) == all);
    out
}

} // verus!
