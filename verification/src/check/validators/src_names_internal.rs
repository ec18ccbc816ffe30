//! Internal and private functions of source contracts are named with a
//! leading underscore. Libraries are exempt.

use crate::check::syntax::{
    ContractPartView, ContractTy, ContractView, FunctionDefinition, FunctionTy, FunctionView,
    SourceUnitPartView,
};
use crate::check::utils::{
    finding_at, findings, is_of_kind, FileKind, Finding, InvalidItem, IsFileKind, ValidatorKind,
    VisibilitySummary,
};
use crate::check::validators::{
    collect_functions, functions_in, member_functions, targets, with,
};
use crate::check::{Parsed, ParsedView};
use crate::text::chars_of;
use vstd::prelude::*;

verus! {

/// `name` begins with an underscore.
pub open spec fn has_leading_underscore(name: Seq<char>) -> bool {
    name.len() > 0 && name[0] == '_'
}

/// The rule is run on source files.
pub fn is_matching_file(file: &str) -> (r: bool)
    ensures
        r == is_of_kind(file@, FileKind::Src),
{
    file.is_file_kind(FileKind::Src)
}

/// Whether `name` is a valid name for an internal or private function.
pub fn is_valid_internal_or_private_name(name: &str) -> (r: bool)
    ensures
        r == has_leading_underscore(name@),
{
    let chars = chars_of(name);
    chars.len() > 0 && chars[0] == '_'
}

/// The finding for the function `f` of the file `parsed`: one, at the
/// function and with its name, if the function is internal or private and
/// its name has no leading underscore. Constructors, fallback and receive
/// functions are never flagged, and a function without a name is passed over.
pub open spec fn function_finding(parsed: ParsedView, f: FunctionView) -> Option<Finding> {
    match f.ty {
        FunctionTy::Constructor | FunctionTy::Fallback | FunctionTy::Receive => None,
        FunctionTy::Function | FunctionTy::Modifier => match f.name {
            Some(name) => if f.internal_or_private() && !has_leading_underscore(name) {
                Some(finding_at(ValidatorKind::Src, parsed, f.loc, name))
            } else {
                None
            },
            None => None,
        },
    }
}

/// The findings for the functions `functions`, in order.
pub open spec fn findings_for(parsed: ParsedView, functions: Seq<FunctionView>) -> Seq<Finding>
    decreases functions.len(),
{
    if functions.len() == 0 {
        Seq::empty()
    } else {
        with(
            findings_for(parsed, functions.drop_last()),
            function_finding(parsed, functions.last()),
        )
    }
}

/// The findings of the rule for the file `parsed`: none unless it is a
/// source file, and then those for its free functions and for the functions
/// of its contracts other than libraries.
pub open spec fn src_findings(parsed: ParsedView) -> Seq<Finding> {
    if is_of_kind(parsed.file, FileKind::Src) {
        findings_for(parsed, functions_in(parsed.pt, true, false))
    } else {
        Seq::empty()
    }
}

/// Checks the name of one function.
pub fn validate_name(parsed: &Parsed, f: &FunctionDefinition) -> (r: Option<InvalidItem>)
    ensures
        match r {
            Some(item) => function_finding(parsed@, f@) == Some(item@),
            None => function_finding(parsed@, f@) is None,
        },
{
    match f.ty {
        FunctionTy::Constructor | FunctionTy::Fallback | FunctionTy::Receive => None,
        FunctionTy::Function | FunctionTy::Modifier => match &f.name {
            Some(name) => {
                if f.is_internal_or_private() && !is_valid_internal_or_private_name(
                    name.as_str(),
                ) {
                    Some(InvalidItem::new(ValidatorKind::Src, parsed, f.loc, name.clone()))
                } else {
                    None
                }
            },
            None => None,
        },
    }
}

/// Validates that internal and private function names are prefixed with an
/// underscore.
pub fn validate(parsed: &Parsed) -> (items: Vec<InvalidItem>)
    ensures
        findings(items@) == src_findings(parsed@),
{
    let mut items: Vec<InvalidItem> = Vec::new();
    if !is_matching_file(parsed.file.as_str()) {
        assert(findings(items@) =~= Seq::<Finding>::empty());
        return items;
    }
    let functions = collect_functions(&parsed.pt.0, true, false);
    let mut i: usize = 0;
    assert(findings(items@) =~= findings_for(parsed@, targets(functions@).take(0)));
    while i < functions.len()
        invariant
            i <= functions.len(),
            findings(items@) == findings_for(parsed@, targets(functions@).take(i as int)),
        decreases functions.len() - i,
    {
        assert(targets(functions@).take(i + 1).drop_last() == targets(functions@).take(i as int));
        assert(targets(functions@).take(i + 1).last() == functions@[i as int]@);
        let ghost before = findings(items@);
        match validate_name(parsed, functions[i]) {
            Some(item) => {
                items.push(item);
                assert(findings(items@) =~= before.push(item@));
            },
            None => {},
        }
        i += 1;
    }
    assert(targets(functions@).take(functions.len() as int) == targets(functions@));
    items
}

/// The findings for two runs of functions, one after the other.
proof fn lemma_findings_for_append(
    parsed: ParsedView,
    a: Seq<FunctionView>,
    b: Seq<FunctionView>,
)
    ensures
        findings_for(parsed, a + b) == findings_for(parsed, a) + findings_for(parsed, b),
    decreases b.len(),
{
    if b.len() == 0 {
        assert(a + b == a);
        assert(findings_for(parsed, a) + findings_for(parsed, b) =~= findings_for(parsed, a));
    } else {
        lemma_findings_for_append(parsed, a, b.drop_last());
        assert((a + b).drop_last() == a + b.drop_last());
        assert(findings_for(parsed, a + b) =~= findings_for(parsed, a) + findings_for(parsed, b));
    }
}

/// Libraries are exempt. In a source file, a contract that follows the
/// top-level items `before` adds the findings for its functions if it is a
/// contract, an abstract contract or an interface, and nothing if it is a
/// library, whatever its functions are called.
pub proof fn theorem_libraries_are_exempt(
    parsed: ParsedView,
    before: Seq<SourceUnitPartView>,
    c: ContractView,
)
    requires
        is_of_kind(parsed.file, FileKind::Src),
        parsed.pt == before.push(SourceUnitPartView::ContractDefinition(c)),
    ensures
        src_findings(parsed) == findings_for(parsed, functions_in(before, true, false)) + if c.ty
            == ContractTy::Library {
            Seq::<Finding>::empty()
        } else {
            findings_for(parsed, member_functions(c.parts))
        },
{
    let parts = before.push(SourceUnitPartView::ContractDefinition(c));
    assert(parts.drop_last() == before);
    if c.ty == ContractTy::Library {
        assert(findings_for(parsed, functions_in(before, true, false)) + Seq::<Finding>::empty()
            =~= findings_for(parsed, functions_in(before, true, false)));
    } else {
        lemma_findings_for_append(
            parsed,
            functions_in(before, true, false),
            member_functions(c.parts),
        );
    }
}

/// A private or internal function whose name has no leading underscore
/// gets exactly one finding as the one member of a contract that is no
/// library, and none as the one member of a library.
pub proof fn theorem_one_finding_outside_libraries(
    parsed: ParsedView,
    c: ContractView,
    f: FunctionView,
)
    requires
        is_of_kind(parsed.file, FileKind::Src),
        parsed.pt == seq![SourceUnitPartView::ContractDefinition(c)],
        c.parts == seq![ContractPartView::FunctionDefinition(f)],
        f.ty == FunctionTy::Function,
        f.name is Some,
        f.internal_or_private(),
        !has_leading_underscore(f.name.unwrap()),
    ensures
        src_findings(parsed) == if c.ty == ContractTy::Library {
            Seq::<Finding>::empty()
        } else {
            seq![finding_at(ValidatorKind::Src, parsed, f.loc, f.name.unwrap())]
        },
{
    let before = Seq::<SourceUnitPartView>::empty();
    assert(before.push(SourceUnitPartView::ContractDefinition(c)) =~= parsed.pt);
    theorem_libraries_are_exempt(parsed, before, c);
    assert(c.parts.drop_last() == Seq::<ContractPartView>::empty());
    reveal_with_fuel(member_functions, 2);
    reveal_with_fuel(findings_for, 2);
    reveal_with_fuel(functions_in, 2);
    assert(member_functions(c.parts) =~= seq![f]);
    assert(seq![f].drop_last() == Seq::<FunctionView>::empty());
    assert(findings_for(parsed, seq![f]) =~= seq![
        finding_at(ValidatorKind::Src, parsed, f.loc, f.name.unwrap()),
    ]);
    assert(findings_for(parsed, functions_in(before, true, false)) =~= Seq::<Finding>::empty());
}

} // verus!
