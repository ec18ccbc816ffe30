//! Test functions are named `test[Fork][Fuzz][_Revert(If|When|On|Given)]_Description`.

use crate::check::syntax::{FunctionDefinition, FunctionView};
use crate::check::utils::{
    finding_at, findings, FileKind, Finding, InvalidItem, IsFileKind, Name, ValidatorKind,
    VisibilitySummary, is_of_kind,
};
use crate::check::validators::{collect_functions, functions_in, targets, with};
use crate::check::{Parsed, ParsedView};
use crate::pattern::{found, regex_match, search};
use crate::text::{
    after_first, chars_of, contains, is_prefix, occurs_in, rest_after, same, segments, slice_of,
    split, starts_with, views,
};
use vstd::prelude::*;

verus! {

/// The regular expression for the shape of a test name: `test`, then
/// `Fork`, `Fuzz` or both in that order if any, then `_Revert` with one of
/// its keywords if any, then `_` and what the test is about, which is one
/// word character or more.
pub const VALID_TEST_NAME: &'static str =
    "^test(Fork)?(Fuzz)?(_Revert(If|When|On|Given))?_\\w+$";

/// `word` is one of the keywords that may follow `Revert`.
pub open spec fn is_revert_keyword(word: Seq<char>) -> bool {
    word == "If"@ || word == "When"@ || word == "On"@ || word == "Given"@
}

/// The segment `segment` of a name keeps the convention for reverts: if
/// `Revert` stands anywhere in it, the segment begins with `Revert` and the
/// rest of it is exactly one of the keywords.
pub open spec fn revert_segment_ok(segment: Seq<char>) -> bool {
    occurs_in("Revert"@, segment) ==> is_prefix("Revert"@, segment) && is_revert_keyword(
        segment.skip("Revert"@.len() as int),
    )
}

/// Every segment of `name` between underscores keeps the convention for
/// reverts.
pub open spec fn follows_revert_convention(name: Seq<char>) -> bool {
    forall|i: int|
        0 <= i < segments(name, '_').len() ==> revert_segment_ok(#[trigger] segments(name, '_')[i])
}

/// `name` says what the test is about: it has an underscore, and its first
/// underscore is not its last character. The modifiers hold no underscore,
/// so that in a name of the right shape the first underscore is the one
/// after them.
pub open spec fn has_description(name: Seq<char>) -> bool {
    match after_first(name, '_') {
        Some(rest) => rest.len() > 0,
        None => false,
    }
}

/// `name` is a valid test name, where `shape` is what the search for the
/// shape of a test name in it gave.
pub open spec fn test_name_ok(name: Seq<char>, shape: Option<bool>) -> bool {
    &&& is_prefix("test"@, name)
    &&& shape == Some(true)
    &&& has_description(name)
    &&& follows_revert_convention(name)
}

/// `name` is a valid test name.
pub open spec fn is_valid_name(name: Seq<char>) -> bool {
    test_name_ok(name, regex_match(VALID_TEST_NAME@, name))
}

/// The rule is run on test files.
pub fn is_matching_file(file: &str) -> (r: bool)
    ensures
        r == is_of_kind(file@, FileKind::Test),
{
    file.is_file_kind(FileKind::Test)
}

/// Whether `word` is one of the keywords that may follow `Revert`.
pub fn revert_keyword(word: &[char]) -> (r: bool)
    ensures
        r == is_revert_keyword(word@),
{
    same(word, chars_of("If").as_slice()) || same(word, chars_of("When").as_slice()) || same(
        word,
        chars_of("On").as_slice(),
    ) || same(word, chars_of("Given").as_slice())
}

/// Whether one segment of a name keeps the convention for reverts.
pub fn check_segment(segment: &[char]) -> (r: bool)
    ensures
        r == revert_segment_ok(segment@),
{
    let revert = chars_of("Revert");
    if !contains(segment, revert.as_slice()) {
        return true;
    }
    if !starts_with(segment, revert.as_slice()) {
        return false;
    }
    let rest = slice_of(segment, revert.len(), segment.len());
    assert(rest@ == segment@.skip("Revert"@.len() as int));
    revert_keyword(rest.as_slice())
}

/// Whether every segment of `name` between underscores keeps the convention
/// for reverts.
pub fn check_segments(name: &[char]) -> (r: bool)
    ensures
        r == follows_revert_convention(name@),
{
    let pieces = split(name, '_');
    let mut i: usize = 0;
    while i < pieces.len()
        invariant
            i <= pieces.len(),
            views(pieces@) == segments(name@, '_'),
            forall|k: int| 0 <= k < i ==> revert_segment_ok(#[trigger] segments(name@, '_')[k]),
        decreases pieces.len() - i,
    {
        assert(views(pieces@)[i as int] == pieces@[i as int]@);
        if !check_segment(pieces[i].as_slice()) {
            return false;
        }
        i += 1;
    }
    true
}

/// Whether `name` says what the test is about.
pub fn check_description(name: &[char]) -> (r: bool)
    ensures
        r == has_description(name@),
{
    match rest_after(name, '_') {
        Some(rest) => rest.len() > 0,
        None => false,
    }
}

/// Decides on a test name, given what the search for the shape of a test
/// name in it gave.
pub fn accept_test_name(name: &str, shape: Option<bool>) -> (r: bool)
    ensures
        r == test_name_ok(name@, shape),
{
    let chars = chars_of(name);
    if !starts_with(chars.as_slice(), chars_of("test").as_slice()) || !found(shape) {
        return false;
    }
    check_description(chars.as_slice()) && check_segments(chars.as_slice())
}

/// Whether `name` is a valid test name.
pub fn is_valid_test_name(name: &str) -> (r: bool)
    ensures
        r == is_valid_name(name@),
{
    accept_test_name(name, search(VALID_TEST_NAME, name))
}

/// `f` is a test: a public or external function whose name begins with
/// `test`.
pub open spec fn is_test(f: FunctionView) -> bool {
    f.public_or_external() && match f.name_text() {
        Some(name) => is_prefix("test"@, name),
        None => false,
    }
}

/// Whether `f` is a test.
pub fn is_test_function(f: &FunctionDefinition) -> (r: bool)
    ensures
        r == is_test(f@),
{
    if !f.is_public_or_external() {
        return false;
    }
    match f.name() {
        Some(name) => starts_with(
            chars_of(name.as_str()).as_slice(),
            chars_of("test").as_slice(),
        ),
        None => false,
    }
}

/// The finding for the function `f` of the file `parsed`: one, at the name
/// of the function and with that name, if the function is a test and its
/// name is not valid.
pub open spec fn function_finding(parsed: ParsedView, f: FunctionView) -> Option<Finding> {
    if is_test(f) && !is_valid_name(f.name_text().unwrap()) {
        Some(finding_at(ValidatorKind::Test, parsed, f.name_loc, f.name_text().unwrap()))
    } else {
        None
    }
}

/// The findings for the functions `functions`, in order.
pub open spec fn findings_for(parsed: ParsedView, functions: Seq<FunctionView>) -> Seq<Finding>
    decreases functions.len(),
{
    if functions.len() == 0 {
        Seq::empty()
    } else {
        with(
            findings_for(parsed, functions.drop_last()),
            function_finding(parsed, functions.last()),
        )
    }
}

/// The findings of the rule for the file `parsed`: none unless it is a test
/// file, and then those for its free functions and for the functions of its
/// contracts of every kind.
pub open spec fn test_findings(parsed: ParsedView) -> Seq<Finding> {
    if is_of_kind(parsed.file, FileKind::Test) {
        findings_for(parsed, functions_in(parsed.pt, true, true))
    } else {
        Seq::empty()
    }
}

/// Checks the name of one function.
pub fn validate_name(parsed: &Parsed, f: &FunctionDefinition) -> (r: Option<InvalidItem>)
    ensures
        match r {
            Some(item) => function_finding(parsed@, f@) == Some(item@),
            None => function_finding(parsed@, f@) is None,
        },
{
    if !is_test_function(f) {
        return None;
    }
    match f.name() {
        Some(name) => {
            if is_valid_test_name(name.as_str()) {
                None
            } else {
                Some(InvalidItem::new(ValidatorKind::Test, parsed, f.name_loc, name))
            }
        },
        None => None,
    }
}

/// Validates that test names are in the correct format.
pub fn validate(parsed: &Parsed) -> (items: Vec<InvalidItem>)
    ensures
        findings(items@) == test_findings(parsed@),
{
    let mut items: Vec<InvalidItem> = Vec::new();
    if !is_matching_file(parsed.file.as_str()) {
        assert(findings(items@) =~= Seq::<Finding>::empty());
        return items;
    }
    let functions = collect_functions(&parsed.pt.0, true, true);
    let mut i: usize = 0;
    assert(findings(items@) =~= findings_for(parsed@, targets(functions@).take(0)));
    while i < functions.len()
        invariant
            i <= functions.len(),
            findings(items@) == findings_for(parsed@, targets(functions@).take(i as int)),
        decreases functions.len() - i,
    {
        assert(targets(functions@).take(i + 1).drop_last() == targets(functions@).take(i as int));
        assert(targets(functions@).take(i + 1).last() == functions@[i as int]@);
        let ghost before = findings(items@);
        match validate_name(parsed, functions[i]) {
            Some(item) => {
                items.push(item);
                assert(findings(items@) =~= before.push(item@));
            },
            None => {},
        }
        i += 1;
    }
    assert(targets(functions@).take(functions.len() as int) == targets(functions@));
    items
}

} // verus!
