//! The check itself: what a parsed file is, and the rules that are run on it.

use crate::check::comments::{
    comment_views, directives, malformed, partition_result, Comment, CommentView, Comments,
};
use crate::check::inline_config::{
    disabled_ranges, reports, unmatched, InlineConfig, InlineConfigView,
    InvalidInlineConfigItem,
};
use crate::check::report::Report;
use crate::check::syntax::{Loc, SourceUnit, SourceUnitPartView};
use crate::check::utils::{
    classify, finding_at, findings, kind_of, FileKind, Finding, InvalidItem, ValidatorKind,
};
use crate::check::validators::constant_names::constant_findings;
use crate::check::validators::script_one_public_run_method::script_findings;
use crate::check::validators::src_names_internal::src_findings;
use crate::check::validators::test_names::test_findings;
use crate::check::validators::{
    constant_names, script_one_public_run_method, src_names_internal, test_names,
};
use vstd::prelude::*;

pub mod comments;
pub mod inline_config;
pub mod report;
pub mod syntax;
pub mod theorems;
pub mod utils;
pub mod validators;

verus! {

/// One file, read and parsed: everything that the rules look at.
#[derive(Debug)]
pub struct Parsed {
    /// Path to the file.
    pub file: String,
    /// The source text.
    pub src: String,
    /// The parse tree.
    pub pt: SourceUnit,
    /// The comments.
    pub comments: Comments,
    /// The disabled ranges.
    pub inline_config: InlineConfig,
    /// The directives that were not accepted, each with its location.
    pub invalid_inline_config_items: Vec<(Loc, InvalidInlineConfigItem)>,
}

/// What the rules read of a parsed file.
pub struct ParsedView {
    /// The path of the file.
    pub file: Seq<char>,
    /// The source text.
    pub src: Seq<char>,
    /// The top-level items of the parse tree.
    pub pt: Seq<SourceUnitPartView>,
    /// The comments.
    pub comments: Seq<CommentView>,
    /// The disabled ranges, and the directives that did not pair up.
    pub inline_config: InlineConfigView,
    /// The directives that were not accepted: where each stands, and the
    /// message for it.
    pub invalid: Seq<(Loc, Seq<char>)>,
}

impl View for Parsed {
    type V = ParsedView;

    open spec fn view(&self) -> ParsedView {
        ParsedView {
            file: self.file@,
            src: self.src@,
            pt: self.pt@,
            comments: self.comments@,
            inline_config: self.inline_config@,
            invalid: reports(self.invalid_inline_config_items@),
        }
    }
}

impl Parsed {
    /// The kind of the file, which its path alone settles.
    pub fn kind(&self) -> (kind: Option<FileKind>)
        ensures
            kind == kind_of(self@.file),
    {
        classify(self.file.as_str())
    }
}

/// What is reported for the directives of a file with comments `comments`
/// and text `src`: first the comments that bear the marker and spell no
/// directive, then the directives that do not pair up.
pub open spec fn directive_reports(comments: Seq<CommentView>, src: Seq<char>) -> Seq<
    (Loc, Seq<char>),
> {
    malformed(comments) + reports(unmatched(directives(comments), src))
}

/// Puts together what is known of one file: reads the directives in its
/// comments and builds the index of disabled ranges from them.
pub fn parse(file: &str, src: &str, pt: SourceUnit, comments: Vec<Comment>) -> (parsed: Parsed)
    ensures
        parsed@ == (ParsedView {
            file: file@,
            src: src@,
            pt: pt@,
            comments: comment_views(comments@),
            inline_config: InlineConfigView {
                ranges: disabled_ranges(directives(comment_views(comments@)), src@),
                rejected: unmatched(directives(comment_views(comments@)), src@),
            },
            invalid: directive_reports(comment_views(comments@), src@),
        }),
{
    let ghost given = comment_views(comments@);
    let comments = Comments::new(comments);
    let readings = comments.parse_inline_config_items();
    let (items, mut invalid) = partition_result(readings);
    let inline_config = InlineConfig::new(items, src);
    let ghost first = invalid@;
    let unpaired = inline_config.invalid_items();
    let mut i: usize = 0;
    while i < unpaired.len()
        invariant
            i <= unpaired.len(),
            invalid@ == first + unpaired@.take(i as int),
        decreases unpaired.len() - i,
    {
        invalid.push((unpaired[i].0, unpaired[i].1.duplicate()));
        assert(unpaired@.take(i + 1) == unpaired@.take(i as int).push(unpaired@[i as int]));
        i += 1;
    }
    assert(unpaired@.take(unpaired.len() as int) == unpaired@);
    assert(reports(invalid@) =~= directive_reports(given, src@));
    Parsed {
        file: file.to_owned(),
        src: src.to_owned(),
        pt,
        comments,
        inline_config,
        invalid_inline_config_items: invalid,
    }
}

// ---------------------------------------------------------------------------
// Running the rules
// ---------------------------------------------------------------------------

/// The findings for the directives of the file `parsed` that were not
/// accepted: one for each, at the directive, with its message.
pub open spec fn directive_findings(parsed: ParsedView) -> Seq<Finding> {
    Seq::new(
        parsed.invalid.len(),
        |i: int|
            finding_at(
                ValidatorKind::Directive,
                parsed,
                parsed.invalid[i].0,
                parsed.invalid[i].1,
            ),
    )
}

/// The findings of the rule `kind` for the file `parsed`.
pub open spec fn rule_findings(kind: ValidatorKind, parsed: ParsedView) -> Seq<Finding> {
    match kind {
        ValidatorKind::Constant => constant_findings(parsed),
        ValidatorKind::Script => script_findings(parsed),
        ValidatorKind::Src => src_findings(parsed),
        ValidatorKind::Test => test_findings(parsed),
        ValidatorKind::Directive => directive_findings(parsed),
    }
}

/// All findings for the file `parsed`: those for its directives, then those
/// of the rules for tests, for internal names, for scripts and for constants.
pub open spec fn file_findings(parsed: ParsedView) -> Seq<Finding> {
    directive_findings(parsed) + test_findings(parsed) + src_findings(parsed) + script_findings(
        parsed,
    ) + constant_findings(parsed)
}

/// All findings for the files `files`, file by file.
pub open spec fn all_findings(files: Seq<ParsedView>) -> Seq<Finding>
    decreases files.len(),
{
    if files.len() == 0 {
        Seq::empty()
    } else {
        all_findings(files.drop_last()) + file_findings(files.last())
    }
}

/// What the rules read of each of `files`.
pub open spec fn parsed_views(files: Seq<Parsed>) -> Seq<ParsedView> {
    Seq::new(files.len(), |i: int| files[i]@)
}

/// Reports the directives of `parsed` that were not accepted.
pub fn validate_directives(parsed: &Parsed) -> (items: Vec<InvalidItem>)
    ensures
        findings(items@) == directive_findings(parsed@),
{
    let mut items: Vec<InvalidItem> = Vec::new();
    let invalid = &parsed.invalid_inline_config_items;
    let mut i: usize = 0;
    while i < invalid.len()
        invariant
            i <= invalid.len(),
            invalid == &parsed.invalid_inline_config_items,
            items@.len() == i,
            forall|k: int| 0 <= k < i ==> (#[trigger] items@[k])@ == directive_findings(parsed@)[k],
        decreases invalid.len() - i,
    {
        let text = invalid[i].1.message();
        items.push(InvalidItem::new(ValidatorKind::Directive, parsed, invalid[i].0, text));
        i += 1;
    }
    assert(findings(items@) =~= directive_findings(parsed@));
    items
}

/// Runs the one rule `kind` on `parsed`.
pub fn run_rule(kind: ValidatorKind, parsed: &Parsed) -> (items: Vec<InvalidItem>)
    ensures
        findings(items@) == rule_findings(kind, parsed@),
{
    match kind {
        ValidatorKind::Constant => constant_names::validate(parsed),
        ValidatorKind::Script => script_one_public_run_method::validate(parsed),
        ValidatorKind::Src => src_names_internal::validate(parsed),
        ValidatorKind::Test => test_names::validate(parsed),
        ValidatorKind::Directive => validate_directives(parsed),
    }
}

/// Appends the items `more` to `items`.
fn extend(items: &mut Vec<InvalidItem>, more: Vec<InvalidItem>)
    ensures
        findings(final(items)@) == findings(old(items)@) + findings(more@),
{
    let mut more = more;
    let ghost added = more@;
    items.append(&mut more);
    assert(findings(items@) =~= findings(old(items)@) + findings(added));
}

/// Runs every rule on one file.
pub fn validate(parsed: &Parsed) -> (items: Vec<InvalidItem>)
    ensures
        findings(items@) == file_findings(parsed@),
{
    let mut items = validate_directives(parsed);
    extend(&mut items, test_names::validate(parsed));
    extend(&mut items, src_names_internal::validate(parsed));
    extend(&mut items, script_one_public_run_method::validate(parsed));
    extend(&mut items, constant_names::validate(parsed));
    items
}

/// Runs every rule on every file and gathers the findings in one report.
/// What the report shows is settled by the files alone.
pub fn validate_all(files: &Vec<Parsed>) -> (report: Report)
    ensures
        report@ == all_findings(parsed_views(files@)),
{
    let mut report = Report::default();
    let mut i: usize = 0;
    let ghost views = parsed_views(files@);
    assert(report@ =~= all_findings(views.take(0)));
    while i < files.len()
        invariant
            i <= files.len(),
            views == parsed_views(files@),
            report@ == all_findings(views.take(i as int)),
        decreases files.len() - i,
    {
        assert(views.take(i + 1).drop_last() == views.take(i as int));
        assert(views.take(i + 1).last() == files@[i as int]@);
        report.add_items(validate(&files[i]));
        i += 1;
    }
    assert(views.take(files.len() as int) == views);
    report
}

} // verus!
