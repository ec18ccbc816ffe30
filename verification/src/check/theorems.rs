//! What holds of the check as a whole.

use crate::check::inline_config::{
    disabled_ranges, lemma_line_end, lemma_line_start, line_end, line_start, scan, step_spec,
    DisabledRange, InlineConfigItem, RegionState,
};
use crate::check::report::{
    lemma_report_order_is_total, lines_of, rendered, report_order, shown, visible,
};
use crate::check::syntax::Loc;
use crate::check::utils::{finding_at, line_of, Finding, ValidatorKind};
use crate::check::{all_findings, file_findings, ParsedView};
use crate::text::{count_of, lemma_count_between, occurs_at, occurs_in};
use vstd::prelude::*;
use vstd::seq_lib::{
    lemma_multiset_commutative, lemma_sorted_unique, to_multiset_build, to_multiset_contains,
    to_multiset_len, to_multiset_remove,
};

verus! {

/// Each finding occurs among the visible ones as often as in the whole, or
/// not at all if it is disabled.
proof fn lemma_visible_count(items: Seq<Finding>, f: Finding)
    ensures
        visible(items).to_multiset().count(f) == if f.is_disabled {
            0
        } else {
            items.to_multiset().count(f)
        },
    decreases items.len(),
{
    broadcast use vstd::multiset::group_multiset_axioms;

    if items.len() == 0 {
        assert(items.to_multiset().count(f) == 0) by {
            to_multiset_contains(items, f);
        }
        assert(visible(items).to_multiset().count(f) == 0) by {
            to_multiset_contains(visible(items), f);
        }
    } else {
        let init = items.drop_last();
        lemma_visible_count(init, f);
        assert(items == init.push(items.last()));
        to_multiset_build(init, items.last());
        if !items.last().is_disabled {
            to_multiset_build(visible(init), items.last());
        }
    }
}

/// The line of each finding stands in the lines of all of them.
proof fn lemma_line_occurs(items: Seq<Finding>, i: int)
    requires
        0 <= i < items.len(),
    ensures
        occurs_in(items[i].description().push('\n'), lines_of(items)),
    decreases items.len(),
{
    let line = items[i].description().push('\n');
    let init = items.drop_last();
    if i == items.len() - 1 {
        let at = lines_of(init).len() as int;
        assert(lines_of(items).subrange(at, at + line.len()) =~= line);
        assert(occurs_at(line, lines_of(items), at));
    } else {
        lemma_line_occurs(init, i);
        let at = choose|at: int| occurs_at(line, lines_of(init), at);
        assert(lines_of(items).subrange(at, at + line.len()) =~= lines_of(init).subrange(
            at,
            at + line.len(),
        ));
        assert(occurs_at(line, lines_of(items), at));
    }
}

/// The findings of two lists of files, one after the other.
proof fn lemma_all_findings_append(a: Seq<ParsedView>, b: Seq<ParsedView>)
    ensures
        all_findings(a + b) == all_findings(a) + all_findings(b),
    decreases b.len(),
{
    if b.len() == 0 {
        assert(a + b == a);
        assert(all_findings(a) + all_findings(b) =~= all_findings(a));
    } else {
        lemma_all_findings_append(a, b.drop_last());
        assert((a + b).drop_last() == a + b.drop_last());
        assert(all_findings(a + b) =~= all_findings(a) + all_findings(b));
    }
}

/// What a report shows does not depend on the order in which its findings
/// were added: two reports that hold the same findings, each as often as the
/// other, show the same text.
pub proof fn theorem_order_of_findings_is_immaterial(a: Seq<Finding>, b: Seq<Finding>)
    requires
        a.to_multiset() == b.to_multiset(),
    ensures
        shown(a) == shown(b),
        rendered(a) == rendered(b),
{
    lemma_report_order_is_total();
    assert(visible(a).to_multiset() =~= visible(b).to_multiset()) by {
        assert forall|f: Finding|
            visible(a).to_multiset().count(f) == visible(b).to_multiset().count(f) by {
            lemma_visible_count(a, f);
            lemma_visible_count(b, f);
        }
    }
    visible(a).lemma_sort_by_ensures(report_order());
    visible(b).lemma_sort_by_ensures(report_order());
    lemma_sorted_unique(shown(a), shown(b), report_order());
}

/// The findings for some files are those for the files without one of them
/// and those for that one, each as often.
proof fn lemma_all_findings_remove(files: Seq<ParsedView>, i: int)
    requires
        0 <= i < files.len(),
    ensures
        all_findings(files).to_multiset() == all_findings(files.remove(i)).to_multiset().add(
            file_findings(files[i]).to_multiset(),
        ),
{
    broadcast use vstd::multiset::group_multiset_axioms;

    let before = files.take(i);
    let one = seq![files[i]];
    let after = files.skip(i + 1);
    assert(files =~= before + one + after);
    assert(files.remove(i) =~= before + after);
    assert(one.drop_last() == Seq::<ParsedView>::empty());
    assert(all_findings(one) =~= file_findings(files[i])) by {
        reveal_with_fuel(all_findings, 2);
    }
    lemma_all_findings_append(before, one);
    lemma_all_findings_append(before + one, after);
    lemma_all_findings_append(before, after);
    lemma_multiset_commutative(all_findings(before), all_findings(one));
    lemma_multiset_commutative(all_findings(before) + all_findings(one), all_findings(after));
    lemma_multiset_commutative(all_findings(before), all_findings(after));
    assert(all_findings(files).to_multiset() =~= all_findings(files.remove(i)).to_multiset().add(
        file_findings(files[i]).to_multiset(),
    ));
}

/// The same files in any order have the same findings, each as often.
proof fn lemma_all_findings_permuted(a: Seq<ParsedView>, b: Seq<ParsedView>)
    requires
        a.to_multiset() == b.to_multiset(),
    ensures
        all_findings(a).to_multiset() == all_findings(b).to_multiset(),
    decreases a.len(),
{
    broadcast use vstd::multiset::group_multiset_axioms;

    to_multiset_len(a);
    to_multiset_len(b);
    if a.len() == 0 {
        assert(a =~= b);
    } else {
        let last = a.len() - 1;
        let x = a[last];
        assert(a.contains(x));
        to_multiset_contains(a, x);
        to_multiset_contains(b, x);
        let i = choose|i: int| 0 <= i < b.len() && b[i] == x;
        to_multiset_remove(a, last);
        to_multiset_remove(b, i);
        lemma_all_findings_permuted(a.remove(last), b.remove(i));
        lemma_all_findings_remove(a, last);
        lemma_all_findings_remove(b, i);
    }
}

/// A run on the same files gives the same report, whatever the order in
/// which the files are taken.
pub proof fn theorem_order_of_files_is_immaterial(a: Seq<ParsedView>, b: Seq<ParsedView>)
    requires
        a.to_multiset() == b.to_multiset(),
    ensures
        rendered(all_findings(a)) == rendered(all_findings(b)),
{
    lemma_all_findings_permuted(a, b);
    theorem_order_of_findings_is_immaterial(all_findings(a), all_findings(b));
}

/// A disabled finding changes nothing in what a report shows.
pub proof fn theorem_disabled_finding_is_not_shown(report: Seq<Finding>, f: Finding)
    requires
        f.is_disabled,
    ensures
        shown(report.push(f)) == shown(report),
        rendered(report.push(f)) == rendered(report),
{
    assert(report.push(f).drop_last() == report);
}

/// A finding that is not disabled is shown, and its line stands in the text
/// of the report.
pub proof fn theorem_enabled_finding_is_shown(report: Seq<Finding>, f: Finding)
    requires
        !f.is_disabled,
    ensures
        shown(report.push(f)).contains(f),
        occurs_in(f.description().push('\n'), rendered(report.push(f))),
{
    broadcast use vstd::multiset::group_multiset_axioms;

    lemma_report_order_is_total();
    let all = report.push(f);
    assert(all.drop_last() == report);
    let seen = visible(all);
    assert(seen == visible(report).push(f));
    assert(seen[seen.len() - 1] == f);
    assert(seen.contains(f));
    seen.lemma_sort_by_ensures(report_order());
    to_multiset_contains(seen, f);
    to_multiset_contains(shown(all), f);
    let i = choose|i: int| 0 <= i < shown(all).len() && shown(all)[i] == f;
    lemma_line_occurs(shown(all), i);
}

/// In a file whose directives are one `disable-start` and one `disable-end`,
/// a finding of any rule that starts between the end of the first and the
/// start of the second is disabled and is not shown, whatever else the
/// report holds; the same finding at a start before or after those offsets
/// is shown.
pub proof fn theorem_region_silences_what_is_inside(
    parsed: ParsedView,
    start: Loc,
    end: Loc,
    kind: ValidatorKind,
    loc: Loc,
    text: Seq<char>,
    report: Seq<Finding>,
)
    requires
        parsed.inline_config.ranges == disabled_ranges(
            seq![(start, InlineConfigItem::DisableStart), (end, InlineConfigItem::DisableEnd)],
            parsed.src,
        ),
    ensures
        ({
            let f = finding_at(kind, parsed, loc, text);
            if start.end <= loc.start <= end.start {
                &&& f.is_disabled
                &&& shown(report.push(f)) == shown(report)
                &&& rendered(report.push(f)) == rendered(report)
            } else {
                &&& !f.is_disabled
                &&& shown(report.push(f)).contains(f)
                &&& occurs_in(f.description().push('\n'), rendered(report.push(f)))
            }
        }),
{
    let items = seq![(start, InlineConfigItem::DisableStart), (end, InlineConfigItem::DisableEnd)];
    let first = seq![(start, InlineConfigItem::DisableStart)];
    assert(items.drop_last() == first);
    assert(first.drop_last() == Seq::<(Loc, InlineConfigItem)>::empty());
    reveal_with_fuel(scan, 3);
    let range = DisabledRange {
        start: start.end,
        end: end.start,
        filter: None,
        directive: start,
    };
    assert(parsed.inline_config.ranges == seq![range]);
    let f = finding_at(kind, parsed, loc, text);
    if start.end <= loc.start <= end.start {
        assert(parsed.inline_config.ranges[0].covers(loc, kind));
        theorem_disabled_finding_is_not_shown(report, f);
    } else {
        theorem_enabled_finding_is_shown(report, f);
    }
}

/// A `disable-line` directive silences exactly the findings on its line:
/// where the directive stands on one line of the text, a finding is covered
/// by the range of the directive exactly when it starts on that line.
pub proof fn theorem_disable_line_silences_its_line(
    src: Seq<char>,
    state: RegionState,
    loc: Loc,
    kind: ValidatorKind,
    at: Loc,
)
    requires
        src.len() <= usize::MAX,
        loc.start <= loc.end <= src.len(),
        at.start <= src.len(),
        forall|k: int| loc.start <= k < loc.end ==> src[k] != '\n',
    ensures
        ({
            let effect = step_spec(state, loc, InlineConfigItem::DisableLine(None), src).1;
            &&& effect is Disable
            &&& effect->Disable_0.covers(at, kind) <==> line_of(src, at.start as int) == line_of(
                src,
                loc.start as int,
            )
        }),
{
    let first = line_start(src, loc.start as int);
    let last = line_end(src, loc.end as int);
    let p = at.start as int;
    lemma_line_start(src, loc.start as int);
    lemma_line_end(src, loc.end as int);
    assert forall|k: int| first <= k < last implies src[k] != '\n' by {}
    lemma_count_between(src, '\n', first, loc.start as int);
    if p < first {
        assert(p <= first - 1 < first && src[first - 1] == '\n');
        lemma_count_between(src, '\n', p, first);
    } else if p <= last {
        lemma_count_between(src, '\n', first, p);
    } else {
        assert(first <= last < p && src[last] == '\n');
        lemma_count_between(src, '\n', first, last);
        lemma_count_between(src, '\n', last, p);
    }
}

/// A `disable-next-line` directive silences exactly the findings on the
/// line after it: where a line follows the line on which the directive ends,
/// a finding is covered by the range of the directive exactly when it starts
/// on that following line.
pub proof fn theorem_disable_next_line_silences_the_next_line(
    src: Seq<char>,
    state: RegionState,
    loc: Loc,
    kind: ValidatorKind,
    at: Loc,
)
    requires
        src.len() <= usize::MAX,
        loc.end <= src.len(),
        at.start <= src.len(),
        line_end(src, loc.end as int) < src.len(),
    ensures
        ({
            let effect = step_spec(state, loc, InlineConfigItem::DisableNextLine(None), src).1;
            &&& effect is Disable
            &&& effect->Disable_0.covers(at, kind) <==> line_of(src, at.start as int) == line_of(
                src,
                loc.end as int,
            ) + 1
        }),
{
    let feed = line_end(src, loc.end as int);
    let last = line_end(src, feed + 1);
    let p = at.start as int;
    lemma_line_end(src, loc.end as int);
    lemma_line_end(src, feed + 1);
    lemma_count_between(src, '\n', loc.end as int, feed);
    assert(feed <= feed < feed + 1 && src[feed] == '\n');
    lemma_count_between(src, '\n', feed, feed + 1);
    assert(src.take(feed + 1).drop_last() == src.take(feed));
    assert(count_of(src.take(feed + 1), '\n') == count_of(src.take(feed), '\n') + 1);
    if p <= feed {
        lemma_count_between(src, '\n', p, feed);
    } else if p <= last {
        lemma_count_between(src, '\n', feed + 1, p);
    } else {
        assert(feed + 1 <= last < p && src[last] == '\n');
        lemma_count_between(src, '\n', feed + 1, last);
        lemma_count_between(src, '\n', last, p);
    }
}

} // verus!
