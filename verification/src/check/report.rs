//! The report: every finding of a run, and how it is shown.
//!
//! Findings are added in whatever order the files are checked. What is shown
//! does not depend on that order: the findings that are not disabled, sorted
//! by rule, file, line and details, one line each.

use crate::check::utils::{findings, Finding, InvalidItem};
use crate::text::{
    chars_of, in_order, lemma_precedes_antisymmetric, lemma_precedes_reflexive,
    lemma_precedes_total, lemma_precedes_transitive, precedes, push_str, same, string_of,
};
use vstd::prelude::*;
use vstd::relations::{sorted_by, total_ordering};
use vstd::seq_lib::{lemma_sorted_unique, to_multiset_build, to_multiset_insert};

verus! {

// ---------------------------------------------------------------------------
// The order of findings
// ---------------------------------------------------------------------------

/// `a` is reported no later than `b`: findings are ordered by rule, then by
/// file, then by line, then by details; of two that agree in all of these,
/// the one that is not disabled comes first.
pub open spec fn finding_le(a: Finding, b: Finding) -> bool {
    if a.kind != b.kind {
        a.kind.rank() < b.kind.rank()
    } else if a.file != b.file {
        precedes(a.file, b.file)
    } else if a.line != b.line {
        a.line < b.line
    } else if a.text != b.text {
        precedes(a.text, b.text)
    } else {
        !a.is_disabled || b.is_disabled
    }
}

/// The order of findings, as a relation.
pub open spec fn report_order() -> spec_fn(Finding, Finding) -> bool {
    |a: Finding, b: Finding| finding_le(a, b)
}

/// Of three strings in order, of which two differ, the first and the last
/// are in order and differ.
proof fn lemma_precedes_strict(a: Seq<char>, b: Seq<char>, c: Seq<char>)
    requires
        precedes(a, b),
        precedes(b, c),
        a != b || b != c,
    ensures
        precedes(a, c),
        a != c,
{
    lemma_precedes_transitive(a, b, c);
    if a == c {
        lemma_precedes_antisymmetric(a, b);
    }
}

/// The order of findings is transitive.
pub proof fn lemma_finding_le_transitive(x: Finding, y: Finding, z: Finding)
    requires
        finding_le(x, y),
        finding_le(y, z),
    ensures
        finding_le(x, z),
{
    if x.kind == y.kind && y.kind == z.kind {
        if x.file == y.file && y.file == z.file {
            if x.line == y.line && y.line == z.line {
                if x.text == y.text && y.text == z.text {
                } else {
                    lemma_precedes_reflexive(x.text);
                    lemma_precedes_reflexive(z.text);
                    lemma_precedes_strict(x.text, y.text, z.text);
                }
            }
        } else {
            lemma_precedes_reflexive(x.file);
            lemma_precedes_reflexive(z.file);
            lemma_precedes_strict(x.file, y.file, z.file);
        }
    }
}

/// Two findings that are each reported no later than the other are the same.
pub proof fn lemma_finding_le_antisymmetric(x: Finding, y: Finding)
    requires
        finding_le(x, y),
        finding_le(y, x),
    ensures
        x == y,
{
    if x.kind == y.kind {
        if x.file != y.file {
            lemma_precedes_antisymmetric(x.file, y.file);
        } else if x.line == y.line {
            if x.text != y.text {
                lemma_precedes_antisymmetric(x.text, y.text);
            }
        }
    }
}

/// Of two findings, one is reported no later than the other.
pub proof fn lemma_finding_le_total(x: Finding, y: Finding)
    ensures
        finding_le(x, y) || finding_le(y, x),
{
    lemma_precedes_total(x.file, y.file);
    lemma_precedes_total(x.text, y.text);
}

/// The order of findings is a total order.
pub proof fn lemma_report_order_is_total()
    ensures
        total_ordering(report_order()),
{
    let leq = report_order();
    assert forall|x: Finding, y: Finding| #[trigger] leq(x, y) && #[trigger] leq(y, x) implies x
        == y by {
        lemma_finding_le_antisymmetric(x, y);
    }
    assert forall|x: Finding, y: Finding, z: Finding| #[trigger]
        leq(x, y) && #[trigger] leq(y, z) implies leq(x, z) by {
        lemma_finding_le_transitive(x, y, z);
    }
    assert forall|x: Finding, y: Finding| #[trigger] leq(x, y) || #[trigger] leq(y, x) by {
        lemma_finding_le_total(x, y);
    }
}

/// Whether `a` is reported no later than `b`.
pub fn comes_first(a: &InvalidItem, b: &InvalidItem) -> (r: bool)
    ensures
        r == finding_le(a@, b@),
{
    let a_rank = a.kind.position();
    let b_rank = b.kind.position();
    if a_rank != b_rank {
        return a_rank < b_rank;
    }
    let a_file = chars_of(a.file.as_str());
    let b_file = chars_of(b.file.as_str());
    if !same(a_file.as_slice(), b_file.as_slice()) {
        return in_order(a_file.as_slice(), b_file.as_slice());
    }
    if a.line != b.line {
        return a.line < b.line;
    }
    let a_text = chars_of(a.text.as_str());
    let b_text = chars_of(b.text.as_str());
    if !same(a_text.as_slice(), b_text.as_slice()) {
        return in_order(a_text.as_slice(), b_text.as_slice());
    }
    !a.is_disabled || b.is_disabled
}

// ---------------------------------------------------------------------------
// What is shown
// ---------------------------------------------------------------------------

/// The findings among `items` that are not disabled, in order.
pub open spec fn visible(items: Seq<Finding>) -> Seq<Finding>
    decreases items.len(),
{
    if items.len() == 0 {
        Seq::empty()
    } else if items.last().is_disabled {
        visible(items.drop_last())
    } else {
        visible(items.drop_last()).push(items.last())
    }
}

/// The findings that a report with the findings `items` shows, in the order
/// in which it shows them.
pub open spec fn shown(items: Seq<Finding>) -> Seq<Finding> {
    visible(items).sort_by(report_order())
}

/// The descriptions of `items`, each followed by a line feed.
pub open spec fn lines_of(items: Seq<Finding>) -> Seq<char>
    decreases items.len(),
{
    if items.len() == 0 {
        Seq::empty()
    } else {
        lines_of(items.drop_last()) + items.last().description().push('\n')
    }
}

/// The text of a report with the findings `items`.
pub open spec fn rendered(items: Seq<Finding>) -> Seq<char> {
    lines_of(shown(items))
}

/// What each of the items behind `refs` says.
pub open spec fn findings_of(refs: Seq<&InvalidItem>) -> Seq<Finding> {
    Seq::new(refs.len(), |i: int| refs[i]@)
}

/// A collection of invalid items to generate a report from.
#[derive(Debug)]
pub struct Report {
    /// A list of invalid items.
    invalid_items: Vec<InvalidItem>,
}

impl View for Report {
    type V = Seq<Finding>;

    /// The findings, in the order in which they were added.
    closed spec fn view(&self) -> Seq<Finding> {
        findings(self.invalid_items@)
    }
}

impl Default for Report {
    /// The report without findings.
    fn default() -> (report: Self)
        ensures
            report@ == Seq::<Finding>::empty(),
    {
        let report = Report { invalid_items: Vec::new() };
        assert(report@ =~= Seq::<Finding>::empty());
        report
    }
}

impl Report {
    /// Extends the report with the invalid item.
    pub fn add_item(&mut self, item: InvalidItem)
        ensures
            final(self)@ == old(self)@.push(item@),
    {
        self.invalid_items.push(item);
        assert(self@ =~= old(self)@.push(item@));
    }

    /// Extends the report with a list of invalid items.
    pub fn add_items(&mut self, items: Vec<InvalidItem>)
        ensures
            final(self)@ == old(self)@ + findings(items@),
    {
        let mut items = items;
        let ghost added = items@;
        self.invalid_items.append(&mut items);
        assert(self@ =~= old(self)@ + findings(added));
    }

    /// Returns true if no issues were found: every finding of the report is
    /// disabled.
    pub fn is_valid(&self) -> (r: bool)
        ensures
            r == (visible(self@).len() == 0),
            r == forall|i: int| 0 <= i < self@.len() ==> (#[trigger] self@[i]).is_disabled,
    {
        let mut i: usize = 0;
        proof {
            lemma_visible_empty(self@);
        }
        while i < self.invalid_items.len()
            invariant
                i <= self.invalid_items.len(),
                (visible(self@).len() == 0) == forall|k: int|
                    0 <= k < self@.len() ==> (#[trigger] self@[k]).is_disabled,
                forall|k: int| 0 <= k < i ==> (#[trigger] self@[k]).is_disabled,
            decreases self.invalid_items.len() - i,
        {
            if !self.invalid_items[i].is_disabled {
                assert(!self@[i as int].is_disabled);
                return false;
            }
            i += 1;
        }
        true
    }

    /// The findings of the report, disabled ones included, in the order in
    /// which they were added.
    pub fn items(&self) -> (items: &Vec<InvalidItem>)
        ensures
            findings(items@) == self@,
    {
        &self.invalid_items
    }

    /// The items that are shown, in the order in which they are shown.
    pub fn sorted_items(&self) -> (sorted: Vec<&InvalidItem>)
        ensures
            findings_of(sorted@) == shown(self@),
    {
        let mut sorted: Vec<&InvalidItem> = Vec::new();
        let mut i: usize = 0;
        proof {
            lemma_report_order_is_total();
        }
        assert(findings_of(sorted@) =~= Seq::<Finding>::empty());
        while i < self.invalid_items.len()
            invariant
                i <= self.invalid_items.len(),
                total_ordering(report_order()),
                sorted_by(findings_of(sorted@), report_order()),
                findings_of(sorted@).to_multiset() == visible(self@.take(i as int)).to_multiset(),
            decreases self.invalid_items.len() - i,
        {
            let item = &self.invalid_items[i];
            assert(self@.take(i + 1).drop_last() == self@.take(i as int));
            assert(self@.take(i + 1).last() == item@);
            if !item.is_disabled {
                let mut at: usize = 0;
                while at < sorted.len() && comes_first(sorted[at], item)
                    invariant
                        at <= sorted.len(),
                        forall|k: int|
                            0 <= k < at ==> finding_le(
                                #[trigger] findings_of(sorted@)[k],
                                item@,
                            ),
                    decreases sorted.len() - at,
                {
                    at += 1;
                }
                let ghost before = findings_of(sorted@);
                sorted.insert(at, item);
                assert(findings_of(sorted@) =~= before.insert(at as int, item@));
                proof {
                    to_multiset_insert(before, at as int, item@);
                    to_multiset_build(visible(self@.take(i as int)), item@);
                    let after = findings_of(sorted@);
                    let leq = report_order();
                    assert forall|p: int, q: int| 0 <= p < q < after.len() implies #[trigger] leq(
                        after[p],
                        after[q],
                    ) by {
                        if q == at {
                            assert(after[p] == before[p]);
                        } else if p == at {
                            assert(after[q] == before[q - 1]);
                            assert(!finding_le(before[at as int], item@));
                            lemma_finding_le_total(before[at as int], item@);
                            if q - 1 > at {
                                assert(leq(before[at as int], before[q - 1]));
                                lemma_finding_le_transitive(
                                    item@,
                                    before[at as int],
                                    before[q - 1],
                                );
                            }
                        } else {
                            let bp = if p < at { p } else { p - 1 };
                            let bq = if q < at { q } else { q - 1 };
                            assert(after[p] == before[bp]);
                            assert(after[q] == before[bq]);
                            assert(leq(before[bp], before[bq]));
                        }
                    }
                }
            }
            i += 1;
        }
        proof {
            assert(self@.take(self.invalid_items.len() as int) == self@);
            visible(self@).lemma_sort_by_ensures(report_order());
            lemma_sorted_unique(findings_of(sorted@), shown(self@), report_order());
        }
        sorted
    }

    /// The text of the report: one line for each finding that is not
    /// disabled, in the order of findings.
    pub fn render(&self) -> (s: String)
        ensures
            s@ == rendered(self@),
    {
        let sorted = self.sorted_items();
        let mut out: Vec<char> = Vec::new();
        let mut i: usize = 0;
        while i < sorted.len()
            invariant
                i <= sorted.len(),
                findings_of(sorted@) == shown(self@),
                out@ == lines_of(shown(self@).take(i as int)),
            decreases sorted.len() - i,
        {
            assert(shown(self@).take(i + 1).drop_last() == shown(self@).take(i as int));
            assert(shown(self@).take(i + 1).last() == sorted@[i as int]@);
            let line = sorted[i].description();
            push_str(&mut out, line.as_str());
            out.push('\n');
            assert(out@ == lines_of(shown(self@).take(i as int)) + line@.push('\n'));
            i += 1;
        }
        assert(shown(self@).take(sorted.len() as int) == shown(self@));
        string_of(out.as_slice())
    }
}

/// Nothing is visible exactly when every finding is disabled.
pub proof fn lemma_visible_empty(items: Seq<Finding>)
    ensures
        (visible(items).len() == 0) == forall|i: int|
            0 <= i < items.len() ==> (#[trigger] items[i]).is_disabled,
    decreases items.len(),
{
    if items.len() > 0 {
        lemma_visible_empty(items.drop_last());
        if items.last().is_disabled {
            assert forall|i: int| 0 <= i < items.len() && (forall|k: int|
                0 <= k < items.len() - 1 ==> (#[trigger] items.drop_last()[k]).is_disabled)
                implies (#[trigger] items[i]).is_disabled by {
                if i < items.len() - 1 {
                    assert(items.drop_last()[i].is_disabled);
                }
            }
            if forall|i: int| 0 <= i < items.len() ==> (#[trigger] items[i]).is_disabled {
                assert forall|k: int| 0 <= k < items.len() - 1 implies (
                #[trigger] items.drop_last()[k]).is_disabled by {
                    assert(items[k].is_disabled);
                }
            }
        }
    }
}

} // verus!
