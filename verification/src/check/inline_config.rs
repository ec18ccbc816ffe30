//! Directives that silence findings, and the stretches of a file that they
//! disable.
//!
//! A directive is one of `disable-line`, `disable-next-line`, `disable-start`
//! and `disable-end`. The first two disable one line and may name the rule
//! that they silence; the last two enclose a region. The directives of a file
//! are read in order by an automaton with two states, which turns them into
//! disabled ranges and reports each directive that does not pair up.

use crate::check::syntax::Loc;
use crate::check::utils::ValidatorKind;
use crate::text::{
    blank, chars_of, is_blank, is_prefix, push_str, same, slice_of, starts_with, string_of,
    trim_left, trim_start,
};
use vstd::prelude::*;

verus! {

/// What a directive asks for.
#[derive(Clone, Copy, Debug, PartialEq, Eq)]
pub enum InlineConfigItem {
    /// Disables the line that the directive stands on, for one rule or for all.
    DisableLine(Option<ValidatorKind>),
    /// Disables the line after the directive, for one rule or for all.
    DisableNextLine(Option<ValidatorKind>),
    /// Opens a disabled region.
    DisableStart,
    /// Closes the open disabled region.
    DisableEnd,
}

/// Why a directive was not accepted.
#[derive(Clone, Debug, PartialEq, Eq)]
pub enum InvalidInlineConfigItem {
    /// The text after the marker is no directive. Holds that text.
    Unrecognized(String),
    /// A `disable-start` inside a region that is already open.
    AlreadyStarted,
    /// A `disable-end` where no region is open.
    NotStarted,
    /// A `disable-start` that no `disable-end` follows.
    NeverEnded,
}

/// A closed interval of offsets in which findings are silenced, for one rule
/// or, without a filter, for all.
#[derive(Clone, Copy, Debug, PartialEq, Eq)]
pub struct DisabledRange {
    pub start: usize,
    pub end: usize,
    pub filter: Option<ValidatorKind>,
    /// Where the directive stands that disabled the range; for a region,
    /// its `disable-start`. It serves to locate the directive and plays no
    /// part in what the range silences.
    pub directive: Loc,
}

/// The state of the automaton that reads the directives of a file.
#[derive(Clone, Copy, Debug, PartialEq, Eq)]
pub enum RegionState {
    NoOpenRegion,
    /// A `disable-start` at `start_loc` waits for its `disable-end`.
    OpenRegion { start_loc: Loc },
}

/// What the automaton does on one directive.
#[derive(Clone, Debug, PartialEq, Eq)]
pub enum Effect {
    Nothing,
    /// The directive disables a range.
    Disable(DisabledRange),
    /// The directive is reported.
    Reject(InvalidInlineConfigItem),
}

// ---------------------------------------------------------------------------
// The text of a directive
// ---------------------------------------------------------------------------

/// The rule that a directive names.
pub open spec fn rule_named(name: Seq<char>) -> Option<ValidatorKind> {
    if name == "constant"@ {
        Some(ValidatorKind::Constant)
    } else if name == "script"@ {
        Some(ValidatorKind::Script)
    } else if name == "src"@ {
        Some(ValidatorKind::Src)
    } else if name == "test"@ {
        Some(ValidatorKind::Test)
    } else if name == "directive"@ {
        Some(ValidatorKind::Directive)
    } else {
        None
    }
}

/// How `payload` reads as the line-scoped directive `keyword`: the keyword
/// alone, which silences every rule, or the keyword, blanks and the name of
/// the one rule to silence. `None` if it reads as neither.
pub open spec fn scoped(keyword: Seq<char>, payload: Seq<char>) -> Option<Option<ValidatorKind>> {
    if payload == keyword {
        Some(None)
    } else if is_prefix(keyword, payload) && payload.len() > keyword.len() && is_blank(
        payload[keyword.len() as int],
    ) {
        match rule_named(trim_start(payload.skip(keyword.len() as int))) {
            Some(kind) => Some(Some(kind)),
            None => None,
        }
    } else {
        None
    }
}

/// The directive that `payload` spells, if any. `payload` is the text after
/// the marker, without blanks around it.
pub open spec fn directive_of(payload: Seq<char>) -> Option<InlineConfigItem> {
    if payload == "disable-start"@ {
        Some(InlineConfigItem::DisableStart)
    } else if payload == "disable-end"@ {
        Some(InlineConfigItem::DisableEnd)
    } else if scoped("disable-next-line"@, payload) is Some {
        Some(InlineConfigItem::DisableNextLine(scoped("disable-next-line"@, payload).unwrap()))
    } else if scoped("disable-line"@, payload) is Some {
        Some(InlineConfigItem::DisableLine(scoped("disable-line"@, payload).unwrap()))
    } else {
        None
    }
}

/// The rule that `name` names.
pub fn rule_by_name(name: &[char]) -> (kind: Option<ValidatorKind>)
    ensures
        kind == rule_named(name@),
{
    if same(name, chars_of("constant").as_slice()) {
        Some(ValidatorKind::Constant)
    } else if same(name, chars_of("script").as_slice()) {
        Some(ValidatorKind::Script)
    } else if same(name, chars_of("src").as_slice()) {
        Some(ValidatorKind::Src)
    } else if same(name, chars_of("test").as_slice()) {
        Some(ValidatorKind::Test)
    } else if same(name, chars_of("directive").as_slice()) {
        Some(ValidatorKind::Directive)
    } else {
        None
    }
}

/// Reads `payload` as the line-scoped directive `keyword`.
pub fn read_scoped(keyword: &str, payload: &[char]) -> (r: Option<Option<ValidatorKind>>)
    ensures
        r == scoped(keyword@, payload@),
{
    let key = chars_of(keyword);
    if same(payload, key.as_slice()) {
        Some(None)
    } else if starts_with(payload, key.as_slice()) && payload.len() > key.len() && blank(
        payload[key.len()],
    ) {
        let rest = slice_of(payload, key.len(), payload.len());
        assert(rest@ == payload@.skip(key.len() as int));
        let name = trim_left(rest.as_slice());
        match rule_by_name(name.as_slice()) {
            Some(kind) => Some(Some(kind)),
            None => None,
        }
    } else {
        None
    }
}

impl InlineConfigItem {
    /// Reads a directive from the text after the marker, which has no blanks
    /// around it. Text that spells no directive comes back as the error.
    pub fn from_text(payload: &[char]) -> (r: Result<Self, InvalidInlineConfigItem>)
        ensures
            match r {
                Ok(item) => directive_of(payload@) == Some(item),
                Err(InvalidInlineConfigItem::Unrecognized(text)) => directive_of(payload@) is None
                    && text@ == payload@,
                Err(_) => false,
            },
    {
        if same(payload, chars_of("disable-start").as_slice()) {
            return Ok(InlineConfigItem::DisableStart);
        }
        if same(payload, chars_of("disable-end").as_slice()) {
            return Ok(InlineConfigItem::DisableEnd);
        }
        match read_scoped("disable-next-line", payload) {
            Some(filter) => {
                return Ok(InlineConfigItem::DisableNextLine(filter));
            },
            None => {},
        }
        match read_scoped("disable-line", payload) {
            Some(filter) => {
                return Ok(InlineConfigItem::DisableLine(filter));
            },
            None => {},
        }
        Err(InvalidInlineConfigItem::Unrecognized(string_of(payload)))
    }
}

impl InvalidInlineConfigItem {
    /// A copy of the reason.
    pub fn duplicate(&self) -> (copy: Self)
        ensures
            copy == *self,
    {
        match self {
            InvalidInlineConfigItem::Unrecognized(text) => InvalidInlineConfigItem::Unrecognized(
                text.clone(),
            ),
            InvalidInlineConfigItem::AlreadyStarted => InvalidInlineConfigItem::AlreadyStarted,
            InvalidInlineConfigItem::NotStarted => InvalidInlineConfigItem::NotStarted,
            InvalidInlineConfigItem::NeverEnded => InvalidInlineConfigItem::NeverEnded,
        }
    }

    /// What is shown to the user for text after the marker that spells no
    /// directive.
    pub open spec fn unrecognized_text(payload: Seq<char>) -> Seq<char> {
        "Invalid inline config item: "@ + payload
    }

    /// What is shown to the user for the directive.
    pub open spec fn message_text(&self) -> Seq<char> {
        "Invalid inline config item: "@ + match self {
            InvalidInlineConfigItem::Unrecognized(text) => text@,
            InvalidInlineConfigItem::AlreadyStarted => "disable-start inside a disabled region"@,
            InvalidInlineConfigItem::NotStarted => "disable-end without disable-start"@,
            InvalidInlineConfigItem::NeverEnded => "disable-start without disable-end"@,
        }
    }

    /// What is shown to the user for the directive.
    pub fn message(&self) -> (s: String)
        ensures
            s@ == self.message_text(),
    {
        let mut out = chars_of("Invalid inline config item: ");
        match self {
            InvalidInlineConfigItem::Unrecognized(text) => push_str(&mut out, text.as_str()),
            InvalidInlineConfigItem::AlreadyStarted => push_str(
                &mut out,
                "disable-start inside a disabled region",
            ),
            InvalidInlineConfigItem::NotStarted => push_str(
                &mut out,
                "disable-end without disable-start",
            ),
            InvalidInlineConfigItem::NeverEnded => push_str(
                &mut out,
                "disable-start without disable-end",
            ),
        }
        string_of(out.as_slice())
    }
}

/// What is reported for each of `items`: its location and its message.
pub open spec fn reports(items: Seq<(Loc, InvalidInlineConfigItem)>) -> Seq<(Loc, Seq<char>)> {
    Seq::new(items.len(), |i: int| (items[i].0, items[i].1.message_text()))
}

// ---------------------------------------------------------------------------
// Lines
// ---------------------------------------------------------------------------

/// The offset at which the line that holds offset `pos` begins: just after
/// the nearest line feed before `pos`, or 0.
pub open spec fn line_start(src: Seq<char>, pos: int) -> int
    decreases pos,
{
    if pos <= 0 {
        0
    } else if pos <= src.len() && src[pos - 1] == '\n' {
        pos
    } else {
        line_start(src, pos - 1)
    }
}

/// The offset at which the line that holds offset `pos` ends: that of the
/// nearest line feed at or after `pos`, or the length of the text.
pub open spec fn line_end(src: Seq<char>, pos: int) -> int
    decreases src.len() - pos,
{
    if pos >= src.len() {
        src.len() as int
    } else if pos >= 0 && src[pos] == '\n' {
        pos
    } else {
        line_end(src, pos + 1)
    }
}

/// The line that holds an offset begins at or before the offset, at the
/// start of the text or just after a line feed, and no line feed stands
/// between its beginning and the offset.
pub proof fn lemma_line_start(src: Seq<char>, pos: int)
    requires
        0 <= pos <= src.len(),
    ensures
        0 <= line_start(src, pos) <= pos,
        line_start(src, pos) == 0 || src[line_start(src, pos) - 1] == '\n',
        forall|k: int| line_start(src, pos) <= k < pos ==> src[k] != '\n',
    decreases pos,
{
    if pos > 0 && src[pos - 1] != '\n' {
        lemma_line_start(src, pos - 1);
    }
}

/// The line that holds an offset ends at or after the offset, at the end of
/// the text or at a line feed, and no line feed stands between the offset
/// and its end.
pub proof fn lemma_line_end(src: Seq<char>, pos: int)
    requires
        0 <= pos <= src.len(),
    ensures
        pos <= line_end(src, pos) <= src.len(),
        line_end(src, pos) == src.len() || src[line_end(src, pos)] == '\n',
        forall|k: int| pos <= k < line_end(src, pos) ==> src[k] != '\n',
    decreases src.len() - pos,
{
    if pos < src.len() && src[pos] != '\n' {
        lemma_line_end(src, pos + 1);
    }
}

/// The offset at which the line that holds offset `pos` begins.
pub fn start_of_line(src: &[char], pos: usize) -> (start: usize)
    ensures
        start == line_start(src@, pos as int),
        start <= pos,
{
    let mut at: usize = pos;
    while at > 0 && !(at <= src.len() && src[at - 1] == '\n')
        invariant
            at <= pos,
            line_start(src@, pos as int) == line_start(src@, at as int),
        decreases at,
    {
        at -= 1;
    }
    at
}

/// The offset at which the line that holds offset `pos` ends.
pub fn end_of_line(src: &[char], pos: usize) -> (end: usize)
    ensures
        end == line_end(src@, pos as int),
        end <= src.len(),
{
    let mut at: usize = pos;
    while at < src.len() && src[at] != '\n'
        invariant
            line_end(src@, pos as int) == line_end(src@, at as int),
        decreases src.len() - at,
    {
        at += 1;
    }
    if at >= src.len() {
        src.len()
    } else {
        at
    }
}

// ---------------------------------------------------------------------------
// The automaton
// ---------------------------------------------------------------------------

/// The state after the directive `item` at `loc`, read in state `state`, and
/// what the directive does.
///
/// - `disable-line` disables the line or lines that the directive stands on.
/// - `disable-next-line` disables the line after the one on which the
///   directive ends; at the end of the text there is no such line and nothing
///   is disabled.
/// - `disable-start` opens a region; inside an open region it is reported and
///   the region stays as it is.
/// - `disable-end` closes the open region, which disables the offsets from
///   the end of the `disable-start` to the start of the `disable-end`; where
///   no region is open it is reported.
pub open spec fn step_spec(
    state: RegionState,
    loc: Loc,
    item: InlineConfigItem,
    src: Seq<char>,
) -> (RegionState, Effect) {
    match item {
        InlineConfigItem::DisableLine(filter) => (
            state,
            Effect::Disable(
                DisabledRange {
                    start: line_start(src, loc.start as int) as usize,
                    end: line_end(src, loc.end as int) as usize,
                    filter,
                    directive: loc,
                },
            ),
        ),
        InlineConfigItem::DisableNextLine(filter) => {
            let feed = line_end(src, loc.end as int);
            if feed < src.len() {
                (
                    state,
                    Effect::Disable(
                        DisabledRange {
                            start: (feed + 1) as usize,
                            end: line_end(src, feed + 1) as usize,
                            filter,
                            directive: loc,
                        },
                    ),
                )
            } else {
                (state, Effect::Nothing)
            }
        },
        InlineConfigItem::DisableStart => match state {
            RegionState::NoOpenRegion => (
                RegionState::OpenRegion { start_loc: loc },
                Effect::Nothing,
            ),
            RegionState::OpenRegion { .. } => (
                state,
                Effect::Reject(InvalidInlineConfigItem::AlreadyStarted),
            ),
        },
        InlineConfigItem::DisableEnd => match state {
            RegionState::NoOpenRegion => (
                state,
                Effect::Reject(InvalidInlineConfigItem::NotStarted),
            ),
            RegionState::OpenRegion { start_loc } => (
                RegionState::NoOpenRegion,
                Effect::Disable(
                    DisabledRange {
                        start: start_loc.end,
                        end: loc.start,
                        filter: None,
                        directive: start_loc,
                    },
                ),
            ),
        },
    }
}

/// Reads the directive `item` at `loc` in state `state`.
pub fn step(state: RegionState, loc: Loc, item: InlineConfigItem, src: &[char]) -> (r: (
    RegionState,
    Effect,
))
    ensures
        r == step_spec(state, loc, item, src@),
{
    match item {
        InlineConfigItem::DisableLine(filter) => {
            let start = start_of_line(src, loc.start);
            let end = end_of_line(src, loc.end);
            (state, Effect::Disable(DisabledRange { start, end, filter, directive: loc }))
        },
        InlineConfigItem::DisableNextLine(filter) => {
            let feed = end_of_line(src, loc.end);
            if feed < src.len() {
                let end = end_of_line(src, feed + 1);
                (
                    state,
                    Effect::Disable(DisabledRange { start: feed + 1, end, filter, directive: loc }),
                )
            } else {
                (state, Effect::Nothing)
            }
        },
        InlineConfigItem::DisableStart => match state {
            RegionState::NoOpenRegion => (
                RegionState::OpenRegion { start_loc: loc },
                Effect::Nothing,
            ),
            RegionState::OpenRegion { .. } => (
                state,
                Effect::Reject(InvalidInlineConfigItem::AlreadyStarted),
            ),
        },
        InlineConfigItem::DisableEnd => match state {
            RegionState::NoOpenRegion => (
                state,
                Effect::Reject(InvalidInlineConfigItem::NotStarted),
            ),
            RegionState::OpenRegion { start_loc } => (
                RegionState::NoOpenRegion,
                Effect::Disable(
                    DisabledRange {
                        start: start_loc.end,
                        end: loc.start,
                        filter: None,
                        directive: start_loc,
                    },
                ),
            ),
        },
    }
}

/// What the automaton has gathered after some directives.
pub struct Scan {
    pub state: RegionState,
    pub ranges: Seq<DisabledRange>,
    pub invalid: Seq<(Loc, InvalidInlineConfigItem)>,
}

/// `scan` after one more directive.
pub open spec fn advance(scan: Scan, loc: Loc, item: InlineConfigItem, src: Seq<char>) -> Scan {
    let (state, effect) = step_spec(scan.state, loc, item, src);
    match effect {
        Effect::Nothing => Scan { state, ranges: scan.ranges, invalid: scan.invalid },
        Effect::Disable(range) => Scan {
            state,
            ranges: scan.ranges.push(range),
            invalid: scan.invalid,
        },
        Effect::Reject(reason) => Scan {
            state,
            ranges: scan.ranges,
            invalid: scan.invalid.push((loc, reason)),
        },
    }
}

/// What the automaton has gathered after the directives `items`, read in
/// order from the state with no open region.
pub open spec fn scan(items: Seq<(Loc, InlineConfigItem)>, src: Seq<char>) -> Scan
    decreases items.len(),
{
    if items.len() == 0 {
        Scan { state: RegionState::NoOpenRegion, ranges: Seq::empty(), invalid: Seq::empty() }
    } else {
        advance(scan(items.drop_last(), src), items.last().0, items.last().1, src)
    }
}

/// The ranges that the directives `items` disable in the text `src`.
pub open spec fn disabled_ranges(items: Seq<(Loc, InlineConfigItem)>, src: Seq<char>) -> Seq<
    DisabledRange,
> {
    scan(items, src).ranges
}

/// The directives among `items` that do not pair up, each with its location:
/// those that the automaton reports as it reads, then the `disable-start`
/// that is still open at the end, if there is one.
pub open spec fn unmatched(items: Seq<(Loc, InlineConfigItem)>, src: Seq<char>) -> Seq<
    (Loc, InvalidInlineConfigItem),
> {
    let end = scan(items, src);
    match end.state {
        RegionState::NoOpenRegion => end.invalid,
        RegionState::OpenRegion { start_loc } => end.invalid.push(
            (start_loc, InvalidInlineConfigItem::NeverEnded),
        ),
    }
}

// ---------------------------------------------------------------------------
// The index
// ---------------------------------------------------------------------------

impl DisabledRange {
    /// The range silences a finding of rule `kind` that starts at `loc`.
    /// Only the start of the location counts: a construct that begins
    /// outside the range and runs into it is not silenced.
    pub open spec fn covers(self, loc: Loc, kind: ValidatorKind) -> bool {
        &&& self.start <= loc.start <= self.end
        &&& match self.filter {
            None => true,
            Some(only) => only == kind,
        }
    }

    /// Whether the range silences a finding of rule `kind` that starts at
    /// `loc`.
    pub fn includes(&self, loc: Loc, kind: ValidatorKind) -> (r: bool)
        ensures
            r == self.covers(loc, kind),
    {
        self.start <= loc.start && loc.start <= self.end && match self.filter {
            None => true,
            Some(only) => only == kind,
        }
    }
}

/// Some range of `ranges` silences a finding of rule `kind` at `loc`.
pub open spec fn disables(ranges: Seq<DisabledRange>, loc: Loc, kind: ValidatorKind) -> bool {
    exists|i: int| 0 <= i < ranges.len() && (#[trigger] ranges[i]).covers(loc, kind)
}

/// The disabled ranges of one file, and the directives that did not pair up.
#[derive(Clone, Debug)]
pub struct InlineConfig {
    disabled_ranges: Vec<DisabledRange>,
    invalid_items: Vec<(Loc, InvalidInlineConfigItem)>,
}

/// What the index of a file holds.
pub struct InlineConfigView {
    /// The disabled ranges.
    pub ranges: Seq<DisabledRange>,
    /// The directives that did not pair up, each with its location.
    pub rejected: Seq<(Loc, InvalidInlineConfigItem)>,
}

impl View for InlineConfig {
    type V = InlineConfigView;

    closed spec fn view(&self) -> InlineConfigView {
        InlineConfigView { ranges: self.disabled_ranges@, rejected: self.invalid_items@ }
    }
}

impl InlineConfig {
    /// Builds the index of a file from its directives, in the order in which
    /// they stand in the file, and its text.
    pub fn new(items: Vec<(Loc, InlineConfigItem)>, src: &str) -> (config: Self)
        ensures
            config@ == (InlineConfigView {
                ranges: disabled_ranges(items@, src@),
                rejected: unmatched(items@, src@),
            }),
    {
        let text = chars_of(src);
        let mut state = RegionState::NoOpenRegion;
        let mut disabled_ranges: Vec<DisabledRange> = Vec::new();
        let mut invalid_items: Vec<(Loc, InvalidInlineConfigItem)> = Vec::new();
        let mut i: usize = 0;
        while i < items.len()
            invariant
                i <= items.len(),
                text@ == src@,
                scan(items@.take(i as int), src@) == (Scan {
                    state,
                    ranges: disabled_ranges@,
                    invalid: invalid_items@,
                }),
            decreases items.len() - i,
        {
            assert(items@.take(i + 1).drop_last() == items@.take(i as int));
            let (loc, item) = items[i];
            let (next, effect) = step(state, loc, item, text.as_slice());
            state = next;
            match effect {
                Effect::Nothing => {},
                Effect::Disable(range) => {
                    disabled_ranges.push(range);
                },
                Effect::Reject(reason) => {
                    invalid_items.push((loc, reason));
                },
            }
            i += 1;
        }
        assert(items@.take(items.len() as int) == items@);
        match state {
            RegionState::NoOpenRegion => {},
            RegionState::OpenRegion { start_loc } => {
                invalid_items.push((start_loc, InvalidInlineConfigItem::NeverEnded));
            },
        }
        InlineConfig { disabled_ranges, invalid_items }
    }

    /// Whether a finding of rule `kind` that starts at `loc` is silenced.
    pub fn is_disabled(&self, loc: Loc, kind: ValidatorKind) -> (r: bool)
        ensures
            r == disables(self@.ranges, loc, kind),
    {
        let mut i: usize = 0;
        while i < self.disabled_ranges.len()
            invariant
                i <= self.disabled_ranges.len(),
                forall|k: int|
                    0 <= k < i ==> !(#[trigger] self.disabled_ranges@[k]).covers(loc, kind),
            decreases self.disabled_ranges.len() - i,
        {
            if self.disabled_ranges[i].includes(loc, kind) {
                return true;
            }
            i += 1;
        }
        false
    }

    /// The directives that did not pair up, each with its location.
    pub fn invalid_items(&self) -> (items: &Vec<(Loc, InvalidInlineConfigItem)>)
        ensures
            items@ == self@.rejected,
    {
        &self.invalid_items
    }
}

// ---------------------------------------------------------------------------
// A region that is never closed
// ---------------------------------------------------------------------------

/// The directive disables one line.
pub open spec fn is_line_scoped(item: InlineConfigItem) -> bool {
    item is DisableLine || item is DisableNextLine
}

/// Every directive of `items` disables one line.
pub open spec fn all_line_scoped(items: Seq<(Loc, InlineConfigItem)>) -> bool {
    forall|i: int| 0 <= i < items.len() ==> is_line_scoped((#[trigger] items[i]).1)
}

/// Directives that disable one line each open no region and are all accepted.
proof fn lemma_line_scoped_scan(items: Seq<(Loc, InlineConfigItem)>, src: Seq<char>)
    requires
        all_line_scoped(items),
    ensures
        scan(items, src).state == RegionState::NoOpenRegion,
        scan(items, src).invalid == Seq::<(Loc, InvalidInlineConfigItem)>::empty(),
    decreases items.len(),
{
    if items.len() > 0 {
        assert(is_line_scoped(items[items.len() - 1].1));
        assert forall|i: int| 0 <= i < items.drop_last().len() implies is_line_scoped(
            (#[trigger] items.drop_last()[i]).1,
        ) by {
            assert(is_line_scoped(items[i].1));
        }
        lemma_line_scoped_scan(items.drop_last(), src);
    }
}

/// What the automaton has gathered after a `disable-start` outside any
/// region and directives that disable one line each.
proof fn lemma_open_region_scan(
    before: Seq<(Loc, InlineConfigItem)>,
    loc: Loc,
    after: Seq<(Loc, InlineConfigItem)>,
    src: Seq<char>,
)
    requires
        scan(before, src).state == RegionState::NoOpenRegion,
        all_line_scoped(after),
    ensures
        scan(before.push((loc, InlineConfigItem::DisableStart)) + after, src) == (Scan {
            state: RegionState::OpenRegion { start_loc: loc },
            ranges: scan(before, src).ranges + scan(after, src).ranges,
            invalid: scan(before, src).invalid,
        }),
    decreases after.len(),
{
    let opened = before.push((loc, InlineConfigItem::DisableStart));
    if after.len() == 0 {
        assert(opened + after == opened);
        assert(opened.drop_last() == before);
        assert(scan(before, src).ranges + scan(after, src).ranges =~= scan(before, src).ranges);
    } else {
        let init = after.drop_last();
        assert(is_line_scoped(after[after.len() - 1].1));
        assert forall|i: int| 0 <= i < init.len() implies is_line_scoped(
            (#[trigger] init[i]).1,
        ) by {
            assert(is_line_scoped(after[i].1));
        }
        lemma_open_region_scan(before, loc, init, src);
        lemma_line_scoped_scan(init, src);
        assert((opened + after).drop_last() == opened + init);
        assert((opened + after).last() == after.last());
        let gathered = scan(opened + init, src);
        let alone = scan(init, src);
        let (l, item) = after.last();
        assert(step_spec(gathered.state, l, item, src).1 == step_spec(alone.state, l, item, src).1);
        assert(scan(opened + after, src).ranges =~= scan(before, src).ranges + scan(
            after,
            src,
        ).ranges);
    }
}

/// A `disable-start` that no `disable-end` follows disables nothing and is
/// reported exactly once. Where it stands outside any region and only
/// directives that disable one line follow it, the disabled ranges are those
/// of the directives before it and of those after it, and the directives that
/// are reported are those reported before it and the `disable-start` itself.
pub proof fn theorem_unmatched_start_disables_nothing(
    before: Seq<(Loc, InlineConfigItem)>,
    loc: Loc,
    after: Seq<(Loc, InlineConfigItem)>,
    src: Seq<char>,
)
    requires
        scan(before, src).state == RegionState::NoOpenRegion,
        all_line_scoped(after),
    ensures
        ({
            let items = before.push((loc, InlineConfigItem::DisableStart)) + after;
            &&& disabled_ranges(items, src) == disabled_ranges(before, src) + disabled_ranges(
                after,
                src,
            )
            &&& unmatched(items, src) == unmatched(before, src).push(
                (loc, InvalidInlineConfigItem::NeverEnded),
            )
        }),
{
    lemma_open_region_scan(before, loc, after, src);
}

/// A file whose one directive is a `disable-start` has no disabled range and
/// one directive to report, the `disable-start`.
pub proof fn theorem_lone_start(loc: Loc, src: Seq<char>)
    ensures
        disabled_ranges(seq![(loc, InlineConfigItem::DisableStart)], src) == Seq::<
            DisabledRange,
        >::empty(),
        unmatched(seq![(loc, InlineConfigItem::DisableStart)], src) == seq![
            (loc, InvalidInlineConfigItem::NeverEnded),
        ],
{
    let none = Seq::<(Loc, InlineConfigItem)>::empty();
    theorem_unmatched_start_disables_nothing(none, loc, none, src);
    assert(none.push((loc, InlineConfigItem::DisableStart)) + none =~= seq![
        (loc, InlineConfigItem::DisableStart),
    ]);
    assert(disabled_ranges(none, src) + disabled_ranges(none, src) =~= Seq::<
        DisabledRange,
    >::empty());
    assert(unmatched(none, src).push((loc, InvalidInlineConfigItem::NeverEnded)) =~= seq![
        (loc, InvalidInlineConfigItem::NeverEnded),
    ]);
}

} // verus!
