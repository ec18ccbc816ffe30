//! What the rules share: the kinds of finding and of file, how a function is
//! named and who may call it, and line numbers.

use crate::check::inline_config::disables;
use crate::check::syntax::{
    text_of, FunctionAttribute, FunctionDefinition, FunctionTy, Loc, Visibility,
};
use crate::check::{rule_findings, run_rule, Parsed, ParsedView};
use crate::text::{
    chars_of, count_in, count_of, decimal, ends_with, is_prefix, is_suffix,
    lemma_segments_nonempty, push_decimal, push_str, segments, split, starts_with, string_of,
    views,
};
use vstd::prelude::*;

verus! {

/// The rule that made a finding.
#[derive(Clone, Copy, Debug, PartialEq, Eq, PartialOrd, Ord, Structural)]
pub enum ValidatorKind {
    /// A constant or immutable variable.
    Constant,
    /// A script file.
    Script,
    /// A source contract.
    Src,
    /// A test contract.
    Test,
    /// A `// scopelint: <directive>` comment.
    Directive,
}

impl ValidatorKind {
    /// The place of the kind in the order in which findings are reported.
    pub open spec fn rank(self) -> nat {
        match self {
            ValidatorKind::Constant => 0,
            ValidatorKind::Script => 1,
            ValidatorKind::Src => 2,
            ValidatorKind::Test => 3,
            ValidatorKind::Directive => 4,
        }
    }

    /// The place of the kind in the order in which findings are reported.
    pub fn position(self) -> (r: u8)
        ensures
            r == self.rank(),
    {
        match self {
            ValidatorKind::Constant => 0,
            ValidatorKind::Script => 1,
            ValidatorKind::Src => 2,
            ValidatorKind::Test => 3,
            ValidatorKind::Directive => 4,
        }
    }
}

// ---------------------------------------------------------------------------
// Findings
// ---------------------------------------------------------------------------

/// A single invalid item found by a rule.
#[derive(Clone, Debug, PartialEq, Eq, PartialOrd, Ord)]
pub struct InvalidItem {
    /// The rule that found the item.
    pub kind: ValidatorKind,
    /// The path of the file.
    pub file: String,
    /// The line number, counted from 1.
    pub line: usize,
    /// Details to show about the item.
    pub text: String,
    /// Whether the item stands in a range that is disabled for its rule.
    pub is_disabled: bool,
}

/// What an invalid item says.
pub struct Finding {
    pub kind: ValidatorKind,
    pub file: Seq<char>,
    pub line: usize,
    pub text: Seq<char>,
    pub is_disabled: bool,
}

impl View for InvalidItem {
    type V = Finding;

    open spec fn view(&self) -> Finding {
        Finding {
            kind: self.kind,
            file: self.file@,
            line: self.line,
            text: self.text@,
            is_disabled: self.is_disabled,
        }
    }
}

/// What each of `items` says.
pub open spec fn findings(items: Seq<InvalidItem>) -> Seq<Finding> {
    Seq::new(items.len(), |i: int| items[i]@)
}

/// The finding of rule `kind` at `loc` in the file `parsed`, with the details
/// `text`. It is disabled when its start lies in a range that is disabled for
/// the rule.
pub open spec fn finding_at(
    kind: ValidatorKind,
    parsed: ParsedView,
    loc: Loc,
    text: Seq<char>,
) -> Finding {
    Finding {
        kind,
        file: parsed.file,
        line: line_number(parsed.src, loc.start),
        text,
        is_disabled: disables(parsed.inline_config.ranges, loc, kind),
    }
}

impl Finding {
    /// The line of the report that describes the finding.
    pub open spec fn description(self) -> Seq<char> {
        match self.kind {
            ValidatorKind::Test => "Invalid test name in "@ + self.file + " on line "@ + decimal(
                self.line as nat,
            ) + ": "@ + self.text,
            ValidatorKind::Constant => "Invalid constant or immutable name in "@ + self.file
                + " on line "@ + decimal(self.line as nat) + ": "@ + self.text,
            ValidatorKind::Script => "Invalid script interface in "@ + self.file + ": "@
                + self.text,
            ValidatorKind::Src => "Invalid src method name in "@ + self.file + " on line "@
                + decimal(self.line as nat) + ": "@ + self.text,
            ValidatorKind::Directive => "Invalid directive in "@ + self.file + ": "@ + self.text,
        }
    }
}

impl InvalidItem {
    /// Creates the item of rule `kind` at `loc` in the file `parsed`.
    pub fn new(kind: ValidatorKind, parsed: &Parsed, loc: Loc, text: String) -> (item: Self)
        ensures
            item@ == finding_at(kind, parsed@, loc, text@),
    {
        let line = offset_to_line(parsed.src.as_str(), loc.start);
        let is_disabled = parsed.inline_config.is_disabled(loc, kind);
        InvalidItem { kind, file: parsed.file.clone(), line, text, is_disabled }
    }

    /// Returns a string describing the invalid item, which is shown to the
    /// user so they can triage findings.
    pub fn description(&self) -> (s: String)
        ensures
            s@ == self@.description(),
    {
        let mut out: Vec<char> = Vec::new();
        let with_line = match self.kind {
            ValidatorKind::Test => {
                push_str(&mut out, "Invalid test name in ");
                true
            },
            ValidatorKind::Constant => {
                push_str(&mut out, "Invalid constant or immutable name in ");
                true
            },
            ValidatorKind::Script => {
                push_str(&mut out, "Invalid script interface in ");
                false
            },
            ValidatorKind::Src => {
                push_str(&mut out, "Invalid src method name in ");
                true
            },
            ValidatorKind::Directive => {
                push_str(&mut out, "Invalid directive in ");
                false
            },
        };
        push_str(&mut out, self.file.as_str());
        if with_line {
            push_str(&mut out, " on line ");
            push_decimal(&mut out, self.line);
        }
        push_str(&mut out, ": ");
        push_str(&mut out, self.text.as_str());
        assert(out@ == self@.description());
        string_of(out.as_slice())
    }
}

// ---------------------------------------------------------------------------
// Kinds of file
// ---------------------------------------------------------------------------

/// The kinds of file in a forge project that rules are scoped to. Helper
/// files, which share a directory with one of these but not its suffix, are of
/// no kind.
#[derive(Clone, Copy, Debug, PartialEq, Eq, Structural)]
pub enum FileKind {
    /// Executable scripts live under `./script` and end in `.s.sol`.
    Script,
    /// Core contracts live under `./src` and end in `.sol`.
    Src,
    /// Contracts with test methods live under `./test` and end in `.t.sol`.
    Test,
}

/// The path `path` is of kind `kind`. The suffix is compared as text, dots
/// included: `.t.sol` and `.sol` are different suffixes of different roles.
pub open spec fn is_of_kind(path: Seq<char>, kind: FileKind) -> bool {
    match kind {
        FileKind::Script => is_prefix("./script"@, path) && is_suffix(".s.sol"@, path),
        FileKind::Src => is_prefix("./src"@, path) && is_suffix(".sol"@, path),
        FileKind::Test => is_prefix("./test"@, path) && is_suffix(".t.sol"@, path),
    }
}

/// The kind of the file at `path`, if it has one.
pub open spec fn kind_of(path: Seq<char>) -> Option<FileKind> {
    if is_of_kind(path, FileKind::Script) {
        Some(FileKind::Script)
    } else if is_of_kind(path, FileKind::Src) {
        Some(FileKind::Src)
    } else if is_of_kind(path, FileKind::Test) {
        Some(FileKind::Test)
    } else {
        None
    }
}

/// Tells whether a file is of a given kind.
pub trait IsFileKind {
    /// The file is of kind `kind`.
    spec fn of_kind(&self, kind: FileKind) -> bool;

    /// Returns `true` if the file is of the given kind, `false` otherwise.
    fn is_file_kind(&self, kind: FileKind) -> (r: bool)
        ensures
            r == self.of_kind(kind),
    ;
}

/// A path, as text.
impl IsFileKind for str {
    open spec fn of_kind(&self, kind: FileKind) -> bool {
        is_of_kind(self@, kind)
    }

    fn is_file_kind(&self, kind: FileKind) -> (r: bool) {
        let path = chars_of(self);
        match kind {
            FileKind::Script => {
                let root = chars_of("./script");
                let suffix = chars_of(".s.sol");
                starts_with(path.as_slice(), root.as_slice()) && ends_with(
                    path.as_slice(),
                    suffix.as_slice(),
                )
            },
            FileKind::Src => {
                let root = chars_of("./src");
                let suffix = chars_of(".sol");
                starts_with(path.as_slice(), root.as_slice()) && ends_with(
                    path.as_slice(),
                    suffix.as_slice(),
                )
            },
            FileKind::Test => {
                let root = chars_of("./test");
                let suffix = chars_of(".t.sol");
                starts_with(path.as_slice(), root.as_slice()) && ends_with(
                    path.as_slice(),
                    suffix.as_slice(),
                )
            },
        }
    }
}

/// The kind of the file at `path`, if it has one.
pub fn classify(path: &str) -> (kind: Option<FileKind>)
    ensures
        kind == kind_of(path@),
{
    if path.is_file_kind(FileKind::Script) {
        Some(FileKind::Script)
    } else if path.is_file_kind(FileKind::Src) {
        Some(FileKind::Src)
    } else if path.is_file_kind(FileKind::Test) {
        Some(FileKind::Test)
    } else {
        None
    }
}

/// A file has at most one kind: it is of a kind exactly when that kind is its
/// classification.
pub proof fn lemma_kind_is_unique(path: Seq<char>, kind: FileKind)
    ensures
        is_of_kind(path, kind) <==> kind_of(path) == Some(kind),
{
    reveal_strlit("./script");
    reveal_strlit("./src");
    reveal_strlit("./test");
    if is_prefix("./script"@, path) {
        assert(path.take(8)[3] == 'c');
        assert(path[3] == 'c');
        if is_prefix("./src"@, path) {
            assert(path.take(5)[3] == 'r');
        }
        if is_prefix("./test"@, path) {
            assert(path.take(6)[2] == 't');
            assert(path.take(8)[2] == 's');
        }
    }
    if is_prefix("./src"@, path) && is_prefix("./test"@, path) {
        assert(path.take(5)[2] == 's');
        assert(path.take(6)[2] == 't');
    }
}

/// The name of the file at `path`: what follows the last `/`.
pub open spec fn file_name_of(path: Seq<char>) -> Seq<char> {
    segments(path, '/').last()
}

/// The file at `path` has the extension `sol`: its name ends in `.sol`, and
/// something stands before that.
pub open spec fn has_sol_extension(path: Seq<char>) -> bool {
    is_suffix(".sol"@, file_name_of(path)) && file_name_of(path).len() > ".sol"@.len()
}

/// Whether the file at `path` is a Solidity file, by its extension. These
/// are the files that are parsed and checked.
pub fn is_solidity_file(path: &str) -> (r: bool)
    ensures
        r == has_sol_extension(path@),
{
    let pieces = split(chars_of(path).as_slice(), '/');
    proof {
        lemma_segments_nonempty(path@, '/');
    }
    let name = &pieces[pieces.len() - 1];
    assert(name@ == views(pieces@)[pieces.len() - 1]);
    let suffix = chars_of(".sol");
    ends_with(name.as_slice(), suffix.as_slice()) && name.len() > suffix.len()
}

// ---------------------------------------------------------------------------
// Line numbers
// ---------------------------------------------------------------------------

/// The line of `content` on which the offset `offset` stands: one more than
/// the number of line feeds before the offset. Lines count from 1; a line
/// feed stands on the line that it ends, and an offset beyond the text on the
/// line of the end of the text.
pub open spec fn line_of(content: Seq<char>, offset: int) -> int {
    let upto = if offset <= 0 {
        0
    } else if offset <= content.len() {
        offset
    } else {
        content.len() as int
    };
    1 + count_of(content.take(upto), '\n') as int
}

/// The line number shown for the offset `start` in `content`: the line on
/// which the offset stands, or `usize::MAX` where that number is greater.
pub open spec fn line_number(content: Seq<char>, start: usize) -> usize {
    let line = line_of(content, start as int);
    if line <= usize::MAX {
        line as usize
    } else {
        usize::MAX
    }
}

/// Converts the offset `start` in `content` to its line number.
pub fn offset_to_line(content: &str, start: usize) -> (line: usize)
    ensures
        line == line_number(content@, start),
{
    let chars = chars_of(content);
    let upto: usize = if start <= chars.len() {
        start
    } else {
        chars.len()
    };
    let feeds = count_in(chars.as_slice(), '\n', upto);
    if feeds < usize::MAX {
        feeds + 1
    } else {
        usize::MAX
    }
}

// ---------------------------------------------------------------------------
// Names and visibility of functions
// ---------------------------------------------------------------------------

/// Gives the name of a function.
pub trait Name {
    /// The name by which the function is known, if it has one.
    spec fn name_text(&self) -> Option<Seq<char>>;

    /// Returns the identifier of a plain function or modifier, and
    /// `constructor`, `fallback` or `receive` for the others. A plain function
    /// without an identifier has no name.
    fn name(&self) -> (name: Option<String>)
        ensures
            text_of(name) == self.name_text(),
    ;
}

/// Summarises who may call a function.
pub trait VisibilitySummary {
    /// Some attribute of the function is `internal` or `private`.
    spec fn internal_or_private(&self) -> bool;

    /// Some attribute of the function is `public` or `external`.
    spec fn public_or_external(&self) -> bool;

    /// Returns `true` if the function is internal or private, `false` otherwise.
    fn is_internal_or_private(&self) -> (r: bool)
        ensures
            r == self.internal_or_private(),
    ;

    /// Returns `true` if the function is public or external, `false` otherwise.
    fn is_public_or_external(&self) -> (r: bool)
        ensures
            r == self.public_or_external(),
    ;
}

impl Name for FunctionDefinition {
    open spec fn name_text(&self) -> Option<Seq<char>> {
        self@.name_text()
    }

    fn name(&self) -> (name: Option<String>) {
        match self.ty {
            FunctionTy::Constructor => Some("constructor".to_owned()),
            FunctionTy::Fallback => Some("fallback".to_owned()),
            FunctionTy::Receive => Some("receive".to_owned()),
            FunctionTy::Function | FunctionTy::Modifier => match &self.name {
                Some(identifier) => Some(identifier.clone()),
                None => None,
            },
        }
    }
}

impl VisibilitySummary for FunctionDefinition {
    open spec fn internal_or_private(&self) -> bool {
        self@.internal_or_private()
    }

    open spec fn public_or_external(&self) -> bool {
        self@.public_or_external()
    }

    fn is_internal_or_private(&self) -> (r: bool) {
        let mut i: usize = 0;
        while i < self.attributes.len()
            invariant
                i <= self.attributes.len(),
                forall|k: int| 0 <= k < i ==> !(#[trigger] self.attributes@[k]).is_inward(),
            decreases self.attributes.len() - i,
        {
            match self.attributes[i] {
                FunctionAttribute::Visibility(Visibility::Internal) => {
                    assert(self@.attributes[i as int].is_inward());
                    return true;
                },
                FunctionAttribute::Visibility(Visibility::Private) => {
                    assert(self@.attributes[i as int].is_inward());
                    return true;
                },
                _ => {},
            }
            i += 1;
        }
        false
    }

    fn is_public_or_external(&self) -> (r: bool) {
        let mut i: usize = 0;
        while i < self.attributes.len()
            invariant
                i <= self.attributes.len(),
                forall|k: int| 0 <= k < i ==> !(#[trigger] self.attributes@[k]).is_outward(),
            decreases self.attributes.len() - i,
        {
            match self.attributes[i] {
                FunctionAttribute::Visibility(Visibility::Public) => {
                    assert(self@.attributes[i as int].is_outward());
                    return true;
                },
                FunctionAttribute::Visibility(Visibility::External) => {
                    assert(self@.attributes[i as int].is_outward());
                    return true;
                },
                _ => {},
            }
            i += 1;
        }
        false
    }
}

// ---------------------------------------------------------------------------
// Expected numbers of findings
// ---------------------------------------------------------------------------

/// How many findings a rule is expected to make on the same content, for
/// each role that a file can have by its path.
#[derive(Clone, Copy, Debug, PartialEq, Eq, Structural)]
pub struct ExpectedFindings {
    /// The number of expected findings for script helper contracts.
    pub script_helper: usize,
    /// The number of expected findings for script contracts.
    pub script: usize,
    /// The number of expected findings for source contracts.
    pub src: usize,
    /// The number of expected findings for test helper contracts.
    pub test_helper: usize,
    /// The number of expected findings for test contracts.
    pub test: usize,
}

/// The number of findings of the rule `kind` for the file `parsed`, were it
/// at the path `path`.
pub open spec fn count_at(kind: ValidatorKind, parsed: ParsedView, path: Seq<char>) -> nat {
    rule_findings(kind, ParsedView { file: path, ..parsed }).len()
}

impl Default for ExpectedFindings {
    /// No findings for a file of any role.
    fn default() -> (expected: Self)
        ensures
            expected == ExpectedFindings::all(0),
    {
        ExpectedFindings { script_helper: 0, script: 0, src: 0, test_helper: 0, test: 0 }
    }
}

impl ExpectedFindings {
    /// `n` findings for a file of every role.
    pub open spec fn all(n: usize) -> Self {
        ExpectedFindings { script_helper: n, script: n, src: n, test_helper: n, test: n }
    }

    /// The rule `kind` makes the expected number of findings on `parsed` at
    /// each of five paths, one for each role.
    pub open spec fn holds_for(&self, parsed: ParsedView, kind: ValidatorKind) -> bool {
        &&& count_at(kind, parsed, "./script/MyContract.sol"@) == self.script_helper
        &&& count_at(kind, parsed, "./script/MyContract.s.sol"@) == self.script
        &&& count_at(kind, parsed, "./src/MyContract.sol"@) == self.src
        &&& count_at(kind, parsed, "./test/MyContract.sol"@) == self.test_helper
        &&& count_at(kind, parsed, "./test/MyContract.t.sol"@) == self.test
    }

    /// Creates the expectation of `expected_findings` findings for a file of
    /// every role. Use this for a rule that applies to all files; for one
    /// that applies to some, set those fields over `default()`.
    pub fn new(expected_findings: usize) -> (expected: Self)
        ensures
            expected == ExpectedFindings::all(expected_findings),
    {
        ExpectedFindings {
            script_helper: expected_findings,
            script: expected_findings,
            src: expected_findings,
            test_helper: expected_findings,
            test: expected_findings,
        }
    }

    /// Runs the rule `kind` on `parsed` at each of five paths, one for each
    /// role, whatever the path of `parsed` is, and tells whether the number
    /// of findings is the expected one every time.
    pub fn assert_eq(&self, parsed: Parsed, kind: ValidatorKind) -> (r: bool)
        ensures
            r == self.holds_for(parsed@, kind),
    {
        let mut parsed = parsed;
        parsed.file = "./script/MyContract.sol".to_owned();
        let script_helper = run_rule(kind, &parsed).len();
        parsed.file = "./script/MyContract.s.sol".to_owned();
        let script = run_rule(kind, &parsed).len();
        parsed.file = "./src/MyContract.sol".to_owned();
        let src = run_rule(kind, &parsed).len();
        parsed.file = "./test/MyContract.sol".to_owned();
        let test_helper = run_rule(kind, &parsed).len();
        parsed.file = "./test/MyContract.t.sol".to_owned();
        let test = run_rule(kind, &parsed).len();
        script_helper == self.script_helper && script == self.script && src == self.src
            && test_helper == self.test_helper && test == self.test
    }
}

} // verus!
