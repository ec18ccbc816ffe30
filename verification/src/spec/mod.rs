//! What a project is to do, read off the names of its tests.
//!
//! Each source contract is listed with its functions. A test contract that
//! is named after a function holds the requirements on that function: each
//! test in it is one requirement, spelt out from the name of the test.

use crate::check::syntax::{
    part_views, ContractDefinition, ContractTy, ContractView, FunctionDefinition, FunctionView,
    SourceUnit, SourceUnitPart, SourceUnitPartView,
};
use crate::check::utils::{file_name_of, Name};
use crate::check::validators::test_names::{is_test, is_test_function};
use crate::check::validators::{member_functions, member_functions_of, targets};
use crate::text::{
    after_first, chars_of, ends_with, is_suffix, lemma_segments_nonempty, push_all, push_str,
    rest_after, same, segments, slice_of, split, string_of, views,
};
use vstd::prelude::*;

verus! {

// ---------------------------------------------------------------------------
// Letters
// ---------------------------------------------------------------------------

/// Whether `c` has the Unicode property `Uppercase`, as `char::is_uppercase`
/// tells.
pub uninterp spec fn is_uppercase(c: char) -> bool;

/// Nothing is stated of which characters are upper case but that the answer
/// depends on the character alone.
pub assume_specification[ char::is_uppercase ](c: char) -> (r: bool)
    ensures
        r == is_uppercase(c),
;

/// `c` in lower case if it is one of the letters `A` to `Z`, else `c`.
pub open spec fn lower(c: char) -> char {
    if 'A' <= c && c <= 'Z' {
        ((c as u8) + 32) as char
    } else {
        c
    }
}

/// `s` with the letters `A` to `Z` in lower case.
pub open spec fn lowered(s: Seq<char>) -> Seq<char> {
    Seq::new(s.len(), |i: int| lower(s[i]))
}

/// `c` in lower case if it is one of the letters `A` to `Z`, else `c`.
pub fn to_lower(c: char) -> (r: char)
    ensures
        r == lower(c),
{
    if 'A' <= c && c <= 'Z' {
        ((c as u8) + 32) as char
    } else {
        c
    }
}

/// Whether `a` and `b` are the same but for the case of the letters `A` to
/// `Z`.
pub fn same_ignoring_case(a: &[char], b: &[char]) -> (r: bool)
    ensures
        r == (lowered(a@) == lowered(b@)),
{
    if a.len() != b.len() {
        assert(lowered(a@).len() != lowered(b@).len());
        return false;
    }
    let mut i: usize = 0;
    while i < a.len()
        invariant
            i <= a.len(),
            a.len() == b.len(),
            forall|k: int| 0 <= k < i ==> lower(a@[k]) == lower(b@[k]),
        decreases a.len() - i,
    {
        if to_lower(a[i]) != to_lower(b[i]) {
            assert(lowered(a@)[i as int] != lowered(b@)[i as int]);
            return false;
        }
        i += 1;
    }
    assert(lowered(a@) =~= lowered(b@));
    true
}

// ---------------------------------------------------------------------------
// From the name of a test to a requirement
// ---------------------------------------------------------------------------

/// How the character `c` of a test name is spelt in a requirement, where
/// `upper` tells whether `c` is an upper-case character: an underscore
/// becomes a colon, an upper-case character gets a space before it, and any
/// other character stays as it is.
pub open spec fn spelt(c: char, upper: bool) -> Seq<char> {
    if c == '_' {
        seq![':']
    } else if upper {
        seq![' ', c]
    } else {
        seq![c]
    }
}

/// The requirement that the rest of a test name spells, the rest being what
/// follows the first underscore: every character as it is spelt, in order.
pub open spec fn requirement_text(trimmed: Seq<char>) -> Seq<char>
    decreases trimmed.len(),
{
    if trimmed.len() == 0 {
        Seq::empty()
    } else {
        requirement_text(trimmed.drop_last()) + spelt(
            trimmed.last(),
            is_uppercase(trimmed.last()),
        )
    }
}

/// Spells one character of a test name, given whether it is an upper-case
/// character.
pub fn spell(c: char, upper: bool) -> (out: Vec<char>)
    ensures
        out@ == spelt(c, upper),
{
    let mut out: Vec<char> = Vec::new();
    if c == '_' {
        out.push(':');
    } else if upper {
        out.push(' ');
        out.push(c);
    } else {
        out.push(c);
    }
    assert(out@ =~= spelt(c, upper));
    out
}

/// Spells out the requirement in the rest of a test name.
pub fn requirement_from(trimmed: &[char]) -> (out: Vec<char>)
    ensures
        out@ == requirement_text(trimmed@),
{
    let mut out: Vec<char> = Vec::new();
    let mut i: usize = 0;
    while i < trimmed.len()
        invariant
            i <= trimmed.len(),
            out@ == requirement_text(trimmed@.take(i as int)),
        decreases trimmed.len() - i,
    {
        assert(trimmed@.take(i + 1).drop_last() == trimmed@.take(i as int));
        let c = trimmed[i];
        let piece = spell(c, c.is_uppercase());
        push_all(&mut out, piece.as_slice());
        i += 1;
    }
    assert(trimmed@.take(trimmed.len() as int) == trimmed@);
    out
}

/// Spells out the requirement in the rest of a test name: replaces
/// underscores with colons, and puts a space before upper-case characters.
pub fn trimmed_fn_name_to_requirement(trimmed_fn_name: &str) -> (requirement: String)
    ensures
        requirement@ == requirement_text(trimmed_fn_name@),
{
    string_of(requirement_from(chars_of(trimmed_fn_name).as_slice()).as_slice())
}

// ---------------------------------------------------------------------------
// Contracts and the files they come from
// ---------------------------------------------------------------------------

/// The index of the last `c` in `s`, or -1 if there is none.
pub open spec fn last_index(s: Seq<char>, c: char) -> int
    decreases s.len(),
{
    if s.len() == 0 {
        -1
    } else if s.last() == c {
        s.len() - 1
    } else {
        last_index(s.drop_last(), c)
    }
}

/// The stem of the file name `name`: the name up to its last dot. A name
/// without a dot, or whose one dot is its first character, is its own stem.
pub open spec fn stem_of(name: Seq<char>) -> Seq<char> {
    let dot = last_index(name, '.');
    if dot <= 0 {
        name
    } else {
        name.take(dot)
    }
}

/// The name of the contract that the tests in the file at `path` are about.
/// For a test file, whose stem ends in `.t`, that is the file name up to its
/// first dot, so that the tests of `MyContract` may stand in
/// `MyContract.t.sol` or be spread over files such as
/// `MyContract.SomeFunction.t.sol`. For any other file it is the stem.
pub open spec fn subject_of(path: Seq<char>) -> Seq<char> {
    let stem = stem_of(file_name_of(path));
    if is_suffix(".t"@, stem) {
        segments(stem, '.').first()
    } else {
        stem
    }
}

/// The stem of the file name `name`.
pub fn file_stem(name: &[char]) -> (stem: Vec<char>)
    ensures
        stem@ == stem_of(name@),
{
    let mut at: usize = name.len();
    assert(name@.take(at as int) == name@);
    while at > 0 && name[at - 1] != '.'
        invariant
            at <= name.len(),
            last_index(name@, '.') == last_index(name@.take(at as int), '.'),
        decreases at,
    {
        assert(name@.take(at as int).drop_last() == name@.take(at - 1));
        at -= 1;
    }
    if at <= 1 {
        assert(name@.take(name.len() as int) == name@);
        slice_of(name, 0, name.len())
    } else {
        slice_of(name, 0, at - 1)
    }
}

/// One contract of a file.
#[derive(Clone, Copy, Debug)]
pub struct ParsedContract<'a> {
    /// Path to the contract file.
    pub path: &'a str,
    /// The contract.
    pub contract: &'a ContractDefinition,
}

/// What is read of one contract of a file.
pub struct ContractFile {
    pub path: Seq<char>,
    pub contract: ContractView,
}

impl<'a> View for ParsedContract<'a> {
    type V = ContractFile;

    open spec fn view(&self) -> ContractFile {
        ContractFile { path: self.path@, contract: self.contract@ }
    }
}

/// What is read of each of `contracts`.
pub open spec fn contract_files(contracts: Seq<ParsedContract>) -> Seq<ContractFile> {
    Seq::new(contracts.len(), |i: int| contracts[i]@)
}

impl ContractFile {
    /// The name of the contract; the empty name if it has none.
    pub open spec fn name_text(self) -> Seq<char> {
        match self.contract.name {
            Some(name) => name,
            None => Seq::empty(),
        }
    }

    /// The functions of the contract, in source order.
    pub open spec fn functions(self) -> Seq<FunctionView> {
        member_functions(self.contract.parts)
    }
}

impl<'a> ParsedContract<'a> {
    /// Takes one contract of the file at `path`.
    pub fn new(path: &'a str, contract: &'a ContractDefinition) -> (out: Self)
        ensures
            out.path == path,
            out.contract == contract,
    {
        ParsedContract { path, contract }
    }

    /// The name of the contract; the empty name if it has none.
    pub fn contract_name(&self) -> (name: String)
        ensures
            name@ == self@.name_text(),
    {
        match &self.contract.name {
            Some(name) => name.clone(),
            None => String::new(),
        }
    }

    /// The name of the contract that the tests in the file of this contract
    /// are about.
    pub fn contract_name_from_file(&self) -> (name: String)
        ensures
            name@ == subject_of(self@.path),
    {
        let path = chars_of(self.path);
        let components = split(path.as_slice(), '/');
        proof {
            lemma_segments_nonempty(self.path@, '/');
        }
        let file_name = &components[components.len() - 1];
        assert(file_name@ == views(components@)[components.len() - 1]);
        let stem = file_stem(file_name.as_slice());
        if ends_with(stem.as_slice(), chars_of(".t").as_slice()) {
            let pieces = split(stem.as_slice(), '.');
            proof {
                lemma_segments_nonempty(stem@, '.');
            }
            assert(pieces@[0]@ == views(pieces@)[0]);
            string_of(pieces[0].as_slice())
        } else {
            string_of(stem.as_slice())
        }
    }
}

/// The functions of `contract`, in source order.
pub fn get_functions_from_contract(contract: &ContractDefinition) -> (functions: Vec<
    &FunctionDefinition,
>)
    ensures
        targets(functions@) == member_functions(contract@.parts),
{
    member_functions_of(&contract.parts)
}

/// The contracts among the top-level items `parts` of the file at `path`
/// that are listed, in order: contracts, abstract contracts and libraries,
/// not interfaces.
pub open spec fn listed_contracts(path: Seq<char>, parts: Seq<SourceUnitPartView>) -> Seq<
    ContractFile,
>
    decreases parts.len(),
{
    if parts.len() == 0 {
        Seq::empty()
    } else {
        let before = listed_contracts(path, parts.drop_last());
        match parts.last() {
            SourceUnitPartView::ContractDefinition(c) => if c.ty == ContractTy::Interface {
                before
            } else {
                before.push(ContractFile { path, contract: c })
            },
            _ => before,
        }
    }
}

/// The contracts of the file at `path` with the parse tree `unit` that are
/// listed. Free functions belong to no contract and are passed over.
pub fn parse_contracts<'a>(path: &'a str, unit: &'a SourceUnit) -> (contracts: Vec<
    ParsedContract<'a>,
>)
    ensures
        contract_files(contracts@) == listed_contracts(path@, unit@),
{
    let mut contracts: Vec<ParsedContract<'a>> = Vec::new();
    let parts = &unit.0;
    let ghost all = part_views(parts@);
    let mut i: usize = 0;
    assert(contract_files(contracts@) =~= listed_contracts(path@, all.take(0)));
    while i < parts.len()
        invariant
            i <= parts.len(),
            all == part_views(parts@),
            contract_files(contracts@) == listed_contracts(path@, all.take(i as int)),
        decreases parts.len() - i,
    {
        assert(all.take(i + 1).drop_last() == all.take(i as int));
        assert(all.take(i + 1).last() == parts@[i as int]@);
        let ghost before = contract_files(contracts@);
        match &parts[i] {
            SourceUnitPart::ContractDefinition(c) => {
                match c.ty {
                    ContractTy::Interface => {},
                    _ => {
                        contracts.push(ParsedContract::new(path, c));
                        assert(contract_files(contracts@) =~= before.push(
                            ContractFile { path: path@, contract: c@ },
                        ));
                    },
                }
            },
            _ => {},
        }
        i += 1;
    }
    assert(all.take(parts.len() as int) == all);
    contracts
}

// ---------------------------------------------------------------------------
// The listing
// ---------------------------------------------------------------------------

/// One line of the listing of a project.
#[derive(Clone, Debug, PartialEq, Eq)]
pub enum SpecLine {
    /// The heading of a source contract.
    Heading { contract: String },
    /// A function of the contract. `last` for the last function of the
    /// contract; `tested` if a test contract is named after the function.
    Function { last: bool, name: String, tested: bool },
    /// A requirement on the function listed before. `last_function` if that
    /// function is the last of its contract; `last_test` if the test is the
    /// last function of its test contract.
    Requirement { last_function: bool, last_test: bool, text: String },
}

/// What a line of the listing says.
pub enum Line {
    Heading { contract: Seq<char> },
    Function { last: bool, name: Seq<char>, tested: bool },
    Requirement { last_function: bool, last_test: bool, text: Seq<char> },
}

impl View for SpecLine {
    type V = Line;

    open spec fn view(&self) -> Line {
        match self {
            SpecLine::Heading { contract } => Line::Heading { contract: contract@ },
            SpecLine::Function { last, name, tested } => Line::Function {
                last: *last,
                name: name@,
                tested: *tested,
            },
            SpecLine::Requirement { last_function, last_test, text } => Line::Requirement {
                last_function: *last_function,
                last_test: *last_test,
                text: text@,
            },
        }
    }
}

impl Line {
    /// The line as it is printed, without colours: a heading after an empty
    /// line, a function as a branch of the tree of its contract, a
    /// requirement as a branch of the tree of its function.
    pub open spec fn text(self) -> Seq<char> {
        match self {
            Line::Heading { contract } => "\nContract Specification: "@ + contract,
            Line::Function { last, name, tested } => if last {
                "└── "@ + name
            } else {
                "├── "@ + name
            },
            Line::Requirement { last_function, last_test, text } => if !last_function
                && last_test {
                "│   └── "@ + text
            } else if !last_function {
                "│   ├── "@ + text
            } else if last_test {
                "    └── "@ + text
            } else {
                "    ├── "@ + text
            },
        }
    }
}

impl SpecLine {
    /// The line as it is printed, without colours.
    pub fn text(&self) -> (s: String)
        ensures
            s@ == self@.text(),
    {
        let mut out: Vec<char> = Vec::new();
        match self {
            SpecLine::Heading { contract } => {
                push_str(&mut out, "\nContract Specification: ");
                push_str(&mut out, contract.as_str());
            },
            SpecLine::Function { last, name, tested } => {
                if *last {
                    push_str(&mut out, "└── ");
                } else {
                    push_str(&mut out, "├── ");
                }
                push_str(&mut out, name.as_str());
            },
            SpecLine::Requirement { last_function, last_test, text } => {
                if !*last_function && *last_test {
                    push_str(&mut out, "│   └── ");
                } else if !*last_function {
                    push_str(&mut out, "│   ├── ");
                } else if *last_test {
                    push_str(&mut out, "    └── ");
                } else {
                    push_str(&mut out, "    ├── ");
                }
                push_str(&mut out, text.as_str());
            },
        }
        string_of(out.as_slice())
    }
}

/// What each of `lines` says.
pub open spec fn lines_view(lines: Seq<SpecLine>) -> Seq<Line> {
    Seq::new(lines.len(), |i: int| lines[i]@)
}

/// The name under which `f` is listed: its name, or the empty name if it
/// has none.
pub open spec fn display_name(f: FunctionView) -> Seq<char> {
    match f.name_text() {
        Some(name) => name,
        None => Seq::empty(),
    }
}

/// The requirement that the function `f` of a test contract states: that
/// in the rest of its name, if `f` is a test and its name has an underscore.
pub open spec fn requirement_of(f: FunctionView) -> Option<Seq<char>> {
    if is_test(f) {
        match after_first(f.name_text().unwrap(), '_') {
            Some(rest) => Some(requirement_text(rest)),
            None => None,
        }
    } else {
        None
    }
}

/// The lines for the requirements that the first `upto` of the functions
/// `tests` of a test contract state, in order.
pub open spec fn requirement_lines(
    tests: Seq<FunctionView>,
    upto: int,
    last_function: bool,
) -> Seq<Line>
    decreases upto,
{
    if upto <= 0 {
        Seq::empty()
    } else {
        let before = requirement_lines(tests, upto - 1, last_function);
        match requirement_of(tests[upto - 1]) {
            Some(text) => before.push(
                Line::Requirement { last_function, last_test: upto == tests.len(), text },
            ),
            None => before,
        }
    }
}

/// The index of the first of the test contracts `tests` that is named
/// `name`, the case of the letters `A` to `Z` left aside.
pub open spec fn first_named(tests: Seq<ContractFile>, name: Seq<char>) -> Option<int>
    decreases tests.len(),
{
    if tests.len() == 0 {
        None
    } else {
        match first_named(tests.drop_last(), name) {
            Some(k) => Some(k),
            None => if lowered(tests.last().name_text()) == lowered(name) {
                Some(tests.len() - 1)
            } else {
                None
            },
        }
    }
}

/// The lines for the function at index `i` of the functions `functions` of a
/// source contract: the function, and under it the requirements of the first
/// test contract that is named after it, if there is one.
pub open spec fn function_lines(
    functions: Seq<FunctionView>,
    i: int,
    tests: Seq<ContractFile>,
) -> Seq<Line> {
    let name = display_name(functions[i]);
    let last = i == functions.len() - 1;
    match first_named(tests, name) {
        Some(k) => seq![Line::Function { last, name, tested: true }] + requirement_lines(
            tests[k].functions(),
            tests[k].functions().len() as int,
            last,
        ),
        None => seq![Line::Function { last, name, tested: false }],
    }
}

/// The lines for the first `upto` of the functions `functions`.
pub open spec fn listing(functions: Seq<FunctionView>, upto: int, tests: Seq<ContractFile>) -> Seq<
    Line,
>
    decreases upto,
{
    if upto <= 0 {
        Seq::empty()
    } else {
        listing(functions, upto - 1, tests) + function_lines(functions, upto - 1, tests)
    }
}

/// The lines for the source contract `src` with the test contracts `tests`:
/// the heading, then the functions in source order.
pub open spec fn contract_lines(src: ContractFile, tests: Seq<ContractFile>) -> Seq<Line> {
    seq![Line::Heading { contract: src.name_text() }] + listing(
        src.functions(),
        src.functions().len() as int,
        tests,
    )
}

/// The test contracts among `tests` whose file says that they are about the
/// contract named `name`, in order.
pub open spec fn tests_about(name: Seq<char>, tests: Seq<ContractFile>) -> Seq<ContractFile>
    decreases tests.len(),
{
    if tests.len() == 0 {
        Seq::empty()
    } else {
        let before = tests_about(name, tests.drop_last());
        if subject_of(tests.last().path) == name {
            before.push(tests.last())
        } else {
            before
        }
    }
}

/// A test contract that is found among some of the test contracts is found
/// among all of them.
proof fn lemma_first_named_extends(tests: Seq<ContractFile>, name: Seq<char>, upto: int)
    requires
        0 <= upto <= tests.len(),
        first_named(tests.take(upto), name) is Some,
    ensures
        first_named(tests, name) == first_named(tests.take(upto), name),
    decreases tests.len() - upto,
{
    if upto == tests.len() {
        assert(tests.take(upto) == tests);
    } else {
        assert(tests.take(upto + 1).drop_last() == tests.take(upto));
        lemma_first_named_extends(tests, name, upto + 1);
    }
}

/// A source contract with the test contracts that are about it.
#[derive(Debug)]
pub struct ContractSpecification<'a> {
    pub src_contract: ParsedContract<'a>,
    pub test_contracts: Vec<ParsedContract<'a>>,
}

/// What is read of a source contract and its test contracts.
pub struct SpecificationView {
    pub src: ContractFile,
    pub tests: Seq<ContractFile>,
}

impl<'a> View for ContractSpecification<'a> {
    type V = SpecificationView;

    open spec fn view(&self) -> SpecificationView {
        SpecificationView { src: self.src_contract@, tests: contract_files(self.test_contracts@) }
    }
}

impl SpecificationView {
    /// The lines of the listing for the contract.
    pub open spec fn lines(self) -> Seq<Line> {
        contract_lines(self.src, self.tests)
    }
}

impl<'a> ContractSpecification<'a> {
    /// The source contract `src_contract`, with no test contracts yet.
    pub fn new(src_contract: ParsedContract<'a>) -> (out: Self)
        ensures
            out@ == (SpecificationView { src: src_contract@, tests: Seq::empty() }),
    {
        let out = ContractSpecification { src_contract, test_contracts: Vec::new() };
        assert(out@.tests =~= Seq::<ContractFile>::empty());
        out
    }

    /// Adds a test contract that is about the source contract.
    pub fn push_test_contract(&mut self, test_contract: ParsedContract<'a>)
        ensures
            final(self)@ == (SpecificationView {
                src: old(self)@.src,
                tests: old(self)@.tests.push(test_contract@),
            }),
    {
        self.test_contracts.push(test_contract);
        assert(self@.tests =~= old(self)@.tests.push(test_contract@));
    }

    /// The first test contract that is named after the function called
    /// `name`, the case of the letters `A` to `Z` left aside.
    pub fn find_test_contract(&self, name: &[char]) -> (found: Option<usize>)
        ensures
            match found {
                Some(k) => k < self.test_contracts@.len() && first_named(self@.tests, name@)
                    == Some(k as int),
                None => first_named(self@.tests, name@) is None,
            },
    {
        let mut k: usize = 0;
        let ghost tests = self@.tests;
        while k < self.test_contracts.len()
            invariant
                k <= self.test_contracts.len(),
                tests == self@.tests,
                first_named(tests.take(k as int), name@) is None,
            decreases self.test_contracts.len() - k,
        {
            assert(tests.take(k + 1).drop_last() == tests.take(k as int));
            assert(tests.take(k + 1).last() == self.test_contracts@[k as int]@);
            let own = self.test_contracts[k].contract_name();
            if same_ignoring_case(chars_of(own.as_str()).as_slice(), name) {
                proof {
                    lemma_first_named_extends(tests, name@, k + 1);
                }
                return Some(k);
            }
            k += 1;
        }
        assert(tests.take(self.test_contracts.len() as int) == tests);
        None
    }

    /// The lines for the requirements that the functions of the test
    /// contract `test_contract` state, under a function that is the last of
    /// its contract or not.
    pub fn requirements(test_contract: &ParsedContract<'a>, last_function: bool) -> (lines: Vec<
        SpecLine,
    >)
        ensures
            lines_view(lines@) == requirement_lines(
                test_contract@.functions(),
                test_contract@.functions().len() as int,
                last_function,
            ),
    {
        let mut lines: Vec<SpecLine> = Vec::new();
        let test_functions = get_functions_from_contract(test_contract.contract);
        let ghost their = test_contract@.functions();
        assert(lines_view(lines@) =~= requirement_lines(their, 0, last_function));
        let mut j: usize = 0;
        while j < test_functions.len()
            invariant
                j <= test_functions.len(),
                targets(test_functions@) == their,
                lines_view(lines@) == requirement_lines(their, j as int, last_function),
            decreases test_functions.len() - j,
        {
            let t = test_functions[j];
            assert(t@ == their[j as int]);
            let ghost so_far = lines_view(lines@);
            if is_test_function(t) {
                match t.name() {
                    Some(test_name) => {
                        match rest_after(chars_of(test_name.as_str()).as_slice(), '_') {
                            Some(rest) => {
                                let text = string_of(requirement_from(rest.as_slice()).as_slice());
                                lines.push(
                                    SpecLine::Requirement {
                                        last_function,
                                        last_test: j == test_functions.len() - 1,
                                        text,
                                    },
                                );
                                assert(lines_view(lines@) =~= so_far.push(
                                    Line::Requirement {
                                        last_function,
                                        last_test: j + 1 == their.len(),
                                        text: text@,
                                    },
                                ));
                            },
                            None => {},
                        }
                    },
                    None => {},
                }
            }
            j += 1;
        }
        lines
    }

    /// The lines of the listing for the contract: its heading, its functions
    /// in source order and, under each function that a test contract is
    /// named after, the requirements that the tests of that contract state.
    pub fn lines(&self) -> (lines: Vec<SpecLine>)
        ensures
            lines_view(lines@) == self@.lines(),
    {
        let mut lines: Vec<SpecLine> = Vec::new();
        lines.push(SpecLine::Heading { contract: self.src_contract.contract_name() });
        let functions = get_functions_from_contract(self.src_contract.contract);
        let ghost head = lines_view(lines@);
        let ghost all = self@.src.functions();
        let ghost tests = self@.tests;
        assert(head =~= seq![Line::Heading { contract: self@.src.name_text() }]);
        assert(lines_view(lines@) =~= head + listing(all, 0, tests));
        let mut i: usize = 0;
        while i < functions.len()
            invariant
                i <= functions.len(),
                targets(functions@) == all,
                tests == self@.tests,
                lines_view(lines@) == head + listing(all, i as int, tests),
            decreases functions.len() - i,
        {
            let f = functions[i];
            assert(f@ == all[i as int]);
            let last = i == functions.len() - 1;
            let name = match f.name() {
                Some(name) => name,
                None => String::new(),
            };
            assert(name@ == display_name(f@));
            let ghost before = lines_view(lines@);
            match self.find_test_contract(chars_of(name.as_str()).as_slice()) {
                None => {
                    lines.push(SpecLine::Function { last, name, tested: false });
                    assert(lines_view(lines@) =~= before + function_lines(all, i as int, tests));
                },
                Some(k) => {
                    lines.push(SpecLine::Function { last, name, tested: true });
                    let ghost opening = lines_view(lines@);
                    assert(opening =~= before + seq![
                        Line::Function { last, name: name@, tested: true },
                    ]);
                    assert(tests[k as int] == self.test_contracts@[k as int]@);
                    let mut more = ContractSpecification::requirements(
                        &self.test_contracts[k],
                        last,
                    );
                    let ghost added = lines_view(more@);
                    lines.append(&mut more);
                    assert(lines_view(lines@) =~= opening + added);
                    assert(lines_view(lines@) =~= before + function_lines(all, i as int, tests));
                },
            }
            i += 1;
        }
        lines
    }
}

/// The source contracts of a project, each with its test contracts.
#[derive(Debug)]
pub struct ProtocolSpecification<'a> {
    pub contract_specifications: Vec<ContractSpecification<'a>>,
}

/// The lines of the listings of `specifications`, one contract after the
/// other.
pub open spec fn summary_lines(specifications: Seq<SpecificationView>) -> Seq<Line>
    decreases specifications.len(),
{
    if specifications.len() == 0 {
        Seq::empty()
    } else {
        summary_lines(specifications.drop_last()) + specifications.last().lines()
    }
}

/// What is read of each of `specifications`.
pub open spec fn specification_views(specifications: Seq<ContractSpecification>) -> Seq<
    SpecificationView,
> {
    Seq::new(specifications.len(), |i: int| specifications[i]@)
}

impl<'a> View for ProtocolSpecification<'a> {
    type V = Seq<SpecificationView>;

    open spec fn view(&self) -> Seq<SpecificationView> {
        specification_views(self.contract_specifications@)
    }
}

impl<'a> ProtocolSpecification<'a> {
    /// The project without contracts.
    pub fn new() -> (out: Self)
        ensures
            out@ == Seq::<SpecificationView>::empty(),
    {
        let out = ProtocolSpecification { contract_specifications: Vec::new() };
        assert(out@ =~= Seq::<SpecificationView>::empty());
        out
    }

    /// Adds a source contract with its test contracts.
    pub fn push_contract_specification(
        &mut self,
        contract_specification: ContractSpecification<'a>,
    )
        ensures
            final(self)@ == old(self)@.push(contract_specification@),
    {
        self.contract_specifications.push(contract_specification);
        assert(self@ =~= old(self)@.push(contract_specification@));
    }

    /// The lines of the listing of the project.
    pub fn lines(&self) -> (lines: Vec<SpecLine>)
        ensures
            lines_view(lines@) == summary_lines(self@),
    {
        let mut lines: Vec<SpecLine> = Vec::new();
        let mut i: usize = 0;
        let ghost all = self@;
        assert(lines_view(lines@) =~= summary_lines(all.take(0)));
        while i < self.contract_specifications.len()
            invariant
                i <= self.contract_specifications.len(),
                all == self@,
                lines_view(lines@) == summary_lines(all.take(i as int)),
            decreases self.contract_specifications.len() - i,
        {
            assert(all.take(i + 1).drop_last() == all.take(i as int));
            assert(all.take(i + 1).last() == self.contract_specifications@[i as int]@);
            let mut more = self.contract_specifications[i].lines();
            let ghost before = lines_view(lines@);
            let ghost added = lines_view(more@);
            lines.append(&mut more);
            assert(lines_view(lines@) =~= before + added);
            i += 1;
        }
        assert(all.take(self.contract_specifications.len() as int) == all);
        lines
    }
}

/// The project made of the source contracts `src_contracts` and the test
/// contracts `test_contracts`: every source contract in order, each with the
/// test contracts that are about it.
pub open spec fn project_of(
    src_contracts: Seq<ContractFile>,
    test_contracts: Seq<ContractFile>,
) -> Seq<SpecificationView> {
    Seq::new(
        src_contracts.len(),
        |i: int|
            SpecificationView {
                src: src_contracts[i],
                tests: tests_about(src_contracts[i].name_text(), test_contracts),
            },
    )
}

/// Generates the specification of a project from its source contracts and
/// its test contracts. A test contract is about the source contract that its
/// file is named after; among the test contracts of a source contract, the
/// one named after a function holds the requirements on that function.
pub fn run<'a>(
    src_contracts: &Vec<ParsedContract<'a>>,
    test_contracts: &Vec<ParsedContract<'a>>,
) -> (protocol_spec: ProtocolSpecification<'a>)
    ensures
        protocol_spec@ == project_of(
            contract_files(src_contracts@),
            contract_files(test_contracts@),
        ),
{
    let mut protocol_spec = ProtocolSpecification::new();
    let ghost sources = contract_files(src_contracts@);
    let ghost tests = contract_files(test_contracts@);
    let mut i: usize = 0;
    while i < src_contracts.len()
        invariant
            i <= src_contracts.len(),
            sources == contract_files(src_contracts@),
            tests == contract_files(test_contracts@),
            protocol_spec@ == project_of(sources, tests).take(i as int),
        decreases src_contracts.len() - i,
    {
        let src_contract = src_contracts[i];
        let mut contract_specification = ContractSpecification::new(src_contract);
        let src_contract_name = src_contract.contract_name();
        let name = chars_of(src_contract_name.as_str());
        let mut j: usize = 0;
        assert(contract_specification@.tests =~= tests_about(name@, tests.take(0)));
        while j < test_contracts.len()
            invariant
                j <= test_contracts.len(),
                tests == contract_files(test_contracts@),
                name@ == src_contract@.name_text(),
                contract_specification@.src == src_contract@,
                contract_specification@.tests == tests_about(name@, tests.take(j as int)),
            decreases test_contracts.len() - j,
        {
            assert(tests.take(j + 1).drop_last() == tests.take(j as int));
            assert(tests.take(j + 1).last() == test_contracts@[j as int]@);
            let subject = test_contracts[j].contract_name_from_file();
            if same(chars_of(subject.as_str()).as_slice(), name.as_slice()) {
                contract_specification.push_test_contract(test_contracts[j]);
            }
            j += 1;
        }
        assert(tests.take(test_contracts.len() as int) == tests);
        protocol_spec.push_contract_specification(contract_specification);
        assert(protocol_spec@ =~= project_of(sources, tests).take(i + 1));
        i += 1;
    }
    assert(project_of(sources, tests).take(src_contracts.len() as int) == project_of(
        sources,
        tests,
    ));
    protocol_spec
}

} // verus!
