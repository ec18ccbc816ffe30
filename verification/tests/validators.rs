//! The rules, run on Solidity text that `solang-parser` parses.

use scopelint::check::comments::{Comment, CommentType};
use scopelint::check::syntax::{
    ContractDefinition, ContractPart, ContractTy, FunctionAttribute, FunctionDefinition,
    FunctionTy, Loc, SourceUnit, SourceUnitPart, VariableAttribute, VariableDefinition,
    Visibility,
};
use scopelint::check::utils::{ExpectedFindings, InvalidItem, ValidatorKind};
use scopelint::check::validators::{
    constant_names, script_one_public_run_method, src_names_internal, test_names,
};
use scopelint::check::{parse, run_rule, validate, validate_all, Parsed};
use solang_parser::pt;

/// For each offset in bytes, the number of characters that begin before it.
fn characters_before(src: &str) -> Vec<usize> {
    let mut table = Vec::new();
    let mut count = 0;
    for offset in 0..=src.len() {
        table.push(count);
        if offset < src.len() && src.is_char_boundary(offset) {
            count += 1;
        }
    }
    for offset in 1..src.len() {
        if !src.is_char_boundary(offset) {
            table[offset] = table[offset - 1];
        }
    }
    table
}

fn loc_of(table: &[usize], loc: &pt::Loc) -> Loc {
    match loc {
        pt::Loc::File(_, start, end) => Loc { start: table[*start], end: table[*end] },
        _ => Loc { start: 0, end: 0 },
    }
}

fn visibility_of(v: &pt::Visibility) -> Visibility {
    match v {
        pt::Visibility::External(_) => Visibility::External,
        pt::Visibility::Public(_) => Visibility::Public,
        pt::Visibility::Internal(_) => Visibility::Internal,
        pt::Visibility::Private(_) => Visibility::Private,
    }
}

fn function_of(table: &[usize], f: &pt::FunctionDefinition) -> FunctionDefinition {
    FunctionDefinition {
        loc: loc_of(table, &f.loc),
        ty: match f.ty {
            pt::FunctionTy::Constructor => FunctionTy::Constructor,
            pt::FunctionTy::Function => FunctionTy::Function,
            pt::FunctionTy::Fallback => FunctionTy::Fallback,
            pt::FunctionTy::Receive => FunctionTy::Receive,
            pt::FunctionTy::Modifier => FunctionTy::Modifier,
        },
        name: f.name.as_ref().map(|id| id.name.clone()),
        name_loc: loc_of(table, &f.name_loc),
        attributes: f
            .attributes
            .iter()
            .map(|a| match a {
                pt::FunctionAttribute::Visibility(v) => {
                    FunctionAttribute::Visibility(visibility_of(v))
                }
                _ => FunctionAttribute::Other,
            })
            .collect(),
    }
}

fn variable_of(table: &[usize], v: &pt::VariableDefinition) -> VariableDefinition {
    VariableDefinition {
        loc: loc_of(table, &v.loc),
        attrs: v
            .attrs
            .iter()
            .map(|a| match a {
                pt::VariableAttribute::Constant(_) => VariableAttribute::Constant,
                pt::VariableAttribute::Immutable(_) => VariableAttribute::Immutable,
                _ => VariableAttribute::Other,
            })
            .collect(),
        name: v.name.as_ref().map(|id| id.name.clone()),
    }
}

fn contract_of(table: &[usize], c: &pt::ContractDefinition) -> ContractDefinition {
    ContractDefinition {
        loc: loc_of(table, &c.loc),
        ty: match c.ty {
            pt::ContractTy::Abstract(_) => ContractTy::Abstract,
            pt::ContractTy::Contract(_) => ContractTy::Contract,
            pt::ContractTy::Interface(_) => ContractTy::Interface,
            pt::ContractTy::Library(_) => ContractTy::Library,
        },
        name: c.name.as_ref().map(|id| id.name.clone()),
        parts: c
            .parts
            .iter()
            .map(|part| match part {
                pt::ContractPart::VariableDefinition(v) => {
                    ContractPart::VariableDefinition(variable_of(table, v))
                }
                pt::ContractPart::FunctionDefinition(f) => {
                    ContractPart::FunctionDefinition(function_of(table, f))
                }
                _ => ContractPart::Other,
            })
            .collect(),
    }
}

fn unit_of(table: &[usize], unit: &pt::SourceUnit) -> SourceUnit {
    SourceUnit(
        unit.0
            .iter()
            .map(|part| match part {
                pt::SourceUnitPart::ContractDefinition(c) => {
                    SourceUnitPart::ContractDefinition(contract_of(table, c))
                }
                pt::SourceUnitPart::FunctionDefinition(f) => {
                    SourceUnitPart::FunctionDefinition(function_of(table, f))
                }
                pt::SourceUnitPart::VariableDefinition(v) => {
                    SourceUnitPart::VariableDefinition(variable_of(table, v))
                }
                _ => SourceUnitPart::Other,
            })
            .collect(),
    )
}

fn comment_of(table: &[usize], comment: &pt::Comment) -> Comment {
    let (ty, loc, text) = match comment {
        pt::Comment::Line(loc, text) => (CommentType::Line, loc, text),
        pt::Comment::Block(loc, text) => (CommentType::Block, loc, text),
        pt::Comment::DocLine(loc, text) => (CommentType::DocLine, loc, text),
        pt::Comment::DocBlock(loc, text) => (CommentType::DocBlock, loc, text),
    };
    Comment { ty, loc: loc_of(table, loc), text: text.clone() }
}

fn parsed_at(path: &str, src: &str) -> Parsed {
    let (unit, comments) = solang_parser::parse(src, 0).expect("Parsing failed");
    let table = characters_before(src);
    parse(
        path,
        src,
        unit_of(&table, &unit),
        comments.iter().map(|comment| comment_of(&table, comment)).collect(),
    )
}

fn check(expected: &ExpectedFindings, src: &str, kind: ValidatorKind) {
    assert!(expected.assert_eq(parsed_at("./anywhere.sol", src), kind));
}

fn descriptions(items: &[InvalidItem]) -> Vec<String> {
    items.iter().map(|item| item.description()).collect()
}

#[test]
fn constant_names_test_validate() {
    let content = r#"
            contract MyContract {
                // These have the constant or immutable keyword and should be valid.
                uint256 constant MAX_UINT256 = type(uint256).max;
                address constant ETH_ADDRESS = 0xEeeeeEeeeEeEeeEeEeEeeEEEeeeeEeeeeeeeEEeE;

                // These have the constant/immutable keyword and should be invalid.
                bytes32 immutable zeroBytes = 0;
                int256 immutable minInt256 = type(int256).min;

                // These should all be valid since they are not constant or immutable.
                address alice = address(123);
                uint256 aliceBalance = 500;
            }
        "#;

    let expected_findings = ExpectedFindings::new(2);
    check(&expected_findings, content, ValidatorKind::Constant);
}

#[test]
fn test_names_test_validate() {
    let content = r#"
            contract MyContract {
                // Good test names.
                function test_Description() public {}
                function test_Increment() public {}
                function testFuzz_Description() external {}
                function testFork_Description() external {}

                // Bad test names.
                function test() public {}
                function testDescription() public {}
                function testDescriptionMoreInfo() external {}

                // Things that are not tests and should be ignored.
                function test() internal {}
                function testDescription() internal {}
                function testDescriptionMoreInfo() private {}

                function _test() public {}
                function _testDescription() public {}
                function _testDescriptionMoreInfo() public {}
            }
        "#;

    let expected_findings = ExpectedFindings { test: 3, ..ExpectedFindings::default() };
    check(&expected_findings, content, ValidatorKind::Test);
}

#[test]
fn src_names_internal_test_validate() {
    let content = r#"
            contract MyContract {
                // Valid names for internal or private src methods.
                function _myInternalMethod() internal {}
                function _myPrivateMethod() private {}

                // Invalid names for internal or private src methods.
                function myInternalMethod() internal {}
                function myPrivateMethod() private {}

                // These should be ignored since they are public and external.
                function myPublicMethod() public {}
                function myExternalMethod() external {}
            }
        "#;

    let expected_findings = ExpectedFindings { src: 2, ..ExpectedFindings::default() };
    check(&expected_findings, content, ValidatorKind::Src);
}

#[test]
fn script_one_pubic_run_method_test_validate() {
    let content_good = r#"
            contract MyContract {
                function run() public {}
            }
        "#;

    // The number after `bad` on the variable name indicates the match arm covered.
    let content_bad0 = r#"
            contract MyContract {}
        "#;

    let content_bad1 = r#"
            contract MyContract {
                function notRun() public {}
            }
        "#;

    let content_bad2_variant0 = r#"
            contract MyContract {
                function run() public {}
                function run(string memory config) public {}
            }
        "#;

    let content_bad2_variant1 = r#"
            contract MyContract {
                function run() public {}
                function foo() public {}
            }
        "#;

    let content_bad2_variant2 = r#"
            contract MyContract {
                function foo() public {}
                function bar() public {}
            }
        "#;

    let expected_findings_good = ExpectedFindings::new(0);
    check(&expected_findings_good, content_good, ValidatorKind::Script);

    let expected_findings_bad = ExpectedFindings { script: 1, ..Default::default() };
    check(&expected_findings_bad, content_bad0, ValidatorKind::Script);
    check(&expected_findings_bad, content_bad1, ValidatorKind::Script);
    check(&expected_findings_bad, content_bad2_variant0, ValidatorKind::Script);
    check(&expected_findings_bad, content_bad2_variant1, ValidatorKind::Script);
    check(&expected_findings_bad, content_bad2_variant2, ValidatorKind::Script);
}

#[test]
fn expectations_that_do_not_hold_are_told() {
    let content = "contract C { uint256 constant bad = 1; }";
    assert!(ExpectedFindings::new(1).assert_eq(
        parsed_at("./src/C.sol", content),
        ValidatorKind::Constant
    ));
    assert!(!ExpectedFindings::new(0).assert_eq(
        parsed_at("./src/C.sol", content),
        ValidatorKind::Constant
    ));
    assert!(!ExpectedFindings { src: 2, ..ExpectedFindings::new(1) }
        .assert_eq(parsed_at("./src/C.sol", content), ValidatorKind::Constant));
}

#[test]
fn script_with_run_and_run_external_lists_both() {
    let content = r#"
pragma solidity ^0.8.17;

contract CounterScript {
    function setUp() public {}
    function run() public {}
    function runExternal() external {}
}
"#;
    let parsed = parsed_at("./script/Counter.s.sol", content);
    let items = script_one_public_run_method::validate(&parsed);
    assert_eq!(items.len(), 1);
    assert_eq!(
        items[0].description(),
        r#"Invalid script interface in ./script/Counter.s.sol: Scripts must have a single public method named `run` (excluding `setUp`), but the following methods were found: ["run", "runExternal"]"#
    );
    assert!(items[0].kind == ValidatorKind::Script);
    assert_eq!(items[0].line, 4);
}

#[test]
fn script_with_three_methods_lists_them_in_source_order() {
    let content = r#"
contract A {
    constructor() {}
    function run() public {}
    function anotherPublic() public {}
    function helper() internal {}
}
contract B {
    function thirdPublic() external {}
}
"#;
    let parsed = parsed_at("./script/Counter2.s.sol", content);
    let items = script_one_public_run_method::validate(&parsed);
    assert_eq!(
        descriptions(&items),
        vec![
            r#"Invalid script interface in ./script/Counter2.s.sol: Scripts must have a single public method named `run` (excluding `setUp`), but the following methods were found: ["run", "anotherPublic", "thirdPublic"]"#
                .to_string()
        ]
    );
    // The finding stands at the last contract of the file.
    assert_eq!(items[0].line, 8);
}

#[test]
fn script_messages_for_no_method_and_for_one_wrong_method() {
    let none = parsed_at("./script/A.s.sol", "contract A { function setUp() public {} }");
    assert_eq!(
        descriptions(&script_one_public_run_method::validate(&none)),
        vec!["Invalid script interface in ./script/A.s.sol: No `run` method found".to_string()]
    );
    let wrong = parsed_at("./script/A.s.sol", "contract A { function go() external {} }");
    assert_eq!(
        descriptions(&script_one_public_run_method::validate(&wrong)),
        vec![
            "Invalid script interface in ./script/A.s.sol: The only public method must be named `run`"
                .to_string()
        ]
    );
    let good = parsed_at("./script/A.s.sol", "contract A { function run() external {} }");
    assert!(script_one_public_run_method::validate(&good).is_empty());
}

#[test]
fn script_without_a_contract_is_reported_at_the_start_of_the_file() {
    let parsed = parsed_at("./script/Empty.s.sol", "pragma solidity ^0.8.17;\n");
    let items = script_one_public_run_method::validate(&parsed);
    assert_eq!(
        descriptions(&items),
        vec![
            "Invalid script interface in ./script/Empty.s.sol: No `run` method found".to_string()
        ]
    );
    assert_eq!(items[0].line, 1);
}

#[test]
fn script_rule_reads_script_files_only() {
    let content = "contract A { function go() external {} }";
    for path in ["./script/A.sol", "./src/A.s.sol", "./test/A.t.sol", "script/A.s.sol"] {
        assert!(script_one_public_run_method::validate(&parsed_at(path, content)).is_empty());
    }
}

#[test]
fn libraries_are_exempt_from_the_underscore_rule() {
    let library = "library L { function helper() private {} }";
    let contract = "contract L { function helper() private {} }";
    let abstract_contract = "abstract contract L { function helper() internal {} }";
    assert!(src_names_internal::validate(&parsed_at("./src/L.sol", library)).is_empty());
    assert_eq!(
        descriptions(&src_names_internal::validate(&parsed_at("./src/L.sol", contract))),
        vec!["Invalid src method name in ./src/L.sol on line 1: helper".to_string()]
    );
    assert_eq!(src_names_internal::validate(&parsed_at("./src/L.sol", abstract_contract)).len(), 1);
}

#[test]
fn free_functions_and_special_functions_under_the_underscore_rule() {
    let content = r#"
function freeHelper() internal {}
function _freeHelper() internal {}
contract C {
    constructor() internal {}
    fallback() external {}
    receive() external payable {}
    modifier onlyOwner() { _; }
    function f() private {}
}
"#;
    assert_eq!(
        descriptions(&src_names_internal::validate(&parsed_at("./src/C.sol", content))),
        vec![
            "Invalid src method name in ./src/C.sol on line 2: freeHelper".to_string(),
            "Invalid src method name in ./src/C.sol on line 9: f".to_string(),
        ]
    );
    assert!(src_names_internal::validate(&parsed_at("./test/C.t.sol", content)).is_empty());
    assert!(src_names_internal::validate(&parsed_at("./script/C.s.sol", content)).is_empty());
}

#[test]
fn test_rule_reports_at_the_name_of_the_function() {
    let content = "contract T {\n    function\n        testBad() public {}\n}\n";
    assert_eq!(
        descriptions(&test_names::validate(&parsed_at("./test/T.t.sol", content))),
        vec!["Invalid test name in ./test/T.t.sol on line 3: testBad".to_string()]
    );
    assert!(test_names::validate(&parsed_at("./test/T.sol", content)).is_empty());
    assert!(test_names::validate(&parsed_at("./src/T.t.sol", content)).is_empty());
}

#[test]
fn constants_are_checked_in_every_file_and_at_top_level() {
    let content = r#"
uint256 constant fileLevel = 1;
uint256 constant FILE_LEVEL = 1;
library L { uint256 constant inLibrary = 2; }
abstract contract A { uint256 immutable inAbstract; uint256 plain; }
"#;
    for path in ["./src/A.sol", "./script/A.s.sol", "./test/A.t.sol", "./lib/A.sol", "A.sol"] {
        let items = constant_names::validate(&parsed_at(path, content));
        assert_eq!(
            descriptions(&items),
            vec![
                format!("Invalid constant or immutable name in {path} on line 2: fileLevel"),
                format!("Invalid constant or immutable name in {path} on line 4: inLibrary"),
                format!("Invalid constant or immutable name in {path} on line 5: inAbstract"),
            ]
        );
    }
}

#[test]
fn each_constant_gets_no_finding_or_one() {
    for (name, expected) in [("MAX", 0), ("max", 1), ("MAX_1", 0), ("Max", 1), ("_$A", 0)] {
        let content = format!("contract C {{ uint256 constant {name} = 1; }}");
        let items = constant_names::validate(&parsed_at("./src/C.sol", &content));
        assert_eq!(items.len(), expected, "{name}");
        let top = format!("uint256 constant {name} = 1;");
        assert_eq!(
            constant_names::validate(&parsed_at("./src/C.sol", &top)).len(),
            expected,
            "{name}"
        );
    }
}

#[test]
fn every_rule_runs_on_a_file_and_directives_come_first() {
    let content = r#"// scopelint: this directive is invalid
contract Counter {
    uint256 immutable badImmutable;
    function internalShouldHaveLeadingUnderscore() internal {}
}
"#;
    let parsed = parsed_at("./src/Counter.sol", content);
    assert_eq!(
        descriptions(&validate(&parsed)),
        vec![
            "Invalid directive in ./src/Counter.sol: Invalid inline config item: this directive is invalid"
                .to_string(),
            "Invalid src method name in ./src/Counter.sol on line 4: internalShouldHaveLeadingUnderscore"
                .to_string(),
            "Invalid constant or immutable name in ./src/Counter.sol on line 3: badImmutable"
                .to_string(),
        ]
    );
    assert_eq!(run_rule(ValidatorKind::Directive, &parsed).len(), 1);
    assert_eq!(run_rule(ValidatorKind::Src, &parsed).len(), 1);
    assert_eq!(run_rule(ValidatorKind::Constant, &parsed).len(), 1);
    assert_eq!(run_rule(ValidatorKind::Test, &parsed).len(), 0);
    assert_eq!(run_rule(ValidatorKind::Script, &parsed).len(), 0);
}

fn project() -> Vec<Parsed> {
    vec![
        parsed_at(
            "./src/Counter.sol",
            r#"pragma solidity ^0.8.17;

contract Counter {
    uint256 public number;
    uint256 immutable badImmutable;
    uint256 constant bad_constant = 1;
    // scopelint: this directive is invalid

    function _ok() internal {}

    function internalShouldHaveLeadingUnderscore() internal {}

    function privateShouldHaveLeadingUnderscore() private {}
}
"#,
        ),
        parsed_at(
            "./script/Counter.s.sol",
            r#"pragma solidity ^0.8.17;

contract CounterScript {
    uint256 constant bad_constant = 1;
    uint256 constant VERY_bad_constant = 1;
    uint256 constant sorryBadName = 1;

    function setUp() public {}
    function run() public {}
    function runExternal() external {}
}
"#,
        ),
        parsed_at(
            "./test/Counter.t.sol",
            r#"pragma solidity ^0.8.17;

contract CounterTest {
    uint256 constant testVal = 1;

    function setUp() public {}
    function test_Increment() public {}
    function testIncrementBadName() public {}
}
"#,
        ),
    ]
}

const PROJECT_REPORT: &str = r#"Invalid constant or immutable name in ./script/Counter.s.sol on line 4: bad_constant
Invalid constant or immutable name in ./script/Counter.s.sol on line 5: VERY_bad_constant
Invalid constant or immutable name in ./script/Counter.s.sol on line 6: sorryBadName
Invalid constant or immutable name in ./src/Counter.sol on line 5: badImmutable
Invalid constant or immutable name in ./src/Counter.sol on line 6: bad_constant
Invalid constant or immutable name in ./test/Counter.t.sol on line 4: testVal
Invalid script interface in ./script/Counter.s.sol: Scripts must have a single public method named `run` (excluding `setUp`), but the following methods were found: ["run", "runExternal"]
Invalid src method name in ./src/Counter.sol on line 11: internalShouldHaveLeadingUnderscore
Invalid src method name in ./src/Counter.sol on line 13: privateShouldHaveLeadingUnderscore
Invalid test name in ./test/Counter.t.sol on line 8: testIncrementBadName
Invalid directive in ./src/Counter.sol: Invalid inline config item: this directive is invalid
"#;

#[test]
fn a_project_is_reported_by_rule_file_line_and_details() {
    let report = validate_all(&project());
    assert!(!report.is_valid());
    assert_eq!(report.render(), PROJECT_REPORT);
}

#[test]
fn two_runs_give_the_same_report_in_any_order_of_files() {
    let first = validate_all(&project()).render();
    let second = validate_all(&project()).render();
    assert_eq!(first, second);
    let mut reversed = project();
    reversed.reverse();
    assert_eq!(validate_all(&reversed).render(), first);
    let mut rotated = project();
    rotated.rotate_left(1);
    assert_eq!(validate_all(&rotated).render(), first);
}

#[test]
fn a_project_without_findings_is_valid_and_shows_nothing() {
    let files = vec![
        parsed_at("./src/Counter.sol", "contract Counter { uint256 constant MAX = 1; function _f() internal {} }"),
        parsed_at("./script/Counter.s.sol", "contract S { function run() public {} }"),
        parsed_at("./test/Counter.t.sol", "contract T { function test_Works() public {} }"),
    ];
    let report = validate_all(&files);
    assert!(report.is_valid());
    assert_eq!(report.render(), "");
    assert!(validate_all(&Vec::new()).is_valid());
}

#[test]
fn findings_in_a_disabled_region_are_kept_and_not_shown() {
    let content = r#"contract Counter {
    uint256 constant before_region = 1;
    // scopelint: disable-start
    uint256 constant inside_region = 1;
    function inside() internal {}
    // scopelint: disable-end
    uint256 constant after_region = 1;
}
"#;
    let parsed = parsed_at("./src/Counter.sol", content);
    let items = validate(&parsed);
    assert_eq!(items.len(), 4);
    let disabled: Vec<&str> =
        items.iter().filter(|item| item.is_disabled).map(|item| item.text.as_str()).collect();
    assert_eq!(disabled, vec!["inside", "inside_region"]);
    let report = validate_all(&vec![parsed]);
    assert_eq!(report.items().len(), 4);
    assert_eq!(
        report.render(),
        "Invalid constant or immutable name in ./src/Counter.sol on line 2: before_region\n\
         Invalid constant or immutable name in ./src/Counter.sol on line 7: after_region\n"
    );
    assert!(!report.is_valid());
}

#[test]
fn line_directives_silence_one_line_for_one_rule_or_all() {
    let content = r#"contract Counter {
    // scopelint: disable-next-line
    uint256 constant silenced_by_previous_line = 1;
    uint256 constant silenced_on_its_line = 1; // scopelint: disable-line
    uint256 constant not_silenced = 1;
    // scopelint: disable-next-line src
    uint256 constant filter_is_for_another_rule = 1;
    // scopelint: disable-next-line constant
    uint256 constant filter_is_for_this_rule = 1;
    // scopelint: disable-next-line src
    function silenced() internal {}
    function notSilenced() internal {} // scopelint: disable-line constant
}
"#;
    let report = validate_all(&vec![parsed_at("./src/Counter.sol", content)]);
    assert_eq!(
        report.render(),
        "Invalid constant or immutable name in ./src/Counter.sol on line 5: not_silenced\n\
         Invalid constant or immutable name in ./src/Counter.sol on line 7: filter_is_for_another_rule\n\
         Invalid src method name in ./src/Counter.sol on line 12: notSilenced\n"
    );
    assert_eq!(report.items().len(), 7);
}

#[test]
fn a_file_with_only_silenced_findings_is_valid() {
    let content = r#"contract Counter {
    // scopelint: disable-start
    uint256 constant bad = 1;
    // scopelint: disable-end
}
"#;
    let report = validate_all(&vec![parsed_at("./src/Counter.sol", content)]);
    assert_eq!(report.items().len(), 1);
    assert!(report.is_valid());
    assert_eq!(report.render(), "");
}

#[test]
fn an_unmatched_start_is_one_directive_finding_and_silences_nothing() {
    let content = r#"contract Counter {
    // scopelint: disable-start
    uint256 constant bad = 1;
}
"#;
    let parsed = parsed_at("./src/Counter.sol", content);
    assert_eq!(run_rule(ValidatorKind::Directive, &parsed).len(), 1);
    let report = validate_all(&vec![parsed]);
    assert_eq!(
        report.render(),
        "Invalid constant or immutable name in ./src/Counter.sol on line 3: bad\n\
         Invalid directive in ./src/Counter.sol: Invalid inline config item: disable-start without disable-end\n"
    );
}

#[test]
fn a_directive_finding_can_itself_be_silenced() {
    let content = r#"contract Counter {
    // scopelint: disable-next-line directive
    // scopelint: disable-nextline
    // scopelint: typo
}
"#;
    let parsed = parsed_at("./src/Counter.sol", content);
    let items = run_rule(ValidatorKind::Directive, &parsed);
    assert_eq!(items.len(), 2);
    assert!(items[0].is_disabled);
    assert!(!items[1].is_disabled);
    assert_eq!(
        validate_all(&vec![parsed]).render(),
        "Invalid directive in ./src/Counter.sol: Invalid inline config item: typo\n"
    );
}

#[test]
fn the_kind_of_a_parsed_file_is_that_of_its_path() {
    use_kind("./src/Counter.sol", Some(scopelint::check::utils::FileKind::Src));
    use_kind("./script/Counter.s.sol", Some(scopelint::check::utils::FileKind::Script));
    use_kind("./test/Counter.t.sol", Some(scopelint::check::utils::FileKind::Test));
    use_kind("./test/Helpers.sol", None);
}

fn use_kind(path: &str, expected: Option<scopelint::check::utils::FileKind>) {
    let parsed = parsed_at(path, "contract C {}");
    assert_eq!(parsed.kind(), expected);
    assert_eq!(parsed.file, path);
    assert_eq!(parsed.src, "contract C {}");
    assert_eq!(parsed.comments.len(), 0);
}

#[test]
fn lines_and_regions_are_right_in_text_that_is_not_ascii() {
    let content = "// Zähler für die Überweisungen — «ledger»\ncontract Zähler {\n    /* ünïcödé */ uint256 constant schlüssel = 1;\n    // scopelint: disable-next-line\n    uint256 constant größe = 1; // ✓\n    uint256 constant nach = 1;\n}\n";
    let parsed = parsed_at("./src/Zähler.sol", content);
    let items = constant_names::validate(&parsed);
    assert_eq!(
        descriptions(&items),
        vec![
            "Invalid constant or immutable name in ./src/Zähler.sol on line 3: schlüssel"
                .to_string(),
            "Invalid constant or immutable name in ./src/Zähler.sol on line 5: größe".to_string(),
            "Invalid constant or immutable name in ./src/Zähler.sol on line 6: nach".to_string(),
        ]
    );
    let disabled: Vec<bool> = items.iter().map(|item| item.is_disabled).collect();
    assert_eq!(disabled, vec![false, true, false]);
}

#[test]
fn a_list_is_in_brackets_with_commas_between() {
    let list = |items: &[&str]| -> String {
        script_one_public_run_method::list_of(&items.iter().map(|s| s.to_string()).collect())
    };
    assert_eq!(list(&[]), "[]");
    assert_eq!(list(&["a"]), "[a]");
    assert_eq!(list(&["a", "b"]), "[a, b]");
    assert_eq!(list(&["\"run\"", "\"runExternal\""]), "[\"run\", \"runExternal\"]");
    assert_eq!(list(&["", "", ""]), "[, , ]");
}

#[test]
fn names_are_quoted_as_debug_formats_them() {
    let names: Vec<String> =
        ["run", "", "with\"quote", "tab\there", "ünï"].iter().map(|s| s.to_string()).collect();
    let expected: Vec<String> = names.iter().map(|name| format!("{name:?}")).collect();
    assert_eq!(script_one_public_run_method::quote_all(&names), expected);
    assert_eq!(expected[0], "\"run\"");
    assert_eq!(expected[2], "\"with\\\"quote\"");
    assert_eq!(
        script_one_public_run_method::list_of(&script_one_public_run_method::quote_all(&names)),
        format!("{names:?}")
    );
}

#[test]
fn the_complaint_lists_the_names_as_they_are_shown() {
    let strings = |items: &[&str]| -> Vec<String> { items.iter().map(|s| s.to_string()).collect() };
    let describe_with = script_one_public_run_method::describe_with;
    assert_eq!(
        describe_with(&strings(&["run", "runExternal"]), &strings(&["<run>", "<runExternal>"])),
        Some(
            "Scripts must have a single public method named `run` (excluding `setUp`), but the following methods were found: [<run>, <runExternal>]"
                .to_string()
        )
    );
    assert_eq!(
        describe_with(&strings(&[]), &strings(&[])),
        Some("No `run` method found".to_string())
    );
    assert_eq!(
        describe_with(&strings(&["go"]), &strings(&["\"go\""])),
        Some("The only public method must be named `run`".to_string())
    );
    assert_eq!(describe_with(&strings(&["run"]), &strings(&["\"run\""])), None);
    assert_eq!(
        script_one_public_run_method::describe(&strings(&["run", "runExternal"])),
        Some(
            "Scripts must have a single public method named `run` (excluding `setUp`), but the following methods were found: [\"run\", \"runExternal\"]"
                .to_string()
        )
    );
}
