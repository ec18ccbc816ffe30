use itertools::Itertools;
use scopelint::check::comments::{Comment, CommentType};
use scopelint::check::report::{comes_first, Report};
use scopelint::check::syntax::{Loc, SourceUnit};
use scopelint::check::utils::{InvalidItem, ValidatorKind};
use scopelint::check::{parse, Parsed};

fn item(kind: ValidatorKind, file: &str, line: usize, text: &str, is_disabled: bool) -> InvalidItem {
    InvalidItem { kind, file: file.to_string(), line, text: text.to_string(), is_disabled }
}

fn sample() -> Vec<InvalidItem> {
    vec![
        item(ValidatorKind::Test, "./test/B.t.sol", 16, "testIncrementBadName", false),
        item(ValidatorKind::Directive, "./src/A.sol", 3, "Invalid inline config item: x", false),
        item(ValidatorKind::Constant, "./src/B.sol", 5, "badImmutable", false),
        item(ValidatorKind::Constant, "./src/A.sol", 12, "b", false),
        item(ValidatorKind::Constant, "./src/A.sol", 7, "z", false),
        item(ValidatorKind::Constant, "./src/A.sol", 7, "a", false),
        item(ValidatorKind::Src, "./src/A.sol", 23, "internalShouldHaveLeadingUnderscore", false),
        item(ValidatorKind::Script, "./script/A.s.sol", 1, "No `run` method found", false),
        item(ValidatorKind::Constant, "./src/A.sol", 7, "hidden", true),
        item(ValidatorKind::Constant, "./src/A.sol", 100, "a", false),
        item(ValidatorKind::Constant, "./src/A.sol", 7, "a", false),
        item(ValidatorKind::Constant, "./src/A", 9, "shorterPath", false),
    ]
}

const SAMPLE_REPORT: &str = "\
Invalid constant or immutable name in ./src/A on line 9: shorterPath
Invalid constant or immutable name in ./src/A.sol on line 7: a
Invalid constant or immutable name in ./src/A.sol on line 7: a
Invalid constant or immutable name in ./src/A.sol on line 7: z
Invalid constant or immutable name in ./src/A.sol on line 12: b
Invalid constant or immutable name in ./src/A.sol on line 100: a
Invalid constant or immutable name in ./src/B.sol on line 5: badImmutable
Invalid script interface in ./script/A.s.sol: No `run` method found
Invalid src method name in ./src/A.sol on line 23: internalShouldHaveLeadingUnderscore
Invalid test name in ./test/B.t.sol on line 16: testIncrementBadName
Invalid directive in ./src/A.sol: Invalid inline config item: x
";

#[test]
fn descriptions_of_each_kind() {
    assert_eq!(
        item(ValidatorKind::Test, "./test/Counter.t.sol", 16, "testIncrementBadName", false)
            .description(),
        "Invalid test name in ./test/Counter.t.sol on line 16: testIncrementBadName"
    );
    assert_eq!(
        item(ValidatorKind::Constant, "./src/Counter.sol", 5, "badImmutable", false).description(),
        "Invalid constant or immutable name in ./src/Counter.sol on line 5: badImmutable"
    );
    assert_eq!(
        item(ValidatorKind::Script, "./script/Counter.s.sol", 7, "No `run` method found", false)
            .description(),
        "Invalid script interface in ./script/Counter.s.sol: No `run` method found"
    );
    assert_eq!(
        item(ValidatorKind::Src, "./src/Counter.sol", 23, "internalShouldHaveLeadingUnderscore", true)
            .description(),
        "Invalid src method name in ./src/Counter.sol on line 23: internalShouldHaveLeadingUnderscore"
    );
    assert_eq!(
        item(
            ValidatorKind::Directive,
            "./src/Counter.sol",
            9,
            "Invalid inline config item: this directive is invalid",
            false
        )
        .description(),
        "Invalid directive in ./src/Counter.sol: Invalid inline config item: this directive is invalid"
    );
}

#[test]
fn line_numbers_are_written_in_decimal() {
    for line in [0, 1, 9, 10, 11, 99, 100, 101, 1234567890, usize::MAX] {
        assert_eq!(
            item(ValidatorKind::Test, "f", line, "t", false).description(),
            format!("Invalid test name in f on line {line}: t")
        );
    }
}

#[test]
fn an_empty_report_is_valid_and_shows_nothing() {
    let report = Report::default();
    assert!(report.is_valid());
    assert_eq!(report.render(), "");
    assert!(report.items().is_empty());
    assert!(report.sorted_items().is_empty());
}

#[test]
fn the_report_is_sorted_by_kind_file_line_and_text() {
    let mut report = Report::default();
    report.add_items(sample());
    assert_eq!(report.render(), SAMPLE_REPORT);
    assert_eq!(report.items().len(), 12);
    assert_eq!(report.sorted_items().len(), 11);
}

#[test]
fn the_report_does_not_depend_on_the_order_of_insertion() {
    let items = sample();
    for rotation in 0..items.len() {
        let mut rotated = items.clone();
        rotated.rotate_left(rotation);
        let mut one_by_one = Report::default();
        for item in rotated.clone() {
            one_by_one.add_item(item);
        }
        assert_eq!(one_by_one.render(), SAMPLE_REPORT);
        let mut reversed = rotated;
        reversed.reverse();
        let mut at_once = Report::default();
        at_once.add_items(reversed);
        assert_eq!(at_once.render(), SAMPLE_REPORT);
    }
}

#[test]
fn the_order_of_the_report_is_the_order_of_the_items() {
    let items = sample();
    let mut report = Report::default();
    report.add_items(items.clone());
    let expected: Vec<String> = items
        .iter()
        .filter(|item| !item.is_disabled)
        .sorted_unstable()
        .map(|item| item.description())
        .collect();
    let shown: Vec<String> =
        report.sorted_items().into_iter().map(|item| item.description()).collect();
    assert_eq!(shown, expected);
    for a in &items {
        for b in &items {
            assert_eq!(comes_first(a, b), a <= b);
        }
    }
}

#[test]
fn strings_are_ordered_by_code_point() {
    let names = ["", "A", "B", "Z", "_", "a", "ab", "b", "é", "Ω", "中", "\u{10000}"];
    for (i, a) in names.iter().enumerate() {
        for (j, b) in names.iter().enumerate() {
            let first = item(ValidatorKind::Test, a, 1, "t", false);
            let second = item(ValidatorKind::Test, b, 1, "t", false);
            assert_eq!(comes_first(&first, &second), i <= j, "{a} {b}");
            let first = item(ValidatorKind::Test, "f", 1, a, false);
            let second = item(ValidatorKind::Test, "f", 1, b, false);
            assert_eq!(comes_first(&first, &second), i <= j, "{a} {b}");
        }
    }
}

#[test]
fn disabled_items_are_kept_and_never_shown() {
    let mut report = Report::default();
    report.add_item(item(ValidatorKind::Test, "./test/A.t.sol", 3, "testBad", true));
    assert!(report.is_valid());
    assert_eq!(report.render(), "");
    assert_eq!(report.items().len(), 1);
    report.add_item(item(ValidatorKind::Test, "./test/A.t.sol", 4, "testWorse", false));
    assert!(!report.is_valid());
    assert_eq!(report.render(), "Invalid test name in ./test/A.t.sol on line 4: testWorse\n");
    report.add_items(vec![
        item(ValidatorKind::Constant, "./src/A.sol", 1, "x", true),
        item(ValidatorKind::Constant, "./src/A.sol", 2, "y", true),
    ]);
    assert_eq!(report.render(), "Invalid test name in ./test/A.t.sol on line 4: testWorse\n");
    assert_eq!(report.items().len(), 4);
}

fn file_with_region(src: &str, start: Loc, end: Loc) -> Parsed {
    let text = |loc: Loc| src[loc.start..loc.end].to_string();
    parse(
        "./src/A.sol",
        src,
        SourceUnit(Vec::new()),
        vec![
            Comment { ty: CommentType::Line, loc: start, text: text(start) },
            Comment { ty: CommentType::Line, loc: end, text: text(end) },
        ],
    )
}

#[test]
fn a_finding_inside_a_region_is_not_rendered_and_one_outside_is() {
    let src = "line 1\n// scopelint: disable-start\nline 3\nline 4\n// scopelint: disable-end\nline 6\n";
    let start = Loc { start: 7, end: 34 };
    let end = Loc { start: 49, end: 74 };
    assert_eq!(&src[start.start..start.end], "// scopelint: disable-start");
    assert_eq!(&src[end.start..end.end], "// scopelint: disable-end");
    let parsed = file_with_region(src, start, end);
    assert!(parsed.invalid_inline_config_items.is_empty());

    for kind in [
        ValidatorKind::Constant,
        ValidatorKind::Script,
        ValidatorKind::Src,
        ValidatorKind::Test,
        ValidatorKind::Directive,
    ] {
        let inside = InvalidItem::new(kind, &parsed, Loc { start: 35, end: 41 }, "x".to_string());
        let also_inside =
            InvalidItem::new(kind, &parsed, Loc { start: 42, end: 48 }, "x".to_string());
        let before = InvalidItem::new(kind, &parsed, Loc { start: 0, end: 6 }, "x".to_string());
        let after = InvalidItem::new(kind, &parsed, Loc { start: 75, end: 81 }, "x".to_string());
        assert!(inside.is_disabled && also_inside.is_disabled);
        assert!(!before.is_disabled && !after.is_disabled);
        assert_eq!((before.line, inside.line, also_inside.line, after.line), (1, 3, 4, 6));

        let mut report = Report::default();
        report.add_item(inside.clone());
        report.add_item(also_inside);
        assert_eq!(report.render(), "");
        assert!(report.is_valid());
        report.add_item(after.clone());
        report.add_item(before.clone());
        assert_eq!(
            report.render(),
            format!("{}\n{}\n", before.description(), after.description())
        );
        if inside.description() != before.description() {
            assert!(!report.render().contains(&format!("{}\n", inside.description())));
        }
    }
}
