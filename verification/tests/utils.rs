use scopelint::check::syntax::{
    FunctionAttribute, FunctionDefinition, FunctionTy, Loc, VariableAttribute,
    VariableDefinition, Visibility,
};
use scopelint::check::utils::{
    classify, is_solidity_file, offset_to_line, ExpectedFindings, FileKind, IsFileKind, Name,
    ValidatorKind, VisibilitySummary,
};
use scopelint::check::validators::formatting::validate;
use scopelint::check::validators::src_names_internal::is_valid_internal_or_private_name;
use scopelint::check::validators::test_names::is_test_function;
use scopelint::check::validators::{constant_names, script_one_public_run_method, test_names};

#[test]
fn offsets_on_lines() {
    let content = "one\ntwo\n\nfour\n";
    //             0123 4567 8 9
    let lines: Vec<usize> = (0..14).map(|offset| offset_to_line(content, offset)).collect();
    assert_eq!(lines, vec![1, 1, 1, 1, 2, 2, 2, 2, 3, 4, 4, 4, 4, 4]);
}

#[test]
fn a_line_feed_stands_on_the_line_that_it_ends() {
    assert_eq!(offset_to_line("a\nb", 0), 1);
    assert_eq!(offset_to_line("a\nb", 1), 1);
    assert_eq!(offset_to_line("a\nb", 2), 2);
    assert_eq!(offset_to_line("\n\n", 0), 1);
    assert_eq!(offset_to_line("\n\n", 1), 2);
}

#[test]
fn offsets_at_and_beyond_the_end() {
    let content = "one\ntwo\n\nfour\n";
    assert_eq!(offset_to_line(content, 13), 4);
    assert_eq!(offset_to_line(content, 14), 5);
    assert_eq!(offset_to_line(content, 1000), 5);
    assert_eq!(offset_to_line(content, usize::MAX), 5);
    assert_eq!(offset_to_line("", 0), 1);
    assert_eq!(offset_to_line("", 7), 1);
    assert_eq!(offset_to_line("x", 0), 1);
    assert_eq!(offset_to_line("x", 1), 1);
    assert_eq!(offset_to_line("\n", 0), 1);
    assert_eq!(offset_to_line("\n", 1), 2);
}

#[test]
fn offsets_count_characters() {
    // In bytes the second line would begin at offset 3.
    assert_eq!(offset_to_line("é\né\né", 1), 1);
    assert_eq!(offset_to_line("é\né\né", 2), 2);
    assert_eq!(offset_to_line("é\né\né", 3), 2);
    assert_eq!(offset_to_line("é\né\né", 4), 3);
}

#[test]
fn the_line_of_an_offset_is_that_of_the_text_before_it() {
    let content = "pragma solidity ^0.8.17;\n\ncontract C {\n    uint256 x;\n}\n";
    for (offset, _) in content.char_indices() {
        assert_eq!(offset_to_line(content, offset), content[..offset].lines().count().max(1)
            + usize::from(offset > 0 && content[..offset].ends_with('\n')));
    }
}

#[test]
fn files_are_classified_by_root_and_suffix() {
    assert_eq!(classify("./script/Deploy.s.sol"), Some(FileKind::Script));
    assert_eq!(classify("./src/Counter.sol"), Some(FileKind::Src));
    assert_eq!(classify("./test/Counter.t.sol"), Some(FileKind::Test));
    assert_eq!(classify("./src/nested/deep/Counter.sol"), Some(FileKind::Src));
    // Helpers share a root with a role, not its suffix.
    assert_eq!(classify("./script/ScriptHelpers.sol"), None);
    assert_eq!(classify("./test/TestHelpers.sol"), None);
    // The suffix is matched as text, not as the last extension.
    assert_eq!(classify("./src/Counter.t.sol"), Some(FileKind::Src));
    assert_eq!(classify("./src/Counter.s.sol"), Some(FileKind::Src));
    assert_eq!(classify("./test/Counter.s.sol"), None);
    assert_eq!(classify("./script/Counter.t.sol"), None);
    // Matching is case-sensitive and the path is relative to the project.
    assert_eq!(classify("./src/Counter.SOL"), None);
    assert_eq!(classify("./Src/Counter.sol"), None);
    assert_eq!(classify("src/Counter.sol"), None);
    assert_eq!(classify("/src/Counter.sol"), None);
    assert_eq!(classify("./lib/Counter.sol"), None);
    assert_eq!(classify(""), None);
    assert_eq!(classify("./src"), None);
    assert_eq!(classify("./src.sol"), Some(FileKind::Src));
    assert_eq!(classify("./scripts/Deploy.s.sol"), Some(FileKind::Script));
}

#[test]
fn a_file_is_of_a_kind_exactly_when_it_is_classified_so() {
    let paths = [
        "./script/Deploy.s.sol",
        "./script/Helpers.sol",
        "./src/Counter.sol",
        "./src/Counter.t.sol",
        "./test/Counter.t.sol",
        "./test/Helpers.sol",
        "./lib/x.sol",
        "",
    ];
    for path in paths {
        for kind in [FileKind::Script, FileKind::Src, FileKind::Test] {
            assert_eq!(path.is_file_kind(kind), classify(path) == Some(kind), "{path}");
        }
        assert_eq!(test_names::is_matching_file(path), classify(path) == Some(FileKind::Test));
        assert_eq!(
            script_one_public_run_method::is_matching_file(path),
            classify(path) == Some(FileKind::Script)
        );
        assert!(constant_names::is_matching_file(path));
    }
}

fn function(ty: FunctionTy, name: Option<&str>, attributes: Vec<FunctionAttribute>) -> FunctionDefinition {
    FunctionDefinition {
        loc: Loc { start: 0, end: 0 },
        ty,
        name: name.map(str::to_string),
        name_loc: Loc { start: 0, end: 0 },
        attributes,
    }
}

#[test]
fn names_of_functions() {
    assert_eq!(function(FunctionTy::Function, Some("run"), vec![]).name(), Some("run".to_string()));
    assert_eq!(
        function(FunctionTy::Modifier, Some("onlyOwner"), vec![]).name(),
        Some("onlyOwner".to_string())
    );
    assert_eq!(function(FunctionTy::Function, None, vec![]).name(), None);
    assert_eq!(
        function(FunctionTy::Constructor, None, vec![]).name(),
        Some("constructor".to_string())
    );
    assert_eq!(function(FunctionTy::Fallback, None, vec![]).name(), Some("fallback".to_string()));
    assert_eq!(function(FunctionTy::Receive, None, vec![]).name(), Some("receive".to_string()));
    assert_eq!(
        function(FunctionTy::Constructor, Some("ignored"), vec![]).name(),
        Some("constructor".to_string())
    );
}

#[test]
fn visibility_of_functions() {
    let with = |v: Visibility| {
        function(
            FunctionTy::Function,
            Some("f"),
            vec![FunctionAttribute::Other, FunctionAttribute::Visibility(v), FunctionAttribute::Other],
        )
    };
    assert!(with(Visibility::Internal).is_internal_or_private());
    assert!(with(Visibility::Private).is_internal_or_private());
    assert!(!with(Visibility::Public).is_internal_or_private());
    assert!(!with(Visibility::External).is_internal_or_private());
    assert!(with(Visibility::Public).is_public_or_external());
    assert!(with(Visibility::External).is_public_or_external());
    assert!(!with(Visibility::Internal).is_public_or_external());
    assert!(!with(Visibility::Private).is_public_or_external());
    let bare = function(FunctionTy::Function, Some("f"), vec![FunctionAttribute::Other]);
    assert!(!bare.is_internal_or_private() && !bare.is_public_or_external());
    let none = function(FunctionTy::Function, Some("f"), vec![]);
    assert!(!none.is_internal_or_private() && !none.is_public_or_external());
}

#[test]
fn tests_are_public_functions_named_test() {
    let public = vec![FunctionAttribute::Visibility(Visibility::Public)];
    let external = vec![FunctionAttribute::Visibility(Visibility::External)];
    let internal = vec![FunctionAttribute::Visibility(Visibility::Internal)];
    assert!(is_test_function(&function(FunctionTy::Function, Some("test"), public.clone())));
    assert!(is_test_function(&function(FunctionTy::Function, Some("testFoo"), external)));
    assert!(!is_test_function(&function(FunctionTy::Function, Some("testFoo"), internal)));
    assert!(!is_test_function(&function(FunctionTy::Function, Some("testFoo"), vec![])));
    assert!(!is_test_function(&function(FunctionTy::Function, Some("_test"), public.clone())));
    assert!(!is_test_function(&function(FunctionTy::Function, None, public.clone())));
    assert!(!is_test_function(&function(FunctionTy::Constructor, Some("testFoo"), public)));
}

#[test]
fn constants_are_flagged_by_attribute() {
    let variable = |attrs: Vec<VariableAttribute>| VariableDefinition {
        loc: Loc { start: 0, end: 0 },
        attrs,
        name: Some("x".to_string()),
    };
    assert!(variable(vec![VariableAttribute::Constant]).has_constant_attribute());
    assert!(variable(vec![VariableAttribute::Other, VariableAttribute::Immutable])
        .has_constant_attribute());
    assert!(!variable(vec![VariableAttribute::Other]).has_constant_attribute());
    assert!(!variable(vec![]).has_constant_attribute());
}

#[test]
fn internal_names_begin_with_an_underscore() {
    assert!(is_valid_internal_or_private_name("_helper"));
    assert!(is_valid_internal_or_private_name("_"));
    assert!(is_valid_internal_or_private_name("__x"));
    assert!(!is_valid_internal_or_private_name("helper"));
    assert!(!is_valid_internal_or_private_name("helper_"));
    assert!(!is_valid_internal_or_private_name(""));
    assert!(!is_valid_internal_or_private_name("$_x"));
}

#[test]
fn kinds_are_ranked_in_the_order_of_the_report() {
    let kinds = [
        ValidatorKind::Constant,
        ValidatorKind::Script,
        ValidatorKind::Src,
        ValidatorKind::Test,
        ValidatorKind::Directive,
    ];
    for (i, kind) in kinds.iter().enumerate() {
        assert_eq!(kind.position() as usize, i);
    }
    for pair in kinds.windows(2) {
        assert!(pair[0] < pair[1]);
    }
}

#[test]
fn expected_findings_for_every_role_or_none() {
    let all = ExpectedFindings::new(3);
    assert_eq!(
        (all.script_helper, all.script, all.src, all.test_helper, all.test),
        (3, 3, 3, 3, 3)
    );
    assert_eq!(ExpectedFindings::default(), ExpectedFindings::new(0));
}

#[test]
fn solidity_files_are_known_by_their_extension() {
    for path in [
        "./src/Counter.sol",
        "./test/Counter.t.sol",
        "Counter.sol",
        "./a.b/c.sol",
        "./src/..sol",
        "./src/a..sol",
        "./src/.hidden.sol",
    ] {
        assert!(is_solidity_file(path), "{path}");
        assert_eq!(
            std::path::Path::new(path).extension().and_then(|e| e.to_str()),
            Some("sol"),
            "{path}"
        );
    }
    for path in [
        "./src/Counter.SOL",
        "./src/Counter.sol.bak",
        "./src/Countersol",
        "./src/.sol",
        ".sol",
        "./src.sol/Counter",
        "./src/Counter.sol/",
        "./src/Counter",
        "",
    ] {
        assert!(!is_solidity_file(path), "{path}");
    }
}

#[test]
fn formatting_is_judged_from_what_the_formatters_answered() {
    assert!(validate(true, "", "a = 1\n", "a = 1\n"));
    assert!(validate(true, "", "", ""));
    assert!(!validate(false, "", "a = 1\n", "a = 1\n"));
    assert!(!validate(true, "warning", "a = 1\n", "a = 1\n"));
    assert!(!validate(true, "", "a=1\n", "a = 1\n"));
    assert!(!validate(false, "error", "a=1", "a = 1\n"));
}
