//! A script has exactly one public method, and it is named `run`.

use crate::check::syntax::{
    part_views, FunctionDefinition, FunctionView, Loc, SourceUnitPart, SourceUnitPartView,
};
use crate::check::utils::{
    finding_at, findings, is_of_kind, FileKind, Finding, InvalidItem, IsFileKind, Name,
    ValidatorKind, VisibilitySummary,
};
use crate::check::validators::{collect_functions, functions_in, targets};
use crate::check::{Parsed, ParsedView};
use crate::text::{chars_of, push_str, same, string_of};
use vstd::prelude::*;

verus! {

/// What formatting the string `s` with `{:?}` gives: the string between
/// double quotes, with the characters that `Debug` escapes written as their
/// escapes.
pub uninterp spec fn debug_text(s: Seq<char>) -> Seq<char>;

/// Formats `s` with `{:?}`, the `Debug` formatting of a string. Nothing is
/// proved of the text: the contract gives it a name, on the ground that it
/// depends on the characters of `s` alone.
#[verifier::external_body]
pub(crate) fn quote(s: &str) -> (r: String)
    ensures
        r@ == debug_text(s@),
{
    format!("{s:?}")
}

/// The rule is run on script files.
pub fn is_matching_file(file: &str) -> (r: bool)
    ensures
        r == is_of_kind(file@, FileKind::Script),
{
    file.is_file_kind(FileKind::Script)
}

/// `f` counts as a public method of a script: it is public or external, and
/// it is neither `setUp` nor the constructor.
pub open spec fn is_counted(f: FunctionView) -> bool {
    f.public_or_external() && match f.name_text() {
        Some(name) => name != "setUp"@ && name != "constructor"@,
        None => false,
    }
}

/// The names of the public methods among `functions`, in order.
pub open spec fn public_methods(functions: Seq<FunctionView>) -> Seq<Seq<char>>
    decreases functions.len(),
{
    if functions.len() == 0 {
        Seq::empty()
    } else {
        let before = public_methods(functions.drop_last());
        if is_counted(functions.last()) {
            before.push(functions.last().name_text().unwrap())
        } else {
            before
        }
    }
}

/// Where the last contract among the top-level items `parts` stands, if
/// there is a contract.
pub open spec fn last_contract(parts: Seq<SourceUnitPartView>) -> Option<Loc>
    decreases parts.len(),
{
    if parts.len() == 0 {
        None
    } else {
        match parts.last() {
            SourceUnitPartView::ContractDefinition(c) => Some(c.loc),
            _ => last_contract(parts.drop_last()),
        }
    }
}

/// Where a finding on the script with the top-level items `parts` is
/// reported: at its last contract, or at the start of a file without one.
pub open spec fn report_loc(parts: Seq<SourceUnitPartView>) -> Loc {
    match last_contract(parts) {
        Some(loc) => loc,
        None => Loc { start: 0, end: 0 },
    }
}

/// `items` in a row, with `, ` between them.
pub open spec fn joined(items: Seq<Seq<char>>) -> Seq<char>
    decreases items.len(),
{
    if items.len() == 0 {
        Seq::empty()
    } else if items.len() == 1 {
        items[0]
    } else {
        joined(items.drop_last()) + ", "@ + items.last()
    }
}

/// `items` as a list: in square brackets, with `, ` between them.
pub open spec fn list_text(items: Seq<Seq<char>>) -> Seq<char> {
    "["@ + joined(items) + "]"@
}

/// Each of `names` as `{:?}` formats it.
pub open spec fn quoted(names: Seq<Seq<char>>) -> Seq<Seq<char>> {
    Seq::new(names.len(), |i: int| debug_text(names[i]))
}

/// What is wrong with a script whose public methods are named `methods`, or
/// `None` if the one method is `run`. Where there are several methods, they
/// are listed as `shown` gives them.
pub open spec fn complaint_with(methods: Seq<Seq<char>>, shown: Seq<Seq<char>>) -> Option<
    Seq<char>,
> {
    if methods.len() == 0 {
        Some("No `run` method found"@)
    } else if methods.len() == 1 {
        if methods[0] == "run"@ {
            None
        } else {
            Some("The only public method must be named `run`"@)
        }
    } else {
        Some(
            "Scripts must have a single public method named `run` (excluding `setUp`), but the following methods were found: "@
                + list_text(shown),
        )
    }
}

/// What is wrong with a script whose public methods are named `methods`, or
/// `None` if the one method is `run`. Several methods are listed by name,
/// each as `{:?}` formats it.
pub open spec fn complaint(methods: Seq<Seq<char>>) -> Option<Seq<char>> {
    complaint_with(methods, quoted(methods))
}

/// The findings of the rule for the file `parsed`: none unless it is a
/// script, and then at most one, on the public methods of all its contracts
/// together.
pub open spec fn script_findings(parsed: ParsedView) -> Seq<Finding> {
    if is_of_kind(parsed.file, FileKind::Script) {
        match complaint(public_methods(functions_in(parsed.pt, false, true))) {
            Some(text) => seq![
                finding_at(ValidatorKind::Script, parsed, report_loc(parsed.pt), text),
            ],
            None => Seq::empty(),
        }
    } else {
        Seq::empty()
    }
}

/// What each of `names` holds.
pub open spec fn texts_of(names: Seq<String>) -> Seq<Seq<char>> {
    Seq::new(names.len(), |i: int| names[i]@)
}

/// The names of the public methods among `functions`, in order.
pub fn public_method_names(functions: &Vec<&FunctionDefinition>) -> (names: Vec<String>)
    ensures
        texts_of(names@) == public_methods(targets(functions@)),
{
    let mut names: Vec<String> = Vec::new();
    let mut i: usize = 0;
    assert(texts_of(names@) =~= public_methods(targets(functions@).take(0)));
    while i < functions.len()
        invariant
            i <= functions.len(),
            texts_of(names@) == public_methods(targets(functions@).take(i as int)),
        decreases functions.len() - i,
    {
        assert(targets(functions@).take(i + 1).drop_last() == targets(functions@).take(i as int));
        assert(targets(functions@).take(i + 1).last() == functions@[i as int]@);
        let ghost before = texts_of(names@);
        let f = functions[i];
        if f.is_public_or_external() {
            match f.name() {
                Some(name) => {
                    let chars = chars_of(name.as_str());
                    if !same(chars.as_slice(), chars_of("setUp").as_slice()) && !same(
                        chars.as_slice(),
                        chars_of("constructor").as_slice(),
                    ) {
                        names.push(name);
                        assert(texts_of(names@) =~= before.push(name@));
                    }
                },
                None => {},
            }
        }
        i += 1;
    }
    assert(targets(functions@).take(functions.len() as int) == targets(functions@));
    names
}

/// Where the last contract among `parts` stands, or the start of the file.
pub fn contract_loc(parts: &Vec<SourceUnitPart>) -> (loc: Loc)
    ensures
        loc == report_loc(part_views(parts@)),
{
    let mut at: usize = parts.len();
    let ghost all = part_views(parts@);
    assert(all.take(at as int) == all);
    while at > 0
        invariant
            at <= parts.len(),
            all == part_views(parts@),
            last_contract(all) == last_contract(all.take(at as int)),
        decreases at,
    {
        assert(all.take(at as int).drop_last() == all.take(at - 1));
        assert(all.take(at as int).last() == parts@[at - 1]@);
        match &parts[at - 1] {
            SourceUnitPart::ContractDefinition(c) => {
                return c.loc;
            },
            _ => {},
        }
        at -= 1;
    }
    Loc { start: 0, end: 0 }
}

/// `items` as a list: in square brackets, with `, ` between them.
pub fn list_of(items: &Vec<String>) -> (text: String)
    ensures
        text@ == list_text(texts_of(items@)),
{
    let mut out = chars_of("[");
    let ghost all = texts_of(items@);
    let mut i: usize = 0;
    assert(out@ =~= "["@ + joined(all.take(0)));
    while i < items.len()
        invariant
            i <= items.len(),
            all == texts_of(items@),
            out@ == "["@ + joined(all.take(i as int)),
        decreases items.len() - i,
    {
        assert(all.take(i + 1).drop_last() == all.take(i as int));
        assert(all.take(i + 1).last() == items@[i as int]@);
        if i > 0 {
            push_str(&mut out, ", ");
        }
        push_str(&mut out, items[i].as_str());
        assert(out@ =~= "["@ + joined(all.take(i + 1)));
        i += 1;
    }
    assert(all.take(items.len() as int) == all);
    push_str(&mut out, "]");
    string_of(out.as_slice())
}

/// Each of `names` as `{:?}` formats it.
pub fn quote_all(names: &Vec<String>) -> (out: Vec<String>)
    ensures
        texts_of(out@) == quoted(texts_of(names@)),
{
    let mut out: Vec<String> = Vec::new();
    let mut i: usize = 0;
    while i < names.len()
        invariant
            i <= names.len(),
            out@.len() == i,
            forall|k: int| 0 <= k < i ==> (#[trigger] out@[k])@ == debug_text(names@[k]@),
        decreases names.len() - i,
    {
        out.push(quote(names[i].as_str()));
        i += 1;
    }
    assert(texts_of(out@) =~= quoted(texts_of(names@)));
    out
}

/// What is wrong with a script whose public methods are named `methods`,
/// given in `shown` how the names are to be listed.
pub fn describe_with(methods: &Vec<String>, shown: &Vec<String>) -> (text: Option<String>)
    ensures
        match text {
            Some(t) => complaint_with(texts_of(methods@), texts_of(shown@)) == Some(t@),
            None => complaint_with(texts_of(methods@), texts_of(shown@)) is None,
        },
{
    if methods.len() == 0 {
        return Some("No `run` method found".to_owned());
    }
    if methods.len() == 1 {
        assert(texts_of(methods@)[0] == methods@[0]@);
        if same(chars_of(methods[0].as_str()).as_slice(), chars_of("run").as_slice()) {
            return None;
        }
        return Some("The only public method must be named `run`".to_owned());
    }
    let mut out = chars_of(
        "Scripts must have a single public method named `run` (excluding `setUp`), but the following methods were found: ",
    );
    let list = list_of(shown);
    push_str(&mut out, list.as_str());
    Some(string_of(out.as_slice()))
}

/// What is wrong with a script whose public methods are named `methods`.
pub fn describe(methods: &Vec<String>) -> (text: Option<String>)
    ensures
        match text {
            Some(t) => complaint(texts_of(methods@)) == Some(t@),
            None => complaint(texts_of(methods@)) is None,
        },
{
    let shown = quote_all(methods);
    describe_with(methods, &shown)
}

/// Validates that a script has a single public method named `run`.
pub fn validate(parsed: &Parsed) -> (items: Vec<InvalidItem>)
    ensures
        findings(items@) == script_findings(parsed@),
{
    let mut items: Vec<InvalidItem> = Vec::new();
    if !is_matching_file(parsed.file.as_str()) {
        assert(findings(items@) =~= Seq::<Finding>::empty());
        return items;
    }
    let functions = collect_functions(&parsed.pt.0, false, true);
    let methods = public_method_names(&functions);
    match describe(&methods) {
        Some(text) => {
            let loc = contract_loc(&parsed.pt.0);
            let item = InvalidItem::new(ValidatorKind::Script, parsed, loc, text);
            items.push(item);
            assert(findings(items@) =~= seq![item@]);
        },
        None => {
            assert(findings(items@) =~= Seq::<Finding>::empty());
        },
    }
    items
}

} // verus!
