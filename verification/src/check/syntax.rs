//! The part of a Solidity parse tree that the checks read.
//!
//! The shapes follow the parse tree of `solang-parser`, cut down to the
//! declarations, names, attributes and locations that a rule looks at.
//! Everything else in a file is an `Other` part.

use vstd::prelude::*;

verus! {

/// A stretch of the source text: the offsets at which it starts and ends,
/// counted in characters from the start of the text.
#[derive(Clone, Copy, Debug, PartialEq, Eq, Structural)]
pub struct Loc {
    pub start: usize,
    pub end: usize,
}

/// Who may call a function.
#[derive(Clone, Copy, Debug, PartialEq, Eq, Structural)]
pub enum Visibility {
    External,
    Public,
    Internal,
    Private,
}

/// One attribute after a function's parameter list.
#[derive(Clone, Copy, Debug, PartialEq, Eq, Structural)]
pub enum FunctionAttribute {
    /// A visibility keyword.
    Visibility(Visibility),
    /// Mutability, `virtual`, `override`, a modifier invocation.
    Other,
}

/// What kind of function a definition declares.
#[derive(Clone, Copy, Debug, PartialEq, Eq, Structural)]
pub enum FunctionTy {
    Constructor,
    Function,
    Fallback,
    Receive,
    Modifier,
}

/// A function, constructor, fallback, receive function or modifier.
#[derive(Clone, Debug, PartialEq, Eq)]
pub struct FunctionDefinition {
    /// Where the whole definition stands.
    pub loc: Loc,
    pub ty: FunctionTy,
    /// The identifier, which only plain functions and modifiers have. An
    /// old-style fallback function is a plain function without one.
    pub name: Option<String>,
    /// Where the identifier stands.
    pub name_loc: Loc,
    pub attributes: Vec<FunctionAttribute>,
}

/// One attribute of a variable definition.
#[derive(Clone, Copy, Debug, PartialEq, Eq, Structural)]
pub enum VariableAttribute {
    Constant,
    Immutable,
    /// Visibility, `override`, a storage type.
    Other,
}

/// A state variable or a file-level constant.
#[derive(Clone, Debug, PartialEq, Eq)]
pub struct VariableDefinition {
    pub loc: Loc,
    pub attrs: Vec<VariableAttribute>,
    pub name: Option<String>,
}

/// What kind of contract a definition declares.
#[derive(Clone, Copy, Debug, PartialEq, Eq, Structural)]
pub enum ContractTy {
    Abstract,
    Contract,
    Interface,
    Library,
}

/// One member of a contract.
#[derive(Clone, Debug, PartialEq, Eq)]
pub enum ContractPart {
    VariableDefinition(VariableDefinition),
    FunctionDefinition(FunctionDefinition),
    /// A struct, event, enum, error, type, annotation or `using` directive.
    Other,
}

/// A contract, abstract contract, interface or library.
#[derive(Clone, Debug, PartialEq, Eq)]
pub struct ContractDefinition {
    pub loc: Loc,
    pub ty: ContractTy,
    pub name: Option<String>,
    pub parts: Vec<ContractPart>,
}

/// One top-level item of a file.
#[derive(Clone, Debug, PartialEq, Eq)]
pub enum SourceUnitPart {
    ContractDefinition(ContractDefinition),
    FunctionDefinition(FunctionDefinition),
    VariableDefinition(VariableDefinition),
    /// A pragma, import, struct, event, enum, error, type, annotation or
    /// `using` directive.
    Other,
}

/// The top-level items of a file, in source order.
#[derive(Clone, Debug, PartialEq, Eq)]
pub struct SourceUnit(pub Vec<SourceUnitPart>);

// ---------------------------------------------------------------------------
// Views
// ---------------------------------------------------------------------------

/// The characters of a name that may be absent.
pub open spec fn text_of(name: Option<String>) -> Option<Seq<char>> {
    match name {
        Some(s) => Some(s@),
        None => None,
    }
}

/// What a function definition holds.
pub struct FunctionView {
    pub loc: Loc,
    pub ty: FunctionTy,
    pub name: Option<Seq<char>>,
    pub name_loc: Loc,
    pub attributes: Seq<FunctionAttribute>,
}

/// What a variable definition holds.
pub struct VariableView {
    pub loc: Loc,
    pub attrs: Seq<VariableAttribute>,
    pub name: Option<Seq<char>>,
}

/// What a member of a contract holds.
pub enum ContractPartView {
    VariableDefinition(VariableView),
    FunctionDefinition(FunctionView),
    Other,
}

/// What a contract definition holds.
pub struct ContractView {
    pub loc: Loc,
    pub ty: ContractTy,
    pub name: Option<Seq<char>>,
    pub parts: Seq<ContractPartView>,
}

/// What a top-level item holds.
pub enum SourceUnitPartView {
    ContractDefinition(ContractView),
    FunctionDefinition(FunctionView),
    VariableDefinition(VariableView),
    Other,
}

impl View for FunctionDefinition {
    type V = FunctionView;

    open spec fn view(&self) -> FunctionView {
        FunctionView {
            loc: self.loc,
            ty: self.ty,
            name: text_of(self.name),
            name_loc: self.name_loc,
            attributes: self.attributes@,
        }
    }
}

impl View for VariableDefinition {
    type V = VariableView;

    open spec fn view(&self) -> VariableView {
        VariableView { loc: self.loc, attrs: self.attrs@, name: text_of(self.name) }
    }
}

impl View for ContractPart {
    type V = ContractPartView;

    open spec fn view(&self) -> ContractPartView {
        match self {
            ContractPart::VariableDefinition(v) => ContractPartView::VariableDefinition(v@),
            ContractPart::FunctionDefinition(f) => ContractPartView::FunctionDefinition(f@),
            ContractPart::Other => ContractPartView::Other,
        }
    }
}

/// What each of the members `parts` holds.
pub open spec fn member_views(parts: Seq<ContractPart>) -> Seq<ContractPartView> {
    Seq::new(parts.len(), |i: int| parts[i]@)
}

impl View for ContractDefinition {
    type V = ContractView;

    open spec fn view(&self) -> ContractView {
        ContractView {
            loc: self.loc,
            ty: self.ty,
            name: text_of(self.name),
            parts: member_views(self.parts@),
        }
    }
}

impl View for SourceUnitPart {
    type V = SourceUnitPartView;

    open spec fn view(&self) -> SourceUnitPartView {
        match self {
            SourceUnitPart::ContractDefinition(c) => SourceUnitPartView::ContractDefinition(c@),
            SourceUnitPart::FunctionDefinition(f) => SourceUnitPartView::FunctionDefinition(f@),
            SourceUnitPart::VariableDefinition(v) => SourceUnitPartView::VariableDefinition(v@),
            SourceUnitPart::Other => SourceUnitPartView::Other,
        }
    }
}

/// What each of the top-level items `parts` holds.
pub open spec fn part_views(parts: Seq<SourceUnitPart>) -> Seq<SourceUnitPartView> {
    Seq::new(parts.len(), |i: int| parts[i]@)
}

impl View for SourceUnit {
    type V = Seq<SourceUnitPartView>;

    open spec fn view(&self) -> Seq<SourceUnitPartView> {
        part_views(self.0@)
    }
}

// ---------------------------------------------------------------------------
// What the rules ask of a declaration
// ---------------------------------------------------------------------------

impl Visibility {
    /// `internal` or `private`.
    pub open spec fn is_inward(self) -> bool {
        self == Visibility::Internal || self == Visibility::Private
    }

    /// `public` or `external`.
    pub open spec fn is_outward(self) -> bool {
        self == Visibility::Public || self == Visibility::External
    }
}

impl FunctionAttribute {
    /// The attribute is a visibility keyword, `internal` or `private`.
    pub open spec fn is_inward(self) -> bool {
        match self {
            FunctionAttribute::Visibility(v) => v.is_inward(),
            FunctionAttribute::Other => false,
        }
    }

    /// The attribute is a visibility keyword, `public` or `external`.
    pub open spec fn is_outward(self) -> bool {
        match self {
            FunctionAttribute::Visibility(v) => v.is_outward(),
            FunctionAttribute::Other => false,
        }
    }
}

impl FunctionView {
    /// The name by which the function is known: the identifier of a plain
    /// function or modifier, and `constructor`, `fallback` or `receive` for
    /// the others. A plain function without an identifier has no name.
    pub open spec fn name_text(self) -> Option<Seq<char>> {
        match self.ty {
            FunctionTy::Constructor => Some("constructor"@),
            FunctionTy::Fallback => Some("fallback"@),
            FunctionTy::Receive => Some("receive"@),
            FunctionTy::Function | FunctionTy::Modifier => self.name,
        }
    }

    /// Some attribute of the function is `internal` or `private`.
    pub open spec fn internal_or_private(self) -> bool {
        exists|i: int| 0 <= i < self.attributes.len() && (#[trigger] self.attributes[i]).is_inward()
    }

    /// Some attribute of the function is `public` or `external`.
    pub open spec fn public_or_external(self) -> bool {
        exists|i: int|
            0 <= i < self.attributes.len() && (#[trigger] self.attributes[i]).is_outward()
    }
}

impl VariableView {
    /// The variable is declared `constant` or `immutable`.
    pub open spec fn is_constant(self) -> bool {
        exists|i: int|
            0 <= i < self.attrs.len() && (#[trigger] self.attrs[i] == VariableAttribute::Constant
                || self.attrs[i] == VariableAttribute::Immutable)
    }
}

impl VariableDefinition {
    /// Whether the variable is declared `constant` or `immutable`.
    pub fn has_constant_attribute(&self) -> (r: bool)
        ensures
            r == self@.is_constant(),
    {
        let mut i: usize = 0;
        while i < self.attrs.len()
            invariant
                i <= self.attrs.len(),
                forall|k: int|
                    0 <= k < i ==> !(#[trigger] self.attrs@[k] == VariableAttribute::Constant
                        || self.attrs@[k] == VariableAttribute::Immutable),
            decreases self.attrs.len() - i,
        {
            match self.attrs[i] {
                VariableAttribute::Constant => {
                    return true;
                },
                VariableAttribute::Immutable => {
                    return true;
                },
                VariableAttribute::Other => {},
            }
            i += 1;
        }
        false
    }
}

} // verus!
