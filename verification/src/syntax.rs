//! What this library reads of a shader's syntax tree.
//!
//! A tree is the sequence of its top-level nodes. Of a declaration of
//! variables the model keeps the qualifiers, the type and the declared
//! names; of an interface block its qualifiers and its two names; of an
//! include directive its path; every other node is `Other`. Of a qualifier
//! it keeps the keyword where it is a storage qualifier, and no more than
//! its presence where it is of another sort.

use vstd::prelude::*;

verus! {

/// A type qualifier of a declaration.
#[derive(Clone, Debug, PartialEq, Eq)]
pub enum Qualifier {
    /// A storage qualifier, by its keyword: `uniform`, `in`, `varying`, ...
    Storage(String),
    /// A layout, precision or interpolation qualifier, `invariant` or
    /// `precise`.
    Other,
}

/// The type of a declaration, before any array specifier.
#[derive(Clone, Debug, PartialEq, Eq)]
pub enum TypeSyntax {
    /// A type of the shading language, by its keyword.
    Builtin(String),
    /// A type that the shader names.
    Named(String),
    /// A structure.
    Struct,
}

/// A name that a declaration introduces.
#[derive(Clone, Debug, PartialEq, Eq)]
pub struct DeclaredName {
    pub name: String,
    /// Whether an array specifier follows the name.
    pub arrayed: bool,
}

/// The path of an import directive.
#[derive(Clone, Debug, PartialEq, Eq)]
pub enum ImportPath {
    /// Written between angle brackets: used as it stands.
    Absolute(String),
    /// Written between double quotes: relative to the importing file.
    Relative(String),
}

/// A top-level node of a syntax tree.
#[derive(Clone, Debug, PartialEq, Eq)]
pub enum SyntaxNode {
    /// `qualifiers type name, name, ...;`
    Variables { qualifiers: Vec<Qualifier>, type_syntax: TypeSyntax, arrayed: bool, names: Vec<DeclaredName> },
    /// `qualifiers name { ... } instance;`: an interface block, with its
    /// block name and its instance name, if it has one.
    Block { qualifiers: Vec<Qualifier>, name: String, instance: Option<String> },
    /// An include directive.
    Include(ImportPath),
    /// Anything else.
    Other,
}

/// The mathematical model of a `Qualifier`.
pub ghost enum QualifierView {
    Storage(Seq<char>),
    Other,
}

/// The mathematical model of a `TypeSyntax`.
pub ghost enum TypeSyntaxView {
    Builtin(Seq<char>),
    Named(Seq<char>),
    Struct,
}

/// The mathematical model of a `DeclaredName`.
pub ghost struct DeclaredNameView {
    pub name: Seq<char>,
    pub arrayed: bool,
}

/// The mathematical model of an `ImportPath`.
pub ghost enum ImportPathView {
    Absolute(Seq<char>),
    Relative(Seq<char>),
}

/// The mathematical model of a `SyntaxNode`.
pub ghost enum SyntaxNodeView {
    Variables {
        qualifiers: Seq<QualifierView>,
        type_syntax: TypeSyntaxView,
        arrayed: bool,
        names: Seq<DeclaredNameView>,
    },
    Block { qualifiers: Seq<QualifierView>, name: Seq<char>, instance: Option<Seq<char>> },
    Include(ImportPathView),
    Other,
}

impl View for Qualifier {
    type V = QualifierView;

    open spec fn view(&self) -> QualifierView {
        match self {
            Qualifier::Storage(word) => QualifierView::Storage(word@),
            Qualifier::Other => QualifierView::Other,
        }
    }
}

/// The models of a sequence of qualifiers, in order.
pub open spec fn qualifier_views(qualifiers: Seq<Qualifier>) -> Seq<QualifierView> {
    qualifiers.map_values(|q: Qualifier| q@)
}

impl View for TypeSyntax {
    type V = TypeSyntaxView;

    open spec fn view(&self) -> TypeSyntaxView {
        match self {
            TypeSyntax::Builtin(word) => TypeSyntaxView::Builtin(word@),
            TypeSyntax::Named(name) => TypeSyntaxView::Named(name@),
            TypeSyntax::Struct => TypeSyntaxView::Struct,
        }
    }
}

impl View for DeclaredName {
    type V = DeclaredNameView;

    open spec fn view(&self) -> DeclaredNameView {
        DeclaredNameView { name: self.name@, arrayed: self.arrayed }
    }
}

impl View for ImportPath {
    type V = ImportPathView;

    open spec fn view(&self) -> ImportPathView {
        match self {
            ImportPath::Absolute(path) => ImportPathView::Absolute(path@),
            ImportPath::Relative(path) => ImportPathView::Relative(path@),
        }
    }
}

/// The models of a sequence of declared names, in order.
pub open spec fn name_views(names: Seq<DeclaredName>) -> Seq<DeclaredNameView> {
    names.map_values(|n: DeclaredName| n@)
}

impl View for SyntaxNode {
    type V = SyntaxNodeView;

    open spec fn view(&self) -> SyntaxNodeView {
        match self {
            SyntaxNode::Variables { qualifiers, type_syntax, arrayed, names } => SyntaxNodeView::Variables {
                qualifiers: qualifier_views(qualifiers@),
                type_syntax: type_syntax@,
                arrayed: *arrayed,
                names: name_views(names@),
            },
            SyntaxNode::Block { qualifiers, name, instance } => SyntaxNodeView::Block {
                qualifiers: qualifier_views(qualifiers@),
                name: name@,
                instance: instance.deep_view(),
            },
            SyntaxNode::Include(path) => SyntaxNodeView::Include(path@),
            SyntaxNode::Other => SyntaxNodeView::Other,
        }
    }
}

/// The models of a sequence of nodes, in order.
pub open spec fn node_views(nodes: Seq<SyntaxNode>) -> Seq<SyntaxNodeView> {
    nodes.map_values(|n: SyntaxNode| n@)
}

} // verus!
