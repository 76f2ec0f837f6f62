//! Reads the interface of a shader off its syntax tree.
//!
//! The tree is walked in source order. A declaration of variables counts
//! when one of its qualifiers says so: `uniform` makes uniforms, `attribute`
//! (or `in`, in a vertex shader) makes attributes, `varying` (or `out` in a
//! vertex shader, `in` in a fragment shader) makes varyings. A declared type
//! outside the closed set is kept as `Unknown`, never dropped; an interface
//! block is kept as one declaration of unknown type, under its instance name
//! or, where it has none, under its block name.

use crate::interface::{
    lemma_with_wf, Declaration, DeclarationKind, DeclarationView, PrimitiveType, ShaderInterface,
    ShaderInterfaceView, Stage,
};
use crate::syntax::{
    name_views, node_views, qualifier_views, DeclaredName, DeclaredNameView, Qualifier, QualifierView,
    SyntaxNode, SyntaxNodeView, TypeSyntax, TypeSyntaxView,
};
use crate::text::{chars_of, occurs_at, same_text, starts_at};
use vstd::prelude::*;

verus! {

/// The kind of declaration that a qualifier makes in a shader of the given
/// stage.
pub open spec fn storage_kind(word: Seq<char>, stage: Stage) -> Option<DeclarationKind> {
    if word == "uniform"@ {
        Some(DeclarationKind::Uniform)
    } else if word == "attribute"@ {
        Some(DeclarationKind::Attribute)
    } else if word == "varying"@ {
        Some(DeclarationKind::Varying)
    } else if word == "in"@ {
        match stage {
            Stage::Vertex => Some(DeclarationKind::Attribute),
            Stage::Fragment => Some(DeclarationKind::Varying),
        }
    } else if word == "out"@ {
        match stage {
            Stage::Vertex => Some(DeclarationKind::Varying),
            Stage::Fragment => None,
        }
    } else {
        None
    }
}

/// The kind of declaration that one qualifier makes: a storage qualifier by
/// its keyword, any other qualifier none.
pub open spec fn qualifier_kind(qualifier: QualifierView, stage: Stage) -> Option<DeclarationKind> {
    match qualifier {
        QualifierView::Storage(word) => storage_kind(word, stage),
        QualifierView::Other => None,
    }
}

/// The kind that the first telling qualifier makes.
pub open spec fn kind_of(qualifiers: Seq<QualifierView>, stage: Stage) -> Option<DeclarationKind>
    decreases qualifiers.len(),
{
    if qualifiers.len() == 0 {
        None
    } else {
        match kind_of(qualifiers.drop_last(), stage) {
            Some(kind) => Some(kind),
            None => qualifier_kind(qualifiers.last(), stage),
        }
    }
}

/// The name under which an interface block is declared: its instance name,
/// or its block name where it has no instance name.
pub open spec fn block_declared_name(name: Seq<char>, instance: Option<Seq<char>>) -> Seq<char> {
    match instance {
        Some(instance) => instance,
        None => name,
    }
}

/// Whether a type keyword names a sampler.
pub open spec fn is_sampler_word(word: Seq<char>) -> bool {
    ||| occurs_at(word, "sampler"@, 0)
    ||| occurs_at(word, "isampler"@, 0)
    ||| occurs_at(word, "usampler"@, 0)
}

/// The primitive type that a type keyword names. A sampler is a type of
/// uniforms only.
pub open spec fn builtin_primitive(word: Seq<char>, kind: DeclarationKind) -> PrimitiveType {
    if word == "float"@ {
        PrimitiveType::Float
    } else if word == "vec2"@ {
        PrimitiveType::Vec2
    } else if word == "vec3"@ {
        PrimitiveType::Vec3
    } else if word == "vec4"@ {
        PrimitiveType::Vec4
    } else if word == "int"@ {
        PrimitiveType::Int
    } else if word == "ivec2"@ {
        PrimitiveType::IVec2
    } else if word == "ivec3"@ {
        PrimitiveType::IVec3
    } else if word == "ivec4"@ {
        PrimitiveType::IVec4
    } else if word == "uint"@ {
        PrimitiveType::UInt
    } else if word == "uvec2"@ {
        PrimitiveType::UVec2
    } else if word == "uvec3"@ {
        PrimitiveType::UVec3
    } else if word == "uvec4"@ {
        PrimitiveType::UVec4
    } else if word == "bool"@ {
        PrimitiveType::Bool
    } else if word == "bvec2"@ {
        PrimitiveType::BVec2
    } else if word == "bvec3"@ {
        PrimitiveType::BVec3
    } else if word == "bvec4"@ {
        PrimitiveType::BVec4
    } else if word == "mat2"@ {
        PrimitiveType::Mat2
    } else if word == "mat3"@ {
        PrimitiveType::Mat3
    } else if word == "mat4"@ {
        PrimitiveType::Mat4
    } else if is_sampler_word(word) && kind == DeclarationKind::Uniform {
        PrimitiveType::Sampler
    } else {
        PrimitiveType::Unknown
    }
}

/// The primitive type of a declaration: `Unknown` for an array, a structure
/// or a named type.
pub open spec fn primitive_for(ty: TypeSyntaxView, arrayed: bool, kind: DeclarationKind) -> PrimitiveType {
    match ty {
        TypeSyntaxView::Builtin(word) => if arrayed {
            PrimitiveType::Unknown
        } else {
            builtin_primitive(word, kind)
        },
        _ => PrimitiveType::Unknown,
    }
}

/// The declaration that one declared name makes.
pub open spec fn declaration_of(
    name: DeclaredNameView,
    ty: TypeSyntaxView,
    arrayed: bool,
    kind: DeclarationKind,
) -> DeclarationView {
    DeclarationView { name: name.name, primitive_type: primitive_for(ty, arrayed || name.arrayed, kind), kind }
}

/// The interface after the names of one declaration are declared, in order.
pub open spec fn with_names(
    iface: ShaderInterfaceView,
    names: Seq<DeclaredNameView>,
    ty: TypeSyntaxView,
    arrayed: bool,
    kind: DeclarationKind,
) -> ShaderInterfaceView
    decreases names.len(),
{
    if names.len() == 0 {
        iface
    } else {
        with_names(iface, names.drop_last(), ty, arrayed, kind).with(
            declaration_of(names.last(), ty, arrayed, kind),
        )
    }
}

/// The interface after one node of the tree is read.
pub open spec fn with_node(iface: ShaderInterfaceView, node: SyntaxNodeView, stage: Stage) -> ShaderInterfaceView {
    match node {
        SyntaxNodeView::Variables { qualifiers, type_syntax, arrayed, names } => match kind_of(
            qualifiers,
            stage,
        ) {
            Some(kind) => with_names(iface, names, type_syntax, arrayed, kind),
            None => iface,
        },
        SyntaxNodeView::Block { qualifiers, name, instance } => match kind_of(qualifiers, stage) {
            Some(kind) => iface.with(
                DeclarationView {
                    name: block_declared_name(name, instance),
                    primitive_type: PrimitiveType::Unknown,
                    kind,
                },
            ),
            None => iface,
        },
        _ => iface,
    }
}

/// The interface that a tree declares for a shader of the given stage.
pub open spec fn interface_of(nodes: Seq<SyntaxNodeView>, stage: Stage) -> ShaderInterfaceView
    decreases nodes.len(),
{
    if nodes.len() == 0 {
        ShaderInterfaceView::empty()
    } else {
        with_node(interface_of(nodes.drop_last(), stage), nodes.last(), stage)
    }
}

/// Reading names keeps an interface well formed.
pub proof fn lemma_with_names_wf(
    iface: ShaderInterfaceView,
    names: Seq<DeclaredNameView>,
    ty: TypeSyntaxView,
    arrayed: bool,
    kind: DeclarationKind,
)
    requires
        iface.wf(),
    ensures
        with_names(iface, names, ty, arrayed, kind).wf(),
    decreases names.len(),
{
    if names.len() > 0 {
        lemma_with_names_wf(iface, names.drop_last(), ty, arrayed, kind);
        lemma_with_wf(
            with_names(iface, names.drop_last(), ty, arrayed, kind),
            declaration_of(names.last(), ty, arrayed, kind),
        );
    }
}

/// The interface of every tree is well formed: no uniform, no attribute and
/// no varying is declared twice, and each stands in the mapping of its kind.
pub proof fn lemma_interface_of_wf(nodes: Seq<SyntaxNodeView>, stage: Stage)
    ensures
        interface_of(nodes, stage).wf(),
    decreases nodes.len(),
{
    if nodes.len() > 0 {
        lemma_interface_of_wf(nodes.drop_last(), stage);
        let before = interface_of(nodes.drop_last(), stage);
        match nodes.last() {
            SyntaxNodeView::Variables { qualifiers, type_syntax, arrayed, names } => {
                if let Some(kind) = kind_of(qualifiers, stage) {
                    lemma_with_names_wf(before, names, type_syntax, arrayed, kind);
                }
            },
            SyntaxNodeView::Block { qualifiers, name, instance } => {
                if let Some(kind) = kind_of(qualifiers, stage) {
                    lemma_with_wf(
                        before,
                        DeclarationView {
                            name: block_declared_name(name, instance),
                            primitive_type: PrimitiveType::Unknown,
                            kind,
                        },
                    );
                }
            },
            _ => {},
        }
    }
}

/// The kind of declaration that a qualifier makes.
pub fn storage_kind_of(word: &str, stage: Stage) -> (kind: Option<DeclarationKind>)
    ensures
        kind == storage_kind(word@, stage),
{
    if same_text(word, "uniform") {
        Some(DeclarationKind::Uniform)
    } else if same_text(word, "attribute") {
        Some(DeclarationKind::Attribute)
    } else if same_text(word, "varying") {
        Some(DeclarationKind::Varying)
    } else if same_text(word, "in") {
        match stage {
            Stage::Vertex => Some(DeclarationKind::Attribute),
            Stage::Fragment => Some(DeclarationKind::Varying),
        }
    } else if same_text(word, "out") {
        match stage {
            Stage::Vertex => Some(DeclarationKind::Varying),
            Stage::Fragment => None,
        }
    } else {
        None
    }
}

/// The kind that the qualifiers of a declaration give it.
pub fn declared_kind(qualifiers: &Vec<Qualifier>, stage: Stage) -> (kind: Option<DeclarationKind>)
    ensures
        kind == kind_of(qualifier_views(qualifiers@), stage),
{
    let mut i: usize = 0;
    assert(qualifier_views(qualifiers@).subrange(0, 0) =~= Seq::empty());
    while i < qualifiers.len()
        invariant
            i <= qualifiers@.len(),
            kind_of(qualifier_views(qualifiers@).subrange(0, i as int), stage) is None,
        decreases qualifiers@.len() - i,
    {
        let ghost next = qualifier_views(qualifiers@).subrange(0, i + 1);
        assert(next.drop_last() =~= qualifier_views(qualifiers@).subrange(0, i as int));
        assert(next.last() == qualifiers@[i as int]@);
        let found = match &qualifiers[i] {
            Qualifier::Storage(word) => storage_kind_of(word.as_str(), stage),
            Qualifier::Other => None,
        };
        if found.is_some() {
            proof {
                lemma_kind_of_prefix(qualifier_views(qualifiers@), i + 1, stage);
            }
            return found;
        }
        i = i + 1;
    }
    assert(qualifier_views(qualifiers@).subrange(0, qualifiers@.len() as int) =~= qualifier_views(qualifiers@));
    None
}

/// Once a prefix of the qualifiers tells the kind, the rest does not change
/// it.
pub proof fn lemma_kind_of_prefix(qualifiers: Seq<QualifierView>, len: int, stage: Stage)
    requires
        0 <= len <= qualifiers.len(),
        kind_of(qualifiers.subrange(0, len), stage) is Some,
    ensures
        kind_of(qualifiers, stage) == kind_of(qualifiers.subrange(0, len), stage),
    decreases qualifiers.len() - len,
{
    if len < qualifiers.len() {
        let longer = qualifiers.subrange(0, len + 1);
        assert(longer.drop_last() =~= qualifiers.subrange(0, len));
        lemma_kind_of_prefix(qualifiers, len + 1, stage);
    } else {
        assert(qualifiers.subrange(0, len) =~= qualifiers);
    }
}

/// The primitive type that a type keyword names.
pub fn primitive_of_word(word: &str, kind: DeclarationKind) -> (ty: PrimitiveType)
    ensures
        ty == builtin_primitive(word@, kind),
{
    if same_text(word, "float") {
        PrimitiveType::Float
    } else if same_text(word, "vec2") {
        PrimitiveType::Vec2
    } else if same_text(word, "vec3") {
        PrimitiveType::Vec3
    } else if same_text(word, "vec4") {
        PrimitiveType::Vec4
    } else if same_text(word, "int") {
        PrimitiveType::Int
    } else if same_text(word, "ivec2") {
        PrimitiveType::IVec2
    } else if same_text(word, "ivec3") {
        PrimitiveType::IVec3
    } else if same_text(word, "ivec4") {
        PrimitiveType::IVec4
    } else if same_text(word, "uint") {
        PrimitiveType::UInt
    } else if same_text(word, "uvec2") {
        PrimitiveType::UVec2
    } else if same_text(word, "uvec3") {
        PrimitiveType::UVec3
    } else if same_text(word, "uvec4") {
        PrimitiveType::UVec4
    } else if same_text(word, "bool") {
        PrimitiveType::Bool
    } else if same_text(word, "bvec2") {
        PrimitiveType::BVec2
    } else if same_text(word, "bvec3") {
        PrimitiveType::BVec3
    } else if same_text(word, "bvec4") {
        PrimitiveType::BVec4
    } else if same_text(word, "mat2") {
        PrimitiveType::Mat2
    } else if same_text(word, "mat3") {
        PrimitiveType::Mat3
    } else if same_text(word, "mat4") {
        PrimitiveType::Mat4
    } else {
        let chars = chars_of(word);
        let sampler = starts_at(&chars, 0, "sampler") || starts_at(&chars, 0, "isampler") || starts_at(
            &chars,
            0,
            "usampler",
        );
        match kind {
            DeclarationKind::Uniform => if sampler {
                PrimitiveType::Sampler
            } else {
                PrimitiveType::Unknown
            },
            _ => PrimitiveType::Unknown,
        }
    }
}

/// The primitive type of a declaration.
pub fn primitive_of(ty: &TypeSyntax, arrayed: bool, kind: DeclarationKind) -> (primitive: PrimitiveType)
    ensures
        primitive == primitive_for(ty@, arrayed, kind),
{
    match ty {
        TypeSyntax::Builtin(word) => if arrayed {
            PrimitiveType::Unknown
        } else {
            primitive_of_word(word.as_str(), kind)
        },
        _ => PrimitiveType::Unknown,
    }
}

/// Declares the names of one declaration in `iface`.
fn declare_names(
    iface: &mut ShaderInterface,
    names: &Vec<DeclaredName>,
    ty: &TypeSyntax,
    arrayed: bool,
    kind: DeclarationKind,
)
    requires
        old(iface).wf(),
    ensures
        final(iface).wf(),
        final(iface)@ == with_names(old(iface)@, name_views(names@), ty@, arrayed, kind),
{
    let ghost start = iface@;
    let mut i: usize = 0;
    assert(name_views(names@).subrange(0, 0) =~= Seq::empty());
    while i < names.len()
        invariant
            i <= names@.len(),
            iface.wf(),
            iface@ == with_names(start, name_views(names@).subrange(0, i as int), ty@, arrayed, kind),
        decreases names@.len() - i,
    {
        let ghost next = name_views(names@).subrange(0, i + 1);
        assert(next.drop_last() =~= name_views(names@).subrange(0, i as int));
        assert(next.last() == names@[i as int]@);
        let decl = Declaration {
            name: names[i].name.clone(),
            primitive_type: primitive_of(ty, arrayed || names[i].arrayed, kind),
            kind,
        };
        assert(decl@ == declaration_of(next.last(), ty@, arrayed, kind));
        iface.declare(decl);
        i = i + 1;
    }
    assert(name_views(names@).subrange(0, names@.len() as int) =~= name_views(names@));
}

/// The interface that a syntax tree declares for a shader of the given
/// stage.
pub fn extract_interface(nodes: &Vec<SyntaxNode>, stage: Stage) -> (iface: ShaderInterface)
    ensures
        iface.wf(),
        iface@ == interface_of(node_views(nodes@), stage),
{
    let mut iface = ShaderInterface::new();
    let mut i: usize = 0;
    assert(node_views(nodes@).subrange(0, 0) =~= Seq::empty());
    while i < nodes.len()
        invariant
            i <= nodes@.len(),
            iface.wf(),
            iface@ == interface_of(node_views(nodes@).subrange(0, i as int), stage),
        decreases nodes@.len() - i,
    {
        let ghost next = node_views(nodes@).subrange(0, i + 1);
        assert(next.drop_last() =~= node_views(nodes@).subrange(0, i as int));
        assert(next.last() == nodes@[i as int]@);
        match &nodes[i] {
            SyntaxNode::Variables { qualifiers, type_syntax, arrayed, names } => {
                match declared_kind(qualifiers, stage) {
                    Some(kind) => {
                        declare_names(&mut iface, names, type_syntax, *arrayed, kind);
                    },
                    None => {},
                }
            },
            SyntaxNode::Block { qualifiers, name, instance } => {
                match declared_kind(qualifiers, stage) {
                    Some(kind) => {
                        let declared = match instance {
                            Some(instance) => instance.clone(),
                            None => name.clone(),
                        };
                        iface.declare(Declaration { name: declared, primitive_type: PrimitiveType::Unknown, kind });
                    },
                    None => {},
                }
            },
            _ => {},
        }
        i = i + 1;
    }
    assert(node_views(nodes@).subrange(0, nodes@.len() as int) =~= node_views(nodes@));
    iface
}

} // verus!
