//! The interface of one shader: its uniforms, attributes and varyings.
//!
//! Each kind of declaration is kept as an ordered mapping from name to
//! declaration: a sequence in which no name occurs twice. Declaring a name
//! again replaces the earlier declaration where it stands.

use crate::text::same_text;
use vstd::prelude::*;

verus! {

/// One of the two stages of a shader pair.
#[derive(Clone, Copy, Debug, PartialEq, Eq, Structural)]
pub enum Stage {
    Vertex,
    Fragment,
}

/// What a declaration is to its shader.
#[derive(Clone, Copy, Debug, PartialEq, Eq, Structural)]
pub enum DeclarationKind {
    Uniform,
    Attribute,
    Varying,
}

/// The closed set of types that a binding can describe, and `Unknown` for
/// every other form.
#[derive(Clone, Copy, Debug, PartialEq, Eq, Structural)]
pub enum PrimitiveType {
    Float,
    Vec2,
    Vec3,
    Vec4,
    Int,
    IVec2,
    IVec3,
    IVec4,
    UInt,
    UVec2,
    UVec3,
    UVec4,
    Bool,
    BVec2,
    BVec3,
    BVec4,
    Mat2,
    Mat3,
    Mat4,
    Sampler,
    Unknown,
}

/// A named declaration of a shader's interface.
#[derive(Clone, Debug, PartialEq, Eq)]
pub struct Declaration {
    pub name: String,
    pub primitive_type: PrimitiveType,
    pub kind: DeclarationKind,
}

/// The mathematical model of a `Declaration`.
pub ghost struct DeclarationView {
    pub name: Seq<char>,
    pub primitive_type: PrimitiveType,
    pub kind: DeclarationKind,
}

impl View for Declaration {
    type V = DeclarationView;

    open spec fn view(&self) -> DeclarationView {
        DeclarationView { name: self.name@, primitive_type: self.primitive_type, kind: self.kind }
    }
}

/// The models of a sequence of declarations, in order.
pub open spec fn views(decls: Seq<Declaration>) -> Seq<DeclarationView> {
    decls.map_values(|d: Declaration| d@)
}

/// The index of the first declaration of `name`, or -1 where there is none.
pub open spec fn position(decls: Seq<DeclarationView>, name: Seq<char>) -> int
    decreases decls.len(),
{
    if decls.len() == 0 {
        -1
    } else {
        let earlier = position(decls.drop_last(), name);
        if earlier >= 0 {
            earlier
        } else if decls.last().name == name {
            decls.len() - 1
        } else {
            -1
        }
    }
}

/// No name is declared twice.
pub open spec fn unique_names(decls: Seq<DeclarationView>) -> bool {
    forall|i: int, j: int| 0 <= i < j < decls.len() ==> decls[i].name != decls[j].name
}

/// Every declaration is of the given kind.
pub open spec fn all_of_kind(decls: Seq<DeclarationView>, kind: DeclarationKind) -> bool {
    forall|i: int| 0 <= i < decls.len() ==> (#[trigger] decls[i]).kind == kind
}

/// The mapping after `decl` is declared: it replaces the declaration of the
/// same name where there is one, and is appended otherwise.
pub open spec fn declared(decls: Seq<DeclarationView>, decl: DeclarationView) -> Seq<DeclarationView> {
    let at = position(decls, decl.name);
    if at >= 0 {
        decls.update(at, decl)
    } else {
        decls.push(decl)
    }
}

/// `position` names the first declaration of `name`.
pub proof fn lemma_position(decls: Seq<DeclarationView>, name: Seq<char>)
    ensures
        -1 <= position(decls, name) < decls.len(),
        position(decls, name) >= 0 ==> decls[position(decls, name)].name == name,
        forall|k: int| 0 <= k < position(decls, name) ==> decls[k].name != name,
        position(decls, name) == -1 ==> forall|k: int| 0 <= k < decls.len() ==> decls[k].name != name,
    decreases decls.len(),
{
    if decls.len() > 0 {
        let front = decls.drop_last();
        lemma_position(front, name);
        assert forall|k: int| 0 <= k < position(decls, name) implies decls[k].name != name by {
            assert(decls[k] == front[k]);
        }
        if position(decls, name) == -1 {
            assert forall|k: int| 0 <= k < decls.len() implies decls[k].name != name by {
                if k < front.len() {
                    assert(decls[k] == front[k]);
                }
            }
        }
    }
}

/// An index that holds `name`, with no earlier one that does, is its position.
pub proof fn lemma_position_is(decls: Seq<DeclarationView>, name: Seq<char>, at: int)
    requires
        0 <= at < decls.len(),
        decls[at].name == name,
        forall|k: int| 0 <= k < at ==> decls[k].name != name,
    ensures
        position(decls, name) == at,
{
    lemma_position(decls, name);
}

/// Declaring keeps names unique, and keeps the kind of a mapping whose
/// declarations are all of the new declaration's kind.
pub proof fn lemma_declared(decls: Seq<DeclarationView>, decl: DeclarationView)
    requires
        unique_names(decls),
    ensures
        unique_names(declared(decls, decl)),
        all_of_kind(decls, decl.kind) ==> all_of_kind(declared(decls, decl), decl.kind),
        position(declared(decls, decl), decl.name) >= 0,
        declared(decls, decl)[position(declared(decls, decl), decl.name)] == decl,
{
    lemma_position(decls, decl.name);
    let after = declared(decls, decl);
    let at = if position(decls, decl.name) >= 0 {
        position(decls, decl.name)
    } else {
        decls.len() as int
    };
    assert(after[at] == decl);
    assert forall|k: int| 0 <= k < after.len() && k != at implies after[k] == decls[k] by {}
    assert forall|i: int, j: int| 0 <= i < j < after.len() implies after[i].name != after[j].name by {
        if i != at && j != at {
            assert(after[i] == decls[i] && after[j] == decls[j]);
        }
    }
    lemma_position_is(after, decl.name, at);
}

/// The index of the declaration of `name` in `decls`.
pub fn find_declaration(decls: &Vec<Declaration>, name: &str) -> (found: Option<usize>)
    ensures
        found is None <==> position(views(decls@), name@) == -1,
        found matches Some(i) ==> i == position(views(decls@), name@) && i < decls@.len(),
{
    let mut i: usize = 0;
    while i < decls.len()
        invariant
            i <= decls@.len(),
            forall|k: int| 0 <= k < i ==> views(decls@)[k].name != name@,
        decreases decls@.len() - i,
    {
        if same_text(decls[i].name.as_str(), name) {
            proof {
                lemma_position_is(views(decls@), name@, i as int);
            }
            return Some(i);
        }
        i = i + 1;
    }
    proof {
        lemma_position(views(decls@), name@);
    }
    None
}

/// Declares `decl` in `decls`.
pub fn declare_in(decls: &mut Vec<Declaration>, decl: Declaration)
    ensures
        views(final(decls)@) == declared(views(old(decls)@), decl@),
{
    match find_declaration(decls, decl.name.as_str()) {
        Some(i) => {
            decls.set(i, decl);
            assert(views(decls@) =~= views(old(decls)@).update(i as int, decl@));
        },
        None => {
            decls.push(decl);
            assert(views(decls@) =~= views(old(decls)@).push(decl@));
        },
    }
}

/// The interface that one shader declares.
#[derive(Clone, Debug, PartialEq, Eq)]
pub struct ShaderInterface {
    uniforms: Vec<Declaration>,
    attributes: Vec<Declaration>,
    varyings: Vec<Declaration>,
}

/// The mathematical model of a `ShaderInterface`.
pub ghost struct ShaderInterfaceView {
    pub uniforms: Seq<DeclarationView>,
    pub attributes: Seq<DeclarationView>,
    pub varyings: Seq<DeclarationView>,
}

impl ShaderInterfaceView {
    /// The interface that declares nothing.
    pub open spec fn empty() -> ShaderInterfaceView {
        ShaderInterfaceView { uniforms: Seq::empty(), attributes: Seq::empty(), varyings: Seq::empty() }
    }

    /// Each mapping holds declarations of its own kind, each name once.
    pub open spec fn wf(self) -> bool {
        &&& unique_names(self.uniforms)
        &&& unique_names(self.attributes)
        &&& unique_names(self.varyings)
        &&& all_of_kind(self.uniforms, DeclarationKind::Uniform)
        &&& all_of_kind(self.attributes, DeclarationKind::Attribute)
        &&& all_of_kind(self.varyings, DeclarationKind::Varying)
    }

    /// The interface after `decl` is declared in the mapping of its kind.
    pub open spec fn with(self, decl: DeclarationView) -> ShaderInterfaceView {
        match decl.kind {
            DeclarationKind::Uniform => ShaderInterfaceView {
                uniforms: declared(self.uniforms, decl),
                ..self
            },
            DeclarationKind::Attribute => ShaderInterfaceView {
                attributes: declared(self.attributes, decl),
                ..self
            },
            DeclarationKind::Varying => ShaderInterfaceView {
                varyings: declared(self.varyings, decl),
                ..self
            },
        }
    }
}

/// Declaring keeps an interface well formed.
pub proof fn lemma_with_wf(iface: ShaderInterfaceView, decl: DeclarationView)
    requires
        iface.wf(),
    ensures
        iface.with(decl).wf(),
{
    lemma_declared(iface.uniforms, decl);
    lemma_declared(iface.attributes, decl);
    lemma_declared(iface.varyings, decl);
}

impl View for ShaderInterface {
    type V = ShaderInterfaceView;

    closed spec fn view(&self) -> ShaderInterfaceView {
        ShaderInterfaceView {
            uniforms: views(self.uniforms@),
            attributes: views(self.attributes@),
            varyings: views(self.varyings@),
        }
    }
}

impl ShaderInterface {
    /// The invariant of the type: see `ShaderInterfaceView::wf`.
    pub open spec fn wf(&self) -> bool {
        self@.wf()
    }

    /// The interface that declares nothing.
    pub fn new() -> (iface: ShaderInterface)
        ensures
            iface.wf(),
            iface@ == ShaderInterfaceView::empty(),
    {
        let iface = ShaderInterface { uniforms: Vec::new(), attributes: Vec::new(), varyings: Vec::new() };
        assert(iface@.uniforms =~= Seq::empty());
        assert(iface@.attributes =~= Seq::empty());
        assert(iface@.varyings =~= Seq::empty());
        iface
    }

    /// Declares `decl` in the mapping of its kind.
    pub fn declare(&mut self, decl: Declaration)
        requires
            old(self).wf(),
        ensures
            final(self).wf(),
            final(self)@ == old(self)@.with(decl@),
    {
        proof {
            lemma_with_wf(self@, decl@);
        }
        match decl.kind {
            DeclarationKind::Uniform => declare_in(&mut self.uniforms, decl),
            DeclarationKind::Attribute => declare_in(&mut self.attributes, decl),
            DeclarationKind::Varying => declare_in(&mut self.varyings, decl),
        }
    }

    /// The uniforms, in the order of their first declaration.
    pub fn uniforms(&self) -> (decls: &Vec<Declaration>)
        ensures
            views(decls@) == self@.uniforms,
    {
        &self.uniforms
    }

    /// The attributes, in the order of their first declaration.
    pub fn attributes(&self) -> (decls: &Vec<Declaration>)
        ensures
            views(decls@) == self@.attributes,
    {
        &self.attributes
    }

    /// The varyings, in the order of their first declaration.
    pub fn varyings(&self) -> (decls: &Vec<Declaration>)
        ensures
            views(decls@) == self@.varyings,
    {
        &self.varyings
    }
}

} // verus!
