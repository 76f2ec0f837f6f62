//! Cross-checks the interfaces of a vertex and a fragment shader and merges
//! them.
//!
//! Four checks run in order and the first failure ends the validation:
//! uniforms of one name agree in type, the uniforms are merged, every varying
//! is declared by both stages, and varyings of one name agree in type.

use crate::interface::{
    all_of_kind, find_declaration, lemma_position, position, unique_names, views, Declaration,
    DeclarationKind, DeclarationView, ShaderInterface, ShaderInterfaceView, Stage,
};
use vstd::prelude::*;

verus! {

/// Why two interfaces cannot be merged.
#[derive(Clone, Debug, PartialEq, Eq)]
pub enum ValidationError {
    /// A uniform of this name has one type in the vertex shader and another
    /// in the fragment shader.
    UniformTypeConflict(String),
    /// A varying of this name is declared by the given stage and not by the
    /// other.
    VaryingMissing(String, Stage),
    /// A varying of this name has one type in the vertex shader and another
    /// in the fragment shader.
    VaryingTypeConflict(String),
}

/// The mathematical model of a `ValidationError`.
pub ghost enum ValidationErrorView {
    UniformTypeConflict(Seq<char>),
    VaryingMissing(Seq<char>, Stage),
    VaryingTypeConflict(Seq<char>),
}

impl View for ValidationError {
    type V = ValidationErrorView;

    open spec fn view(&self) -> ValidationErrorView {
        match self {
            ValidationError::UniformTypeConflict(name) => ValidationErrorView::UniformTypeConflict(name@),
            ValidationError::VaryingMissing(name, stage) => ValidationErrorView::VaryingMissing(
                name@,
                *stage,
            ),
            ValidationError::VaryingTypeConflict(name) => ValidationErrorView::VaryingTypeConflict(name@),
        }
    }
}

/// The mathematical model of a `MergedInterface`.
pub ghost struct MergedInterfaceView {
    pub uniforms: Seq<DeclarationView>,
    pub attributes: Seq<DeclarationView>,
}

impl MergedInterfaceView {
    /// No uniform and no attribute is declared twice.
    pub open spec fn wf(self) -> bool {
        &&& unique_names(self.uniforms)
        &&& unique_names(self.attributes)
        &&& all_of_kind(self.uniforms, DeclarationKind::Uniform)
        &&& all_of_kind(self.attributes, DeclarationKind::Attribute)
    }
}

/// `others` declares the name of `decl` with another type.
pub open spec fn conflicts(decl: DeclarationView, others: Seq<DeclarationView>) -> bool {
    let at = position(others, decl.name);
    at >= 0 && others[at].primitive_type != decl.primitive_type
}

/// `others` does not declare the name of `decl`.
pub open spec fn missing(decl: DeclarationView, others: Seq<DeclarationView>) -> bool {
    position(others, decl.name) == -1
}

/// The index of the first declaration that satisfies `pred`, or -1.
pub open spec fn first_where(decls: Seq<DeclarationView>, pred: spec_fn(DeclarationView) -> bool) -> int
    decreases decls.len(),
{
    if decls.len() == 0 {
        -1
    } else {
        let earlier = first_where(decls.drop_last(), pred);
        if earlier >= 0 {
            earlier
        } else if pred(decls.last()) {
            decls.len() - 1
        } else {
            -1
        }
    }
}

/// `first_where` names the first declaration that satisfies `pred`.
pub proof fn lemma_first_where(decls: Seq<DeclarationView>, pred: spec_fn(DeclarationView) -> bool)
    ensures
        -1 <= first_where(decls, pred) < decls.len(),
        first_where(decls, pred) >= 0 ==> pred(decls[first_where(decls, pred)]),
        forall|k: int| 0 <= k < first_where(decls, pred) ==> !pred(decls[k]),
        first_where(decls, pred) == -1 ==> forall|k: int| 0 <= k < decls.len() ==> !pred(decls[k]),
    decreases decls.len(),
{
    if decls.len() > 0 {
        let front = decls.drop_last();
        lemma_first_where(front, pred);
        assert forall|k: int| 0 <= k < first_where(decls, pred) implies !pred(decls[k]) by {
            assert(decls[k] == front[k]);
        }
        if first_where(decls, pred) == -1 {
            assert forall|k: int| 0 <= k < decls.len() implies !pred(decls[k]) by {
                if k < front.len() {
                    assert(decls[k] == front[k]);
                }
            }
        }
    }
}

/// The declarations of `decls` whose names `others` does not declare, in
/// order.
pub open spec fn absent_from(decls: Seq<DeclarationView>, others: Seq<DeclarationView>) -> Seq<
    DeclarationView,
>
    decreases decls.len(),
{
    if decls.len() == 0 {
        Seq::empty()
    } else {
        let rest = absent_from(decls.drop_last(), others);
        if missing(decls.last(), others) {
            rest.push(decls.last())
        } else {
            rest
        }
    }
}

/// The merged uniforms: those of the vertex shader in its order, then those
/// that only the fragment shader declares, in its order.
pub open spec fn merged_uniforms(vertex: Seq<DeclarationView>, fragment: Seq<DeclarationView>) -> Seq<
    DeclarationView,
> {
    vertex + absent_from(fragment, vertex)
}

/// What validation yields for a vertex and a fragment interface.
pub open spec fn validation_outcome(vertex: ShaderInterfaceView, fragment: ShaderInterfaceView) -> Result<
    MergedInterfaceView,
    ValidationErrorView,
> {
    let uniform_conflict = first_where(
        vertex.uniforms,
        |d: DeclarationView| conflicts(d, fragment.uniforms),
    );
    let vertex_only = first_where(vertex.varyings, |d: DeclarationView| missing(d, fragment.varyings));
    let fragment_only = first_where(fragment.varyings, |d: DeclarationView| missing(d, vertex.varyings));
    let varying_conflict = first_where(
        vertex.varyings,
        |d: DeclarationView| conflicts(d, fragment.varyings),
    );
    if uniform_conflict >= 0 {
        Err(ValidationErrorView::UniformTypeConflict(vertex.uniforms[uniform_conflict].name))
    } else if vertex_only >= 0 {
        Err(ValidationErrorView::VaryingMissing(vertex.varyings[vertex_only].name, Stage::Vertex))
    } else if fragment_only >= 0 {
        Err(ValidationErrorView::VaryingMissing(fragment.varyings[fragment_only].name, Stage::Fragment))
    } else if varying_conflict >= 0 {
        Err(ValidationErrorView::VaryingTypeConflict(vertex.varyings[varying_conflict].name))
    } else {
        Ok(
            MergedInterfaceView {
                uniforms: merged_uniforms(vertex.uniforms, fragment.uniforms),
                attributes: vertex.attributes,
            },
        )
    }
}

/// What `absent_from` keeps is declared by `decls` and not by `others`, and
/// keeps the names unique and the kind.
pub proof fn lemma_absent_from(decls: Seq<DeclarationView>, others: Seq<DeclarationView>)
    ensures
        forall|i: int|
            0 <= i < absent_from(decls, others).len() ==> {
                &&& position(decls, (#[trigger] absent_from(decls, others)[i]).name) >= 0
                &&& position(others, absent_from(decls, others)[i].name) == -1
            },
        unique_names(decls) ==> unique_names(absent_from(decls, others)),
        forall|kind: DeclarationKind| all_of_kind(decls, kind) ==> all_of_kind(absent_from(decls, others), kind),
    decreases decls.len(),
{
    let kept = absent_from(decls, others);
    if decls.len() > 0 {
        let front = decls.drop_last();
        let rest = absent_from(front, others);
        lemma_absent_from(front, others);
        assert forall|i: int| 0 <= i < kept.len() implies {
            &&& position(decls, (#[trigger] kept[i]).name) >= 0
            &&& position(others, kept[i].name) == -1
        } by {
            if i < rest.len() {
                assert(kept[i] == rest[i]);
                assert(position(front, rest[i].name) >= 0);
            } else {
                lemma_position(front, kept[i].name);
                lemma_position(decls, kept[i].name);
            }
        }
        if unique_names(decls) {
            assert forall|i: int, j: int| 0 <= i < j < front.len() implies front[i].name != front[j].name by {
                assert(front[i] == decls[i] && front[j] == decls[j]);
            }
            assert forall|i: int, j: int| 0 <= i < j < kept.len() implies kept[i].name != kept[j].name by {
                if j < rest.len() {
                    assert(kept[i] == rest[i] && kept[j] == rest[j]);
                } else {
                    assert(kept[i] == rest[i]);
                    assert(position(front, rest[i].name) >= 0);
                    lemma_position(front, rest[i].name);
                    let k = position(front, rest[i].name);
                    assert(front[k] == decls[k]);
                }
            }
        }
        assert forall|kind: DeclarationKind| all_of_kind(decls, kind) implies all_of_kind(kept, kind) by {
            assert forall|i: int| 0 <= i < front.len() implies (#[trigger] front[i]).kind == kind by {
                assert(front[i] == decls[i]);
            }
            assert(all_of_kind(front, kind));
            assert(all_of_kind(rest, kind));
            assert forall|i: int| 0 <= i < kept.len() implies (#[trigger] kept[i]).kind == kind by {
                if i < rest.len() {
                    assert(kept[i] == rest[i]);
                } else {
                    assert(kept[i] == decls.last());
                }
            }
        }
    }
}

/// Merging the uniforms of two well-formed interfaces declares no name twice.
pub proof fn lemma_merged_uniforms(vertex: Seq<DeclarationView>, fragment: Seq<DeclarationView>)
    requires
        unique_names(vertex),
        unique_names(fragment),
    ensures
        unique_names(merged_uniforms(vertex, fragment)),
        all_of_kind(vertex, DeclarationKind::Uniform) && all_of_kind(fragment, DeclarationKind::Uniform)
            ==> all_of_kind(merged_uniforms(vertex, fragment), DeclarationKind::Uniform),
{
    let extra = absent_from(fragment, vertex);
    let merged = merged_uniforms(vertex, fragment);
    lemma_absent_from(fragment, vertex);
    assert forall|i: int, j: int| 0 <= i < j < merged.len() implies merged[i].name != merged[j].name by {
        if j < vertex.len() {
        } else if i >= vertex.len() {
            assert(merged[i] == extra[i - vertex.len()] && merged[j] == extra[j - vertex.len()]);
        } else {
            assert(merged[j] == extra[j - vertex.len()]);
            lemma_position(vertex, merged[j].name);
        }
    }
    if all_of_kind(vertex, DeclarationKind::Uniform) && all_of_kind(fragment, DeclarationKind::Uniform) {
        assert forall|i: int| 0 <= i < merged.len() implies (#[trigger] merged[i]).kind
            == DeclarationKind::Uniform by {
            if i >= vertex.len() {
                assert(merged[i] == extra[i - vertex.len()]);
            }
        }
    }
}

/// What validation yields from two well-formed interfaces is well formed:
/// no merged uniform and no attribute is declared twice.
pub proof fn lemma_validation_wf(vertex: ShaderInterfaceView, fragment: ShaderInterfaceView)
    requires
        vertex.wf(),
        fragment.wf(),
    ensures
        validation_outcome(vertex, fragment) matches Ok(merged) ==> merged.wf(),
{
    lemma_merged_uniforms(vertex.uniforms, fragment.uniforms);
}

/// What a validated pair agrees on: uniforms of one name have one type,
/// every varying is declared by both stages, and varyings of one name have
/// one type.
pub proof fn lemma_validated_agree(vertex: ShaderInterfaceView, fragment: ShaderInterfaceView)
    requires
        vertex.wf(),
        fragment.wf(),
        validation_outcome(vertex, fragment) is Ok,
    ensures
        forall|i: int, j: int|
            0 <= i < vertex.uniforms.len() && 0 <= j < fragment.uniforms.len() && (
            #[trigger] vertex.uniforms[i]).name == (#[trigger] fragment.uniforms[j]).name
                ==> vertex.uniforms[i].primitive_type == fragment.uniforms[j].primitive_type,
        forall|i: int|
            0 <= i < vertex.varyings.len() ==> position(fragment.varyings, (#[trigger] vertex.varyings[i]).name)
                >= 0,
        forall|j: int|
            0 <= j < fragment.varyings.len() ==> position(vertex.varyings, (#[trigger] fragment.varyings[j]).name)
                >= 0,
        forall|i: int, j: int|
            0 <= i < vertex.varyings.len() && 0 <= j < fragment.varyings.len() && (
            #[trigger] vertex.varyings[i]).name == (#[trigger] fragment.varyings[j]).name
                ==> vertex.varyings[i].primitive_type == fragment.varyings[j].primitive_type,
{
    let uniform_conflicts = |d: DeclarationView| conflicts(d, fragment.uniforms);
    let vertex_only = |d: DeclarationView| missing(d, fragment.varyings);
    let fragment_only = |d: DeclarationView| missing(d, vertex.varyings);
    let varying_conflicts = |d: DeclarationView| conflicts(d, fragment.varyings);
    lemma_first_where(vertex.uniforms, uniform_conflicts);
    lemma_first_where(vertex.varyings, vertex_only);
    lemma_first_where(fragment.varyings, fragment_only);
    lemma_first_where(vertex.varyings, varying_conflicts);
    assert forall|i: int, j: int|
        0 <= i < vertex.uniforms.len() && 0 <= j < fragment.uniforms.len() && (
        #[trigger] vertex.uniforms[i]).name == (#[trigger] fragment.uniforms[j]).name implies vertex.uniforms[i].primitive_type
        == fragment.uniforms[j].primitive_type by {
        assert(!uniform_conflicts(vertex.uniforms[i]));
        lemma_position(fragment.uniforms, vertex.uniforms[i].name);
    }
    assert forall|i: int| 0 <= i < vertex.varyings.len() implies position(
        fragment.varyings,
        (#[trigger] vertex.varyings[i]).name,
    ) >= 0 by {
        assert(!vertex_only(vertex.varyings[i]));
        lemma_position(fragment.varyings, vertex.varyings[i].name);
    }
    assert forall|j: int| 0 <= j < fragment.varyings.len() implies position(
        vertex.varyings,
        (#[trigger] fragment.varyings[j]).name,
    ) >= 0 by {
        assert(!fragment_only(fragment.varyings[j]));
        lemma_position(vertex.varyings, fragment.varyings[j].name);
    }
    assert forall|i: int, j: int|
        0 <= i < vertex.varyings.len() && 0 <= j < fragment.varyings.len() && (
        #[trigger] vertex.varyings[i]).name == (#[trigger] fragment.varyings[j]).name implies vertex.varyings[i].primitive_type
        == fragment.varyings[j].primitive_type by {
        assert(!varying_conflicts(vertex.varyings[i]));
        lemma_position(fragment.varyings, vertex.varyings[i].name);
    }
}

/// A copy of `decl`.
pub fn copy_declaration(decl: &Declaration) -> (copy: Declaration)
    ensures
        copy@ == decl@,
{
    Declaration { name: decl.name.clone(), primitive_type: decl.primitive_type, kind: decl.kind }
}

/// A copy of `decls`.
pub fn copy_declarations(decls: &Vec<Declaration>) -> (copy: Vec<Declaration>)
    ensures
        views(copy@) == views(decls@),
{
    let mut copy: Vec<Declaration> = Vec::new();
    let mut i: usize = 0;
    while i < decls.len()
        invariant
            i <= decls@.len(),
            views(copy@) == views(decls@).subrange(0, i as int),
        decreases decls@.len() - i,
    {
        let ghost before = copy@;
        let decl = copy_declaration(&decls[i]);
        copy.push(decl);
        assert(views(copy@) =~= views(before).push(decl@));
        assert(views(decls@).subrange(0, i + 1) =~= views(decls@).subrange(0, i as int).push(decl@));
        i = i + 1;
    }
    assert(views(decls@).subrange(0, decls@.len() as int) =~= views(decls@));
    copy
}

/// The first declaration of `decls` whose name `others` declares with
/// another type.
fn first_conflict(decls: &Vec<Declaration>, others: &Vec<Declaration>) -> (found: Option<usize>)
    ensures
        found is None <==> first_where(views(decls@), |d: DeclarationView| conflicts(d, views(others@))) == -1,
        found matches Some(i) ==> i < decls@.len() && i == first_where(
            views(decls@),
            |d: DeclarationView| conflicts(d, views(others@)),
        ),
{
    let ghost pred = |d: DeclarationView| conflicts(d, views(others@));
    let mut i: usize = 0;
    while i < decls.len()
        invariant
            i <= decls@.len(),
            pred == (|d: DeclarationView| conflicts(d, views(others@))),
            forall|k: int| 0 <= k < i ==> !pred(views(decls@)[k]),
        decreases decls@.len() - i,
    {
        let differs = match find_declaration(others, decls[i].name.as_str()) {
            Some(at) => others[at].primitive_type != decls[i].primitive_type,
            None => false,
        };
        assert(differs == pred(views(decls@)[i as int]));
        if differs {
            proof {
                lemma_first_where(views(decls@), pred);
            }
            return Some(i);
        }
        i = i + 1;
    }
    proof {
        lemma_first_where(views(decls@), pred);
    }
    None
}

/// The first declaration of `decls` whose name `others` does not declare.
fn first_missing(decls: &Vec<Declaration>, others: &Vec<Declaration>) -> (found: Option<usize>)
    ensures
        found is None <==> first_where(views(decls@), |d: DeclarationView| missing(d, views(others@))) == -1,
        found matches Some(i) ==> i < decls@.len() && i == first_where(
            views(decls@),
            |d: DeclarationView| missing(d, views(others@)),
        ),
{
    let ghost pred = |d: DeclarationView| missing(d, views(others@));
    let mut i: usize = 0;
    while i < decls.len()
        invariant
            i <= decls@.len(),
            pred == (|d: DeclarationView| missing(d, views(others@))),
            forall|k: int| 0 <= k < i ==> !pred(views(decls@)[k]),
        decreases decls@.len() - i,
    {
        let absent = find_declaration(others, decls[i].name.as_str()).is_none();
        assert(absent == pred(views(decls@)[i as int]));
        if absent {
            proof {
                lemma_first_where(views(decls@), pred);
            }
            return Some(i);
        }
        i = i + 1;
    }
    proof {
        lemma_first_where(views(decls@), pred);
    }
    None
}

/// The uniforms of both stages, merged.
fn merge_uniforms(vertex: &Vec<Declaration>, fragment: &Vec<Declaration>) -> (merged: Vec<Declaration>)
    ensures
        views(merged@) == merged_uniforms(views(vertex@), views(fragment@)),
{
    let mut merged = copy_declarations(vertex);
    let mut i: usize = 0;
    assert(views(fragment@).subrange(0, 0) =~= Seq::empty());
    assert(views(merged@) =~= views(vertex@) + Seq::empty());
    while i < fragment.len()
        invariant
            i <= fragment@.len(),
            views(merged@) == views(vertex@) + absent_from(
                views(fragment@).subrange(0, i as int),
                views(vertex@),
            ),
        decreases fragment@.len() - i,
    {
        let ghost before = views(fragment@).subrange(0, i as int);
        let ghost after = views(fragment@).subrange(0, i + 1);
        assert(after.drop_last() =~= before);
        assert(after.last() == views(fragment@)[i as int]);
        let ghost kept = merged@;
        if find_declaration(vertex, fragment[i].name.as_str()).is_none() {
            let decl = copy_declaration(&fragment[i]);
            merged.push(decl);
            assert(views(merged@) =~= views(kept).push(decl@));
            assert(decl@ == after.last());
            assert(absent_from(after, views(vertex@)) == absent_from(before, views(vertex@)).push(after.last()));
            assert(views(merged@) =~= views(vertex@) + absent_from(after, views(vertex@)));
        } else {
            assert(absent_from(after, views(vertex@)) == absent_from(before, views(vertex@)));
        }
        i = i + 1;
    }
    assert(views(fragment@).subrange(0, fragment@.len() as int) =~= views(fragment@));
    merged
}

/// The interface of a validated shader pair.
#[derive(Clone, Debug, PartialEq, Eq)]
pub struct MergedInterface {
    uniforms: Vec<Declaration>,
    attributes: Vec<Declaration>,
}

impl View for MergedInterface {
    type V = MergedInterfaceView;

    closed spec fn view(&self) -> MergedInterfaceView {
        MergedInterfaceView { uniforms: views(self.uniforms@), attributes: views(self.attributes@) }
    }
}

impl MergedInterface {
    /// The uniforms, vertex-first.
    pub fn uniforms(&self) -> (decls: &Vec<Declaration>)
        ensures
            views(decls@) == self@.uniforms,
    {
        &self.uniforms
    }

    /// The attributes of the vertex shader.
    pub fn attributes(&self) -> (decls: &Vec<Declaration>)
        ensures
            views(decls@) == self@.attributes,
    {
        &self.attributes
    }
}

/// Validates a vertex and a fragment interface against each other and merges
/// them.
pub fn validate(vertex: &ShaderInterface, fragment: &ShaderInterface) -> (outcome: Result<
    MergedInterface,
    ValidationError,
>)
    requires
        vertex.wf(),
        fragment.wf(),
    ensures
        outcome is Ok <==> validation_outcome(vertex@, fragment@) is Ok,
        outcome matches Ok(merged) ==> Ok::<MergedInterfaceView, ValidationErrorView>(merged@)
            == validation_outcome(vertex@, fragment@) && merged@.wf(),
        outcome matches Err(error) ==> Err::<MergedInterfaceView, ValidationErrorView>(error@)
            == validation_outcome(vertex@, fragment@),
{
    if let Some(i) = first_conflict(vertex.uniforms(), fragment.uniforms()) {
        return Err(ValidationError::UniformTypeConflict(vertex.uniforms()[i].name.clone()));
    }
    if let Some(i) = first_missing(vertex.varyings(), fragment.varyings()) {
        return Err(ValidationError::VaryingMissing(vertex.varyings()[i].name.clone(), Stage::Vertex));
    }
    if let Some(i) = first_missing(fragment.varyings(), vertex.varyings()) {
        return Err(ValidationError::VaryingMissing(fragment.varyings()[i].name.clone(), Stage::Fragment));
    }
    if let Some(i) = first_conflict(vertex.varyings(), fragment.varyings()) {
        return Err(ValidationError::VaryingTypeConflict(vertex.varyings()[i].name.clone()));
    }
    let merged = MergedInterface {
        uniforms: merge_uniforms(vertex.uniforms(), fragment.uniforms()),
        attributes: copy_declarations(vertex.attributes()),
    };
    proof {
        lemma_merged_uniforms(vertex@.uniforms, fragment@.uniforms);
    }
    Ok(merged)
}

} // verus!
