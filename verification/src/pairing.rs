//! Pairs a changed shader file with its sibling of the other stage.
//!
//! A vertex shader ends in `.vert`, a fragment shader in `.frag`; the two
//! files of a pair share directory and stem. A file of any other extension
//! belongs to no pair.

use crate::interface::Stage;
use crate::paths::{extension, extension_of, lemma_path_parts, replace_extension, with_extension};
use crate::text::same_text;
use vstd::prelude::*;

verus! {

/// The paths of the two shaders of a pair.
#[derive(Clone, Debug, PartialEq, Eq)]
pub struct ShaderPair {
    pub vertex_path: String,
    pub fragment_path: String,
}

/// A pair of which one file is absent.
#[derive(Clone, Debug, PartialEq, Eq)]
pub struct PairingError {
    /// The stage whose file is absent.
    pub missing: Stage,
    /// Where that file is expected.
    pub path: String,
}

/// The mathematical model of a `ShaderPair`.
pub ghost struct ShaderPairView {
    pub vertex_path: Seq<char>,
    pub fragment_path: Seq<char>,
}

impl View for ShaderPair {
    type V = ShaderPairView;

    open spec fn view(&self) -> ShaderPairView {
        ShaderPairView { vertex_path: self.vertex_path@, fragment_path: self.fragment_path@ }
    }
}

/// The mathematical model of a `PairingError`.
pub ghost struct PairingErrorView {
    pub missing: Stage,
    pub path: Seq<char>,
}

impl View for PairingError {
    type V = PairingErrorView;

    open spec fn view(&self) -> PairingErrorView {
        PairingErrorView { missing: self.missing, path: self.path@ }
    }
}

/// The file of a pair that is absent, if one is: the vertex shader where it
/// is absent, else the fragment shader.
pub open spec fn absent_side(pair: ShaderPairView, vertex_exists: bool, fragment_exists: bool) -> Option<
    PairingErrorView,
> {
    if !vertex_exists {
        Some(PairingErrorView { missing: Stage::Vertex, path: pair.vertex_path })
    } else if !fragment_exists {
        Some(PairingErrorView { missing: Stage::Fragment, path: pair.fragment_path })
    } else {
        None
    }
}

/// The stage that the extension of `path` names.
pub open spec fn stage_of_path(path: Seq<char>) -> Option<Stage> {
    if extension(path) == Some("vert"@) {
        Some(Stage::Vertex)
    } else if extension(path) == Some("frag"@) {
        Some(Stage::Fragment)
    } else {
        None
    }
}

/// The path of the vertex shader of the pair that `path` belongs to.
pub open spec fn vertex_sibling(path: Seq<char>) -> Seq<char> {
    with_extension(path, "vert"@)
}

/// The path of the fragment shader of the pair that `path` belongs to.
pub open spec fn fragment_sibling(path: Seq<char>) -> Seq<char> {
    with_extension(path, "frag"@)
}

/// Replacing the extension of a path by that same extension gives the path.
pub proof fn lemma_same_extension(path: Seq<char>)
    requires
        extension(path) is Some,
    ensures
        with_extension(path, extension(path)->0) == path,
{
    lemma_path_parts(path);
    assert(with_extension(path, extension(path)->0) =~= path);
}

/// A shader file is its own sibling of its own stage.
pub proof fn lemma_pair_holds_trigger(path: Seq<char>)
    ensures
        stage_of_path(path) == Some(Stage::Vertex) ==> vertex_sibling(path) == path,
        stage_of_path(path) == Some(Stage::Fragment) ==> fragment_sibling(path) == path,
{
    if extension(path) is Some {
        lemma_same_extension(path);
    }
}

/// The stage that the extension of `path` names.
pub fn stage_of(path: &str) -> (stage: Option<Stage>)
    ensures
        stage == stage_of_path(path@),
{
    match extension_of(path) {
        Some(ext) => {
            if same_text(ext.as_str(), "vert") {
                Some(Stage::Vertex)
            } else if same_text(ext.as_str(), "frag") {
                Some(Stage::Fragment)
            } else {
                None
            }
        },
        None => None,
    }
}

/// The pair that the shader file at `path` belongs to; `None` for a file
/// that is no shader.
pub fn pair_for(path: &str) -> (pair: Option<ShaderPair>)
    ensures
        pair is Some <==> stage_of_path(path@) is Some,
        pair matches Some(p) ==> p.vertex_path@ == vertex_sibling(path@) && p.fragment_path@
            == fragment_sibling(path@),
        pair matches Some(p) ==> (stage_of_path(path@) == Some(Stage::Vertex) ==> p.vertex_path@ == path@),
        pair matches Some(p) ==> (stage_of_path(path@) == Some(Stage::Fragment) ==> p.fragment_path@
            == path@),
{
    proof {
        lemma_pair_holds_trigger(path@);
    }
    match stage_of(path) {
        Some(_) => Some(
            ShaderPair {
                vertex_path: replace_extension(path, "vert"),
                fragment_path: replace_extension(path, "frag"),
            },
        ),
        None => None,
    }
}

/// Lets a pair pass when both its files exist, and names the absent file
/// otherwise: the vertex shader where it is absent, else the fragment shader.
pub fn pairing_filter(pair: ShaderPair, vertex_exists: bool, fragment_exists: bool) -> (checked: Result<
    ShaderPair,
    PairingError,
>)
    ensures
        vertex_exists && fragment_exists ==> checked == Ok::<ShaderPair, PairingError>(pair),
        !vertex_exists ==> checked == Err::<ShaderPair, PairingError>(
            PairingError { missing: Stage::Vertex, path: pair.vertex_path },
        ),
        vertex_exists && !fragment_exists ==> checked == Err::<ShaderPair, PairingError>(
            PairingError { missing: Stage::Fragment, path: pair.fragment_path },
        ),
        checked is Ok <==> absent_side(pair@, vertex_exists, fragment_exists) is None,
        checked matches Err(error) ==> Some(error@) == absent_side(pair@, vertex_exists, fragment_exists),
{
    if !vertex_exists {
        Err(PairingError { missing: Stage::Vertex, path: pair.vertex_path })
    } else if !fragment_exists {
        Err(PairingError { missing: Stage::Fragment, path: pair.fragment_path })
    } else {
        Ok(pair)
    }
}

} // verus!
