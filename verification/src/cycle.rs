//! One regeneration cycle: from a changed file to the binding file of its
//! shader pair.
//!
//! The caller reads and writes; this module decides and computes. A cycle
//! either yields one complete binding file or an error, never a part of a
//! file.

use crate::debounce::{key_of, WatchEvent, WatchEventView};
use crate::extractor::{extract_interface, interface_of, lemma_interface_of_wf};
use crate::front_end::{parse_syntax, syntax_of};
use crate::generator::{artifact_of, generate, Dialect, GeneratedArtifact, GeneratedArtifactView};
use crate::interface::{ShaderInterface, ShaderInterfaceView, Stage};
use crate::pairing::{fragment_sibling, pair_for, stage_of_path, vertex_sibling, ShaderPair};
use crate::syntax::{node_views, SyntaxNode, SyntaxNodeView};
use crate::validator::{
    lemma_validation_wf, validate, validation_outcome, ValidationError, ValidationErrorView,
};
use vstd::prelude::*;

verus! {

/// A shader source that the front end does not accept.
#[derive(Clone, Debug, PartialEq, Eq)]
pub struct ParseFailure {
    /// The stage of the shader that was not accepted.
    pub stage: Stage,
}

/// Why a shader pair yields no binding file.
#[derive(Clone, Debug, PartialEq, Eq)]
pub enum GenerationError {
    Parse(ParseFailure),
    Validation(ValidationError),
}

/// The mathematical model of a `GenerationError`.
pub ghost enum GenerationErrorView {
    Parse(Stage),
    Validation(ValidationErrorView),
}

impl View for GenerationError {
    type V = GenerationErrorView;

    open spec fn view(&self) -> GenerationErrorView {
        match self {
            GenerationError::Parse(error) => GenerationErrorView::Parse(error.stage),
            GenerationError::Validation(error) => GenerationErrorView::Validation(error@),
        }
    }
}

/// The interface of a shader source of the given stage, or `None` for a
/// source that the front end does not accept.
pub open spec fn shader_data(text: Seq<char>, stage: Stage) -> Option<ShaderInterfaceView> {
    match syntax_of(text) {
        Some(nodes) => Some(interface_of(nodes, stage)),
        None => None,
    }
}

/// What the syntax trees of a shader pair yield: the binding file, or the
/// first disagreement between the two interfaces.
pub open spec fn outcome_of_trees(
    vertex_nodes: Seq<SyntaxNodeView>,
    fragment_nodes: Seq<SyntaxNodeView>,
    vertex_source: Seq<char>,
    fragment_source: Seq<char>,
    vertex_path: Seq<char>,
    output_folder: Seq<char>,
    dialect: Dialect,
) -> Result<GeneratedArtifactView, GenerationErrorView> {
    match validation_outcome(
        interface_of(vertex_nodes, Stage::Vertex),
        interface_of(fragment_nodes, Stage::Fragment),
    ) {
        Ok(merged) => Ok(artifact_of(merged, vertex_source, fragment_source, vertex_path, output_folder, dialect)),
        Err(error) => Err(GenerationErrorView::Validation(error)),
    }
}

/// What the sources of a shader pair yield: the binding file, or the first
/// error. The vertex shader is parsed first.
pub open spec fn generation_outcome(
    vertex_source: Seq<char>,
    fragment_source: Seq<char>,
    vertex_path: Seq<char>,
    output_folder: Seq<char>,
    dialect: Dialect,
) -> Result<GeneratedArtifactView, GenerationErrorView> {
    match syntax_of(vertex_source) {
        None => Err(GenerationErrorView::Parse(Stage::Vertex)),
        Some(vertex_nodes) => match syntax_of(fragment_source) {
            None => Err(GenerationErrorView::Parse(Stage::Fragment)),
            Some(fragment_nodes) => outcome_of_trees(
                vertex_nodes,
                fragment_nodes,
                vertex_source,
                fragment_source,
                vertex_path,
                output_folder,
                dialect,
            ),
        },
    }
}

/// The pair that a change event sets off: that of its first path, where
/// that path is a shader file.
pub open spec fn triggered(event: WatchEventView) -> Option<(Seq<char>, Seq<char>)> {
    match key_of(event) {
        Some(path) => if stage_of_path(path) is Some {
            Some((vertex_sibling(path), fragment_sibling(path)))
        } else {
            None
        },
        None => None,
    }
}

/// The shader pair that a change event sets off. An event without paths
/// sets off nothing, and neither does a file that is no shader.
pub fn triggered_pair(event: &WatchEvent) -> (pair: Option<ShaderPair>)
    ensures
        pair is Some <==> triggered(event@) is Some,
        pair matches Some(p) ==> triggered(event@) == Some((p.vertex_path@, p.fragment_path@)),
{
    if event.paths.len() == 0 {
        return None;
    }
    assert(event@.paths[0] == event.paths@[0]@);
    pair_for(event.paths[0].as_str())
}

/// The interface that a shader source of the given stage declares.
pub fn extract_shader_data(text: &str, stage: Stage) -> (data: Result<ShaderInterface, ParseFailure>)
    ensures
        data is Ok <==> shader_data(text@, stage) is Some,
        data matches Ok(iface) ==> iface.wf() && Some(iface@) == shader_data(text@, stage),
        data matches Err(error) ==> error.stage == stage,
{
    match parse_syntax(text) {
        Some(nodes) => Ok(extract_interface(&nodes, stage)),
        None => Err(ParseFailure { stage }),
    }
}

/// The binding file of a shader pair whose sources have been parsed.
pub fn generate_from_syntax(
    vertex_nodes: &Vec<SyntaxNode>,
    fragment_nodes: &Vec<SyntaxNode>,
    vertex_source: &str,
    fragment_source: &str,
    vertex_path: &str,
    output_folder: &str,
    dialect: Dialect,
) -> (outcome: Result<GeneratedArtifact, GenerationError>)
    ensures
        outcome is Ok <==> outcome_of_trees(
            node_views(vertex_nodes@),
            node_views(fragment_nodes@),
            vertex_source@,
            fragment_source@,
            vertex_path@,
            output_folder@,
            dialect,
        ) is Ok,
        outcome matches Ok(artifact) ==> Ok::<GeneratedArtifactView, GenerationErrorView>(artifact@)
            == outcome_of_trees(
            node_views(vertex_nodes@),
            node_views(fragment_nodes@),
            vertex_source@,
            fragment_source@,
            vertex_path@,
            output_folder@,
            dialect,
        ),
        outcome matches Err(error) ==> Err::<GeneratedArtifactView, GenerationErrorView>(error@)
            == outcome_of_trees(
            node_views(vertex_nodes@),
            node_views(fragment_nodes@),
            vertex_source@,
            fragment_source@,
            vertex_path@,
            output_folder@,
            dialect,
        ),
{
    let vertex = extract_interface(vertex_nodes, Stage::Vertex);
    let fragment = extract_interface(fragment_nodes, Stage::Fragment);
    match validate(&vertex, &fragment) {
        Ok(merged) => Ok(generate(&merged, vertex_source, fragment_source, vertex_path, output_folder, dialect)),
        Err(error) => Err(GenerationError::Validation(error)),
    }
}

/// The binding file of a shader pair in the given dialect, from the texts
/// of its two files: the file to write under `output_folder`, or the error
/// that ends the generation.
pub fn generate_types_file(
    vertex_file_path: &str,
    vertex_file: &str,
    fragment_file: &str,
    output_folder: &str,
    dialect: Dialect,
) -> (outcome: Result<GeneratedArtifact, GenerationError>)
    ensures
        outcome is Ok <==> generation_outcome(
            vertex_file@,
            fragment_file@,
            vertex_file_path@,
            output_folder@,
            dialect,
        ) is Ok,
        outcome matches Ok(artifact) ==> Ok::<GeneratedArtifactView, GenerationErrorView>(artifact@)
            == generation_outcome(vertex_file@, fragment_file@, vertex_file_path@, output_folder@, dialect),
        outcome matches Err(error) ==> Err::<GeneratedArtifactView, GenerationErrorView>(error@)
            == generation_outcome(vertex_file@, fragment_file@, vertex_file_path@, output_folder@, dialect),
{
    let vertex_nodes = match parse_syntax(vertex_file) {
        Some(nodes) => nodes,
        None => {
            return Err(GenerationError::Parse(ParseFailure { stage: Stage::Vertex }));
        },
    };
    let fragment_nodes = match parse_syntax(fragment_file) {
        Some(nodes) => nodes,
        None => {
            return Err(GenerationError::Parse(ParseFailure { stage: Stage::Fragment }));
        },
    };
    generate_from_syntax(
        &vertex_nodes,
        &fragment_nodes,
        vertex_file,
        fragment_file,
        vertex_file_path,
        output_folder,
        dialect,
    )
}

/// The TypeScript binding file of a shader pair, from the texts of its two
/// files: the file to write under `output_folder`, or the error that ends
/// the generation.
pub fn generate_ts_types_file(
    vertex_file_path: &str,
    vertex_file: &str,
    fragment_file: &str,
    output_folder: &str,
) -> (outcome: Result<GeneratedArtifact, GenerationError>)
    ensures
        outcome is Ok <==> generation_outcome(
            vertex_file@,
            fragment_file@,
            vertex_file_path@,
            output_folder@,
            Dialect::TypeScript,
        ) is Ok,
        outcome matches Ok(artifact) ==> Ok::<GeneratedArtifactView, GenerationErrorView>(artifact@)
            == generation_outcome(
            vertex_file@,
            fragment_file@,
            vertex_file_path@,
            output_folder@,
            Dialect::TypeScript,
        ),
        outcome matches Err(error) ==> Err::<GeneratedArtifactView, GenerationErrorView>(error@)
            == generation_outcome(
            vertex_file@,
            fragment_file@,
            vertex_file_path@,
            output_folder@,
            Dialect::TypeScript,
        ),
{
    generate_types_file(vertex_file_path, vertex_file, fragment_file, output_folder, Dialect::TypeScript)
}

/// No name is emitted twice: the interface that the trees of a shader pair
/// merge into, where they merge, declares each uniform once and each
/// attribute once, and so the binding file holds one line for each name of
/// a kind.
pub proof fn lemma_emitted_names_unique(vertex_nodes: Seq<SyntaxNodeView>, fragment_nodes: Seq<SyntaxNodeView>)
    ensures
        interface_of(vertex_nodes, Stage::Vertex).wf(),
        interface_of(fragment_nodes, Stage::Fragment).wf(),
        validation_outcome(
            interface_of(vertex_nodes, Stage::Vertex),
            interface_of(fragment_nodes, Stage::Fragment),
        ) matches Ok(merged) ==> merged.wf(),
{
    lemma_interface_of_wf(vertex_nodes, Stage::Vertex);
    lemma_interface_of_wf(fragment_nodes, Stage::Fragment);
    lemma_validation_wf(
        interface_of(vertex_nodes, Stage::Vertex),
        interface_of(fragment_nodes, Stage::Fragment),
    );
}

/// Determinism: the outcome of a generation is a function of the two source
/// texts, the path of the vertex shader, the output folder and the dialect.
/// Two runs on the same inputs yield the same binding file, character for
/// character, or the same error.
pub proof fn lemma_generation_deterministic(
    vertex_source: Seq<char>,
    fragment_source: Seq<char>,
    vertex_path: Seq<char>,
    output_folder: Seq<char>,
    dialect: Dialect,
    first: Result<GeneratedArtifactView, GenerationErrorView>,
    second: Result<GeneratedArtifactView, GenerationErrorView>,
)
    requires
        first == generation_outcome(vertex_source, fragment_source, vertex_path, output_folder, dialect),
        second == generation_outcome(vertex_source, fragment_source, vertex_path, output_folder, dialect),
    ensures
        first == second,
        first matches Ok(a) ==> second matches Ok(b) && a.text == b.text && a.destination_path
            == b.destination_path,
{
}

} // verus!
