//! Renders a merged interface and the two shader sources as a binding file.
//!
//! The text of the file is a function of the merged interface, the two
//! source texts and the name of the binding; the order of its entries is the
//! order of the merged interface.

use crate::extractor::primitive_for;
use crate::interface::{views, Declaration, DeclarationKind, DeclarationView, PrimitiveType};
use crate::paths::{file_stem, join, join_paths, stem_of};
use crate::syntax::TypeSyntaxView;
use crate::text::{chars_of, lemma_occurs_in_middle, lemma_occurs_in_self, occurs_in, same_text, string_of};
use crate::validator::{MergedInterface, MergedInterfaceView};
use vstd::prelude::*;
use vstd::string::*;

verus! {

/// The language of the binding file.
#[derive(Clone, Copy, Debug, PartialEq, Eq, Structural)]
pub enum Dialect {
    TypeScript,
}

/// The binding file of one shader pair.
#[derive(Clone, Debug, PartialEq, Eq)]
pub struct GeneratedArtifact {
    pub destination_path: String,
    pub text: String,
}

/// The mathematical model of a `GeneratedArtifact`.
pub ghost struct GeneratedArtifactView {
    pub destination_path: Seq<char>,
    pub text: Seq<char>,
}

impl View for GeneratedArtifact {
    type V = GeneratedArtifactView;

    open spec fn view(&self) -> GeneratedArtifactView {
        GeneratedArtifactView { destination_path: self.destination_path@, text: self.text@ }
    }
}

/// The binding file of a validated shader pair.
pub open spec fn artifact_of(
    merged: MergedInterfaceView,
    vertex_source: Seq<char>,
    fragment_source: Seq<char>,
    vertex_path: Seq<char>,
    output_folder: Seq<char>,
    dialect: Dialect,
) -> GeneratedArtifactView {
    GeneratedArtifactView {
        destination_path: destination(output_folder, vertex_path, dialect),
        text: artifact_text(merged, vertex_source, fragment_source, binding_name(vertex_path)),
    }
}

/// The label that stands for a type in the binding file.
pub open spec fn type_label(ty: PrimitiveType) -> Seq<char> {
    match ty {
        PrimitiveType::Float => "float"@,
        PrimitiveType::Vec2 => "vec2"@,
        PrimitiveType::Vec3 => "vec3"@,
        PrimitiveType::Vec4 => "vec4"@,
        PrimitiveType::Int => "int"@,
        PrimitiveType::IVec2 => "ivec2"@,
        PrimitiveType::IVec3 => "ivec3"@,
        PrimitiveType::IVec4 => "ivec4"@,
        PrimitiveType::UInt => "uint"@,
        PrimitiveType::UVec2 => "uvec2"@,
        PrimitiveType::UVec3 => "uvec3"@,
        PrimitiveType::UVec4 => "uvec4"@,
        PrimitiveType::Bool => "bool"@,
        PrimitiveType::BVec2 => "bvec2"@,
        PrimitiveType::BVec3 => "bvec3"@,
        PrimitiveType::BVec4 => "bvec4"@,
        PrimitiveType::Mat2 => "mat2"@,
        PrimitiveType::Mat3 => "mat3"@,
        PrimitiveType::Mat4 => "mat4"@,
        PrimitiveType::Sampler => "sampler"@,
        PrimitiveType::Unknown => "UNKNOWN"@,
    }
}

/// The extension of a binding file of the given dialect.
pub open spec fn dialect_extension(dialect: Dialect) -> Seq<char> {
    match dialect {
        Dialect::TypeScript => "ts"@,
    }
}

/// The upper-case form of an ASCII letter; any other character is itself.
pub open spec fn upper(c: char) -> char {
    if 'a' <= c && c <= 'z' {
        ((c as u8) - 32) as char
    } else {
        c
    }
}

/// `name` with its first character in upper case.
pub open spec fn capitalized(name: Seq<char>) -> Seq<char> {
    if name.len() == 0 {
        name
    } else {
        seq![upper(name[0])] + name.subrange(1, name.len() as int)
    }
}

/// The line that describes one declaration.
pub open spec fn entry_line(decl: DeclarationView) -> Seq<char> {
    "        "@ + decl.name + ": \""@ + type_label(decl.primitive_type) + "\",\n"@
}

/// The lines that describe `decls`, in order.
pub open spec fn entry_lines(decls: Seq<DeclarationView>) -> Seq<char>
    decreases decls.len(),
{
    if decls.len() == 0 {
        Seq::empty()
    } else {
        entry_lines(decls.drop_last()) + entry_line(decls.last())
    }
}

/// The text of the binding file.
pub open spec fn artifact_text(
    merged: MergedInterfaceView,
    vertex_source: Seq<char>,
    fragment_source: Seq<char>,
    binding: Seq<char>,
) -> Seq<char> {
    "// DO NOT EDIT THIS FILE\n// This file is generated by glsl-types\n\n"@
        + "const VERTEX_SHADER_SOURCE = `"@ + vertex_source + "`;\n\n"@
        + "const FRAGMENT_SHADER_SOURCE = `"@ + fragment_source + "`;\n\n"@ + "export const "@
        + binding + " = {\n"@ + "    uniforms: {\n"@ + entry_lines(merged.uniforms) + "    },\n"@
        + "    attributes: {\n"@ + entry_lines(merged.attributes) + "    },\n"@
        + "    vertexShaderSource: VERTEX_SHADER_SOURCE,\n"@
        + "    fragmentShaderSource: FRAGMENT_SHADER_SOURCE,\n"@ + "};\n"@
}

/// The name of the binding that a vertex shader at `vertex_path` gives rise to.
pub open spec fn binding_name(vertex_path: Seq<char>) -> Seq<char> {
    capitalized(file_stem(vertex_path))
}

/// Where the binding file of the shader at `vertex_path` is written.
pub open spec fn destination(output_folder: Seq<char>, vertex_path: Seq<char>, dialect: Dialect) -> Seq<
    char,
> {
    join(output_folder, binding_name(vertex_path) + seq!['.'] + dialect_extension(dialect))
}

/// The label that stands for `ty` in the binding file.
pub fn label_of(ty: PrimitiveType) -> (label: &'static str)
    ensures
        label@ == type_label(ty),
{
    match ty {
        PrimitiveType::Float => "float",
        PrimitiveType::Vec2 => "vec2",
        PrimitiveType::Vec3 => "vec3",
        PrimitiveType::Vec4 => "vec4",
        PrimitiveType::Int => "int",
        PrimitiveType::IVec2 => "ivec2",
        PrimitiveType::IVec3 => "ivec3",
        PrimitiveType::IVec4 => "ivec4",
        PrimitiveType::UInt => "uint",
        PrimitiveType::UVec2 => "uvec2",
        PrimitiveType::UVec3 => "uvec3",
        PrimitiveType::UVec4 => "uvec4",
        PrimitiveType::Bool => "bool",
        PrimitiveType::BVec2 => "bvec2",
        PrimitiveType::BVec3 => "bvec3",
        PrimitiveType::BVec4 => "bvec4",
        PrimitiveType::Mat2 => "mat2",
        PrimitiveType::Mat3 => "mat3",
        PrimitiveType::Mat4 => "mat4",
        PrimitiveType::Sampler => "sampler",
        PrimitiveType::Unknown => "UNKNOWN",
    }
}

/// The label of a type, as an owned string.
pub fn convert_glsl_to_ts_label(uniform: &PrimitiveType) -> (label: String)
    ensures
        label@ == type_label(*uniform),
{
    label_of(*uniform).to_owned()
}

/// The extension of a binding file of the given dialect.
pub fn extension_for(dialect: Dialect) -> (ext: &'static str)
    ensures
        ext@ == dialect_extension(dialect),
{
    match dialect {
        Dialect::TypeScript => "ts",
    }
}

/// The dialect that a language identifier names, where this library renders
/// it.
pub fn dialect_named(language: &str) -> (dialect: Option<Dialect>)
    ensures
        dialect == (if language@ == "ts"@ {
            Some(Dialect::TypeScript)
        } else {
            None
        }),
{
    if same_text(language, "ts") {
        Some(Dialect::TypeScript)
    } else {
        None
    }
}

/// The upper-case form of an ASCII letter; any other character is itself.
pub fn to_upper(c: char) -> (u: char)
    ensures
        u == upper(c),
{
    if 'a' <= c && c <= 'z' {
        ((c as u8) - 32) as char
    } else {
        c
    }
}

/// `name` with its first character in upper case.
pub fn capitalize_first_letter(name: &str) -> (capital: String)
    ensures
        capital@ == capitalized(name@),
{
    let chars = chars_of(name);
    if chars.len() == 0 {
        return String::new();
    }
    let mut capital = String::new();
    capital.push(to_upper(chars[0]));
    let rest = string_of(&chars, 1, chars.len());
    capital.append(rest.as_str());
    assert(capital@ =~= capitalized(name@));
    capital
}

/// Appends the lines that describe `decls` to `text`.
fn push_entries(text: &mut String, decls: &Vec<Declaration>)
    ensures
        final(text)@ == old(text)@ + entry_lines(views(decls@)),
{
    let ghost start = text@;
    let mut i: usize = 0;
    assert(views(decls@).subrange(0, 0) =~= Seq::empty());
    assert(text@ =~= start + Seq::empty());
    while i < decls.len()
        invariant
            i <= decls@.len(),
            text@ == start + entry_lines(views(decls@).subrange(0, i as int)),
        decreases decls@.len() - i,
    {
        let ghost done = views(decls@).subrange(0, i as int);
        let ghost next = views(decls@).subrange(0, i + 1);
        assert(next.drop_last() =~= done);
        assert(next.last() == decls@[i as int]@);
        text.append("        ");
        text.append(decls[i].name.as_str());
        text.append(": \"");
        text.append(label_of(decls[i].primitive_type));
        text.append("\",\n");
        assert(text@ =~= start + entry_lines(done) + entry_line(next.last()));
        assert(text@ =~= start + entry_lines(next));
        i = i + 1;
    }
    assert(views(decls@).subrange(0, decls@.len() as int) =~= views(decls@));
}

/// The text of the binding file for a merged interface, the two sources and
/// the name of the binding.
pub fn render(merged: &MergedInterface, vertex_source: &str, fragment_source: &str, binding: &str) -> (text:
    String)
    ensures
        text@ == artifact_text(merged@, vertex_source@, fragment_source@, binding@),
{
    let mut text = String::new();
    text.append("// DO NOT EDIT THIS FILE\n// This file is generated by glsl-types\n\n");
    text.append("const VERTEX_SHADER_SOURCE = `");
    text.append(vertex_source);
    text.append("`;\n\n");
    text.append("const FRAGMENT_SHADER_SOURCE = `");
    text.append(fragment_source);
    text.append("`;\n\n");
    text.append("export const ");
    text.append(binding);
    text.append(" = {\n");
    text.append("    uniforms: {\n");
    push_entries(&mut text, merged.uniforms());
    text.append("    },\n");
    text.append("    attributes: {\n");
    push_entries(&mut text, merged.attributes());
    text.append("    },\n");
    text.append("    vertexShaderSource: VERTEX_SHADER_SOURCE,\n");
    text.append("    fragmentShaderSource: FRAGMENT_SHADER_SOURCE,\n");
    text.append("};\n");
    assert(text@ =~= artifact_text(merged@, vertex_source@, fragment_source@, binding@));
    text
}

/// The binding file of a validated shader pair: its text, and its path under
/// `output_folder`.
pub fn generate(
    merged: &MergedInterface,
    vertex_source: &str,
    fragment_source: &str,
    vertex_path: &str,
    output_folder: &str,
    dialect: Dialect,
) -> (artifact: GeneratedArtifact)
    ensures
        artifact@ == artifact_of(merged@, vertex_source@, fragment_source@, vertex_path@, output_folder@, dialect),
{
    let stem = stem_of(vertex_path);
    let binding = capitalize_first_letter(stem.as_str());
    let text = render(merged, vertex_source, fragment_source, binding.as_str());
    let mut file_name = binding;
    file_name.push('.');
    file_name.append(extension_for(dialect));
    assert(file_name@ =~= binding_name(vertex_path@) + seq!['.'] + dialect_extension(dialect));
    let destination_path = join_paths(output_folder, file_name.as_str());
    GeneratedArtifact { destination_path, text }
}

/// The lines of a mapping hold the line of each of its declarations.
pub proof fn lemma_entry_lines_hold(decls: Seq<DeclarationView>, at: int)
    requires
        0 <= at < decls.len(),
    ensures
        occurs_in(entry_lines(decls), entry_line(decls[at])),
    decreases decls.len(),
{
    let front = decls.drop_last();
    if at == decls.len() - 1 {
        lemma_occurs_in_self(entry_line(decls.last()));
        lemma_occurs_in_middle(entry_lines(front), entry_line(decls.last()), Seq::empty(), entry_line(decls[at]));
        assert(entry_lines(front) + entry_line(decls.last()) + Seq::empty() =~= entry_lines(decls));
    } else {
        lemma_entry_lines_hold(front, at);
        assert(front[at] == decls[at]);
        lemma_occurs_in_middle(Seq::empty(), entry_lines(front), entry_line(decls.last()), entry_line(decls[at]));
        assert(Seq::empty() + entry_lines(front) + entry_line(decls.last()) =~= entry_lines(decls));
    }
}

/// The length, the first and the last character of the label of a type.
pub open spec fn label_shape(ty: PrimitiveType) -> (nat, char, char) {
    match ty {
        PrimitiveType::Float => (5, 'f', 't'),
        PrimitiveType::Vec2 => (4, 'v', '2'),
        PrimitiveType::Vec3 => (4, 'v', '3'),
        PrimitiveType::Vec4 => (4, 'v', '4'),
        PrimitiveType::Int => (3, 'i', 't'),
        PrimitiveType::IVec2 => (5, 'i', '2'),
        PrimitiveType::IVec3 => (5, 'i', '3'),
        PrimitiveType::IVec4 => (5, 'i', '4'),
        PrimitiveType::UInt => (4, 'u', 't'),
        PrimitiveType::UVec2 => (5, 'u', '2'),
        PrimitiveType::UVec3 => (5, 'u', '3'),
        PrimitiveType::UVec4 => (5, 'u', '4'),
        PrimitiveType::Bool => (4, 'b', 'l'),
        PrimitiveType::BVec2 => (5, 'b', '2'),
        PrimitiveType::BVec3 => (5, 'b', '3'),
        PrimitiveType::BVec4 => (5, 'b', '4'),
        PrimitiveType::Mat2 => (4, 'm', '2'),
        PrimitiveType::Mat3 => (4, 'm', '3'),
        PrimitiveType::Mat4 => (4, 'm', '4'),
        PrimitiveType::Sampler => (7, 's', 'r'),
        PrimitiveType::Unknown => (7, 'U', 'N'),
    }
}

/// The label of a type has the shape that `label_shape` gives.
pub proof fn lemma_label_shape(ty: PrimitiveType)
    ensures
        type_label(ty).len() == label_shape(ty).0,
        type_label(ty)[0] == label_shape(ty).1,
        type_label(ty).last() == label_shape(ty).2,
{
    match ty {
        PrimitiveType::Float => {
            reveal_strlit("float");
        },
        PrimitiveType::Vec2 => {
            reveal_strlit("vec2");
        },
        PrimitiveType::Vec3 => {
            reveal_strlit("vec3");
        },
        PrimitiveType::Vec4 => {
            reveal_strlit("vec4");
        },
        PrimitiveType::Int => {
            reveal_strlit("int");
        },
        PrimitiveType::IVec2 => {
            reveal_strlit("ivec2");
        },
        PrimitiveType::IVec3 => {
            reveal_strlit("ivec3");
        },
        PrimitiveType::IVec4 => {
            reveal_strlit("ivec4");
        },
        PrimitiveType::UInt => {
            reveal_strlit("uint");
        },
        PrimitiveType::UVec2 => {
            reveal_strlit("uvec2");
        },
        PrimitiveType::UVec3 => {
            reveal_strlit("uvec3");
        },
        PrimitiveType::UVec4 => {
            reveal_strlit("uvec4");
        },
        PrimitiveType::Bool => {
            reveal_strlit("bool");
        },
        PrimitiveType::BVec2 => {
            reveal_strlit("bvec2");
        },
        PrimitiveType::BVec3 => {
            reveal_strlit("bvec3");
        },
        PrimitiveType::BVec4 => {
            reveal_strlit("bvec4");
        },
        PrimitiveType::Mat2 => {
            reveal_strlit("mat2");
        },
        PrimitiveType::Mat3 => {
            reveal_strlit("mat3");
        },
        PrimitiveType::Mat4 => {
            reveal_strlit("mat4");
        },
        PrimitiveType::Sampler => {
            reveal_strlit("sampler");
        },
        PrimitiveType::Unknown => {
            reveal_strlit("UNKNOWN");
        },
    }
}

/// Every type of the closed set has a label of its own: two types with one
/// label are one type.
pub proof fn lemma_labels_distinct(a: PrimitiveType, b: PrimitiveType)
    requires
        type_label(a) == type_label(b),
    ensures
        a == b,
{
    lemma_label_shape(a);
    lemma_label_shape(b);
}

/// Label completeness for what lies outside the closed set: an array, a
/// structure, a named type, a sampler that is no uniform and a keyword that
/// names no type of the set are all described by the sentinel label.
pub proof fn lemma_unsupported_label(ty: TypeSyntaxView, arrayed: bool, kind: DeclarationKind)
    ensures
        arrayed || !(ty is Builtin) ==> type_label(primitive_for(ty, arrayed, kind)) == "UNKNOWN"@,
        type_label(primitive_for(ty, arrayed, kind)) == "UNKNOWN"@ <==> primitive_for(ty, arrayed, kind)
            == PrimitiveType::Unknown,
{
    if type_label(primitive_for(ty, arrayed, kind)) == "UNKNOWN"@ {
        lemma_labels_distinct(primitive_for(ty, arrayed, kind), PrimitiveType::Unknown);
    }
}

/// The binding file describes every declaration of the merged interface,
/// those of unknown type too: the line of each uniform and of each attribute
/// stands in its text.
pub proof fn lemma_every_declaration_emitted(
    merged: MergedInterfaceView,
    vertex_source: Seq<char>,
    fragment_source: Seq<char>,
    binding: Seq<char>,
)
    ensures
        forall|i: int|
            0 <= i < merged.uniforms.len() ==> occurs_in(
                artifact_text(merged, vertex_source, fragment_source, binding),
                entry_line(#[trigger] merged.uniforms[i]),
            ),
        forall|i: int|
            0 <= i < merged.attributes.len() ==> occurs_in(
                artifact_text(merged, vertex_source, fragment_source, binding),
                entry_line(#[trigger] merged.attributes[i]),
            ),
{
    let text = artifact_text(merged, vertex_source, fragment_source, binding);
    let head = "// DO NOT EDIT THIS FILE\n// This file is generated by glsl-types\n\n"@
        + "const VERTEX_SHADER_SOURCE = `"@ + vertex_source + "`;\n\n"@
        + "const FRAGMENT_SHADER_SOURCE = `"@ + fragment_source + "`;\n\n"@ + "export const "@
        + binding + " = {\n"@ + "    uniforms: {\n"@;
    let middle = "    },\n"@ + "    attributes: {\n"@;
    let tail = "    },\n"@ + "    vertexShaderSource: VERTEX_SHADER_SOURCE,\n"@
        + "    fragmentShaderSource: FRAGMENT_SHADER_SOURCE,\n"@ + "};\n"@;
    let uniforms = entry_lines(merged.uniforms);
    let attributes = entry_lines(merged.attributes);
    assert(text =~= head + uniforms + (middle + attributes + tail));
    assert(text =~= (head + uniforms + middle) + attributes + tail);
    assert forall|i: int| 0 <= i < merged.uniforms.len() implies occurs_in(
        text,
        entry_line(#[trigger] merged.uniforms[i]),
    ) by {
        lemma_entry_lines_hold(merged.uniforms, i);
        lemma_occurs_in_middle(head, uniforms, middle + attributes + tail, entry_line(merged.uniforms[i]));
    }
    assert forall|i: int| 0 <= i < merged.attributes.len() implies occurs_in(
        text,
        entry_line(#[trigger] merged.attributes[i]),
    ) by {
        lemma_entry_lines_hold(merged.attributes, i);
        lemma_occurs_in_middle(head + uniforms + middle, attributes, tail, entry_line(merged.attributes[i]));
    }
}

} // verus!
