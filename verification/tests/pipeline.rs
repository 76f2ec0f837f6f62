use glsl_types::cycle::{
    extract_shader_data, generate_from_syntax, generate_ts_types_file, triggered_pair, GenerationError,
    ParseFailure,
};
use glsl_types::debounce::{ChangeKind, WatchEvent};
use glsl_types::front_end::{guarded, parse_syntax};
use glsl_types::generator::Dialect;
use glsl_types::interface::{Declaration, DeclarationKind, PrimitiveType, Stage};
use glsl_types::syntax::{DeclaredName, ImportPath, Qualifier, SyntaxNode, TypeSyntax};
use glsl_types::validator::{validate, ValidationError};

fn storage(word: &str) -> Qualifier {
    Qualifier::Storage(word.to_string())
}

fn decl(name: &str, primitive_type: PrimitiveType, kind: DeclarationKind) -> Declaration {
    Declaration { name: name.to_string(), primitive_type, kind }
}

const VERTEX: &str = "attribute vec3 position;\nuniform float time;\nvarying vec2 uv;\nvoid main() {\n  gl_Position = vec4(position, 1.0);\n}\n";
const FRAGMENT: &str = "uniform float time;\nuniform vec3 color;\nvarying vec2 uv;\nvoid main() {\n  gl_FragColor = vec4(color, 1.0);\n}\n";

#[test]
fn front_end_reads_a_declaration_of_variables() {
    let nodes = parse_syntax("uniform highp float a, b[2];\n").unwrap();
    assert_eq!(
        nodes,
        vec![SyntaxNode::Variables {
            qualifiers: vec![storage("uniform"), Qualifier::Other],
            type_syntax: TypeSyntax::Builtin("float".to_string()),
            arrayed: false,
            names: vec![
                DeclaredName { name: "a".to_string(), arrayed: false },
                DeclaredName { name: "b".to_string(), arrayed: true },
            ],
        }]
    );
}

#[test]
fn front_end_reads_an_arrayed_type() {
    let nodes = parse_syntax("uniform vec3[4] lights;\n").unwrap();
    assert_eq!(
        nodes,
        vec![SyntaxNode::Variables {
            qualifiers: vec![storage("uniform")],
            type_syntax: TypeSyntax::Builtin("vec3".to_string()),
            arrayed: true,
            names: vec![DeclaredName { name: "lights".to_string(), arrayed: false }],
        }]
    );
}

#[test]
fn front_end_tells_named_and_structure_types_apart() {
    let nodes = parse_syntax("struct Light { vec3 color; };\nuniform Light sun;\n").unwrap();
    assert_eq!(nodes.len(), 2);
    assert_eq!(
        nodes[0],
        SyntaxNode::Variables { qualifiers: vec![], type_syntax: TypeSyntax::Struct, arrayed: false, names: vec![] }
    );
    assert_eq!(
        nodes[1],
        SyntaxNode::Variables {
            qualifiers: vec![storage("uniform")],
            type_syntax: TypeSyntax::Named("Light".to_string()),
            arrayed: false,
            names: vec![DeclaredName { name: "sun".to_string(), arrayed: false }],
        }
    );
}

#[test]
fn front_end_reads_an_interface_block() {
    let nodes = parse_syntax("uniform Matrices { mat4 mvp; } matrices;\nuniform Globals { float t; };\n").unwrap();
    assert_eq!(
        nodes,
        vec![
            SyntaxNode::Block {
                qualifiers: vec![storage("uniform")],
                name: "Matrices".to_string(),
                instance: Some("matrices".to_string()),
            },
            SyntaxNode::Block { qualifiers: vec![storage("uniform")], name: "Globals".to_string(), instance: None },
        ]
    );
    let iface = extract_shader_data("uniform Matrices { mat4 mvp; } matrices;\nvoid main() {}\n", Stage::Vertex)
        .unwrap();
    assert_eq!(iface.uniforms(), &vec![decl("matrices", PrimitiveType::Unknown, DeclarationKind::Uniform)]);
    let bare = extract_shader_data("uniform Globals { float t; };\nvoid main() {}\n", Stage::Vertex).unwrap();
    assert_eq!(bare.uniforms(), &vec![decl("Globals", PrimitiveType::Unknown, DeclarationKind::Uniform)]);
}

#[test]
fn empty_layout_qualifiers_are_read() {
    let nodes = parse_syntax("layout() uniform float x;\n").unwrap();
    assert_eq!(
        nodes,
        vec![SyntaxNode::Variables {
            qualifiers: vec![Qualifier::Other, storage("uniform")],
            type_syntax: TypeSyntax::Builtin("float".to_string()),
            arrayed: false,
            names: vec![DeclaredName { name: "x".to_string(), arrayed: false }],
        }]
    );
    let iface = extract_shader_data("layout() uniform float x;\nvoid main() {}\n", Stage::Fragment).unwrap();
    assert_eq!(iface.uniforms(), &vec![decl("x", PrimitiveType::Float, DeclarationKind::Uniform)]);
    let block = parse_syntax("layout() uniform Globals { float t; } globals;\n").unwrap();
    assert_eq!(
        block,
        vec![SyntaxNode::Block {
            qualifiers: vec![Qualifier::Other, storage("uniform")],
            name: "Globals".to_string(),
            instance: Some("globals".to_string()),
        }]
    );
    let artifact = generate_ts_types_file(
        "a.vert",
        "layout() uniform Globals { float t; } globals;\nlayout() in vec2 p;\nvoid main() {}\n",
        "layout() uniform float x;\nvoid main() {}\n",
        "out",
    )
    .unwrap();
    assert!(artifact.text.contains("        globals: \"UNKNOWN\",\n        x: \"float\",\n"));
    assert!(artifact.text.contains("        p: \"vec2\",\n"));
}

#[test]
fn every_sort_of_qualifier_is_read() {
    let nodes = parse_syntax(
        "layout(location = 1, std140) flat centroid out highp float a;\ninvariant precise varying vec2 b;\nsubroutine(first, second) uniform int c;\nfloat d;\n",
    )
    .unwrap();
    let qualifiers: Vec<Vec<Qualifier>> = nodes
        .iter()
        .map(|node| match node {
            SyntaxNode::Variables { qualifiers, .. } => qualifiers.clone(),
            _ => panic!("a declaration of variables was expected"),
        })
        .collect();
    assert_eq!(
        qualifiers,
        vec![
            vec![Qualifier::Other, Qualifier::Other, storage("centroid"), storage("out"), Qualifier::Other],
            vec![Qualifier::Other, Qualifier::Other, storage("varying")],
            vec![storage("subroutine(first, second)"), storage("uniform")],
            vec![],
        ]
    );
}

#[test]
fn front_end_reads_include_directives_and_other_nodes() {
    let nodes = parse_syntax("#include \"./common.glsl\"\n#include <lib/noise.glsl>\nvoid main() {}\n").unwrap();
    assert_eq!(
        nodes,
        vec![
            SyntaxNode::Include(ImportPath::Relative("./common.glsl".to_string())),
            SyntaxNode::Include(ImportPath::Absolute("lib/noise.glsl".to_string())),
            SyntaxNode::Other,
        ]
    );
}

#[test]
fn front_end_rejects_invalid_syntax() {
    assert_eq!(parse_syntax("uniform float ;;; {"), None);
    assert_eq!(parse_syntax(""), None);
    assert_eq!(
        extract_shader_data("this is not a shader", Stage::Fragment),
        Err(ParseFailure { stage: Stage::Fragment })
    );
}

#[test]
fn front_end_accepts_a_version_directive() {
    assert!(guarded("#version 300 es\nvoid main() {}\n"));
    assert!(parse_syntax("#version 300 es\nvoid main() {}\n").is_some());
    assert!(parse_syntax("#version 4600\nvoid main() {}\n").is_some());
}

#[test]
fn guard_keeps_oversized_versions_from_the_parser() {
    assert!(!guarded("#version 70000\nvoid main() {}\n"));
    assert!(!guarded("#version \t 123456\n"));
    assert!(!guarded("# version\\\n99999"));
    assert!(!guarded("#version 65536\n"));
    assert!(!guarded("void main() {}\n  #\tversion 0000065536 es\n"));
    assert!(guarded("#version 65535\n"));
    assert!(guarded("#version 00300\n"));
    assert!(guarded("#version 0000000000000000000000300\n"));
    assert!(guarded("version 70000"));
    assert!(guarded("// version 20240101\n"));
    assert!(guarded("#version70000"));
    assert!(guarded("#versions 70000"));
    assert!(guarded("#define version 70000"));
    assert_eq!(parse_syntax("#version 70000\nvoid main() {}\n"), None);
    assert!(parse_syntax("#version 65535\nvoid main() {}\n").is_some());
    assert!(parse_syntax("#version 00300\nvoid main() {}\n").is_some());
    assert!(parse_syntax("// version 20240101\nvoid main() {}\n").is_some());
}

#[test]
fn guard_keeps_wide_negative_literals_from_the_parser() {
    assert!(!guarded("int x = -2147483648;"));
    assert!(!guarded("int x = -2147483648abc;"));
    assert!(!guarded("int x = -0x80000000;"));
    assert!(!guarded("int x = -0X000080000000u;"));
    assert!(!guarded("int x = -020000000000;"));
    assert!(!guarded("int x = -00020000000000"));
    assert!(guarded("int x = -2147483647;"));
    assert!(guarded("int x = -2147483649;"));
    assert!(guarded("int x = -1234567890;"));
    assert!(guarded("int x = -21474836480;"));
    assert!(guarded("int x = -02147483648;"));
    assert!(guarded("int x = -0x80000000g;"));
    assert!(guarded("int x = -0200000000009;"));
    assert!(guarded("int x = -0x7FFFFFFF;"));
    assert!(guarded("int x = 2147483648;"));
    assert!(guarded("float y = -3.14159265358979;"));
    assert!(guarded("float y = a-resolution0;"));
    assert!(guarded("-"));
    assert!(guarded("-0"));
    assert!(guarded("-0x"));
    assert_eq!(parse_syntax("void main() { int x = -2147483648; }"), None);
    assert!(parse_syntax("void main() { int x = -2147483647; }").is_some());
    assert!(parse_syntax("void main() { int x = -1234567890; }").is_some());
    assert!(parse_syntax("// -1234567890\nvoid main() { int x = -0x7FFFFFFF; }").is_some());
    assert_eq!(parse_syntax("void main() { int x = -0x80000000g; }"), None);
    assert_eq!(parse_syntax("void main() { int x = -02147483648; }"), None);
}

#[test]
fn extractor_reads_uniforms_attributes_and_varyings_in_source_order() {
    let iface = extract_shader_data(VERTEX, Stage::Vertex).unwrap();
    assert_eq!(iface.uniforms(), &vec![decl("time", PrimitiveType::Float, DeclarationKind::Uniform)]);
    assert_eq!(iface.attributes(), &vec![decl("position", PrimitiveType::Vec3, DeclarationKind::Attribute)]);
    assert_eq!(iface.varyings(), &vec![decl("uv", PrimitiveType::Vec2, DeclarationKind::Varying)]);
}

#[test]
fn extractor_reads_in_and_out_by_stage() {
    let source = "in vec3 a;\nout vec4 b;\nuniform int c;\nvoid main() {}\n";
    let vertex = extract_shader_data(source, Stage::Vertex).unwrap();
    assert_eq!(vertex.attributes(), &vec![decl("a", PrimitiveType::Vec3, DeclarationKind::Attribute)]);
    assert_eq!(vertex.varyings(), &vec![decl("b", PrimitiveType::Vec4, DeclarationKind::Varying)]);
    let fragment = extract_shader_data(source, Stage::Fragment).unwrap();
    assert_eq!(fragment.attributes(), &vec![]);
    assert_eq!(fragment.varyings(), &vec![decl("a", PrimitiveType::Vec3, DeclarationKind::Varying)]);
    assert_eq!(fragment.uniforms(), &vec![decl("c", PrimitiveType::Int, DeclarationKind::Uniform)]);
}

#[test]
fn extractor_keeps_unknown_types() {
    let source = "struct Light { vec3 color; };\nuniform Light sun;\nuniform float weights[4];\nuniform dvec3 far;\nuniform sampler2D map;\nuniform usamplerCube cube;\nvarying sampler2D odd;\nuniform image2D picture;\nvoid main() {}\n";
    let iface = extract_shader_data(source, Stage::Fragment).unwrap();
    assert_eq!(
        iface.uniforms(),
        &vec![
            decl("sun", PrimitiveType::Unknown, DeclarationKind::Uniform),
            decl("weights", PrimitiveType::Unknown, DeclarationKind::Uniform),
            decl("far", PrimitiveType::Unknown, DeclarationKind::Uniform),
            decl("map", PrimitiveType::Sampler, DeclarationKind::Uniform),
            decl("cube", PrimitiveType::Sampler, DeclarationKind::Uniform),
            decl("picture", PrimitiveType::Unknown, DeclarationKind::Uniform),
        ]
    );
    assert_eq!(iface.varyings(), &vec![decl("odd", PrimitiveType::Unknown, DeclarationKind::Varying)]);
}

#[test]
fn extractor_replaces_a_repeated_name_in_place() {
    let source = "uniform float a;\nuniform vec2 b;\nuniform vec4 a;\nvoid main() {}\n";
    let iface = extract_shader_data(source, Stage::Vertex).unwrap();
    assert_eq!(
        iface.uniforms(),
        &vec![
            decl("a", PrimitiveType::Vec4, DeclarationKind::Uniform),
            decl("b", PrimitiveType::Vec2, DeclarationKind::Uniform),
        ]
    );
}

#[test]
fn uniform_merge_puts_vertex_first_then_fragment_only() {
    let vertex = extract_shader_data("uniform float time;\nvoid main() {}\n", Stage::Vertex).unwrap();
    let fragment =
        extract_shader_data("uniform float time; uniform vec3 color;\nvoid main() {}\n", Stage::Fragment).unwrap();
    let merged = validate(&vertex, &fragment).unwrap();
    assert_eq!(
        merged.uniforms(),
        &vec![
            decl("time", PrimitiveType::Float, DeclarationKind::Uniform),
            decl("color", PrimitiveType::Vec3, DeclarationKind::Uniform),
        ]
    );
    assert_eq!(merged.attributes(), &vec![]);
}

#[test]
fn uniform_conflict_is_reported_and_nothing_is_generated() {
    let vertex = "uniform float x;\nvoid main() {}\n";
    let fragment = "uniform vec2 x;\nvoid main() {}\n";
    let v = extract_shader_data(vertex, Stage::Vertex).unwrap();
    let f = extract_shader_data(fragment, Stage::Fragment).unwrap();
    assert_eq!(validate(&v, &f), Err(ValidationError::UniformTypeConflict("x".to_string())));
    assert_eq!(
        generate_ts_types_file("shaders/a.vert", vertex, fragment, "output"),
        Err(GenerationError::Validation(ValidationError::UniformTypeConflict("x".to_string())))
    );
}

#[test]
fn varying_declared_by_the_vertex_shader_alone_is_missing() {
    let vertex = "varying vec3 normal;\nvoid main() {}\n";
    let fragment = "void main() {}\n";
    let v = extract_shader_data(vertex, Stage::Vertex).unwrap();
    let f = extract_shader_data(fragment, Stage::Fragment).unwrap();
    assert_eq!(validate(&v, &f), Err(ValidationError::VaryingMissing("normal".to_string(), Stage::Vertex)));
    assert_eq!(
        generate_ts_types_file("shaders/a.vert", vertex, fragment, "output"),
        Err(GenerationError::Validation(ValidationError::VaryingMissing("normal".to_string(), Stage::Vertex)))
    );
}

#[test]
fn varying_declared_by_the_fragment_shader_alone_is_missing() {
    let v = extract_shader_data("varying vec2 uv;\nvoid main() {}\n", Stage::Vertex).unwrap();
    let f = extract_shader_data("varying vec2 uv;\nvarying float fog;\nvoid main() {}\n", Stage::Fragment).unwrap();
    assert_eq!(validate(&v, &f), Err(ValidationError::VaryingMissing("fog".to_string(), Stage::Fragment)));
}

#[test]
fn varying_type_conflict_is_reported() {
    let v = extract_shader_data("varying vec2 uv;\nvoid main() {}\n", Stage::Vertex).unwrap();
    let f = extract_shader_data("varying vec3 uv;\nvoid main() {}\n", Stage::Fragment).unwrap();
    assert_eq!(validate(&v, &f), Err(ValidationError::VaryingTypeConflict("uv".to_string())));
}

#[test]
fn checks_run_in_order_and_stop_at_the_first_failure() {
    let v = extract_shader_data(
        "uniform float a;\nuniform float b;\nvarying vec2 only;\nvoid main() {}\n",
        Stage::Vertex,
    )
    .unwrap();
    let f = extract_shader_data("uniform int b;\nuniform int a;\nvoid main() {}\n", Stage::Fragment).unwrap();
    assert_eq!(validate(&v, &f), Err(ValidationError::UniformTypeConflict("a".to_string())));
}

#[test]
fn generation_yields_the_whole_binding_file() {
    let artifact = generate_ts_types_file("shaders/basic.vert", VERTEX, FRAGMENT, "output").unwrap();
    assert_eq!(artifact.destination_path, "output/Basic.ts");
    let expected = format!(
        "// DO NOT EDIT THIS FILE\n// This file is generated by glsl-types\n\nconst VERTEX_SHADER_SOURCE = `{}`;\n\nconst FRAGMENT_SHADER_SOURCE = `{}`;\n\nexport const Basic = {{\n    uniforms: {{\n        time: \"float\",\n        color: \"vec3\",\n    }},\n    attributes: {{\n        position: \"vec3\",\n    }},\n    vertexShaderSource: VERTEX_SHADER_SOURCE,\n    fragmentShaderSource: FRAGMENT_SHADER_SOURCE,\n}};\n",
        VERTEX, FRAGMENT
    );
    assert_eq!(artifact.text, expected);
}

#[test]
fn generation_is_deterministic() {
    let first = generate_ts_types_file("shaders/basic.vert", VERTEX, FRAGMENT, "output");
    let second = generate_ts_types_file("shaders/basic.vert", VERTEX, FRAGMENT, "output");
    assert!(first.is_ok());
    assert_eq!(first, second);
}

#[test]
fn generation_reports_which_source_does_not_parse() {
    assert_eq!(
        generate_ts_types_file("a.vert", "not a shader", FRAGMENT, "output"),
        Err(GenerationError::Parse(ParseFailure { stage: Stage::Vertex }))
    );
    assert_eq!(
        generate_ts_types_file("a.vert", VERTEX, "#version 70000\n", "output"),
        Err(GenerationError::Parse(ParseFailure { stage: Stage::Fragment }))
    );
}

#[test]
fn unknown_declarations_are_emitted_with_the_sentinel_label() {
    let vertex = "uniform float weights[4];\nattribute dvec2 wide;\nvoid main() {}\n";
    let artifact = generate_ts_types_file("sky.vert", vertex, "void main() {}\n", "").unwrap();
    assert_eq!(artifact.destination_path, "Sky.ts");
    assert!(artifact.text.contains("        weights: \"UNKNOWN\",\n"));
    assert!(artifact.text.contains("        wide: \"UNKNOWN\",\n"));
}

#[test]
fn generation_from_syntax_needs_no_front_end() {
    let vertex = vec![SyntaxNode::Variables {
        qualifiers: vec![Qualifier::Other, storage("in")],
        type_syntax: TypeSyntax::Builtin("vec2".to_string()),
        arrayed: false,
        names: vec![DeclaredName { name: "corner".to_string(), arrayed: false }],
    }];
    let fragment = vec![SyntaxNode::Other];
    let artifact =
        generate_from_syntax(&vertex, &fragment, "V", "F", "dir/quad.vert", "out/", Dialect::TypeScript).unwrap();
    assert_eq!(artifact.destination_path, "out/Quad.ts");
    assert_eq!(
        artifact.text,
        "// DO NOT EDIT THIS FILE\n// This file is generated by glsl-types\n\nconst VERTEX_SHADER_SOURCE = `V`;\n\nconst FRAGMENT_SHADER_SOURCE = `F`;\n\nexport const Quad = {\n    uniforms: {\n    },\n    attributes: {\n        corner: \"vec2\",\n    },\n    vertexShaderSource: VERTEX_SHADER_SOURCE,\n    fragmentShaderSource: FRAGMENT_SHADER_SOURCE,\n};\n"
    );
}

#[test]
fn events_set_off_the_pair_of_their_first_path() {
    let event = WatchEvent { paths: vec!["shaders/a.frag".to_string(), "x.vert".to_string()], kind: ChangeKind::Modify };
    let pair = triggered_pair(&event).unwrap();
    assert_eq!(pair.vertex_path, "shaders/a.vert");
    assert_eq!(pair.fragment_path, "shaders/a.frag");
    assert_eq!(triggered_pair(&WatchEvent { paths: vec![], kind: ChangeKind::Any }), None);
    assert_eq!(triggered_pair(&WatchEvent { paths: vec!["notes.txt".to_string()], kind: ChangeKind::Create }), None);
    assert_eq!(triggered_pair(&WatchEvent { paths: vec!["shaders".to_string()], kind: ChangeKind::Create }), None);
}

#[test]
fn modern_shaders_are_read_through_the_front_end() {
    let vertex = "#version 300 es\nprecision highp float;\n// corner of the quad\nlayout(location = 0) in vec2 corner;\nuniform mat4 projection;\nflat out ivec2 cell;\nconst float PI = 3.14159;\nvec2 twice(vec2 v);\nvoid main() {\n  cell = ivec2(0);\n  gl_Position = projection * vec4(corner, 0.0, 1.0);\n}\n";
    let fragment = "#version 300 es\nprecision highp float;\nflat in ivec2 cell;\nuniform sampler2D atlas;\nuniform bool enabled;\nout vec4 color;\nvoid main() {\n  color = vec4(1.0);\n}\n";
    let nodes = parse_syntax(vertex).unwrap();
    assert_eq!(nodes.len(), 8);
    assert_eq!(nodes[0], SyntaxNode::Other);
    assert_eq!(nodes[1], SyntaxNode::Other);
    assert_eq!(
        nodes[2],
        SyntaxNode::Variables {
            qualifiers: vec![Qualifier::Other, storage("in")],
            type_syntax: TypeSyntax::Builtin("vec2".to_string()),
            arrayed: false,
            names: vec![DeclaredName { name: "corner".to_string(), arrayed: false }],
        }
    );
    assert_eq!(nodes[6], SyntaxNode::Other);
    let v = extract_shader_data(vertex, Stage::Vertex).unwrap();
    assert_eq!(v.attributes(), &vec![decl("corner", PrimitiveType::Vec2, DeclarationKind::Attribute)]);
    assert_eq!(v.uniforms(), &vec![decl("projection", PrimitiveType::Mat4, DeclarationKind::Uniform)]);
    assert_eq!(v.varyings(), &vec![decl("cell", PrimitiveType::IVec2, DeclarationKind::Varying)]);
    let f = extract_shader_data(fragment, Stage::Fragment).unwrap();
    assert_eq!(f.varyings(), &vec![decl("cell", PrimitiveType::IVec2, DeclarationKind::Varying)]);
    assert_eq!(
        f.uniforms(),
        &vec![
            decl("atlas", PrimitiveType::Sampler, DeclarationKind::Uniform),
            decl("enabled", PrimitiveType::Bool, DeclarationKind::Uniform),
        ]
    );
    let artifact = generate_ts_types_file("/abs/shaders/grid.vert", vertex, fragment, "/abs/output").unwrap();
    assert_eq!(artifact.destination_path, "/abs/output/Grid.ts");
    assert!(artifact.text.contains("        projection: \"mat4\",\n        atlas: \"sampler\",\n        enabled: \"bool\",\n"));
    assert!(artifact.text.contains("    attributes: {\n        corner: \"vec2\",\n    },\n"));
}

#[test]
fn every_type_of_the_closed_set_is_recognized() {
    let words = [
        ("float", PrimitiveType::Float),
        ("vec2", PrimitiveType::Vec2),
        ("vec3", PrimitiveType::Vec3),
        ("vec4", PrimitiveType::Vec4),
        ("int", PrimitiveType::Int),
        ("ivec2", PrimitiveType::IVec2),
        ("ivec3", PrimitiveType::IVec3),
        ("ivec4", PrimitiveType::IVec4),
        ("uint", PrimitiveType::UInt),
        ("uvec2", PrimitiveType::UVec2),
        ("uvec3", PrimitiveType::UVec3),
        ("uvec4", PrimitiveType::UVec4),
        ("bool", PrimitiveType::Bool),
        ("bvec2", PrimitiveType::BVec2),
        ("bvec3", PrimitiveType::BVec3),
        ("bvec4", PrimitiveType::BVec4),
        ("mat2", PrimitiveType::Mat2),
        ("mat3", PrimitiveType::Mat3),
        ("mat4", PrimitiveType::Mat4),
        ("mat3x3", PrimitiveType::Mat3),
        ("sampler2D", PrimitiveType::Sampler),
        ("isampler3D", PrimitiveType::Sampler),
        ("samplerCubeShadow", PrimitiveType::Sampler),
        ("mat2x3", PrimitiveType::Unknown),
        ("double", PrimitiveType::Unknown),
        ("atomic_uint", PrimitiveType::Unknown),
    ];
    for (word, expected) in words.iter() {
        let source = format!("uniform {} value;\nvoid main() {{}}\n", word);
        let iface = extract_shader_data(&source, Stage::Vertex).unwrap();
        assert_eq!(iface.uniforms(), &vec![decl("value", *expected, DeclarationKind::Uniform)]);
    }
}
