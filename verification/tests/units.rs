use glsl_types::cycle::GenerationError;
use glsl_types::orchestrator::{cycle_step, CycleAction, CycleAnswer, CycleError, CycleState, Phase};
use glsl_types::validator::ValidationError;
use glsl_types::cli::{plan_folder, start, Args, StartError, StartPlan, DEBOUNCE_WINDOW_MS};
use glsl_types::debounce::{ChangeKind, Debouncer, Timer, WatchEvent};
use glsl_types::generator::{
    capitalize_first_letter, convert_glsl_to_ts_label, dialect_named, extension_for, label_of, to_upper, Dialect,
    GeneratedArtifact,
};
use glsl_types::imports::{
    directive_for, get_file_imports, import_directives, FileImports, ImportDirective, ImportMap, UnresolvedImport,
};
use glsl_types::interface::{
    declare_in, find_declaration, Declaration, DeclarationKind, PrimitiveType, ShaderInterface, Stage,
};
use glsl_types::pairing::{pair_for, pairing_filter, stage_of, PairingError, ShaderPair};
use glsl_types::paths::{extension_of, join_paths, parent_of, replace_extension, stem_of};
use glsl_types::start_cli;
use glsl_types::syntax::{ImportPath, SyntaxNode};
use glsl_types::text::{chars_of, same_text, starts_at, string_of};

fn event(path: &str, kind: ChangeKind) -> WatchEvent {
    WatchEvent { paths: vec![path.to_string()], kind }
}

#[test]
fn texts_round_trip_through_characters() {
    let chars = chars_of("héllo");
    assert_eq!(chars, vec!['h', 'é', 'l', 'l', 'o']);
    assert_eq!(string_of(&chars, 1, 4), "éll");
    assert_eq!(string_of(&chars, 2, 2), "");
    assert!(same_text("abc", "abc"));
    assert!(!same_text("abc", "abd"));
    assert!(!same_text("abc", "ab"));
    assert!(starts_at(&chars, 2, "llo"));
    assert!(!starts_at(&chars, 3, "llo"));
    assert!(starts_at(&chars, 5, ""));
}

#[test]
fn paths_split_into_directory_stem_and_extension() {
    assert_eq!(stem_of("shaders/basic.vert"), "basic");
    assert_eq!(extension_of("shaders/basic.vert"), Some("vert".to_string()));
    assert_eq!(parent_of("shaders/basic.vert"), "shaders");
    assert_eq!(stem_of("a.b/c"), "c");
    assert_eq!(extension_of("a.b/c"), None);
    assert_eq!(stem_of(".hidden"), ".hidden");
    assert_eq!(extension_of(".hidden"), None);
    assert_eq!(stem_of("archive.tar.gz"), "archive.tar");
    assert_eq!(extension_of("archive.tar.gz"), Some("gz".to_string()));
    assert_eq!(extension_of("dot."), Some("".to_string()));
    assert_eq!(parent_of("file"), "");
    assert_eq!(parent_of("/file"), "/");
    assert_eq!(parent_of("/a/b/file.x"), "/a/b");
    assert_eq!(stem_of(""), "");
}

#[test]
fn paths_swap_extensions_and_join() {
    assert_eq!(replace_extension("shaders/basic.vert", "frag"), "shaders/basic.frag");
    assert_eq!(replace_extension("plain", "frag"), "plain.frag");
    assert_eq!(join_paths("shaders", "./common.glsl"), "shaders/./common.glsl");
    assert_eq!(join_paths("shaders/", "common.glsl"), "shaders/common.glsl");
    assert_eq!(join_paths("", "common.glsl"), "common.glsl");
    assert_eq!(join_paths("shaders", "/abs/common.glsl"), "/abs/common.glsl");
}

#[test]
fn pairing_tells_stages_by_extension() {
    assert_eq!(stage_of("a.vert"), Some(Stage::Vertex));
    assert_eq!(stage_of("dir/a.frag"), Some(Stage::Fragment));
    assert_eq!(stage_of("a.glsl"), None);
    assert_eq!(stage_of("vert"), None);
    assert_eq!(pair_for("readme.md"), None);
    assert_eq!(
        pair_for("dir/a.frag"),
        Some(ShaderPair { vertex_path: "dir/a.vert".to_string(), fragment_path: "dir/a.frag".to_string() })
    );
}

#[test]
fn pairing_fails_when_the_fragment_shader_is_absent() {
    let pair = pair_for("a.vert").unwrap();
    assert_eq!(pair.vertex_path, "a.vert");
    assert_eq!(pair.fragment_path, "a.frag");
    assert_eq!(
        pairing_filter(pair, true, false),
        Err(PairingError { missing: Stage::Fragment, path: "a.frag".to_string() })
    );
}

#[test]
fn pairing_names_the_vertex_shader_first() {
    let pair = pair_for("a.frag").unwrap();
    assert_eq!(
        pairing_filter(pair.clone(), false, false),
        Err(PairingError { missing: Stage::Vertex, path: "a.vert".to_string() })
    );
    assert_eq!(
        pairing_filter(pair.clone(), false, true),
        Err(PairingError { missing: Stage::Vertex, path: "a.vert".to_string() })
    );
    assert_eq!(pairing_filter(pair.clone(), true, true), Ok(pair));
}

#[test]
fn every_primitive_type_has_its_label() {
    let table = [
        (PrimitiveType::Float, "float"),
        (PrimitiveType::Vec2, "vec2"),
        (PrimitiveType::Vec3, "vec3"),
        (PrimitiveType::Vec4, "vec4"),
        (PrimitiveType::Int, "int"),
        (PrimitiveType::IVec2, "ivec2"),
        (PrimitiveType::IVec3, "ivec3"),
        (PrimitiveType::IVec4, "ivec4"),
        (PrimitiveType::UInt, "uint"),
        (PrimitiveType::UVec2, "uvec2"),
        (PrimitiveType::UVec3, "uvec3"),
        (PrimitiveType::UVec4, "uvec4"),
        (PrimitiveType::Bool, "bool"),
        (PrimitiveType::BVec2, "bvec2"),
        (PrimitiveType::BVec3, "bvec3"),
        (PrimitiveType::BVec4, "bvec4"),
        (PrimitiveType::Mat2, "mat2"),
        (PrimitiveType::Mat3, "mat3"),
        (PrimitiveType::Mat4, "mat4"),
        (PrimitiveType::Sampler, "sampler"),
        (PrimitiveType::Unknown, "UNKNOWN"),
    ];
    for (ty, label) in table.iter() {
        assert_eq!(label_of(*ty), *label);
        assert_eq!(convert_glsl_to_ts_label(ty), label.to_string());
    }
    for (i, a) in table.iter().enumerate() {
        for (j, b) in table.iter().enumerate() {
            assert_eq!(a.1 == b.1, i == j);
        }
    }
}

#[test]
fn names_are_capitalized_in_ascii() {
    assert_eq!(capitalize_first_letter("basic"), "Basic");
    assert_eq!(capitalize_first_letter("Basic"), "Basic");
    assert_eq!(capitalize_first_letter("z"), "Z");
    assert_eq!(capitalize_first_letter(""), "");
    assert_eq!(capitalize_first_letter("9lives"), "9lives");
    assert_eq!(capitalize_first_letter("élan"), "élan");
    assert_eq!(to_upper('a'), 'A');
    assert_eq!(to_upper('{'), '{');
    assert_eq!(to_upper('`'), '`');
}

#[test]
fn dialects_are_named_by_their_identifier() {
    assert_eq!(dialect_named("ts"), Some(Dialect::TypeScript));
    assert_eq!(dialect_named("rs"), None);
    assert_eq!(dialect_named(""), None);
    assert_eq!(extension_for(Dialect::TypeScript), "ts");
}

#[test]
fn declaring_a_name_again_replaces_it_in_place() {
    let mut decls = vec![];
    declare_in(&mut decls, Declaration { name: "a".to_string(), primitive_type: PrimitiveType::Float, kind: DeclarationKind::Uniform });
    declare_in(&mut decls, Declaration { name: "b".to_string(), primitive_type: PrimitiveType::Int, kind: DeclarationKind::Uniform });
    declare_in(&mut decls, Declaration { name: "a".to_string(), primitive_type: PrimitiveType::Mat4, kind: DeclarationKind::Uniform });
    assert_eq!(decls.len(), 2);
    assert_eq!(decls[0].primitive_type, PrimitiveType::Mat4);
    assert_eq!(find_declaration(&decls, "b"), Some(1));
    assert_eq!(find_declaration(&decls, "c"), None);
    let mut iface = ShaderInterface::new();
    iface.declare(Declaration { name: "uv".to_string(), primitive_type: PrimitiveType::Vec2, kind: DeclarationKind::Varying });
    iface.declare(Declaration { name: "uv".to_string(), primitive_type: PrimitiveType::Vec3, kind: DeclarationKind::Attribute });
    assert_eq!(iface.varyings().len(), 1);
    assert_eq!(iface.attributes().len(), 1);
    assert_eq!(iface.uniforms().len(), 0);
}

#[test]
fn relative_import_resolves_to_the_canonical_path() {
    let nodes = vec![SyntaxNode::Include(ImportPath::Relative("./common.glsl".to_string()))];
    let visitor = FileImports::new("shaders/a.vert");
    let directives = import_directives(&nodes);
    assert_eq!(
        directives,
        vec![ImportDirective {
            identifier: "common".to_string(),
            path: ImportPath::Relative("./common.glsl".to_string()),
        }]
    );
    assert_eq!(visitor.lookup_path(&directives[0]), Some("shaders/./common.glsl".to_string()));
    let canonical = vec![Some("/home/me/project/shaders/common.glsl".to_string())];
    let map = get_file_imports(&nodes, "shaders/a.vert", &canonical).unwrap();
    assert_eq!(map.get("common"), Some(&"/home/me/project/shaders/common.glsl".to_string()));
    assert_eq!(map.entries().len(), 1);
}

#[test]
fn nonexistent_import_is_unresolved() {
    let nodes = vec![
        SyntaxNode::Other,
        SyntaxNode::Include(ImportPath::Absolute("lib/noise.glsl".to_string())),
        SyntaxNode::Include(ImportPath::Relative("missing.glsl".to_string())),
        SyntaxNode::Include(ImportPath::Relative("never.glsl".to_string())),
    ];
    let canonical = vec![None, None, Some("/x/never.glsl".to_string())];
    assert_eq!(
        get_file_imports(&nodes, "shaders/a.vert", &canonical),
        Err(UnresolvedImport { path: "shaders/missing.glsl".to_string() })
    );
    assert_eq!(
        get_file_imports(&nodes, "shaders/a.vert", &vec![]),
        Err(UnresolvedImport { path: "shaders/missing.glsl".to_string() })
    );
}

#[test]
fn absolute_imports_are_used_as_they_stand_and_later_bindings_win() {
    let nodes = vec![
        SyntaxNode::Include(ImportPath::Absolute("lib/noise.glsl".to_string())),
        SyntaxNode::Include(ImportPath::Relative("util.glsl".to_string())),
        SyntaxNode::Include(ImportPath::Relative("other/noise.glsl".to_string())),
    ];
    let canonical = vec![None, Some("/p/util.glsl".to_string()), Some("/p/other/noise.glsl".to_string())];
    let map = get_file_imports(&nodes, "a.vert", &canonical).unwrap();
    assert_eq!(
        map.entries(),
        &vec![
            ("noise".to_string(), "/p/other/noise.glsl".to_string()),
            ("util".to_string(), "/p/util.glsl".to_string()),
        ]
    );
    assert_eq!(map.get("util"), Some(&"/p/util.glsl".to_string()));
    assert_eq!(map.get("absent"), None);
}

#[test]
fn import_maps_and_visitors_work_step_by_step() {
    let mut map = ImportMap::new();
    map.insert("a".to_string(), "/1".to_string());
    map.insert("b".to_string(), "/2".to_string());
    map.insert("a".to_string(), "/3".to_string());
    assert_eq!(map.entries(), &vec![("a".to_string(), "/3".to_string()), ("b".to_string(), "/2".to_string())]);
    let directive = directive_for(&ImportPath::Absolute("x/y.glsl".to_string()));
    assert_eq!(directive.identifier, "y");
    let mut visitor = FileImports::new("/root/shaders/a.frag");
    assert_eq!(visitor.lookup_path(&directive), None);
    assert_eq!(visitor.visit_import(&directive, None), Ok(()));
    let relative = directive_for(&ImportPath::Relative("z.glsl".to_string()));
    assert_eq!(visitor.lookup_path(&relative), Some("/root/shaders/z.glsl".to_string()));
    assert_eq!(
        visitor.visit_import(&relative, None),
        Err(UnresolvedImport { path: "/root/shaders/z.glsl".to_string() })
    );
    assert_eq!(visitor.visit_import(&relative, Some("/c/z.glsl".to_string())), Ok(()));
    let map = visitor.into_map();
    assert_eq!(
        map.entries(),
        &vec![("y".to_string(), "x/y.glsl".to_string()), ("z".to_string(), "/c/z.glsl".to_string())]
    );
}

#[test]
fn debounce_coalesces_a_burst_into_one_invocation() {
    let mut debouncer = Debouncer::new(10);
    let mut timers: Vec<Timer> = vec![];
    for i in 0..5u64 {
        let kind = if i == 4 { ChangeKind::Remove } else { ChangeKind::Modify };
        let timer = debouncer.register(event("shaders/a.vert", kind), i).unwrap();
        assert_eq!(timer, Timer { key: "shaders/a.vert".to_string(), deadline: i + 10 });
        timers.push(timer);
    }
    let mut invocations = vec![];
    for timer in timers.iter() {
        if let Some(payload) = debouncer.expire(&timer.key, timer.deadline) {
            invocations.push(payload);
        }
    }
    assert_eq!(invocations, vec![event("shaders/a.vert", ChangeKind::Remove)]);
    assert!(!debouncer.is_pending("shaders/a.vert"));
    assert_eq!(debouncer.expire("shaders/a.vert", 1000), None);
}

#[test]
fn debounce_keeps_keys_apart() {
    let mut debouncer = Debouncer::new(10);
    let a1 = debouncer.register(event("a.vert", ChangeKind::Create), 0).unwrap();
    let b1 = debouncer.register(event("b.frag", ChangeKind::Create), 1).unwrap();
    let a2 = debouncer.register(event("a.vert", ChangeKind::Modify), 2).unwrap();
    let b2 = debouncer.register(event("b.frag", ChangeKind::Access), 3).unwrap();
    assert!(debouncer.is_pending("a.vert"));
    assert!(debouncer.is_pending("b.frag"));
    assert_eq!(debouncer.expire(&a1.key, a1.deadline), None);
    assert_eq!(debouncer.expire(&b1.key, b1.deadline), None);
    assert_eq!(debouncer.expire(&a2.key, a2.deadline), Some(event("a.vert", ChangeKind::Modify)));
    assert!(debouncer.is_pending("b.frag"));
    assert_eq!(debouncer.expire(&b2.key, b2.deadline), Some(event("b.frag", ChangeKind::Access)));
    assert_eq!(debouncer.expire(&a2.key, a2.deadline), None);
}

#[test]
fn debounce_drops_events_without_paths_and_saturates_deadlines() {
    let mut debouncer = Debouncer::new(10);
    assert_eq!(debouncer.window(), 10);
    assert_eq!(debouncer.register(WatchEvent { paths: vec![], kind: ChangeKind::Other }, 5), None);
    let late = debouncer.register(event("a.vert", ChangeKind::Any), u64::MAX - 3).unwrap();
    assert_eq!(late.deadline, u64::MAX);
    assert_eq!(debouncer.expire("a.vert", u64::MAX - 1), None);
    assert_eq!(debouncer.expire("a.vert", u64::MAX), Some(event("a.vert", ChangeKind::Any)));
    let two = WatchEvent { paths: vec!["x.vert".to_string(), "y.vert".to_string()], kind: ChangeKind::Modify };
    assert_eq!(debouncer.register(two, 0).unwrap().key, "x.vert");
    assert!(!debouncer.is_pending("y.vert"));
}

#[test]
fn a_quiet_key_fires_after_each_burst() {
    let mut debouncer = Debouncer::new(10);
    debouncer.register(event("a.vert", ChangeKind::Create), 0);
    assert_eq!(debouncer.expire("a.vert", 9), None);
    assert_eq!(debouncer.expire("a.vert", 10), Some(event("a.vert", ChangeKind::Create)));
    debouncer.register(event("a.vert", ChangeKind::Modify), 50);
    assert_eq!(debouncer.expire("a.vert", 60), Some(event("a.vert", ChangeKind::Modify)));
}

#[test]
fn sessions_start_with_existing_or_default_folders() {
    let args = Args { input_float: "shaders".to_string(), output_folder: "out".to_string(), language: "ts".to_string() };
    assert_eq!(
        start(args.clone(), false, true),
        Ok(StartPlan {
            input_folder: "shaders".to_string(),
            create_input_folder: true,
            output_folder: "out".to_string(),
            create_output_folder: false,
            dialect: Dialect::TypeScript,
            debounce_window: 10,
        })
    );
    assert_eq!(DEBOUNCE_WINDOW_MS, 10);
    assert_eq!(start(args.clone(), true, false), Err(StartError::MissingOutputFolder));
    assert_eq!(start_cli(args.clone(), true, true), start(args, true, true));
    let other = Args { input_float: "src".to_string(), output_folder: "output".to_string(), language: "rs".to_string() };
    assert_eq!(start(other.clone(), false, false), Err(StartError::MissingInputFolder));
    assert_eq!(start(other.clone(), true, false), Err(StartError::UnsupportedLanguage));
    assert_eq!(start_cli(other, false, true), Err(StartError::MissingInputFolder));
    assert_eq!(plan_folder("output", false, "output"), Some(true));
    assert_eq!(plan_folder("elsewhere", false, "output"), None);
    assert_eq!(plan_folder("elsewhere", true, "output"), Some(false));
}

#[test]
fn a_cycle_asks_reads_writes_and_resolves_in_order() {
    let state = CycleState::new("out".to_string(), Dialect::TypeScript);
    assert_eq!(state.phase, Phase::Idle);
    let pair = ShaderPair { vertex_path: "s/a.vert".to_string(), fragment_path: "s/a.frag".to_string() };
    let (state, action) = cycle_step(state, CycleAnswer::Fired(event("s/a.frag", ChangeKind::Modify)));
    assert_eq!(action, CycleAction::AskExists(pair.clone()));
    let (state, action) = cycle_step(state, CycleAnswer::Exists { vertex: true, fragment: true });
    assert_eq!(action, CycleAction::Read(pair.clone()));
    let sources = CycleAnswer::Sources {
        vertex: "uniform float t;\nvoid main() {}\n".to_string(),
        fragment: "void main() {}\n".to_string(),
    };
    let (state, action) = cycle_step(state, sources);
    match action {
        CycleAction::Write(GeneratedArtifact { destination_path, text }) => {
            assert_eq!(destination_path, "out/A.ts");
            assert!(text.contains("        t: \"float\",\n"));
        }
        other => panic!("a write was expected, not {:?}", other),
    }
    let (state, action) = cycle_step(state, CycleAnswer::Done);
    assert_eq!(action, CycleAction::ResolveImports("s/a.frag".to_string()));
    assert_eq!(state, CycleState::new("out".to_string(), Dialect::TypeScript));
    let (_, action) = cycle_step(state, CycleAnswer::Done);
    assert_eq!(action, CycleAction::Ignore);
}

#[test]
fn a_pairing_error_ends_the_cycle() {
    let state = CycleState::new("out".to_string(), Dialect::TypeScript);
    let (state, _) = cycle_step(state, CycleAnswer::Fired(event("a.vert", ChangeKind::Create)));
    let (state, action) = cycle_step(state, CycleAnswer::Exists { vertex: true, fragment: false });
    assert_eq!(
        action,
        CycleAction::Report(CycleError::Pairing(PairingError { missing: Stage::Fragment, path: "a.frag".to_string() }))
    );
    assert_eq!(state.phase, Phase::Idle);
    let (state, action) = cycle_step(state, CycleAnswer::Done);
    assert_eq!(action, CycleAction::Ignore);
    let (state, action) = cycle_step(state, CycleAnswer::Fired(event("notes.txt", ChangeKind::Create)));
    assert_eq!(action, CycleAction::Ignore);
    assert_eq!(state.phase, Phase::Idle);
}

#[test]
fn imports_are_resolved_after_a_failed_generation() {
    let state = CycleState::new("out".to_string(), Dialect::TypeScript);
    let (state, _) = cycle_step(state, CycleAnswer::Fired(event("a.vert", ChangeKind::Modify)));
    let (state, _) = cycle_step(state, CycleAnswer::Exists { vertex: true, fragment: true });
    let sources = CycleAnswer::Sources {
        vertex: "uniform float x;\nvoid main() {}\n".to_string(),
        fragment: "uniform vec2 x;\nvoid main() {}\n".to_string(),
    };
    let (state, action) = cycle_step(state, sources);
    assert_eq!(
        action,
        CycleAction::Report(CycleError::Generation(GenerationError::Validation(
            ValidationError::UniformTypeConflict("x".to_string())
        )))
    );
    let (_, action) = cycle_step(state, CycleAnswer::Done);
    assert_eq!(action, CycleAction::ResolveImports("a.vert".to_string()));
}

#[test]
fn failed_reads_and_writes_are_reported() {
    let state = CycleState::new("out".to_string(), Dialect::TypeScript);
    let (state, _) = cycle_step(state, CycleAnswer::Fired(event("a.vert", ChangeKind::Modify)));
    let (state, _) = cycle_step(state, CycleAnswer::Exists { vertex: true, fragment: true });
    let (state, action) = cycle_step(state, CycleAnswer::Failed("a.frag".to_string()));
    assert_eq!(action, CycleAction::Report(CycleError::Io("a.frag".to_string())));
    let (state, action) = cycle_step(state, CycleAnswer::Failed("out/A.ts".to_string()));
    assert_eq!(action, CycleAction::Report(CycleError::Io("out/A.ts".to_string())));
    let (_, action) = cycle_step(state, CycleAnswer::Done);
    assert_eq!(action, CycleAction::ResolveImports("a.vert".to_string()));
}
