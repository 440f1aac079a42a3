use wgpu_2d::directive::directive_token;
use wgpu_2d::path_map::PathSet;
use wgpu_2d::shader_manager::Expansion;
use wgpu_2d::shader_manager::FragmentStateTemplate;
use wgpu_2d::shader_manager::ModuleStatus;
use wgpu_2d::shader_manager::PipelineStatus;
use wgpu_2d::shader_manager::RenderPipelineDescriptorTemplate;
use wgpu_2d::shader_manager::ShaderError;
use wgpu_2d::shader_manager::ShaderManager;
use wgpu_2d::shader_manager::VertexStateTemplate;
use wgpu_2d::text::chars_of;

type Manager = ShaderManager<u64, u64, ()>;

fn template(vertex: &str, fragment: Option<&str>) -> RenderPipelineDescriptorTemplate<()> {
    RenderPipelineDescriptorTemplate {
        vertex: VertexStateTemplate { shader_path: vertex.to_owned(), entry_point: None },
        fragment: fragment.map(|f| FragmentStateTemplate {
            shader_path: f.to_owned(),
            entry_point: None,
        }),
        fixed_state: (),
    }
}

/// Runs the expansion loop against a fake disk, probing as the cache asks.
fn expand_with_disk(
    mgr: &mut Manager,
    path: &str,
    probed: &mut PathSet,
    disk: &[(&str, &str)],
) -> Result<String, ShaderError> {
    loop {
        match mgr.expand(path, probed)? {
            Expansion::Complete(text) => return Ok(text),
            Expansion::NeedsDiskProbe(p) => {
                match disk.iter().find(|(name, _)| *name == p) {
                    Some((_, contents)) => mgr.load_disk_source(&p, contents),
                    None => probed.insert(chars_of(&p)),
                }
            }
        }
    }
}

/// Obtains a compiled module, counting how often the compiler ran.
fn obtain_module(
    mgr: &mut Manager,
    path: &str,
    probed: &mut PathSet,
    disk: &[(&str, &str)],
    next_handle: &mut u64,
    compiles: &mut u32,
) -> Result<u64, ShaderError> {
    loop {
        match mgr.get_module(path, probed)? {
            ModuleStatus::Compiled => return Ok(*mgr.module(path).unwrap()),
            ModuleStatus::NeedsDiskProbe(p) => {
                match disk.iter().find(|(name, _)| *name == p) {
                    Some((_, contents)) => mgr.load_disk_source(&p, contents),
                    None => probed.insert(chars_of(&p)),
                }
            }
            ModuleStatus::NeedsCompile(_source) => {
                *compiles += 1;
                *next_handle += 1;
                mgr.install_module(path, *next_handle);
            }
        }
    }
}

/// Obtains a linked pipeline, counting compiles and links.
fn obtain_pipeline(
    mgr: &mut Manager,
    label: &str,
    probed: &mut PathSet,
    disk: &[(&str, &str)],
    next_handle: &mut u64,
    compiles: &mut u32,
    links: &mut u32,
) -> Result<u64, ShaderError> {
    loop {
        match mgr.get_render_pipeline(label, probed)? {
            PipelineStatus::Linked => return Ok(*mgr.pipeline(label).unwrap()),
            PipelineStatus::NeedsDiskProbe(p) => {
                match disk.iter().find(|(name, _)| *name == p) {
                    Some((_, contents)) => mgr.load_disk_source(&p, contents),
                    None => probed.insert(chars_of(&p)),
                }
            }
            PipelineStatus::NeedsCompile(path, _source) => {
                *compiles += 1;
                *next_handle += 1;
                mgr.install_module(&path, *next_handle);
            }
            PipelineStatus::NeedsLink(_vertex, _fragment) => {
                *links += 1;
                *next_handle += 1;
                mgr.install_pipeline(label, *next_handle);
            }
        }
    }
}

#[test]
fn expansion_splices_fragment_between_lines() {
    let mut mgr = Manager::new("shaders/");
    let a = format!("x\n{} <B>\ny", directive_token());
    mgr.register_constant_source("A", &a).unwrap();
    mgr.register_constant_source("B", "b-content").unwrap();
    let mut probed = PathSet::new();
    let text = expand_with_disk(&mut mgr, "A", &mut probed, &[]).unwrap();
    assert_eq!(text, "x\nb-content\ny");
}

#[test]
fn expansion_handles_carriage_returns() {
    let mut mgr = Manager::new("shaders/");
    let a = format!("a\r\n{} <B>\r\nc", directive_token());
    mgr.register_constant_source("A", &a).unwrap();
    mgr.register_constant_source("B", "b-content").unwrap();
    let mut probed = PathSet::new();
    let text = expand_with_disk(&mut mgr, "A", &mut probed, &[]).unwrap();
    assert_eq!(text, "a\r\nb-content\r\nc");
}

#[test]
fn expansion_is_transitive() {
    let mut mgr = Manager::new("shaders/");
    let tok = directive_token();
    let a = format!("{} <B>", tok);
    let b = format!("start\n{} <C>\nend", tok);
    mgr.register_constant_source("A", &a).unwrap();
    mgr.register_constant_source("B", &b).unwrap();
    mgr.register_constant_source("C", "core").unwrap();
    let mut probed = PathSet::new();
    let text = expand_with_disk(&mut mgr, "A", &mut probed, &[]).unwrap();
    assert_eq!(text, "start\ncore\nend");
}

#[test]
fn line_without_brackets_is_left_alone() {
    let mut mgr = Manager::new("shaders/");
    let a = format!("x\n{} B\ny", directive_token());
    mgr.register_constant_source("A", &a).unwrap();
    let mut probed = PathSet::new();
    let text = expand_with_disk(&mut mgr, "A", &mut probed, &[]).unwrap();
    assert_eq!(text, a);
}

#[test]
fn directive_line_is_replaced_whole() {
    let mut mgr = Manager::new("shaders/");
    let a = format!("x\n  {} <B> trailing\ny", directive_token());
    mgr.register_constant_source("A", &a).unwrap();
    mgr.register_constant_source("B", "b").unwrap();
    let mut probed = PathSet::new();
    let text = expand_with_disk(&mut mgr, "A", &mut probed, &[]).unwrap();
    assert_eq!(text, "x\nb\ny");
}

#[test]
fn path_keeps_inner_spacing() {
    let mut mgr = Manager::new("shaders/");
    let a = format!("{} < B >", directive_token());
    mgr.register_constant_source("A", &a).unwrap();
    mgr.register_constant_source(" B ", "spaced").unwrap();
    let mut probed = PathSet::new();
    let text = expand_with_disk(&mut mgr, "A", &mut probed, &[]).unwrap();
    assert_eq!(text, "spaced");
}

#[test]
fn cycle_is_detected() {
    let mut mgr = Manager::new("shaders/");
    let tok = directive_token();
    let a = format!("{} <B>", tok);
    let b = format!("{} <A>", tok);
    mgr.register_constant_source("A", &a).unwrap();
    mgr.register_constant_source("B", &b).unwrap();
    let mut probed = PathSet::new();
    let err = expand_with_disk(&mut mgr, "A", &mut probed, &[]).unwrap_err();
    assert!(matches!(err, ShaderError::CyclicInclusion(p) if p == "B"));
}

#[test]
fn repeated_fragment_is_rejected() {
    let mut mgr = Manager::new("shaders/");
    let tok = directive_token();
    let a = format!("{} <B>\n{} <B>", tok, tok);
    mgr.register_constant_source("A", &a).unwrap();
    mgr.register_constant_source("B", "b").unwrap();
    let mut probed = PathSet::new();
    let err = expand_with_disk(&mut mgr, "A", &mut probed, &[]).unwrap_err();
    assert!(matches!(err, ShaderError::CyclicInclusion(p) if p == "B"));
}

#[test]
fn ambiguous_path_is_rejected() {
    let mut mgr = Manager::new("shaders/");
    mgr.register_constant_source("dup.wgsl", "embedded text").unwrap();
    mgr.load_disk_source("dup.wgsl", "disk text");
    let probed = PathSet::new();
    let err = mgr.get_module("dup.wgsl", &probed).unwrap_err();
    assert!(matches!(err, ShaderError::AmbiguousSource(p) if p == "dup.wgsl"));
}

#[test]
fn path_in_neither_table_is_rejected() {
    let mut mgr = Manager::new("shaders/");
    let mut probed = PathSet::new();
    let err = expand_with_disk(&mut mgr, "ghost.wgsl", &mut probed, &[]).unwrap_err();
    assert!(matches!(err, ShaderError::UnknownSource(p) if p == "ghost.wgsl"));
}

#[test]
fn conflicting_registration_is_rejected() {
    let mut mgr = Manager::new("shaders/");
    mgr.register_constant_source("c.wgsl", "first").unwrap();
    mgr.register_constant_source("c.wgsl", "first").unwrap();
    let err = mgr.register_constant_source("c.wgsl", "second").unwrap_err();
    assert!(matches!(err, ShaderError::ConflictingSource(p) if p == "c.wgsl"));
    let mut probed = PathSet::new();
    let text = expand_with_disk(&mut mgr, "c.wgsl", &mut probed, &[]).unwrap();
    assert_eq!(text, "first");
}

#[test]
fn module_is_compiled_once_and_handle_is_stable() {
    let mut mgr = Manager::new("shaders/");
    mgr.register_constant_source("m.wgsl", "fn main() {}").unwrap();
    let mut probed = PathSet::new();
    let mut next: u64 = 0;
    let mut compiles: u32 = 0;
    let first = obtain_module(&mut mgr, "m.wgsl", &mut probed, &[], &mut next, &mut compiles)
        .unwrap();
    let second = obtain_module(&mut mgr, "m.wgsl", &mut probed, &[], &mut next, &mut compiles)
        .unwrap();
    assert_eq!(first, second);
    assert_eq!(compiles, 1);
}

#[test]
fn reload_rereads_disk_and_recompiles() {
    let disk = [("d.wgsl", "disk contents")];
    let mut mgr = Manager::new("shaders/");
    let mut probed = PathSet::new();
    let mut next: u64 = 0;
    let mut compiles: u32 = 0;
    let first = obtain_module(&mut mgr, "d.wgsl", &mut probed, &disk, &mut next, &mut compiles)
        .unwrap();
    assert_eq!(compiles, 1);
    mgr.reload();
    let mut probed = PathSet::new();
    match mgr.get_module("d.wgsl", &probed).unwrap() {
        ModuleStatus::NeedsDiskProbe(p) => assert_eq!(p, "d.wgsl"),
        _ => panic!("the dropped disk fragment must be probed again"),
    }
    let second = obtain_module(&mut mgr, "d.wgsl", &mut probed, &disk, &mut next, &mut compiles)
        .unwrap();
    assert_eq!(compiles, 2);
    assert_ne!(first, second);
}

#[test]
fn reload_keeps_embedded_sources() {
    let mut mgr = Manager::new("shaders/");
    mgr.register_constant_source("e.wgsl", "embedded body").unwrap();
    let mut probed = PathSet::new();
    let before = expand_with_disk(&mut mgr, "e.wgsl", &mut probed, &[]).unwrap();
    mgr.reload();
    let mut probed = PathSet::new();
    let after = expand_with_disk(&mut mgr, "e.wgsl", &mut probed, &[]).unwrap();
    assert_eq!(before, after);
    assert_eq!(after, "embedded body");
}

#[test]
fn unknown_label_fails_before_any_work() {
    let mgr = Manager::new("shaders/");
    let probed = PathSet::new();
    let err = mgr.get_render_pipeline("missing", &probed).unwrap_err();
    assert!(matches!(err, ShaderError::UnknownLabel(l) if l == "missing"));
}

#[test]
fn second_registration_keeps_first_template() {
    let mut mgr = Manager::new("shaders/");
    mgr.register_constant_source("v.wgsl", "fn v() {}").unwrap();
    mgr.register_render_pipeline("P", template("v.wgsl", None));
    mgr.register_render_pipeline("P", template("other.wgsl", None));
    let tpl = mgr.template("P").unwrap();
    let (vertex, fragment) = tpl.get_module_paths();
    assert_eq!(vertex, "v.wgsl");
    assert!(fragment.is_none());
}

#[test]
fn template_survives_reload_and_relinks() {
    let mut mgr = Manager::new("shaders/");
    mgr.register_constant_source("v.wgsl", "fn v() {}").unwrap();
    mgr.register_render_pipeline("P", template("v.wgsl", None));
    let mut probed = PathSet::new();
    let mut next: u64 = 0;
    let mut compiles: u32 = 0;
    let mut links: u32 = 0;
    let first = obtain_pipeline(
        &mut mgr, "P", &mut probed, &[], &mut next, &mut compiles, &mut links,
    )
    .unwrap();
    mgr.reload();
    let mut probed = PathSet::new();
    let second = obtain_pipeline(
        &mut mgr, "P", &mut probed, &[], &mut next, &mut compiles, &mut links,
    )
    .unwrap();
    assert_ne!(first, second);
    assert_eq!(links, 2);
}

#[test]
fn pipeline_end_to_end() {
    let tok = directive_token();
    let main_text = format!("{} <common.wgsl>\nfn main(){{ util(); }}", tok);
    let disk = [("main.wgsl", main_text.as_str())];
    let mut mgr = Manager::new("shaders/");
    mgr.register_constant_source("common.wgsl", "fn util() {}").unwrap();
    mgr.register_render_pipeline("P", template("main.wgsl", None));

    let mut probed = PathSet::new();
    let mut next: u64 = 0;
    let mut compiles: u32 = 0;
    let mut links: u32 = 0;
    let first = obtain_pipeline(
        &mut mgr, "P", &mut probed, &disk, &mut next, &mut compiles, &mut links,
    )
    .unwrap();
    assert_eq!(compiles, 1);
    assert_eq!(links, 1);

    let second = obtain_pipeline(
        &mut mgr, "P", &mut probed, &disk, &mut next, &mut compiles, &mut links,
    )
    .unwrap();
    assert_eq!(first, second);
    assert_eq!(compiles, 1);
    assert_eq!(links, 1);

    mgr.reload();
    let mut probed = PathSet::new();
    let third = obtain_pipeline(
        &mut mgr, "P", &mut probed, &disk, &mut next, &mut compiles, &mut links,
    )
    .unwrap();
    assert_ne!(first, third);
    assert_eq!(compiles, 2);
    assert_eq!(links, 2);
}

#[test]
fn expanded_source_reaches_the_compiler() {
    let tok = directive_token();
    let main_text = format!("{} <common.wgsl>\nfn main(){{ util(); }}", tok);
    let mut mgr = Manager::new("shaders/");
    mgr.register_constant_source("common.wgsl", "fn util() {}").unwrap();
    mgr.register_constant_source("main.wgsl", &main_text).unwrap();
    let mut probed = PathSet::new();
    let expanded = expand_with_disk(&mut mgr, "main.wgsl", &mut probed, &[]).unwrap();
    assert_eq!(expanded, "fn util() {}\nfn main(){ util(); }");
    match mgr.get_module("main.wgsl", &probed).unwrap() {
        ModuleStatus::NeedsCompile(source) => assert_eq!(source, expanded),
        _ => panic!("an uncompiled module must ask for a compile"),
    }
}

#[test]
fn fragment_stage_module_is_requested_too() {
    let mut mgr = Manager::new("shaders/");
    mgr.register_constant_source("v.wgsl", "fn v() {}").unwrap();
    mgr.register_constant_source("f.wgsl", "fn f() {}").unwrap();
    mgr.register_render_pipeline("PF", template("v.wgsl", Some("f.wgsl")));
    let mut probed = PathSet::new();
    let mut next: u64 = 0;
    let mut compiles: u32 = 0;
    let mut links: u32 = 0;
    let handle = obtain_pipeline(
        &mut mgr, "PF", &mut probed, &[], &mut next, &mut compiles, &mut links,
    )
    .unwrap();
    assert_eq!(compiles, 2);
    assert_eq!(links, 1);
    assert_eq!(*mgr.pipeline("PF").unwrap(), handle);
    assert!(mgr.module("v.wgsl").is_some());
    assert!(mgr.module("f.wgsl").is_some());
}

#[test]
fn embedded_lookup_never_needs_a_probe() {
    let mut mgr = Manager::new("shaders/");
    mgr.register_constant_source("e.wgsl", "body").unwrap();
    assert_eq!(mgr.get_embedded_fragment("e.wgsl").unwrap(), "body");
    assert!(mgr.get_embedded_fragment("other.wgsl").is_none());
}

#[test]
fn resolution_asks_for_a_probe_first() {
    let mut mgr = Manager::new("shaders/");
    mgr.register_constant_source("e.wgsl", "body").unwrap();
    let mut probed = PathSet::new();
    match mgr.resolve_fragment("e.wgsl", &probed).unwrap() {
        Expansion::NeedsDiskProbe(p) => assert_eq!(p, "e.wgsl"),
        Expansion::Complete(_) => panic!("an unprobed path cannot resolve yet"),
    }
    probed.insert(chars_of("e.wgsl"));
    match mgr.resolve_fragment("e.wgsl", &probed).unwrap() {
        Expansion::Complete(t) => assert_eq!(t, "body"),
        Expansion::NeedsDiskProbe(_) => panic!("the path was probed already"),
    }
}

#[test]
fn directory_path_is_kept() {
    let mgr = Manager::new("assets/shaders/");
    assert_eq!(mgr.directory_path(), "assets/shaders/");
}
