use std::path::PathBuf;

use renderer::file_watcher::FileWatcher;
use renderer::resource_store::reload_command::RebuildCommand;
use renderer::resource_store::render_pipeline::RenderPipelineStore;
use renderer::resource_store::shader::{ShaderSource, ShaderStore, StaticShaderFile};
use renderer::resource_store::ReloadQueue;

fn static_source(name: &'static str) -> ShaderSource {
    ShaderSource::StaticFile(StaticShaderFile {
        source: "fn main() {}",
        file_path: name,
    })
}

#[test]
fn shaders_get_distinct_ids_and_keep_their_source() {
    let mut store = ShaderStore::new(&[]).ok().unwrap();
    let mut watcher = FileWatcher::new();
    let a = store.register_shader(&mut watcher, static_source("a.wgsl"), None);
    let b = store.register_shader(&mut watcher, static_source("b.wgsl"), None);
    assert!(a != b);
    assert_ne!(a.as_ffi(), b.as_ffi());
    match store.get_source(a) {
        ShaderSource::StaticFile(file) => assert_eq!(file.file_path, "a.wgsl"),
        _ => panic!("wrong source"),
    }
    match store.get_source(b) {
        ShaderSource::StaticFile(file) => assert_eq!(file.file_path, "b.wgsl"),
        _ => panic!("wrong source"),
    }
    assert!(store.dependants(a).is_empty());
}

#[test]
fn file_shader_is_watched() {
    let mut store = ShaderStore::new(&[]).ok().unwrap();
    let mut watcher = FileWatcher::new();
    let source = ShaderSource::ShaderFile(PathBuf::from("shaders/a.wgsl"));
    let a = store.register_shader(&mut watcher, source, Some("/p/shaders/a.wgsl".to_string()));
    let commands = watcher.process_updates(&vec![
        "/p/other.wgsl".to_string(),
        "/p/shaders/a.wgsl".to_string(),
    ]);
    assert_eq!(commands, vec![RebuildCommand::Shader(a)]);
    match store.get_source(a).clone() {
        ShaderSource::ShaderFile(path) => assert_eq!(path, PathBuf::from("shaders/a.wgsl")),
        _ => panic!("wrong source"),
    }
}

#[test]
fn pipeline_becomes_dependant_of_its_shaders() {
    let mut shaders = ShaderStore::new(&[]).ok().unwrap();
    let mut watcher = FileWatcher::new();
    let vs = shaders.register_shader(&mut watcher, static_source("vs.wgsl"), None);
    let fs = shaders.register_shader(&mut watcher, static_source("fs.wgsl"), None);
    let mut pipelines = RenderPipelineStore::new();
    let p1 = pipelines.build_render_pipeline(vs, Some(fs), &mut shaders);
    let p2 = pipelines.build_render_pipeline(vs, None, &mut shaders);
    assert!(p1 != p2);
    assert_eq!(
        shaders.dependants(vs),
        vec![RebuildCommand::Pipeline(p1), RebuildCommand::Pipeline(p2)]
    );
    assert_eq!(shaders.dependants(fs), vec![RebuildCommand::Pipeline(p1)]);
    let used = pipelines.shaders(p1);
    assert_eq!(used.vertex, vs);
    assert_eq!(used.fragment, Some(fs));
    assert_eq!(pipelines.shaders(p2).fragment, None);
}

#[test]
fn same_shader_for_both_stages_registers_twice() {
    let mut shaders = ShaderStore::new(&[]).ok().unwrap();
    let mut watcher = FileWatcher::new();
    let s = shaders.register_shader(&mut watcher, static_source("s.wgsl"), None);
    let mut pipelines = RenderPipelineStore::new();
    let p = pipelines.build_render_pipeline(s, Some(s), &mut shaders);
    assert_eq!(
        shaders.dependants(s),
        vec![RebuildCommand::Pipeline(p), RebuildCommand::Pipeline(p)]
    );
}

#[test]
fn reload_reaches_dependent_pipelines() {
    let mut shaders = ShaderStore::new(&[]).ok().unwrap();
    let mut watcher = FileWatcher::new();
    let vs = shaders.register_shader(
        &mut watcher,
        ShaderSource::ShaderFile(PathBuf::from("vs.wgsl")),
        Some("/root/vs.wgsl".to_string()),
    );
    let mut pipelines = RenderPipelineStore::new();
    let p = pipelines.build_render_pipeline(vs, None, &mut shaders);

    let changed = watcher.process_updates(&vec!["/root/vs.wgsl".to_string()]);
    let mut queue = ReloadQueue::new(changed);
    let mut order = Vec::new();
    while let Some(command) = queue.next() {
        order.push(command);
        if let RebuildCommand::Shader(id) = command {
            queue.shader_rebuilt(&shaders, id);
        }
    }
    assert_eq!(
        order,
        vec![RebuildCommand::Shader(vs), RebuildCommand::Pipeline(p)]
    );
}

#[test]
fn reload_queue_is_last_in_first_out() {
    let mut shaders = ShaderStore::new(&[]).ok().unwrap();
    let mut watcher = FileWatcher::new();
    let a = shaders.register_shader(&mut watcher, static_source("a.wgsl"), None);
    let b = shaders.register_shader(&mut watcher, static_source("b.wgsl"), None);
    let mut queue = ReloadQueue::new(vec![RebuildCommand::Shader(a), RebuildCommand::Shader(b)]);
    assert_eq!(queue.next(), Some(RebuildCommand::Shader(b)));
    assert_eq!(queue.next(), Some(RebuildCommand::Shader(a)));
    assert_eq!(queue.next(), None);
    assert_eq!(queue.next(), None);
}

#[test]
fn watcher_last_watch_wins_and_ignores_unknown_paths() {
    let mut shaders = ShaderStore::new(&[]).ok().unwrap();
    let mut scratch = FileWatcher::new();
    let a = shaders.register_shader(&mut scratch, static_source("a.wgsl"), None);
    let b = shaders.register_shader(&mut scratch, static_source("b.wgsl"), None);
    let mut watcher = FileWatcher::new();
    watcher.watch_file("x".to_string(), RebuildCommand::Shader(a));
    watcher.watch_file("y".to_string(), RebuildCommand::Shader(a));
    watcher.watch_file("x".to_string(), RebuildCommand::Shader(b));
    let commands = watcher.process_updates(&vec![
        "z".to_string(),
        "x".to_string(),
        "y".to_string(),
        "x".to_string(),
    ]);
    assert_eq!(
        commands,
        vec![
            RebuildCommand::Shader(b),
            RebuildCommand::Shader(a),
            RebuildCommand::Shader(b)
        ]
    );
    assert!(watcher.process_updates(&vec!["nothing".to_string()]).is_empty());
}

#[test]
fn stores_count_what_they_hold() {
    let mut shaders = ShaderStore::new(&[]).ok().unwrap();
    let mut watcher = FileWatcher::new();
    assert_eq!(shaders.len(), 0);
    let vs = shaders.register_shader(&mut watcher, static_source("vs.wgsl"), None);
    let fs = shaders.register_shader(&mut watcher, static_source("fs.wgsl"), None);
    assert_eq!(shaders.len(), 2);
    let mut pipelines = RenderPipelineStore::new();
    assert_eq!(pipelines.len(), 0);
    pipelines.build_render_pipeline(vs, Some(fs), &mut shaders);
    assert_eq!(pipelines.len(), 1);
    assert_eq!(shaders.len(), 2);
}

#[test]
fn reports_taken_in_batches_give_the_same_commands() {
    let mut shaders = ShaderStore::new(&[]).ok().unwrap();
    let mut scratch = FileWatcher::new();
    let a = shaders.register_shader(&mut scratch, static_source("a.wgsl"), None);
    let b = shaders.register_shader(&mut scratch, static_source("b.wgsl"), None);
    let mut watcher = FileWatcher::new();
    watcher.watch_file("x".to_string(), RebuildCommand::Shader(a));
    watcher.watch_file("y".to_string(), RebuildCommand::Shader(b));
    let first = vec!["y".to_string(), "q".to_string()];
    let second = vec!["x".to_string(), "y".to_string()];
    let mut both = first.clone();
    both.extend(second.clone());
    let mut batched = watcher.process_updates(&first);
    batched.extend(watcher.process_updates(&second));
    assert_eq!(batched, watcher.process_updates(&both));
    assert_eq!(
        batched,
        vec![
            RebuildCommand::Shader(b),
            RebuildCommand::Shader(a),
            RebuildCommand::Shader(b)
        ]
    );
}

#[test]
fn whole_reload_stays_within_its_bound() {
    let mut shaders = ShaderStore::new(&[]).ok().unwrap();
    let mut watcher = FileWatcher::new();
    let a = shaders.register_shader(&mut watcher, static_source("a.wgsl"), None);
    let b = shaders.register_shader(&mut watcher, static_source("b.wgsl"), None);
    let mut pipelines = RenderPipelineStore::new();
    pipelines.build_render_pipeline(a, Some(b), &mut shaders);
    pipelines.build_render_pipeline(a, None, &mut shaders);
    // Two shader rebuilds pending, at most two dependants each.
    let mut queue = ReloadQueue::new(vec![RebuildCommand::Shader(a), RebuildCommand::Shader(b)]);
    let mut steps = 0;
    while let Some(command) = queue.next() {
        steps += 1;
        if let RebuildCommand::Shader(id) = command {
            queue.shader_rebuilt(&shaders, id);
        }
    }
    assert_eq!(steps, 5);
    assert!(steps <= 2 + 2 * 2);
}

#[test]
fn dependants_read_back_in_registration_order() {
    let mut shaders = ShaderStore::new(&[]).ok().unwrap();
    let mut watcher = FileWatcher::new();
    let a = shaders.register_shader(&mut watcher, static_source("a.wgsl"), None);
    let b = shaders.register_shader(&mut watcher, static_source("b.wgsl"), None);
    shaders.register_dependant(a, RebuildCommand::Shader(b));
    shaders.register_dependant(a, RebuildCommand::Shader(a));
    assert_eq!(
        shaders.dependants(a),
        vec![RebuildCommand::Shader(b), RebuildCommand::Shader(a)]
    );
}
