use renderer::resource_store::reload_command::RebuildCommand;
use renderer::resource_store::store_base::StoreBase;

#[test]
fn add_then_get() {
    let mut store: StoreBase<u32, &str> = StoreBase::new();
    let a = store.add(10, "a");
    let b = store.add(20, "b");
    assert_eq!(a.index(), 0);
    assert_eq!(b.index(), 1);
    assert_eq!(*store.get(&a), 10);
    assert_eq!(*store.get(&b), 20);
    assert_eq!(*store.get_source_data(&a), "a");
    assert_eq!(*store.get_source_data(&b), "b");
    assert!(store.get_dependants(&a).is_empty());
}

#[test]
fn set_entity_and_get_mut() {
    let mut store: StoreBase<u32, ()> = StoreBase::new();
    let a = store.add(1, ());
    let b = store.add(2, ());
    store.set_entity(&a, 11);
    assert_eq!(*store.get(&a), 11);
    assert_eq!(*store.get(&b), 2);
    *store.get_mut(&b) += 5;
    assert_eq!(*store.get(&b), 7);
    assert_eq!(*store.get(&a), 11);
}

#[test]
fn register_dependants_in_order() {
    let mut store: StoreBase<u32, ()> = StoreBase::new();
    let a = store.add(1, ());
    let b = store.add(2, ());
    let mut shaders = renderer::resource_store::shader::ShaderStore::new(&[]).ok().unwrap();
    let mut watcher = renderer::file_watcher::FileWatcher::new();
    let s1 = shaders.register_shader(
        &mut watcher,
        renderer::resource_store::shader::ShaderSource::StaticFile(
            renderer::resource_store::shader::StaticShaderFile {
                source: "x",
                file_path: "x.wgsl",
            },
        ),
        None,
    );
    store.register_dependant(&a, RebuildCommand::Shader(s1));
    store.register_dependant(&a, RebuildCommand::Shader(s1));
    assert_eq!(store.get_dependants(&a).len(), 2);
    assert!(store.get_dependants(&b).is_empty());
    assert_eq!(store.get_dependants(&a)[0], RebuildCommand::Shader(s1));
}

#[test]
fn remove_returns_entity_and_shifts() {
    let mut store: StoreBase<u32, u8> = StoreBase::new();
    let a = store.add(1, 10);
    let b = store.add(2, 20);
    let c = store.add(3, 30);
    assert_eq!(store.remove(a.clone()), 1);
    // the entity after the removed one moved down
    assert_eq!(*store.get(&a), 2);
    assert_eq!(*store.get(&b), 3);
    // sources are not removed
    assert_eq!(*store.get_source_data(&c), 30);
}

#[test]
fn add_after_remove_points_at_older_source() {
    let mut store: StoreBase<u32, u8> = StoreBase::new();
    let a = store.add(1, 10);
    let _b = store.add(2, 20);
    store.remove(a);
    let c = store.add(3, 30);
    assert_eq!(c.index(), 1);
    assert_eq!(*store.get(&c), 3);
    assert_eq!(*store.get_source_data(&c), 20);
}

#[test]
fn entity_ids_compare_by_index() {
    let mut store: StoreBase<u32, ()> = StoreBase::new();
    let a = store.add(1, ());
    let b = store.add(1, ());
    assert!(a == a.clone());
    assert!(a != b);
}

#[test]
fn default_store_is_empty() {
    let store: StoreBase<u32, ()> = StoreBase::default();
    let other: StoreBase<u32, ()> = StoreBase::new();
    assert_eq!(store, other);
}
