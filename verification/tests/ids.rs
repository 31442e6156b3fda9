use std::path::PathBuf;

use renderer::renderer_api::{MeshBundle, MeshId};
use renderer::resource_store::shader::{ShaderSource, ShaderStore, StaticShaderFile};
use renderer::resource_store::GpuMeshId;
use renderer::store::StoreID;
use renderer::web_gpu::Shader;

#[test]
fn store_ids_compare_by_index() {
    let a: StoreID<u32> = StoreID::new(&3);
    let b: StoreID<u32> = StoreID::new(&4);
    assert!(a == a.clone());
    assert!(a != b);
    assert_eq!(a.index(), 3);
}

#[test]
fn gpu_mesh_id_round_trips() {
    let id = GpuMeshId::from_ffi(0x1_0000_0002);
    assert_eq!(id.as_ffi(), 0x1_0000_0002);
    assert_eq!(id, GpuMeshId::from_ffi(0x1_0000_0002));
}

#[test]
fn mesh_bundle_keeps_shader() {
    let mut store = ShaderStore::new(&[]).ok().unwrap();
    let mut watcher = renderer::file_watcher::FileWatcher::new();
    let shader = store.register_shader(
        &mut watcher,
        ShaderSource::StaticFile(StaticShaderFile {
            source: "",
            file_path: "mesh.wgsl",
        }),
        None,
    );
    let bundle = MeshBundle::new(shader, MeshId);
    assert_eq!(bundle.shader(), shader);
}

#[test]
fn shader_descriptions_clone() {
    let compiled = Shader::CompiledIn("src".to_string(), "label".to_string());
    match compiled.clone() {
        Shader::CompiledIn(source, label) => {
            assert_eq!(source, "src");
            assert_eq!(label, "label");
        }
        _ => panic!("wrong variant"),
    }
    match Shader::Path(PathBuf::from("a/b.wgsl")).clone() {
        Shader::Path(path) => assert_eq!(path, PathBuf::from("a/b.wgsl")),
        _ => panic!("wrong variant"),
    }
}
