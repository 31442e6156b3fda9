use std::path::PathBuf;

use slotmap::{DefaultKey, Key, KeyData, SlotMap};
use vstd::prelude::*;
use vstd::string::*;

use naga_oil::compose::{Composer, ComposerError};

use super::composer::{
    accepts_module, add_lib_module, composed_module, composes, composer_has_room, registered_module_name, composer_modules, composer_sound, contains_module,
    make_naga_module, module_count, new_composer, preprocess, preprocessor_data, views_of,
};
use super::reload_command::RebuildCommand;
use crate::file_watcher::FileWatcher;
use super::slot_map::slot_map_has_room;

verus! {

/// Trusted: `std::path::PathBuf`, carried opaquely.
#[verifier::external_type_specification]
#[verifier::external_body]
pub struct ExPathBuf(PathBuf);

/// Key of a shader in a [`ShaderStore`].
#[derive(Debug, Clone, Copy, PartialEq, Eq, Hash, Structural)]
pub struct ShaderId {
    key: u64,
}

impl ShaderId {
    pub closed spec fn spec_key(&self) -> u64 {
        self.key
    }

    /// The key in the 64-bit form of `slotmap::KeyData::as_ffi`, so that
    /// other slot-map based tables can be keyed alike.
    #[verifier::when_used_as_spec(spec_key)]
    pub fn as_ffi(&self) -> (r: u64)
        ensures
            r == self.spec_key(),
    {
        self.key
    }
}

/// Trusted: `PathBuf::clone` gives back an equal path.
pub assume_specification[ <PathBuf as Clone>::clone ](path: &PathBuf) -> (r: PathBuf)
    ensures
        r == *path,
;

/// A shader compiled into the binary.
#[derive(Clone, Copy)]
pub struct StaticShaderFile {
    pub source: &'static str,
    pub file_path: &'static str,
}

/// Where the source of a shader comes from.
pub enum ShaderSource {
    ShaderFile(PathBuf),
    StaticFile(StaticShaderFile),
}

impl Clone for ShaderSource {
    fn clone(&self) -> (r: Self)
        ensures
            r == *self,
    {
        match self {
            ShaderSource::ShaderFile(path) => ShaderSource::ShaderFile(path.clone()),
            ShaderSource::StaticFile(file) => ShaderSource::StaticFile(*file),
        }
    }
}

/// Trusted: the slot map of the `slotmap` crate that holds the shaders,
/// hidden from Verus; [`shader_table`] names what it holds.
#[verifier::external_body]
pub struct ShaderTable {
    slots: SlotMap<DefaultKey, ShaderEntry>,
}

/// What the store keeps of one shader: its source, so that it can be
/// rebuilt, and the rebuild commands of everything built from it.
pub struct ShaderEntry {
    pub source: ShaderSource,
    pub dependants: Vec<RebuildCommand>,
}

/// Trusted name: the shaders a slot map holds, by the 64-bit form of their
/// keys.
pub uninterp spec fn shader_table(m: ShaderTable) -> Map<u64, ShaderEntry>;

/// Trusted: `SlotMap::with_key` makes an empty slot map.
#[verifier::external_body]
fn shader_table_new() -> (table: ShaderTable)
    ensures
        shader_table(table) =~= Map::empty(),
{
    ShaderTable { slots: SlotMap::with_key() }
}

/// Trusted: `SlotMap::insert` stores `entry` under a key that no value held
/// before has, and returns that key (here in its `as_ffi` form). It panics
/// only when the map is full, which `requires` rules out.
#[verifier::external_body]
fn shader_table_insert(m: &mut ShaderTable, entry: ShaderEntry) -> (r: u64)
    requires
        slot_map_has_room(shader_table(*old(m)).len()),
    ensures
        !shader_table(*old(m)).dom().contains(r),
        shader_table(*final(m)) == shader_table(*old(m)).insert(r, entry),
    no_unwind
{
    m.slots.insert(entry).data().as_ffi()
}

/// Trusted: `SlotMap::len` is the number of values the map holds.
#[verifier::external_body]
fn shader_table_len(m: &ShaderTable) -> (r: usize)
    ensures
        r == shader_table(*m).len(),
{
    m.slots.len()
}

/// Trusted: `SlotMap`'s `Index`, given a key that `KeyData::from_ffi` rebuilds
/// from the `as_ffi` form of an occupied key, yields the value held there.
#[verifier::external_body]
fn shader_table_get(m: &ShaderTable, key: u64) -> (r: &ShaderEntry)
    requires
        shader_table(*m).dom().contains(key),
    ensures
        *r == shader_table(*m)[key],
{
    &m.slots[DefaultKey::from(KeyData::from_ffi(key))]
}

/// Trusted: `SlotMap`'s `IndexMut`, for an occupied key, hands out the value
/// held there; what is written through it is held there afterwards.
#[verifier::external_body]
fn shader_table_get_mut(m: &mut ShaderTable, key: u64) -> (r: &mut ShaderEntry)
    requires
        shader_table(*old(m)).dom().contains(key),
    ensures
        *r == shader_table(*old(m))[key],
        shader_table(*final(m)) == shader_table(*old(m)).insert(key, *final(r)),
    no_unwind
{
    &mut m.slots[DefaultKey::from(KeyData::from_ffi(key))]
}

/// The shaders of the renderer: their sources and their dependants, and
/// the composer that resolves their imports.
pub struct ShaderStore {
    shaders: ShaderTable,
    naga_oil_composer: Composer,
}

impl ShaderStore {
    /// The shaders held, by the key of their id.
    pub closed spec fn entries(&self) -> Map<u64, ShaderEntry> {
        shader_table(self.shaders)
    }

    pub open spec fn contains(&self, id: ShaderId) -> bool {
        self.entries().dom().contains(id.spec_key())
    }

    pub open spec fn source_of(&self, id: ShaderId) -> ShaderSource {
        self.entries()[id.spec_key()].source
    }

    pub open spec fn dependants_of(&self, id: ShaderId) -> Seq<RebuildCommand> {
        self.entries()[id.spec_key()].dependants@
    }

    /// The modules the store's composer holds.
    pub closed spec fn composer_modules(&self) -> Set<Seq<char>> {
        composer_modules(self.naga_oil_composer)
    }

    /// The store's composer.
    pub closed spec fn composer(&self) -> Composer {
        self.naga_oil_composer
    }

    /// The composer can build shaders: its modules' imports resolve without
    /// a cycle.
    #[verifier::type_invariant]
    closed spec fn composer_is_sound(&self) -> bool {
        composer_sound(self.naga_oil_composer)
    }

    /// A store with no shader, whose composer, made empty, has loaded
    /// `shader_lib` as [`ShaderStore::load_shader_lib`] promises.
    pub fn new(shader_lib: &[&str]) -> (r: Result<ShaderStore, InitializationError>)
        ensures
            exists|empty: Composer, loaded: Composer|
                #[trigger] load_outcome(shader_lib@, empty, loaded, result_of_loading(r))
                    && composer_modules(empty) == Set::<Seq<char>>::empty() && composer_sound(empty)
                    && (r matches Ok(store) ==> store.composer() == loaded),
            r matches Ok(store) ==> store.entries() == Map::<u64, ShaderEntry>::empty(),
    {
        let mut naga_oil_composer = new_composer();
        let ghost empty = naga_oil_composer;
        let loaded = Self::load_shader_lib(&mut naga_oil_composer, shader_lib);
        let ghost after = naga_oil_composer;
        match loaded {
            Ok(()) => {
                let store = ShaderStore { shaders: shader_table_new(), naga_oil_composer };
                assert(load_outcome(shader_lib@, empty, after, result_of_loading(Ok(store))));
                Ok(store)
            },
            Err(err) => {
                assert(load_outcome(
                    shader_lib@,
                    empty,
                    after,
                    result_of_loading(Err::<ShaderStore, InitializationError>(err)),
                ));
                Err(err)
            },
        }
    }

    /// Builds the naga module of a WGSL shader with the store's composer,
    /// which resolves its imports against the modules it holds. `file_path`
    /// is the text of `file`, the path the shader is reported under; a
    /// failure of the composer is reported as
    /// [`BuildShaderError::NagaComposerFailed`] for `file`.
    pub fn compose_module(&mut self, source: &str, file_path: &str, file: &PathBuf) -> (r: Result<
        wgpu::naga::Module,
        BuildShaderError,
    >)
        ensures
            final(self).entries() == old(self).entries(),
            final(self).composer_modules() == old(self).composer_modules(),
            r is Ok <==> composes(old(self).composer(), source@, file_path@),
            r matches Ok(m) ==> m == composed_module(old(self).composer(), source@, file_path@),
            r matches Err(err) ==> (err matches BuildShaderError::NagaComposerFailed {
                file: failed,
                ..
            } && failed == *file),
    {
        proof {
            use_type_invariant(&*self);
        }
        // The composer is taken out while it builds, so that the store holds
        // a sound one throughout.
        let mut composer = new_composer();
        std::mem::swap(&mut composer, &mut self.naga_oil_composer);
        let made = make_naga_module(&mut composer, source, file_path);
        std::mem::swap(&mut composer, &mut self.naga_oil_composer);
        match made {
            Ok(module) => Ok(module),
            Err(source) => Err(BuildShaderError::NagaComposerFailed { file: file.clone(), source }),
        }
    }

    /// Adds a shader with no dependants and returns its new id. When the
    /// shader was read from a file, that file is watched so that a change of
    /// it rebuilds the shader.
    pub fn register_shader(
        &mut self,
        file_watcher: &mut FileWatcher,
        shader_source: ShaderSource,
        watched_file: Option<String>,
    ) -> (r: ShaderId)
        requires
            slot_map_has_room(old(self).entries().len()),
            old(file_watcher).wf(),
        ensures
            !old(self).contains(r),
            final(self).contains(r),
            final(self).source_of(r) == shader_source,
            final(self).dependants_of(r) == Seq::<RebuildCommand>::empty(),
            forall|id: ShaderId| #[trigger] old(self).contains(id) ==> final(self).contains(id)
                && final(self).entries()[id.spec_key()] == old(self).entries()[id.spec_key()],
            final(self).entries().dom() == old(self).entries().dom().insert(r.spec_key()),
            final(self).composer_modules() == old(self).composer_modules(),
            final(file_watcher).wf(),
            final(file_watcher).watched() == match watched_file {
                Some(path) => old(file_watcher).watched().insert(path@, RebuildCommand::Shader(r)),
                None => old(file_watcher).watched(),
            },
    {
        proof {
            use_type_invariant(&*self);
        }
        let entry = ShaderEntry { source: shader_source, dependants: Vec::new() };
        let key = shader_table_insert(&mut self.shaders, entry);
        let shader_id = ShaderId { key };
        if let Some(file_path) = watched_file {
            file_watcher.watch_file(file_path, RebuildCommand::Shader(shader_id));
        }
        shader_id
    }

    /// How many shaders the store holds.
    pub fn len(&self) -> (r: usize)
        ensures
            r == self.entries().len(),
    {
        shader_table_len(&self.shaders)
    }

    pub fn get_source(&self, shader_id: ShaderId) -> (r: &ShaderSource)
        requires
            self.contains(shader_id),
        ensures
            *r == self.source_of(shader_id),
    {
        &shader_table_get(&self.shaders, shader_id.key).source
    }

    /// The rebuild commands registered for the shader, in registration order.
    pub fn dependants(&self, shader_id: ShaderId) -> (r: Vec<RebuildCommand>)
        requires
            self.contains(shader_id),
        ensures
            r@ == self.dependants_of(shader_id),
    {
        shader_table_get(&self.shaders, shader_id.key).dependants.clone()
    }

    pub fn register_dependant(&mut self, shader_id: ShaderId, reload_command: RebuildCommand)
        requires
            old(self).contains(shader_id),
        ensures
            final(self).entries().dom() == old(self).entries().dom(),
            final(self).source_of(shader_id) == old(self).source_of(shader_id),
            final(self).dependants_of(shader_id) == old(self).dependants_of(shader_id).push(
                reload_command,
            ),
            forall|id: ShaderId| #[trigger] old(self).contains(id) && id != shader_id
                ==> final(self).entries()[id.spec_key()] == old(self).entries()[id.spec_key()],
    {
        proof {
            use_type_invariant(&*self);
        }
        let entry = shader_table_get_mut(&mut self.shaders, shader_id.key);
        entry.dependants.push(reload_command);
    }
}

} // verus!

verus! {

/// Trusted: `std::io::Error`, carried opaquely.
#[verifier::external_type_specification]
#[verifier::external_body]
pub struct ExIoError(std::io::Error);

/// Why a shader could not be built.
pub enum BuildShaderError {
    /// The current working directory, against which shader files are
    /// found, could not be read.
    CurrentWorkingDirectory(std::io::Error),
    /// The shader file could not be read.
    CantReadShaderFile { file: PathBuf, source: std::io::Error },
    /// The path of the shader file is not valid UTF-8.
    NotValidUtf8 { file: PathBuf },
    /// The composer refused the shader.
    NagaComposerFailed { file: PathBuf, source: ComposerError },
}

/// Why the shader library could not be loaded into the composer.
pub enum InitializationError {
    /// The composer refused a library module.
    ComposerError(ComposerError),
    /// A library module imports a module that is neither in the library nor
    /// already in the composer.
    ImportError { module_name: String, caller: String },
    /// A library shader does not declare its module name.
    MissingDefinitionOfImportPath { shader_str: String },
    /// The composer already held as many modules as `naga_oil` allows
    /// (adding another one panics there) when `module_name` was to be added.
    ComposerFull { module_name: String },
    /// The composer registered the library module declaring `module_name`
    /// under another name (it reads the name after numbering the
    /// `@binding(auto)` attributes and normalising line breaks).
    RegisteredUnderOtherName { module_name: String },
    /// The imports of library module `module_name` could not be resolved:
    /// resolving them led back to it, the library's modules importing each
    /// other in a cycle.
    ImportsNotResolved { module_name: String },
}

/// The text of an initialization error.
pub open spec fn initialization_error_message(err: InitializationError) -> Seq<char> {
    match err {
        InitializationError::ComposerError(_) => "Oil composer error"@,
        InitializationError::ImportError { module_name, caller } => "Imported module `"@
            + module_name@ + "` not found. Import located in module `"@ + caller@ + "`"@,
        InitializationError::MissingDefinitionOfImportPath { shader_str } =>
            "Missing `#define_import_path` in a lib shader shader_str: `"@ + shader_str@ + "`"@,
        InitializationError::ComposerFull { module_name } => "Composer full when adding module `"@
            + module_name@ + "`"@,
        InitializationError::RegisteredUnderOtherName { module_name } => "Module `"@ + module_name@
            + "` was registered under another name"@,
        InitializationError::ImportsNotResolved { module_name } => "Imports of module `"@
            + module_name@ + "` could not be resolved"@,
    }
}

impl InitializationError {
    /// The text that describes the error.
    pub fn message(&self) -> (r: String)
        ensures
            r@ == initialization_error_message(*self),
    {
        match self {
            InitializationError::ComposerError(_) => String::from_str("Oil composer error"),
            InitializationError::ImportError { module_name, caller } => {
                let mut text = String::from_str("Imported module `");
                text.append(module_name.as_str());
                text.append("` not found. Import located in module `");
                text.append(caller.as_str());
                text.append("`");
                text
            },
            InitializationError::MissingDefinitionOfImportPath { shader_str } => {
                let mut text = String::from_str(
                    "Missing `#define_import_path` in a lib shader shader_str: `",
                );
                text.append(shader_str.as_str());
                text.append("`");
                text
            },
            InitializationError::ComposerFull { module_name } => {
                let mut text = String::from_str("Composer full when adding module `");
                text.append(module_name.as_str());
                text.append("`");
                text
            },
            InitializationError::RegisteredUnderOtherName { module_name } => {
                let mut text = String::from_str("Module `");
                text.append(module_name.as_str());
                text.append("` was registered under another name");
                text
            },
            InitializationError::ImportsNotResolved { module_name } => {
                let mut text = String::from_str("Imports of module `");
                text.append(module_name.as_str());
                text.append("` could not be resolved");
                text
            },
        }
    }
}

/// A module of the shader library: its name, its source and the module
/// paths it imports.
struct LibModule<'a> {
    name: String,
    source: &'a str,
    imports: Vec<String>,
}

/// The module name the preprocessor reads from `source`.
pub open spec fn lib_module_name(source: Seq<char>) -> Option<Seq<char>> {
    preprocessor_data(source).0
}

/// The module paths the preprocessor reads as imports of `source`.
pub open spec fn lib_module_imports(source: Seq<char>) -> Seq<Seq<char>> {
    preprocessor_data(source).1
}

/// Some shader of the library declares the module `name`.
pub open spec fn lib_declares(shader_lib: Seq<&str>, name: Seq<char>) -> bool {
    exists|i: int| 0 <= i < shader_lib.len() && lib_module_name(#[trigger] shader_lib[i]@) == Some(name)
}

/// Index of the first shader of the library that declares no module name.
pub open spec fn first_unnamed(shader_lib: Seq<&str>, i: int) -> bool {
    &&& 0 <= i < shader_lib.len()
    &&& lib_module_name(shader_lib[i]@) is None
    &&& forall|j: int| 0 <= j < i ==> lib_module_name(#[trigger] shader_lib[j]@) is Some
}

/// The module names the library's shaders declare.
pub open spec fn lib_declared_names(shader_lib: Seq<&str>) -> Set<Seq<char>> {
    Set::new(|name: Seq<char>| lib_declares(shader_lib, name))
}

/// Shader `i` is the last of the library to declare its module name: it is
/// the one loaded under that name.
pub open spec fn last_of_name(shader_lib: Seq<&str>, i: int) -> bool {
    &&& 0 <= i < shader_lib.len()
    &&& lib_module_name(shader_lib[i]@) is Some
    &&& forall|j: int|
        i < j < shader_lib.len() ==> lib_module_name(#[trigger] shader_lib[j]@) != lib_module_name(
            shader_lib[i]@,
        )
}

/// The library's module `a` (as loaded) imports `b`.
pub open spec fn lib_imports(shader_lib: Seq<&str>, a: Seq<char>, b: Seq<char>) -> bool {
    exists|i: int|
        last_of_name(shader_lib, i) && lib_module_name(#[trigger] shader_lib[i]@) == Some(a)
            && lib_module_imports(shader_lib[i]@).contains(b)
}

/// Each module of `p` imports the next one.
pub open spec fn lib_import_chain(shader_lib: Seq<&str>, p: Seq<Seq<char>>) -> bool {
    forall|t: int| #![trigger p[t]] 0 <= t < p.len() - 1 ==> lib_imports(shader_lib, p[t], p[t + 1])
}

/// Modules of the library import each other in a cycle.
pub open spec fn lib_has_cycle(shader_lib: Seq<&str>) -> bool {
    exists|p: Seq<Seq<char>>|
        p.len() > 0 && #[trigger] lib_import_chain(shader_lib, p) && lib_imports(
            shader_lib,
            p.last(),
            p[0],
        )
}

/// Every import of a library module that `held` does not hold is declared
/// by the library or held.
pub open spec fn lib_imports_resolvable(shader_lib: Seq<&str>, held: Set<Seq<char>>) -> bool {
    forall|a: Seq<char>, b: Seq<char>|
        #[trigger] lib_imports(shader_lib, a, b) && !held.contains(a) ==> lib_declares(shader_lib, b)
            || held.contains(b)
}

/// An entry of the module table stands for the loaded shader of its name.
spec fn entry_of_lib(shader_lib: Seq<&str>, m: LibModule) -> bool {
    exists|i: int|
        last_of_name(shader_lib, i) && #[trigger] shader_lib[i]@ == m.source@ && lib_module_name(
            shader_lib[i]@,
        ) == Some(m.name@) && lib_module_imports(shader_lib[i]@) == views_of(m.imports@)
}

/// The module table holds the loaded shaders of the library from position
/// `k` on: one entry per name, and every such name has its entry.
spec fn table_from(shader_lib: Seq<&str>, table: Seq<LibModule>, k: int) -> bool {
    &&& forall|j: int| 0 <= j < table.len() ==> entry_of_lib(shader_lib, #[trigger] table[j])
    &&& forall|j1: int, j2: int|
        0 <= j1 < table.len() && 0 <= j2 < table.len() && j1 != j2 ==> #[trigger] table[j1].name@
            != #[trigger] table[j2].name@
    &&& forall|i: int|
        k <= i < shader_lib.len() ==> (exists|j: int|
            0 <= j < table.len() && lib_module_name(#[trigger] shader_lib[i]@) == Some(
                #[trigger] table[j].name@,
            ))
}

/// The composer, while the library loads into it: it holds what it held
/// at first (`base`) and library modules, it is sound if it was, and each
/// library module it gained holds its imports.
spec fn composer_loading(
    shader_lib: Seq<&str>,
    base: Set<Seq<char>>,
    base_sound: bool,
    composer: Composer,
) -> bool {
    &&& base.subset_of(composer_modules(composer))
    &&& composer_modules(composer).subset_of(base.union(lib_declared_names(shader_lib)))
    &&& base_sound ==> composer_sound(composer)
    &&& forall|a: Seq<char>, b: Seq<char>|
        #[trigger] lib_imports(shader_lib, a, b) && !base.contains(a) && composer_modules(
            composer,
        ).contains(a) ==> composer_modules(composer).contains(b)
}

/// The modules being resolved: distinct library modules, none held yet,
/// each importing the next.
spec fn visiting_ok(
    shader_lib: Seq<&str>,
    table: Seq<LibModule>,
    visiting: Seq<String>,
    composer: Composer,
) -> bool {
    &&& forall|t1: int, t2: int|
        0 <= t1 < visiting.len() && 0 <= t2 < visiting.len() && t1 != t2 ==> #[trigger] visiting[t1]@
            != #[trigger] visiting[t2]@
    &&& forall|t: int|
        0 <= t < visiting.len() ==> (exists|j: int|
            0 <= j < table.len() && #[trigger] table[j].name@ == (#[trigger] visiting[t])@)
    &&& forall|t: int| 0 <= t < visiting.len() ==> !composer_modules(composer).contains(#[trigger] visiting[t]@)
    &&& lib_import_chain(shader_lib, views_of(visiting))
}

/// An error that comes from the composer rather than from the library.
pub open spec fn composer_side_error(err: InitializationError) -> bool {
    match err {
        InitializationError::ComposerError(_) => true,
        InitializationError::ComposerFull { .. } => true,
        InitializationError::RegisteredUnderOtherName { .. } => true,
        _ => false,
    }
}

/// The loading failed because of the composer rather than the library.
pub open spec fn composer_side(loaded: Result<(), InitializationError>) -> bool {
    loaded matches Err(err) && composer_side_error(err)
}

/// An add of the loaded shader `i` as the resolution makes it: the composer
/// `composer` holds what it held at first (`held`) and library modules, every
/// module the shader imports, and not the shader's own module.
pub open spec fn add_attempt(shader_lib: Seq<&str>, held: Set<Seq<char>>, i: int, composer: Composer) -> bool {
    &&& last_of_name(shader_lib, i)
    &&& held.subset_of(composer_modules(composer))
    &&& composer_modules(composer).subset_of(held.union(lib_declared_names(shader_lib)))
    &&& forall|b: Seq<char>|
        #[trigger] lib_module_imports(shader_lib[i]@).contains(b) ==> composer_modules(
            composer,
        ).contains(b)
    &&& !composer_modules(composer).contains(lib_module_name(shader_lib[i]@)->0)
}

/// Every add the resolution can make is accepted by the composer, which
/// registers the module under the name it declares.
pub open spec fn composer_accepts_library(shader_lib: Seq<&str>, held: Set<Seq<char>>) -> bool {
    forall|i: int, c: Composer|
        #[trigger] add_attempt(shader_lib, held, i, c) ==> accepts_module(c, shader_lib[i]@)
            && registered_module_name(c, shader_lib[i]@) == lib_module_name(shader_lib[i]@)->0
}

/// The outcome of loading the library, whatever was built from it.
pub open spec fn result_of_loading<T>(r: Result<T, InitializationError>) -> Result<(), InitializationError> {
    match r {
        Ok(_) => Ok(()),
        Err(err) => Err(err),
    }
}

/// What [`ShaderStore::load_shader_lib`] promises of its outcome.
pub open spec fn load_outcome(
    shader_lib: Seq<&str>,
    before: Composer,
    after: Composer,
    loaded: Result<(), InitializationError>,
) -> bool {
    let held = composer_modules(before);
    let named = forall|i: int| 0 <= i < shader_lib.len() ==> lib_module_name(#[trigger] shader_lib[i]@) is Some;
    &&& (exists|i: int| first_unnamed(shader_lib, i)) <==> (loaded matches Err(
        InitializationError::MissingDefinitionOfImportPath { .. },
    ))
    &&& (loaded matches Err(InitializationError::MissingDefinitionOfImportPath { shader_str }) ==> {
        &&& exists|i: int| first_unnamed(shader_lib, i) && shader_str@ == shader_lib[i]@
        &&& after == before
    })
    &&& (loaded matches Err(InitializationError::ImportError { module_name, caller }) ==> {
        &&& !lib_declares(shader_lib, module_name@)
        &&& lib_imports(shader_lib, caller@, module_name@)
        &&& !held.contains(caller@)
        &&& !held.contains(module_name@)
        &&& !composer_modules(after).contains(module_name@)
    })
    &&& (loaded matches Err(InitializationError::ImportsNotResolved { .. }) ==> lib_has_cycle(
        shader_lib,
    ))
    &&& (loaded is Ok ==> forall|i: int|
        0 <= i < shader_lib.len() ==> (lib_module_name(#[trigger] shader_lib[i]@) matches Some(
            name,
        ) && composer_modules(after).contains(name)))
    &&& (loaded is Ok ==> forall|a: Seq<char>, b: Seq<char>|
        #[trigger] lib_imports(shader_lib, a, b) && !held.contains(a) ==> composer_modules(
            after,
        ).contains(b))
    &&& (named && !lib_has_cycle(shader_lib) && lib_imports_resolvable(shader_lib, held) ==> (
    loaded is Ok || composer_side(loaded)))
    &&& (named && !lib_has_cycle(shader_lib) && !lib_imports_resolvable(shader_lib, held) ==> (
    loaded matches Err(InitializationError::ImportError { .. }) || composer_side(loaded)))
    &&& (held.finite() && held.union(lib_declared_names(shader_lib)).len() < 2047 ==> !(
    loaded matches Err(InitializationError::ComposerFull { .. })))
    &&& (loaded matches Err(InitializationError::ComposerFull { module_name }) ==> lib_declares(
        shader_lib,
        module_name@,
    ))
    &&& (loaded matches Err(InitializationError::ComposerError(_)) ==> exists|i: int, c: Composer|
        #[trigger] add_attempt(shader_lib, held, i, c) && !accepts_module(c, shader_lib[i]@))
    &&& (loaded matches Err(InitializationError::RegisteredUnderOtherName { module_name })
        ==> exists|i: int, c: Composer|
        #[trigger] add_attempt(shader_lib, held, i, c) && lib_module_name(shader_lib[i]@) == Some(
            module_name@,
        ) && accepts_module(c, shader_lib[i]@) && registered_module_name(c, shader_lib[i]@)
            != module_name@ && composer_modules(after).contains(
            registered_module_name(c, shader_lib[i]@),
        ) && !composer_modules(after).contains(module_name@))
    &&& (named && !lib_has_cycle(shader_lib) && lib_imports_resolvable(shader_lib, held)
        && held.finite() && held.union(lib_declared_names(shader_lib)).len() < 2047
        && composer_accepts_library(shader_lib, held) ==> loaded is Ok)
    &&& (named && !lib_has_cycle(shader_lib) && !lib_imports_resolvable(shader_lib, held)
        && held.finite() && held.union(lib_declared_names(shader_lib)).len() < 2047
        && composer_accepts_library(shader_lib, held) ==> loaded matches Err(
        InitializationError::ImportError { .. },
    ))
    &&& (!(loaded matches Err(InitializationError::RegisteredUnderOtherName { .. })) ==> {
        &&& held.subset_of(composer_modules(after))
        &&& composer_modules(after).subset_of(held.union(lib_declared_names(shader_lib)))
        &&& composer_sound(before) ==> composer_sound(after)
    })
}

/// Finds the entry of the table named `name`.
fn find_module(table: &Vec<LibModule>, name: &String) -> (r: Option<usize>)
    ensures
        match r {
            Some(j) => j < table@.len() && table@[j as int].name@ == name@,
            None => forall|j: int| 0 <= j < table@.len() ==> #[trigger] table@[j].name@ != name@,
        },
{
    let mut j: usize = 0;
    while j < table.len()
        invariant
            j <= table@.len(),
            forall|k: int| 0 <= k < j ==> #[trigger] table@[k].name@ != name@,
        decreases table@.len() - j,
    {
        if table[j].name == *name {
            return Some(j);
        }
        j = j + 1;
    }
    None
}

/// Whether `name` is among `names`.
fn among(names: &Vec<String>, name: &String) -> (r: Option<usize>)
    ensures
        match r {
            Some(t) => t < names@.len() && names@[t as int]@ == name@,
            None => forall|t: int| 0 <= t < names@.len() ==> #[trigger] names@[t]@ != name@,
        },
{
    let mut t: usize = 0;
    while t < names.len()
        invariant
            t <= names@.len(),
            forall|q: int| 0 <= q < t ==> #[trigger] names@[q]@ != name@,
        decreases names@.len() - t,
    {
        if names[t] == *name {
            return Some(t);
        }
        t = t + 1;
    }
    None
}

/// Two shaders that are each the last of their name, with the same name,
/// are the same shader.
proof fn lemma_last_of_name_unique(shader_lib: Seq<&str>, i1: int, i2: int)
    requires
        last_of_name(shader_lib, i1),
        last_of_name(shader_lib, i2),
        lib_module_name(shader_lib[i1]@) == lib_module_name(shader_lib[i2]@),
    ensures
        i1 == i2,
{
    if i1 < i2 {
        assert(lib_module_name(shader_lib[i2]@) != lib_module_name(shader_lib[i1]@));
    } else if i2 < i1 {
        assert(lib_module_name(shader_lib[i1]@) != lib_module_name(shader_lib[i2]@));
    }
}

/// Distinct names of table entries are no more than the entries.
proof fn lemma_visiting_len(table: Seq<LibModule>, names: Seq<Seq<char>>)
    requires
        names.no_duplicates(),
        forall|t: int| 0 <= t < names.len() ==> (exists|j: int|
            0 <= j < table.len() && #[trigger] table[j].name@ == #[trigger] names[t]),
    ensures
        names.len() <= table.len(),
{
    let table_names = Seq::new(table.len(), |j: int| table[j].name@);
    table_names.lemma_cardinality_of_set();
    names.unique_seq_to_set();
    assert forall|x: Seq<char>| names.to_set().contains(x) implies table_names.to_set().contains(x) by {
        let t = choose|t: int| 0 <= t < names.len() && names[t] == x;
        let j = choose|j: int| 0 <= j < table.len() && #[trigger] table[j].name@ == names[t];
        assert(table_names[j] == x);
    }
    vstd::seq_lib::seq_to_set_is_finite(table_names);
    vstd::set_lib::lemma_len_subset(names.to_set(), table_names.to_set());
}

/// The declared names of a library are finitely many.
proof fn lemma_declared_finite(shader_lib: Seq<&str>)
    ensures
        lib_declared_names(shader_lib).finite(),
{
    let names = Seq::new(shader_lib.len(), |i: int| lib_module_name(shader_lib[i]@).unwrap());
    vstd::seq_lib::seq_to_set_is_finite(names);
    assert forall|x: Seq<char>| lib_declared_names(shader_lib).contains(x) implies names.to_set().contains(x) by {
        let i = choose|i: int| 0 <= i < shader_lib.len() && lib_module_name(#[trigger] shader_lib[i]@) == Some(x);
        assert(names[i] == x);
    }
    vstd::set_lib::lemma_len_subset(lib_declared_names(shader_lib), names.to_set());
}

/// Pushing a library module that is not held and not yet visited, and that
/// the last visited module imports, keeps the visited modules in order.
proof fn lemma_push_visiting(
    shader_lib: Seq<&str>,
    table: Seq<LibModule>,
    before: Seq<String>,
    after: Seq<String>,
    composer: Composer,
    j: int,
)
    requires
        visiting_ok(shader_lib, table, before, composer),
        after.len() == before.len() + 1,
        forall|t: int| 0 <= t < before.len() ==> after[t] == before[t],
        0 <= j < table.len(),
        table[j].name@ == after.last()@,
        forall|t: int| 0 <= t < before.len() ==> #[trigger] before[t]@ != after.last()@,
        !composer_modules(composer).contains(after.last()@),
        before.len() > 0 ==> lib_imports(shader_lib, before.last()@, after.last()@),
    ensures
        visiting_ok(shader_lib, table, after, composer),
        after.len() <= table.len(),
{
    let name = after.last()@;
    let v = views_of(after);
    let names = v;
    assert forall|t: int| 0 <= t < names.len() implies (exists|j2: int|
        0 <= j2 < table.len() && #[trigger] table[j2].name@ == #[trigger] names[t]) by {
        if t < before.len() {
            assert(names[t] == before[t]@);
            let j2 = choose|j2: int|
                0 <= j2 < table.len() && #[trigger] table[j2].name@ == (#[trigger] before[t])@;
            assert(table[j2].name@ == names[t]);
        } else {
            assert(table[j].name@ == names[t]);
        }
    }
    assert(names.no_duplicates()) by {
        assert forall|t1: int, t2: int|
            0 <= t1 < names.len() && 0 <= t2 < names.len() && t1 != t2 implies names[t1]
            != names[t2] by {
            if t1 < before.len() && t2 < before.len() {
                assert(names[t1] == before[t1]@);
                assert(names[t2] == before[t2]@);
            } else if t1 < before.len() {
                assert(names[t1] == before[t1]@);
                assert(names[t2] == name);
            } else if t2 < before.len() {
                assert(names[t2] == before[t2]@);
                assert(names[t1] == name);
            }
        }
    }
    lemma_visiting_len(table, names);
    assert forall|t1: int, t2: int|
        0 <= t1 < after.len() && 0 <= t2 < after.len() && t1 != t2 implies #[trigger] after[t1]@
        != #[trigger] after[t2]@ by {
        assert(names[t1] == after[t1]@);
        assert(names[t2] == after[t2]@);
    }
    assert forall|t: int| 0 <= t < after.len() implies (exists|j2: int|
        0 <= j2 < table.len() && #[trigger] table[j2].name@ == (#[trigger] after[t])@) by {
        assert(names[t] == after[t]@);
        let j2 = choose|j2: int| 0 <= j2 < table.len() && #[trigger] table[j2].name@ == #[trigger] names[t];
    }
    assert forall|t: int| 0 <= t < after.len() implies !composer_modules(composer).contains(
        #[trigger] after[t]@,
    ) by {
        if t < before.len() {
            assert(after[t] == before[t]);
        }
    }
    let vb = views_of(before);
    assert forall|q: int| #![trigger v[q]] 0 <= q < v.len() - 1 implies lib_imports(
        shader_lib,
        v[q],
        v[q + 1],
    ) by {
        if q < v.len() - 2 {
            assert(vb[q] == v[q]);
            assert(vb[q + 1] == v[q + 1]);
        } else {
            assert(v[q] == before.last()@);
            assert(v[q + 1] == name);
        }
    }
}

/// Resolves the module `name`, imported by `caller`: unless the composer
/// holds it, its library shader is added after everything it imports.
#[verifier::rlimit(50)]
fn resolve(
    composer: &mut Composer,
    table: &Vec<LibModule>,
    name: &String,
    caller: &String,
    visiting: &mut Vec<String>,
    Ghost(shader_lib): Ghost<Seq<&str>>,
    Ghost(base): Ghost<Set<Seq<char>>>,
    Ghost(base_sound): Ghost<bool>,
) -> (r: Result<(), InitializationError>)
    requires
        table_from(shader_lib, table@, 0),
        composer_loading(shader_lib, base, base_sound, *old(composer)),
        visiting_ok(shader_lib, table@, old(visiting)@, *old(composer)),
        old(visiting)@.len() > 0 ==> old(visiting)@.last()@ == caller@ && lib_imports(
            shader_lib,
            caller@,
            name@,
        ),
        old(visiting)@.len() == 0 ==> exists|j: int|
            0 <= j < table@.len() && #[trigger] table@[j].name@ == name@,
    ensures
        final(visiting)@ == old(visiting)@,
        !(r matches Err(InitializationError::RegisteredUnderOtherName { .. })) ==> {
            &&& composer_loading(shader_lib, base, base_sound, *final(composer))
            &&& composer_modules(*old(composer)).subset_of(composer_modules(*final(composer)))
            &&& forall|t: int|
                0 <= t < old(visiting)@.len() ==> !composer_modules(*final(composer)).contains(
                    #[trigger] old(visiting)@[t]@,
                )
        },
        r is Ok ==> composer_modules(*final(composer)).contains(name@),
        r matches Err(InitializationError::ImportError { module_name, caller: c }) ==> {
            &&& !lib_declares(shader_lib, module_name@)
            &&& lib_imports(shader_lib, c@, module_name@)
            &&& !base.contains(c@)
            &&& !composer_modules(*final(composer)).contains(module_name@)
        },
        r matches Err(InitializationError::ImportsNotResolved { .. }) ==> lib_has_cycle(shader_lib),
        r matches Err(InitializationError::ComposerFull { .. }) ==> {
            &&& composer_modules(*final(composer)).finite()
            &&& composer_modules(*final(composer)).len() >= 2047
            &&& exists|n: Seq<char>|
                lib_declares(shader_lib, n) && !composer_modules(*final(composer)).contains(n)
        },
        r matches Err(InitializationError::MissingDefinitionOfImportPath { .. }) ==> false,
        r matches Err(InitializationError::ComposerFull { module_name }) ==> lib_declares(
            shader_lib,
            module_name@,
        ),
        r matches Err(InitializationError::ComposerError(_)) ==> exists|i: int, c: Composer|
            #[trigger] add_attempt(shader_lib, base, i, c) && !accepts_module(c, shader_lib[i]@),
        r matches Err(InitializationError::RegisteredUnderOtherName { module_name })
            ==> exists|i: int, c: Composer|
            #[trigger] add_attempt(shader_lib, base, i, c) && lib_module_name(shader_lib[i]@) == Some(
                module_name@,
            ) && accepts_module(c, shader_lib[i]@) && registered_module_name(c, shader_lib[i]@)
                != module_name@ && composer_modules(*final(composer)).contains(
                registered_module_name(c, shader_lib[i]@),
            ) && !composer_modules(*final(composer)).contains(module_name@),
    decreases table@.len() - old(visiting)@.len(),
{
    if contains_module(composer, name.as_str()) {
        return Ok(());
    }
    let found = find_module(table, name);
    let j = match found {
        None => {
            proof {
                assert(old(visiting)@.len() > 0);
                assert forall|i: int|
                    0 <= i < shader_lib.len() implies lib_module_name(#[trigger] shader_lib[i]@)
                    != Some(name@) by {
                    let j3 = choose|j3: int|
                        0 <= j3 < table@.len() && lib_module_name(#[trigger] shader_lib[i]@) == Some(
                            #[trigger] table@[j3].name@,
                        );
                }
                let c = old(visiting)@.last();
                let t = old(visiting)@.len() - 1;
                assert(old(visiting)@[t] == c);
            }
            return Err(InitializationError::ImportError { module_name: name.clone(), caller: caller.clone() });
        },
        Some(j) => j,
    };
    match among(visiting, name) {
        Some(t) => {
            proof {
                let v = views_of(visiting@);
                let p = v.subrange(t as int, v.len() as int);
                assert(p.len() > 0);
                assert(lib_import_chain(shader_lib, p)) by {
                    assert forall|q: int| #![trigger p[q]] 0 <= q < p.len() - 1 implies lib_imports(
                        shader_lib,
                        p[q],
                        p[q + 1],
                    ) by {
                        assert(p[q] == v[t + q]);
                        assert(p[q + 1] == v[t + q + 1]);
                        assert(v[t + q] == v[t + q]);
                    }
                }
                assert(p.last() == v.last());
                assert(v.last() == visiting@.last()@);
                assert(p[0] == name@);
            }
            return Err(InitializationError::ImportsNotResolved { module_name: name.clone() });
        },
        None => {},
    }
    let ghost old_visiting = visiting@;
    let ghost start = *composer;
    visiting.push(name.clone());
    proof {
        lemma_push_visiting(shader_lib, table@, old_visiting, visiting@, *composer, j as int);
    }
    let mut m: usize = table[j].imports.len();
    while m > 0
        invariant
            j < table@.len(),
            table@[j as int].name@ == name@,
            m <= table@[j as int].imports@.len(),
            table_from(shader_lib, table@, 0),
            composer_loading(shader_lib, base, base_sound, *composer),
            visiting_ok(shader_lib, table@, visiting@, *composer),
            visiting@.len() == old_visiting.len() + 1,
            visiting@.len() <= table@.len(),
            old_visiting == old(visiting)@,
            start == *old(composer),
            old(visiting)@.len() > 0 ==> old(visiting)@.last()@ == caller@,
            visiting@.last()@ == name@,
            forall|t: int| 0 <= t < old_visiting.len() ==> visiting@[t] == old_visiting[t],
            composer_modules(start).subset_of(composer_modules(*composer)),
            forall|q: int|
                m <= q < table@[j as int].imports@.len() ==> composer_modules(*composer).contains(
                    #[trigger] table@[j as int].imports@[q]@,
                ),
        decreases m,
    {
        m = m - 1;
        proof {
            let e = table@[j as int];
            assert(entry_of_lib(shader_lib, e));
            let i = choose|i: int|
                last_of_name(shader_lib, i) && #[trigger] shader_lib[i]@ == e.source@ && lib_module_name(
                    shader_lib[i]@,
                ) == Some(e.name@) && lib_module_imports(shader_lib[i]@) == views_of(e.imports@);
            assert(views_of(e.imports@)[m as int] == e.imports@[m as int]@);
            assert(lib_imports(shader_lib, name@, e.imports@[m as int]@));
        }
        let resolved = resolve(
            composer,
            table,
            &table[j].imports[m],
            name,
            visiting,
            Ghost(shader_lib),
            Ghost(base),
            Ghost(base_sound),
        );
        if resolved.is_err() {
            visiting.pop();
            proof {
                assert(visiting@ =~= old_visiting);
            }
            return resolved;
        }
    }
    visiting.pop();
    proof {
        assert(visiting@ =~= old_visiting);
    }
    if module_count(composer) >= 2047 {
        proof {
            assert(lib_declares(shader_lib, name@)) by {
                let e = table@[j as int];
                assert(entry_of_lib(shader_lib, e));
            }
        }
        return Err(InitializationError::ComposerFull { module_name: name.clone() });
    }
    let ghost before = *composer;
    let ghost lib_index: int;
    proof {
        assert(!composer_modules(before).contains(name@));
        let e = table@[j as int];
        assert(entry_of_lib(shader_lib, e));
        lib_index = choose|i: int|
            last_of_name(shader_lib, i) && #[trigger] shader_lib[i]@ == e.source@ && lib_module_name(
                shader_lib[i]@,
            ) == Some(e.name@) && lib_module_imports(shader_lib[i]@) == views_of(e.imports@);
        assert(lib_declares(shader_lib, name@)) by {
            assert(lib_module_name(shader_lib[lib_index]@) == Some(name@));
        }
        assert forall|b: Seq<char>|
            #[trigger] lib_module_imports(shader_lib[lib_index]@).contains(b) implies composer_modules(
            before,
        ).contains(b) by {
            let q = choose|q: int| 0 <= q < views_of(e.imports@).len() && views_of(e.imports@)[q] == b;
            assert(e.imports@[q]@ == b);
        }
        assert(add_attempt(shader_lib, base, lib_index, before));
    }
    let mut file_path = String::from_str("build-in-lib/");
    file_path.append(name.as_str());
    let added = add_lib_module(composer, table[j].source, file_path.as_str());
    if let Err(err) = added {
        proof {
            assert(!accepts_module(before, shader_lib[lib_index]@));
        }
        return Err(InitializationError::ComposerError(err));
    }
    if !contains_module(composer, name.as_str()) {
        proof {
            let reg = registered_module_name(before, shader_lib[lib_index]@);
            assert(accepts_module(before, shader_lib[lib_index]@));
            assert(composer_modules(*composer).contains(reg));
            assert(reg != name@);
        }
        return Err(InitializationError::RegisteredUnderOtherName { module_name: name.clone() });
    }
    proof {
        let reg = registered_module_name(before, table@[j as int].source@);
        assert(composer_modules(before).insert(reg).contains(name@));
        assert(reg == name@);
        assert(composer_modules(*composer) == composer_modules(before).insert(name@));
        let e = table@[j as int];
        assert(entry_of_lib(shader_lib, e));
        let i = choose|i: int|
            last_of_name(shader_lib, i) && #[trigger] shader_lib[i]@ == e.source@ && lib_module_name(
                shader_lib[i]@,
            ) == Some(e.name@) && lib_module_imports(shader_lib[i]@) == views_of(e.imports@);
        assert forall|a: Seq<char>, b: Seq<char>|
            #[trigger] lib_imports(shader_lib, a, b) && !base.contains(a) && composer_modules(
                *composer,
            ).contains(a) implies composer_modules(*composer).contains(b) by {
            if a == name@ {
                let i2 = choose|i2: int|
                    last_of_name(shader_lib, i2) && lib_module_name(#[trigger] shader_lib[i2]@) == Some(a)
                        && lib_module_imports(shader_lib[i2]@).contains(b);
                lemma_last_of_name_unique(shader_lib, i, i2);
                let q = choose|q: int| 0 <= q < views_of(e.imports@).len() && views_of(e.imports@)[q] == b;
                assert(e.imports@[q]@ == b);
            } else {
                assert(composer_modules(before).contains(a));
            }
        }
    }
    Ok(())
}

impl ShaderStore {
    /// [`ShaderStore::load_shader_lib`], called only when the composer has
    /// room for a module of each shader of the library besides those it
    /// holds; `None` is returned, with the composer untouched, when it has
    /// not.
    pub fn try_load_shader_lib(naga_oil_composer: &mut Composer, shader_lib: &[&str]) -> (r: Option<
        Result<(), InitializationError>,
    >)
        ensures
            r is None <==> composer_modules(*old(naga_oil_composer)).len() + shader_lib@.len() >= 2047,
            r is None ==> *final(naga_oil_composer) == *old(naga_oil_composer),
            r matches Some(loaded) ==> load_outcome(
                shader_lib@,
                *old(naga_oil_composer),
                *final(naga_oil_composer),
                loaded,
            ),
    {
        let held = module_count(naga_oil_composer);
        if held >= 2047 || shader_lib.len() >= 2047 - held {
            None
        } else {
            Some(Self::load_shader_lib(naga_oil_composer, shader_lib))
        }
    }

    /// Registers every module of `shader_lib` with the composer, each after
    /// the modules it imports. A module is looked up first in the composer,
    /// then in the library (where a later shader of the same name replaces
    /// an earlier one); a module the composer already holds is left as it
    /// is.
    pub fn load_shader_lib(naga_oil_composer: &mut Composer, shader_lib: &[&str]) -> (r: Result<
        (),
        InitializationError,
    >)
        ensures
            load_outcome(shader_lib@, *old(naga_oil_composer), *final(naga_oil_composer), r),
    {
        let ghost base = composer_modules(*naga_oil_composer);
        let ghost base_sound = composer_sound(*naga_oil_composer);
        // What the preprocessor reads of each shader, all of them named.
        let mut parsed: Vec<(String, Vec<String>)> = Vec::new();
        let mut i: usize = 0;
        while i < shader_lib.len()
            invariant
                i <= shader_lib@.len(),
                parsed@.len() == i,
                forall|t: int|
                    0 <= t < i ==> lib_module_name(#[trigger] shader_lib@[t]@) == Some(parsed@[t].0@)
                        && lib_module_imports(shader_lib@[t]@) == views_of(parsed@[t].1@),
                *naga_oil_composer == *old(naga_oil_composer),
            decreases shader_lib@.len() - i,
        {
            let shader_str: &str = shader_lib[i];
            let (module_name, imports) = preprocess(shader_str);
            match module_name {
                Some(name) => {
                    parsed.push((name, imports));
                },
                None => {
                    proof {
                        assert(first_unnamed(shader_lib@, i as int)) by {
                            assert forall|t: int| 0 <= t < i implies lib_module_name(
                                #[trigger] shader_lib@[t]@,
                            ) is Some by {
                                assert(lib_module_name(shader_lib@[t]@) == Some(parsed@[t].0@));
                            }
                        }
                    }
                    return Err(
                        InitializationError::MissingDefinitionOfImportPath {
                            shader_str: shader_str.to_owned(),
                        },
                    );
                },
            }
            i = i + 1;
        }
        proof {
            assert forall|t: int| #![auto] !first_unnamed(shader_lib@, t) by {
                if 0 <= t < shader_lib@.len() {
                    assert(lib_module_name(shader_lib@[t]@) == Some(parsed@[t].0@));
                }
            }
        }
        // The loaded shader of each name is the last that declares it.
        let mut table: Vec<LibModule> = Vec::new();
        let mut k: usize = shader_lib.len();
        while k > 0
            invariant
                k <= shader_lib@.len(),
                parsed@.len() == shader_lib@.len(),
                forall|t: int|
                    0 <= t < shader_lib@.len() ==> lib_module_name(#[trigger] shader_lib@[t]@) == Some(
                        parsed@[t].0@,
                    ) && lib_module_imports(shader_lib@[t]@) == views_of(parsed@[t].1@),
                table_from(shader_lib@, table@, k as int),
                *naga_oil_composer == *old(naga_oil_composer),
            decreases k,
        {
            k = k - 1;
            let name = parsed[k].0.clone();
            let found = find_module(&table, &name);
            let ghost before_table = table@;
            match found {
                Some(j) => {
                    proof {
                        assert forall|t: int| k <= t < shader_lib@.len() implies (exists|j2: int|
                            0 <= j2 < table@.len() && lib_module_name(#[trigger] shader_lib@[t]@)
                                == Some(#[trigger] table@[j2].name@)) by {
                            if t == k {
                                assert(table@[j as int].name@ == name@);
                            }
                        }
                    }
                },
                None => {
                    let entry = LibModule { name, source: shader_lib[k], imports: parsed[k].1.clone() };
                    proof {
                        assert(last_of_name(shader_lib@, k as int)) by {
                            assert forall|t: int| k < t < shader_lib@.len() implies lib_module_name(
                                #[trigger] shader_lib@[t]@,
                            ) != lib_module_name(shader_lib@[k as int]@) by {
                                let j2 = choose|j2: int|
                                    0 <= j2 < table@.len() && lib_module_name(#[trigger] shader_lib@[t]@)
                                        == Some(#[trigger] table@[j2].name@);
                                assert(table@[j2].name@ != name@);
                            }
                        }
                        assert(entry_of_lib(shader_lib@, entry)) by {
                            assert(shader_lib@[k as int]@ == entry.source@);
                        }
                    }
                    table.push(entry);
                    proof {
                        assert forall|j1: int| 0 <= j1 < table@.len() implies entry_of_lib(
                            shader_lib@,
                            #[trigger] table@[j1],
                        ) by {
                            if j1 < before_table.len() {
                                assert(table@[j1] == before_table[j1]);
                            }
                        }
                        assert forall|t: int| k <= t < shader_lib@.len() implies (exists|j2: int|
                            0 <= j2 < table@.len() && lib_module_name(#[trigger] shader_lib@[t]@)
                                == Some(#[trigger] table@[j2].name@)) by {
                            if t == k {
                                assert(table@[before_table.len() as int].name@ == parsed@[t].0@);
                            } else {
                                let j2 = choose|j2: int|
                                    0 <= j2 < before_table.len() && lib_module_name(
                                        #[trigger] shader_lib@[t]@,
                                    ) == Some(#[trigger] before_table[j2].name@);
                                assert(table@[j2] == before_table[j2]);
                            }
                        }
                    }
                },
            }
        }
        proof {
            lemma_declared_finite(shader_lib@);
        }
        let mut visiting: Vec<String> = Vec::new();
        let root = "lib_root".to_owned();
        let mut k: usize = 0;
        while k < table.len()
            invariant
                k <= table@.len(),
                table_from(shader_lib@, table@, 0),
                forall|t: int| 0 <= t < shader_lib@.len() ==> lib_module_name(#[trigger] shader_lib@[t]@) is Some,
                visiting@.len() == 0,
                base == composer_modules(*old(naga_oil_composer)),
                base_sound == composer_sound(*old(naga_oil_composer)),
                composer_loading(shader_lib@, base, base_sound, *naga_oil_composer),
                forall|t: int| 0 <= t < k ==> composer_modules(*naga_oil_composer).contains(
                    #[trigger] table@[t].name@,
                ),
            decreases table@.len() - k,
        {
            let ghost before = *naga_oil_composer;
            let resolved = resolve(
                naga_oil_composer,
                &table,
                &table[k].name,
                &root,
                &mut visiting,
                Ghost(shader_lib@),
                Ghost(base),
                Ghost(base_sound),
            );
            if resolved.is_err() {
                proof {
                    if resolved matches Err(InitializationError::ComposerFull { .. }) {
                        let n = choose|n: Seq<char>|
                            lib_declares(shader_lib@, n) && !composer_modules(*naga_oil_composer).contains(n);
                        let allowed = base.union(lib_declared_names(shader_lib@));
                        lemma_declared_finite(shader_lib@);
                        if base.finite() {
                            assert(lib_declared_names(shader_lib@).contains(n));
                            assert(composer_modules(*naga_oil_composer).insert(n).subset_of(allowed));
                            vstd::set_lib::lemma_len_subset(
                                composer_modules(*naga_oil_composer).insert(n),
                                allowed,
                            );
                        }
                    }
                }
                return resolved;
            }
            k = k + 1;
        }
        proof {
            assert forall|t: int| 0 <= t < shader_lib@.len() implies (lib_module_name(
                #[trigger] shader_lib@[t]@,
            ) matches Some(name) && composer_modules(*naga_oil_composer).contains(name)) by {
                let j2 = choose|j2: int|
                    0 <= j2 < table@.len() && lib_module_name(#[trigger] shader_lib@[t]@) == Some(
                        #[trigger] table@[j2].name@,
                    );
            }
            assert forall|a: Seq<char>, b: Seq<char>|
                #[trigger] lib_imports(shader_lib@, a, b) && !base.contains(a) implies composer_modules(
                *naga_oil_composer,
            ).contains(b) by {
                let i2 = choose|i2: int|
                    last_of_name(shader_lib@, i2) && lib_module_name(#[trigger] shader_lib@[i2]@) == Some(a)
                        && lib_module_imports(shader_lib@[i2]@).contains(b);
                let j2 = choose|j2: int|
                    0 <= j2 < table@.len() && lib_module_name(#[trigger] shader_lib@[i2]@) == Some(
                        #[trigger] table@[j2].name@,
                    );
            }
        }
        Ok(())
    }
}

} // verus!
