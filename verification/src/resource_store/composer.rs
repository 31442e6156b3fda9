//! The parts of `naga_oil`'s shader composer that the shader store calls.

use std::collections::HashMap;

use naga_oil::compose::{
    get_preprocessor_data, ComposableModuleDescriptor, Composer, ComposerError,
    NagaModuleDescriptor, ShaderLanguage, ShaderType,
};
use vstd::prelude::*;

verus! {

/// Trusted: `naga_oil::compose::Composer`, carried opaquely; the modules it
/// holds are named by [`composer_modules`].
#[verifier::external_type_specification]
#[verifier::external_body]
pub struct ExComposer(Composer);

/// Trusted: `naga_oil::compose::ComposerError`, carried opaquely.
#[verifier::external_type_specification]
#[verifier::external_body]
pub struct ExComposerError(ComposerError);

/// Trusted: `naga::Module` (as re-exported by `wgpu`), carried opaquely.
#[verifier::external_type_specification]
#[verifier::external_body]
pub struct ExNagaModule(wgpu::naga::Module);

/// Trusted name: the names of the composable modules a composer holds (the
/// keys of its `module_sets`).
pub uninterp spec fn composer_modules(composer: Composer) -> Set<Seq<char>>;

/// Trusted name: what `naga_oil::compose::get_preprocessor_data` reads from
/// a shader source: its `#define_import_path` module name, if any, and the
/// module paths of its imports, in order.
pub uninterp spec fn preprocessor_data(source: Seq<char>) -> (Option<Seq<char>>, Seq<Seq<char>>);

/// Trusted name: the name under which `Composer::add_composable_module`
/// registers a module given by its source alone (no `as_name`). The
/// composer reads it from a copy of the source in which it has numbered the
/// `@binding(auto)` attributes with its running counter, so it depends on
/// the composer as well as on the source.
pub uninterp spec fn registered_module_name(composer: Composer, source: Seq<char>) -> Seq<char>;

/// Trusted name: the composer's modules import only modules it holds, and
/// none of them depends on itself through its imports. `make_naga_module`
/// follows the imports of the held modules and panics when that fails.
pub uninterp spec fn composer_sound(composer: Composer) -> bool;

/// Trusted name: `Composer::add_composable_module`, with the composer in the
/// given state, accepts the WGSL library module `source` (no `as_name`,
/// extra imports or shader defs). The file path it is given only labels
/// errors.
pub uninterp spec fn accepts_module(composer: Composer, source: Seq<char>) -> bool;

/// Trusted name: `Composer::make_naga_module`, with the composer in the given
/// state, builds a module from the WGSL shader `source` reported under
/// `file_path`.
pub uninterp spec fn composes(composer: Composer, source: Seq<char>, file_path: Seq<char>) -> bool;

/// Trusted name: the module `Composer::make_naga_module` builds from a WGSL
/// source reported under a file path, with the composer in the given state.
pub uninterp spec fn composed_module(composer: Composer, source: Seq<char>, file_path: Seq<char>) -> wgpu::naga::Module;

/// The views of a sequence of strings.
pub open spec fn views_of(strings: Seq<String>) -> Seq<Seq<char>> {
    Seq::new(strings.len(), |i: int| strings[i]@)
}

/// The view of an optional string.
pub open spec fn opt_view(name: Option<String>) -> Option<Seq<char>> {
    match name {
        Some(n) => Some(n@),
        None => None,
    }
}

/// `Composer::add_composable_module` asserts that the composer holds fewer
/// than `u32::MAX >> 21` modules; below that it does not panic.
pub open spec fn composer_has_room(modules: Set<Seq<char>>) -> bool {
    modules.finite() && modules.len() < 2047
}

/// Trusted: `Composer::default` holds no module (so it is sound).
#[verifier::external_body]
pub(crate) fn new_composer() -> (composer: Composer)
    ensures
        composer_modules(composer) =~= Set::empty(),
        composer_sound(composer),
{
    Composer::default()
}

/// `modules` is a finite set of `len` names.
pub open spec fn finite_with_len(modules: Set<Seq<char>>, len: usize) -> bool {
    modules.finite() && modules.len() == len
}

/// Trusted: the number of modules a composer holds (the length of its
/// `module_sets` map, whose keys are the module names).
#[verifier::external_body]
pub(crate) fn module_count(composer: &Composer) -> (r: usize)
    ensures
        finite_with_len(composer_modules(*composer), r),
{
    composer.module_sets.len()
}

/// Trusted: `naga_oil::compose::get_preprocessor_data`, with each import
/// definition reduced to its module path. It is a function of the source
/// text alone.
#[verifier::external_body]
pub(crate) fn preprocess(source: &str) -> (r: (Option<String>, Vec<String>))
    ensures
        preprocessor_data(source@) == (opt_view(r.0), views_of(r.1@)),
{
    let (name, imports, _) = get_preprocessor_data(source);
    (name, imports.into_iter().map(|import| import.import).collect())
}

/// Trusted: `Composer::contains_module` tells whether a module of that name
/// is held.
#[verifier::external_body]
pub(crate) fn contains_module(composer: &Composer, module_name: &str) -> (r: bool)
    ensures
        r == composer_modules(*composer).contains(module_name@),
{
    composer.contains_module(module_name)
}

/// Trusted: `Composer::add_composable_module` for a WGSL library module
/// with no extra imports or shader defs, reported under `file_path`. It
/// succeeds exactly when [`accepts_module`] holds of the composer it was
/// handed and the source; it fails unless every module the source imports
/// is held. On success the
/// module is held under [`registered_module_name`]; if no module of that
/// name was held before, nothing else changes (and a sound composer stays
/// sound, the new module importing only modules held before it), otherwise
/// the modules depending on the replaced one may be dropped. On failure the
/// set of held modules and their imports are unchanged. It panics only when
/// the composer is full, which `requires` rules out.
#[verifier::external_body]
pub(crate) fn add_lib_module(composer: &mut Composer, source: &str, file_path: &str) -> (r: Result<
    (),
    ComposerError,
>)
    requires
        composer_has_room(composer_modules(*old(composer))),
    ensures
        r is Ok <==> accepts_module(*old(composer), source@),
        r is Ok ==> composer_modules(*final(composer)).contains(
            registered_module_name(*old(composer), source@),
        ),
        r is Ok ==> composer_modules(*final(composer)).subset_of(
            composer_modules(*old(composer)).insert(registered_module_name(*old(composer), source@)),
        ),
        r is Ok && !composer_modules(*old(composer)).contains(
            registered_module_name(*old(composer), source@),
        ) ==> composer_modules(*final(composer)) == composer_modules(*old(composer)).insert(
            registered_module_name(*old(composer), source@),
        ),
        r is Ok && composer_sound(*old(composer)) && !composer_modules(*old(composer)).contains(
            registered_module_name(*old(composer), source@),
        ) ==> composer_sound(*final(composer)),
        r is Err ==> composer_modules(*final(composer)) == composer_modules(*old(composer)),
        r is Err && composer_sound(*old(composer)) ==> composer_sound(*final(composer)),
{
    composer.add_composable_module(ComposableModuleDescriptor {
        source,
        file_path,
        language: ShaderLanguage::Wgsl,
        as_name: None,
        additional_imports: &[],
        shader_defs: HashMap::new(),
    }).map(|_| ())
}

/// Trusted: `Composer::make_naga_module` for a WGSL shader with no extra
/// imports or shader defs. It builds the shader's imports from the held
/// modules, which panics unless the composer is sound, so `requires` asks
/// for that. It leaves the set of held modules and their imports as they
/// are. Whether it succeeds is [`composes`], and what it builds is
/// [`composed_module`], of the composer it was handed, the source and the
/// file path.
#[verifier::external_body]
pub(crate) fn make_naga_module(composer: &mut Composer, source: &str, file_path: &str) -> (r: Result<
    wgpu::naga::Module,
    ComposerError,
>)
    requires
        composer_sound(*old(composer)),
    ensures
        composer_modules(*final(composer)) == composer_modules(*old(composer)),
        composer_sound(*final(composer)),
        r is Ok <==> composes(*old(composer), source@, file_path@),
        r matches Ok(m) ==> m == composed_module(*old(composer), source@, file_path@),
{
    composer.make_naga_module(NagaModuleDescriptor {
        source,
        file_path,
        shader_type: ShaderType::Wgsl,
        shader_defs: HashMap::new(),
        additional_imports: &[],
    })
}

} // verus!
