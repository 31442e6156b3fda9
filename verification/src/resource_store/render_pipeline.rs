use slotmap::{DefaultKey, Key, SlotMap};
use vstd::prelude::*;

use super::reload_command::RebuildCommand;
use super::shader::{ShaderId, ShaderStore};
use super::slot_map::slot_map_has_room;

verus! {

/// Key of a render pipeline in a [`RenderPipelineStore`].
#[derive(Debug, Clone, Copy, PartialEq, Eq, Hash, Structural)]
pub struct PipelineId {
    key: u64,
}

impl PipelineId {
    pub closed spec fn spec_key(&self) -> u64 {
        self.key
    }

    /// The key in the 64-bit form of `slotmap::KeyData::as_ffi`.
    #[verifier::when_used_as_spec(spec_key)]
    pub fn as_ffi(&self) -> (r: u64)
        ensures
            r == self.spec_key(),
    {
        self.key
    }
}

/// The shader modules a render pipeline is built from.
#[derive(Clone, Copy)]
pub struct PipelineShaders {
    pub vertex: ShaderId,
    pub fragment: Option<ShaderId>,
}

/// Trusted: the slot map of the `slotmap` crate that holds the pipelines,
/// hidden from Verus; [`pipeline_table`] names what it holds.
#[verifier::external_body]
pub struct PipelineTable {
    slots: SlotMap<DefaultKey, PipelineShaders>,
}

/// Trusted name: the pipelines a slot map holds, by the 64-bit form of their
/// keys.
pub uninterp spec fn pipeline_table(m: PipelineTable) -> Map<u64, PipelineShaders>;

/// Trusted: `SlotMap::with_key` makes an empty slot map.
#[verifier::external_body]
fn pipeline_table_new() -> (table: PipelineTable)
    ensures
        pipeline_table(table) =~= Map::empty(),
{
    PipelineTable { slots: SlotMap::with_key() }
}

/// Trusted: `SlotMap::insert` stores `entry` under a key that no value held
/// before has, and returns that key (here in its `as_ffi` form). It panics
/// only when the map is full, which `requires` rules out.
#[verifier::external_body]
fn pipeline_table_insert(m: &mut PipelineTable, entry: PipelineShaders) -> (r: u64)
    requires
        slot_map_has_room(pipeline_table(*old(m)).len()),
    ensures
        !pipeline_table(*old(m)).dom().contains(r),
        pipeline_table(*final(m)) == pipeline_table(*old(m)).insert(r, entry),
{
    m.slots.insert(entry).data().as_ffi()
}

/// Trusted: `SlotMap::len` is the number of values the map holds.
#[verifier::external_body]
fn pipeline_table_len(m: &PipelineTable) -> (r: usize)
    ensures
        r == pipeline_table(*m).len(),
{
    m.slots.len()
}

/// Which shaders each render pipeline is built from. Every pipeline is
/// registered as a dependant of its shaders, so that a changed shader leads
/// to rebuilding the pipelines made from it.
pub struct RenderPipelineStore {
    pipelines: PipelineTable,
}

/// The dependants of `shader` once pipeline `id`, made of `vertex` and
/// `fragment`, has been registered with it.
pub open spec fn dependants_after_registration(
    before: Seq<RebuildCommand>,
    shader: ShaderId,
    id: PipelineId,
    vertex: ShaderId,
    fragment: Option<ShaderId>,
) -> Seq<RebuildCommand> {
    let after_vertex = if shader == vertex {
        before.push(RebuildCommand::Pipeline(id))
    } else {
        before
    };
    if fragment == Some(shader) {
        after_vertex.push(RebuildCommand::Pipeline(id))
    } else {
        after_vertex
    }
}

/// How many times building pipeline from `vertex` and `fragment` registers
/// it with `shader`: once if it is the vertex shader, once more if it is the
/// fragment shader.
pub open spec fn registrations_with(
    shader: ShaderId,
    vertex: ShaderId,
    fragment: Option<ShaderId>,
) -> nat {
    (if shader == vertex { 1nat } else { 0nat }) + (if fragment == Some(shader) { 1nat } else { 0nat })
}

/// Building a pipeline only ever adds that pipeline to a shader's
/// dependants: the old dependants stay as they were, in their order, and
/// after them come only `Pipeline(id)` commands, one for each role the
/// shader plays in the pipeline. A shader is never made a dependant of
/// itself, so rebuilding a shader never schedules that shader again.
pub proof fn law_registration_adds_only_the_pipeline(
    before: Seq<RebuildCommand>,
    shader: ShaderId,
    id: PipelineId,
    vertex: ShaderId,
    fragment: Option<ShaderId>,
)
    ensures
        dependants_after_registration(before, shader, id, vertex, fragment).len() == before.len()
            + registrations_with(shader, vertex, fragment),
        dependants_after_registration(before, shader, id, vertex, fragment).take(before.len() as int)
            == before,
        forall|i: int|
            before.len() <= i < dependants_after_registration(before, shader, id, vertex, fragment).len()
                ==> #[trigger] dependants_after_registration(before, shader, id, vertex, fragment)[i]
                == RebuildCommand::Pipeline(id),
{
    let after = dependants_after_registration(before, shader, id, vertex, fragment);
    assert(after.take(before.len() as int) =~= before);
}

impl RenderPipelineStore {
    /// The pipelines held, by the key of their id.
    pub closed spec fn entries(&self) -> Map<u64, PipelineShaders> {
        pipeline_table(self.pipelines)
    }

    pub open spec fn contains(&self, id: PipelineId) -> bool {
        self.entries().dom().contains(id.spec_key())
    }

    pub fn new() -> (r: RenderPipelineStore)
        ensures
            r.entries() == Map::<u64, PipelineShaders>::empty(),
    {
        RenderPipelineStore { pipelines: pipeline_table_new() }
    }

    /// Records a new pipeline made of `vertex` and, if any, `fragment`, and
    /// registers it as a dependant of the vertex shader and then of the
    /// fragment shader.
    pub fn build_render_pipeline(
        &mut self,
        vertex: ShaderId,
        fragment: Option<ShaderId>,
        shader_store: &mut ShaderStore,
    ) -> (r: PipelineId)
        requires
            slot_map_has_room(old(self).entries().len()),
            old(shader_store).contains(vertex),
            fragment matches Some(f) ==> old(shader_store).contains(f),
        ensures
            !old(self).contains(r),
            final(self).entries() == old(self).entries().insert(
                r.spec_key(),
                PipelineShaders { vertex, fragment },
            ),
            final(shader_store).entries().dom() == old(shader_store).entries().dom(),
            forall|s: ShaderId| #[trigger] old(shader_store).contains(s) ==> {
                &&& final(shader_store).source_of(s) == old(shader_store).source_of(s)
                &&& final(shader_store).dependants_of(s) == dependants_after_registration(
                    old(shader_store).dependants_of(s),
                    s,
                    r,
                    vertex,
                    fragment,
                )
                &&& final(shader_store).dependants_of(s).len()
                    == old(shader_store).dependants_of(s).len() + registrations_with(s, vertex, fragment)
                &&& final(shader_store).dependants_of(s).take(old(shader_store).dependants_of(s).len() as int)
                    == old(shader_store).dependants_of(s)
                &&& forall|i: int|
                    old(shader_store).dependants_of(s).len() <= i < final(shader_store).dependants_of(s).len()
                        ==> #[trigger] final(shader_store).dependants_of(s)[i] == RebuildCommand::Pipeline(r)
            },
    {
        let key = pipeline_table_insert(&mut self.pipelines, PipelineShaders { vertex, fragment });
        let id = PipelineId { key };
        let ghost mid_store = *shader_store;
        shader_store.register_dependant(vertex, RebuildCommand::Pipeline(id));
        let ghost after_vertex = *shader_store;
        if let Some(fragment_id) = fragment {
            shader_store.register_dependant(fragment_id, RebuildCommand::Pipeline(id));
        }
        assert forall|s: ShaderId| #[trigger] old(shader_store).contains(s) implies {
            &&& shader_store.source_of(s) == old(shader_store).source_of(s)
            &&& shader_store.dependants_of(s) == dependants_after_registration(
                old(shader_store).dependants_of(s),
                s,
                id,
                vertex,
                fragment,
            )
            &&& shader_store.dependants_of(s).len() == old(shader_store).dependants_of(s).len()
                + registrations_with(s, vertex, fragment)
            &&& shader_store.dependants_of(s).take(old(shader_store).dependants_of(s).len() as int)
                == old(shader_store).dependants_of(s)
            &&& forall|i: int|
                old(shader_store).dependants_of(s).len() <= i < shader_store.dependants_of(s).len()
                    ==> #[trigger] shader_store.dependants_of(s)[i] == RebuildCommand::Pipeline(id)
        } by {
            assert(after_vertex.contains(s));
            law_registration_adds_only_the_pipeline(
                old(shader_store).dependants_of(s),
                s,
                id,
                vertex,
                fragment,
            );
        }
        id
    }

    /// How many pipelines the store holds.
    pub fn len(&self) -> (r: usize)
        ensures
            r == self.entries().len(),
    {
        pipeline_table_len(&self.pipelines)
    }

    /// The shaders the pipeline is built from.
    pub fn shaders(&self, pipeline_id: PipelineId) -> (r: PipelineShaders)
        requires
            self.contains(pipeline_id),
        ensures
            r == self.entries()[pipeline_id.spec_key()],
    {
        *pipeline_table_get(&self.pipelines, pipeline_id.key)
    }
}

/// Trusted: `SlotMap`'s `Index`, given a key that `KeyData::from_ffi` rebuilds
/// from the `as_ffi` form of an occupied key, yields the value held there.
#[verifier::external_body]
fn pipeline_table_get(m: &PipelineTable, key: u64) -> (r: &PipelineShaders)
    requires
        pipeline_table(*m).dom().contains(key),
    ensures
        *r == pipeline_table(*m)[key],
{
    &m.slots[DefaultKey::from(slotmap::KeyData::from_ffi(key))]
}

} // verus!
