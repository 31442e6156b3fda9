//! Properties of the library that span several of its operations.

use vstd::prelude::*;

use crate::buffers::{BufferCapacity, BufferWrite};
use crate::file_watcher::{commands_for, FileWatcher};
use crate::mesh_rendering::next_multiple;
use crate::resource_store::reload_command::RebuildCommand;
use crate::resource_store::render_pipeline::{dependants_after_registration, PipelineId};
use crate::resource_store::shader::{ShaderId, ShaderStore};
use crate::resource_store::store_base::{StoreBase, StoreEntityId};
use crate::resource_store::ReloadQueue;

verus! {

/// What `StoreBase::add` stores can be read back: `get` gives the entity,
/// `get_source_data` its source and `get_dependants` an empty list, as long
/// as no entity was removed before (a removal leaves more sources than
/// entities, and the new id then points at an older source).
pub proof fn law_store_get_after_add<T, S>(
    before: StoreBase<T, S>,
    after: StoreBase<T, S>,
    id: StoreEntityId<T>,
    entity: T,
    source: S,
)
    requires
        before.wf(),
        before.entities().len() == before.sources().len(),
        id.spec_index() == before.entities().len(),
        after.entities() == before.entities().push(entity),
        after.dependants() == before.dependants().push(Seq::<RebuildCommand>::empty()),
        after.sources() == before.sources().push(source),
    ensures
        id.spec_index() < after.entities().len(),
        after.entities()[id.spec_index() as int] == entity,
        after.sources()[id.spec_index() as int] == source,
        after.dependants()[id.spec_index() as int] == Seq::<RebuildCommand>::empty(),
        forall|i: int| 0 <= i < before.entities().len() ==> after.entities()[i] == before.entities()[i],
{
    before.lemma_wf_lengths();
}

/// Adding to a store never changes an id that was handed out before: every
/// earlier entity, source and dependant list stays where it was.
pub proof fn law_store_add_keeps_earlier<T, S>(
    before: StoreBase<T, S>,
    after: StoreBase<T, S>,
    entity: T,
    source: S,
)
    requires
        before.wf(),
        after.entities() == before.entities().push(entity),
        after.dependants() == before.dependants().push(Seq::<RebuildCommand>::empty()),
        after.sources() == before.sources().push(source),
    ensures
        forall|i: int| 0 <= i < before.entities().len() ==> after.entities()[i] == before.entities()[i],
        forall|i: int| 0 <= i < before.sources().len() ==> after.sources()[i] == before.sources()[i],
        forall|i: int|
            0 <= i < before.dependants().len() ==> after.dependants()[i] == before.dependants()[i],
{
}

/// What `StoreBase::set_entity` writes is what `get` then returns, and no
/// other entity changes.
pub proof fn law_store_get_after_set<T, S>(
    before: StoreBase<T, S>,
    after: StoreBase<T, S>,
    id: StoreEntityId<T>,
    element: T,
)
    requires
        id.spec_index() < before.entities().len(),
        after.entities() == before.entities().update(id.spec_index() as int, element),
    ensures
        after.entities()[id.spec_index() as int] == element,
        forall|i: int|
            0 <= i < before.entities().len() && i != id.spec_index() ==> after.entities()[i]
                == before.entities()[i],
        after.entities().len() == before.entities().len(),
{
}

/// A command given to `StoreBase::register_dependant` is the last of the
/// dependants `get_dependants` then returns, after the earlier ones.
pub proof fn law_store_dependants_after_register<T, S>(
    before: StoreBase<T, S>,
    after: StoreBase<T, S>,
    id: StoreEntityId<T>,
    command: RebuildCommand,
)
    requires
        id.spec_index() < before.dependants().len(),
        after.dependants() == before.dependants().update(
            id.spec_index() as int,
            before.dependants()[id.spec_index() as int].push(command),
        ),
    ensures
        after.dependants()[id.spec_index() as int].last() == command,
        after.dependants()[id.spec_index() as int].drop_last() == before.dependants()[id.spec_index() as int],
{
    assert(after.dependants()[id.spec_index() as int].drop_last() =~= before.dependants()[id.spec_index() as int]);
}

/// A buffer written with `write_data` always holds at least the data just
/// written and never shrinks; it is made anew exactly when it was too small.
pub proof fn law_buffer_write_data_grows(
    before: BufferCapacity,
    after: BufferCapacity,
    new_len: usize,
    action: BufferWrite,
)
    requires
        before.spec_byte_len() < new_len ==> action == BufferWrite::Recreate
            && after.spec_byte_len() == new_len,
        new_len <= before.spec_byte_len() ==> action == BufferWrite::WriteInPlace
            && after.spec_byte_len() == before.spec_byte_len(),
    ensures
        after.spec_byte_len() >= new_len,
        after.spec_byte_len() >= before.spec_byte_len(),
        after.spec_byte_len() == if before.spec_byte_len() < new_len {
            new_len
        } else {
            before.spec_byte_len()
        },
        (action == BufferWrite::Recreate) == (before.spec_byte_len() < new_len),
{
}

/// Writing the same length twice with `write_data_shrinking` makes the
/// buffer at most once: the first call makes it anew exactly when the size
/// changes, and the second call always writes in place, leaving the size.
/// `first`, `second` and `third` are the capacities before, between and
/// after the two calls, which `requires` relates as the calls' contracts do.
pub proof fn law_buffer_shrinking_settles(
    first: BufferCapacity,
    second: BufferCapacity,
    third: BufferCapacity,
    new_len: usize,
    first_action: BufferWrite,
    second_action: BufferWrite,
)
    requires
        second.spec_byte_len() == new_len,
        first_action == (if first.spec_byte_len() != new_len {
            BufferWrite::Recreate
        } else {
            BufferWrite::WriteInPlace
        }),
        third.spec_byte_len() == new_len,
        second_action == (if second.spec_byte_len() != new_len {
            BufferWrite::Recreate
        } else {
            BufferWrite::WriteInPlace
        }),
    ensures
        second_action == BufferWrite::WriteInPlace,
        third.spec_byte_len() == second.spec_byte_len(),
        (first_action == BufferWrite::Recreate) == (first.spec_byte_len() != new_len),
{
}

/// `ceil_to_next_multiple` gives a multiple of the step that is at least the
/// value and less than a step above it.
pub proof fn law_next_multiple_bounds(value: u32, step: u32)
    requires
        step > 0,
    ensures
        next_multiple(value, step) % (step as int) == 0,
        value <= next_multiple(value, step),
        next_multiple(value, step) < value + step,
{
    let q = value / step;
    let rem = value % step;
    assert(value == step * q + rem) by (nonlinear_arith)
        requires
            step > 0,
            q == value / step,
            rem == value % step,
    ;
    if rem == 0 {
        assert((step * q) % (step as int) == 0) by (nonlinear_arith)
            requires
                step > 0,
        ;
    } else {
        assert(step * (q + 1) == step * q + step) by (nonlinear_arith);
        assert((step * (q + 1)) % (step as int) == 0) by (nonlinear_arith)
            requires
                step > 0,
        ;
    }
}

/// A watched file maps to its command: after `watch_file(path, command)`,
/// a report that `path` changed gives exactly that command, whatever it was
/// watched for before.
pub proof fn law_watch_then_update(watched: Map<Seq<char>, RebuildCommand>, path: Seq<char>, command: RebuildCommand)
    ensures
        commands_for(watched.insert(path, command), seq![path]) == seq![command],
{
    let paths = seq![path];
    let w = watched.insert(path, command);
    assert(paths.drop_last() =~= Seq::<Seq<char>>::empty());
    assert(commands_for(w, paths.drop_last()) == Seq::<RebuildCommand>::empty());
    assert(Seq::<RebuildCommand>::empty().push(command) =~= seq![command]);
}

/// A report of paths that are not watched gives no command.
pub proof fn law_unwatched_paths_ignored(watched: Map<Seq<char>, RebuildCommand>, paths: Seq<Seq<char>>)
    requires
        forall|i: int| 0 <= i < paths.len() ==> !watched.dom().contains(#[trigger] paths[i]),
    ensures
        commands_for(watched, paths) == Seq::<RebuildCommand>::empty(),
    decreases paths.len(),
{
    if paths.len() > 0 {
        law_unwatched_paths_ignored(watched, paths.drop_last());
    }
}

/// Reports can be taken in batches: the commands for two reports one after
/// the other are those for the first followed by those for the second.
pub proof fn law_updates_compose(
    watched: Map<Seq<char>, RebuildCommand>,
    first: Seq<Seq<char>>,
    second: Seq<Seq<char>>,
)
    ensures
        commands_for(watched, first + second) == commands_for(watched, first) + commands_for(
            watched,
            second,
        ),
    decreases second.len(),
{
    if second.len() == 0 {
        assert(first + second =~= first);
        assert(commands_for(watched, first) + Seq::<RebuildCommand>::empty() =~= commands_for(
            watched,
            first,
        ));
    } else {
        law_updates_compose(watched, first, second.drop_last());
        assert((first + second).drop_last() =~= first + second.drop_last());
        assert((first + second).last() == second.last());
        let head = commands_for(watched, first);
        let rest = commands_for(watched, second.drop_last());
        if watched.dom().contains(second.last()) {
            assert(head + rest.push(watched[second.last()]) =~= (head + rest).push(
                watched[second.last()],
            ));
        }
    }
}

/// Hot reload reaches the pipelines: once a pipeline has been built from a
/// shader (as vertex or fragment stage), rebuilding that shader in a reload
/// schedules the rebuild of the pipeline.
pub proof fn law_shader_rebuild_schedules_pipeline(
    before_pipeline: ShaderStore,
    shaders: ShaderStore,
    shader: ShaderId,
    pipeline: PipelineId,
    vertex: ShaderId,
    fragment: Option<ShaderId>,
    queue_before: ReloadQueue,
    queue_after: ReloadQueue,
)
    requires
        before_pipeline.contains(shader),
        shader == vertex || fragment == Some(shader),
        shaders.dependants_of(shader) == dependants_after_registration(
            before_pipeline.dependants_of(shader),
            shader,
            pipeline,
            vertex,
            fragment,
        ),
        queue_after.pending() == queue_before.pending() + shaders.dependants_of(shader),
    ensures
        queue_after.pending().contains(RebuildCommand::Pipeline(pipeline)),
{
    let deps = shaders.dependants_of(shader);
    assert(deps.len() > 0);
    let k = queue_before.pending().len() + deps.len() - 1;
    assert(queue_after.pending()[k] == deps.last());
    assert(deps.last() == RebuildCommand::Pipeline(pipeline));
}

/// A shader read from a file is rebuilt when that file changes: once
/// `register_shader` has watched its file, a report that the file changed
/// gives the shader's rebuild command.
pub proof fn law_changed_shader_file_rebuilds_shader(
    before: FileWatcher,
    after: FileWatcher,
    path: Seq<char>,
    shader: ShaderId,
)
    requires
        after.watched() == before.watched().insert(path, RebuildCommand::Shader(shader)),
    ensures
        commands_for(after.watched(), seq![path]) == seq![RebuildCommand::Shader(shader)],
{
    law_watch_then_update(before.watched(), path, RebuildCommand::Shader(shader));
}


/// The number of shader rebuilds among `commands`.
pub open spec fn shader_rebuilds(commands: Seq<RebuildCommand>) -> nat
    decreases commands.len(),
{
    if commands.len() == 0 {
        0
    } else {
        shader_rebuilds(commands.drop_last()) + if commands.last() is Shader {
            1nat
        } else {
            0nat
        }
    }
}

proof fn lemma_shader_rebuilds_concat(a: Seq<RebuildCommand>, b: Seq<RebuildCommand>)
    ensures
        shader_rebuilds(a + b) == shader_rebuilds(a) + shader_rebuilds(b),
    decreases b.len(),
{
    if b.len() == 0 {
        assert(a + b =~= a);
    } else {
        lemma_shader_rebuilds_concat(a, b.drop_last());
        assert((a + b).drop_last() =~= a + b.drop_last());
        assert((a + b).last() == b.last());
    }
}

proof fn lemma_pipelines_only(commands: Seq<RebuildCommand>)
    requires
        forall|i: int| 0 <= i < commands.len() ==> #[trigger] commands[i] is Pipeline,
    ensures
        shader_rebuilds(commands) == 0,
    decreases commands.len(),
{
    if commands.len() > 0 {
        lemma_pipelines_only(commands.drop_last());
    }
}

/// A hot reload ends when shaders have only pipelines as dependants (as
/// `build_render_pipeline` registers them): each step, taking the next
/// command and, for a rebuilt shader, scheduling its dependants, lowers the
/// number of pending shader rebuilds, or keeps it and shortens the queue.
pub proof fn law_reload_step_progresses(
    before: ReloadQueue,
    taken: ReloadQueue,
    after: ReloadQueue,
    shaders: ShaderStore,
)
    requires
        before.pending().len() > 0,
        taken.pending() == before.pending().drop_last(),
        after.pending() == taken.pending() || (before.pending().last() matches RebuildCommand::Shader(
            id,
        ) && after.pending() == taken.pending() + shaders.dependants_of(id)),
        forall|id: ShaderId, i: int|
            0 <= i < shaders.dependants_of(id).len() ==> #[trigger] shaders.dependants_of(id)[i] is Pipeline,
    ensures
        shader_rebuilds(after.pending()) < shader_rebuilds(before.pending()) || (shader_rebuilds(
            after.pending(),
        ) == shader_rebuilds(before.pending()) && after.pending().len() < before.pending().len()),
{
    if after.pending() != taken.pending() {
        let id = before.pending().last()->Shader_0;
        lemma_pipelines_only(shaders.dependants_of(id));
        lemma_shader_rebuilds_concat(taken.pending(), shaders.dependants_of(id));
    }
}


/// One step of a hot reload: the next command is taken, and after a shader
/// rebuilt, its dependants are scheduled.
pub open spec fn reload_step(before: ReloadQueue, after: ReloadQueue, shaders: ShaderStore) -> bool {
    &&& before.pending().len() > 0
    &&& (after.pending() == before.pending().drop_last() || (before.pending().last() matches RebuildCommand::Shader(
        id,
    ) && after.pending() == before.pending().drop_last() + shaders.dependants_of(id)))
}

/// An upper bound on the steps left in a reload whose shaders have at most
/// `d` dependants each, all of them pipelines.
pub open spec fn reload_steps_bound(pending: Seq<RebuildCommand>, d: nat) -> nat {
    pending.len() + shader_rebuilds(pending) * d
}

proof fn lemma_reload_step_bound(before: ReloadQueue, after: ReloadQueue, shaders: ShaderStore, d: nat)
    requires
        reload_step(before, after, shaders),
        forall|id: ShaderId, i: int|
            0 <= i < shaders.dependants_of(id).len() ==> #[trigger] shaders.dependants_of(id)[i] is Pipeline,
        forall|id: ShaderId| #[trigger] shaders.dependants_of(id).len() <= d,
    ensures
        reload_steps_bound(after.pending(), d) < reload_steps_bound(before.pending(), d),
{
    let p = before.pending();
    let rest = p.drop_last();
    let s = shader_rebuilds(rest);
    assert(shader_rebuilds(p) == s + if p.last() is Shader { 1nat } else { 0nat });
    if after.pending() != rest {
        let id = p.last()->Shader_0;
        let deps = shaders.dependants_of(id);
        lemma_pipelines_only(deps);
        lemma_shader_rebuilds_concat(rest, deps);
        assert((s + 1) * d == s * d + d) by (nonlinear_arith);
    } else {
        assert(s * d <= (s + if p.last() is Shader { 1nat } else { 0nat }) * d) by (nonlinear_arith);
    }
}

/// A hot reload ends when shaders have only pipelines as dependants, at most
/// `d` each: a run of reload steps from a queue is no longer than the
/// queue's length plus `d` for each pending shader rebuild.
pub proof fn law_reload_run_ends(queues: Seq<ReloadQueue>, shaders: ShaderStore, d: nat)
    requires
        queues.len() > 0,
        forall|k: int| 0 <= k < queues.len() - 1 ==> reload_step(#[trigger] queues[k], queues[k + 1], shaders),
        forall|id: ShaderId, i: int|
            0 <= i < shaders.dependants_of(id).len() ==> #[trigger] shaders.dependants_of(id)[i] is Pipeline,
        forall|id: ShaderId| #[trigger] shaders.dependants_of(id).len() <= d,
    ensures
        queues.len() <= reload_steps_bound(queues[0].pending(), d) + 1,
{
    lemma_reload_run_from(queues, shaders, d, 0);
}

proof fn lemma_reload_run_from(queues: Seq<ReloadQueue>, shaders: ShaderStore, d: nat, k: int)
    requires
        0 <= k < queues.len(),
        forall|t: int| 0 <= t < queues.len() - 1 ==> reload_step(#[trigger] queues[t], queues[t + 1], shaders),
        forall|id: ShaderId, i: int|
            0 <= i < shaders.dependants_of(id).len() ==> #[trigger] shaders.dependants_of(id)[i] is Pipeline,
        forall|id: ShaderId| #[trigger] shaders.dependants_of(id).len() <= d,
    ensures
        queues.len() - 1 - k <= reload_steps_bound(queues[k].pending(), d),
    decreases queues.len() - k,
{
    if k < queues.len() - 1 {
        lemma_reload_step_bound(queues[k], queues[k + 1], shaders, d);
        lemma_reload_run_from(queues, shaders, d, k + 1);
    }
}

/// What is registered with a new shader is read back in registration order:
/// a shader made by `register_shader`, then given `first` and `second` by
/// `register_dependant`, has exactly those dependants, `first` first.
pub proof fn law_dependants_in_registration_order(
    registered: ShaderStore,
    once: ShaderStore,
    twice: ShaderStore,
    id: ShaderId,
    first: RebuildCommand,
    second: RebuildCommand,
)
    requires
        registered.dependants_of(id) == Seq::<RebuildCommand>::empty(),
        once.dependants_of(id) == registered.dependants_of(id).push(first),
        twice.dependants_of(id) == once.dependants_of(id).push(second),
    ensures
        twice.dependants_of(id) == seq![first, second],
{
    assert(twice.dependants_of(id) =~= seq![first, second]);
}

} // verus!
