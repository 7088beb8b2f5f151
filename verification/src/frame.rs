use vstd::prelude::*;
use crate::batcher::batched_raw;
use crate::batcher::lemma_descriptors_push;
use crate::batcher::lemma_passes_partition_instances;
use crate::color::Color;
use crate::instances::descriptors;
use crate::instances::in_pass;
use crate::instances::pass_instances;
use crate::instances::raw_instances;
use crate::instances::Instance;
use crate::layer::Layer;
use crate::pass::lemma_ascending_has_no_duplicates;
use crate::pass::lemma_ascending_is_unique;
use crate::pass::strictly_ascending;
use crate::pass::InstanceRaw;
use crate::pass::LoadOp;
use crate::pass::Pass;
use crate::pass::PassDescriptor;
use crate::texture::Texture;

verus! {

/// The texture bound by a pass: the one registered under the descriptor's identifier.
pub open spec fn bound_texture(textures: Map<usize, Texture>, descriptor: PassDescriptor) -> Option<
    Texture,
> {
    match descriptor.texture_id {
        Some(id) => if textures.contains_key(id) {
            Some(textures[id])
        } else {
            None
        },
        None => None,
    }
}

/// The registry after a draw call with a sprite of `texture`: the texture is entered
/// under its identifier unless one is registered there already.
pub open spec fn register(textures: Map<usize, Texture>, texture: Texture) -> Map<usize, Texture> {
    if textures.contains_key(texture.id) {
        textures
    } else {
        textures.insert(texture.id, texture)
    }
}

/// The registry of a frame with the given draw calls: under each identifier the
/// texture of the first sprite drawn with it.
pub open spec fn registry_of(instances: Seq<Instance>) -> Map<usize, Texture>
    decreases instances.len(),
{
    if instances.len() == 0 {
        Map::empty()
    } else {
        register(registry_of(instances.drop_last()), instances.last().sprite.texture())
    }
}

/// The texture of every draw call is registered under its identifier.
pub proof fn lemma_registry_covers(instances: Seq<Instance>, i: int)
    requires
        0 <= i < instances.len(),
    ensures
        registry_of(instances).contains_key(instances[i].sprite.texture().id),
    decreases instances.len(),
{
    if i < instances.len() - 1 {
        lemma_registry_covers(instances.drop_last(), i);
    }
}

/// What the pass that runs at place `index` does to the target first: the first pass
/// of a frame clears it, the others draw over what is there.
pub open spec fn load_op_at(index: int, clear_color: Color) -> LoadOp {
    if index == 0 {
        LoadOp::Clear(clear_color)
    } else {
        LoadOp::Load
    }
}

/// Whether `pass` is the pass `descriptor`, run at place `index`, of a frame with the
/// given draw calls.
pub open spec fn is_pass(
    pass: Pass,
    instances: Seq<Instance>,
    clear_color: Color,
    descriptor: PassDescriptor,
    index: int,
) -> bool {
    &&& pass.descriptor == descriptor
    &&& pass.load_op == load_op_at(index, clear_color)
    &&& pass.texture == bound_texture(registry_of(instances), descriptor)
    &&& pass.instances@ == raw_instances(pass_instances(instances, descriptor))
}

/// The descriptor of the one pass of a frame without draw calls.
pub open spec fn clear_only() -> PassDescriptor {
    PassDescriptor { texture_id: None, layer: Layer(0) }
}

/// The descriptors of the passes, in the order of the passes.
pub open spec fn pass_descriptors(passes: Seq<Pass>) -> Seq<PassDescriptor> {
    passes.map_values(|pass: Pass| pass.descriptor)
}

/// Whether `passes` is the pass sequence of a frame with the given draw calls: one
/// pass for each descriptor that occurs among them, in ascending order, each with
/// its instances in the order drawn; or, where nothing was drawn, one pass that only
/// clears.
pub open spec fn is_frame(
    passes: Seq<Pass>,
    instances: Seq<Instance>,
    clear_color: Color,
) -> bool {
    if instances.len() == 0 {
        &&& passes.len() == 1
        &&& is_pass(passes[0], instances, clear_color, clear_only(), 0)
    } else {
        &&& passes.len() == descriptors(instances).len()
        &&& strictly_ascending(pass_descriptors(passes))
        &&& forall|j: int|
            0 <= j < passes.len() ==> descriptors(instances).contains(
                (#[trigger] passes[j]).descriptor,
            ) && is_pass(passes[j], instances, clear_color, passes[j].descriptor, j)
    }
}

/// What the passes hand to the GPU, one pass after the other.
pub open spec fn drawn(passes: Seq<Pass>) -> Seq<InstanceRaw> {
    passes.map_values(|pass: Pass| pass.instances@).flatten()
}

/// A frame with draw calls has one pass for each descriptor that occurs among them,
/// the passes run by ascending layer and within a layer by ascending texture, each
/// pass draws something, and together the passes draw every instance of the frame as
/// often as it was drawn: none is lost and none drawn twice.
pub proof fn lemma_frame_batches_instances(
    passes: Seq<Pass>,
    instances: Seq<Instance>,
    clear_color: Color,
)
    requires
        is_frame(passes, instances, clear_color),
        instances.len() > 0,
    ensures
        passes.len() == descriptors(instances).len(),
        pass_descriptors(passes).to_set() == descriptors(instances),
        forall|i: int, j: int|
            0 <= i < j < passes.len() ==> (#[trigger] passes[i]).descriptor.precedes(
                (#[trigger] passes[j]).descriptor,
            ),
        forall|j: int|
            0 <= j < passes.len() ==> (#[trigger] passes[j]).instances@.len() > 0
                && passes[j].texture.is_some(),
        drawn(passes) == batched_raw(instances, pass_descriptors(passes)),
        drawn(passes).to_multiset() == raw_instances(instances).to_multiset(),
        drawn(passes).len() == instances.len(),
{
    let keys = pass_descriptors(passes);
    lemma_descriptors_finite(instances);
    lemma_ascending_has_no_duplicates(keys);
    keys.unique_seq_to_set();
    assert(keys.to_set().subset_of(descriptors(instances))) by {
        assert forall|d: PassDescriptor| keys.to_set().contains(d) implies descriptors(
            instances,
        ).contains(d) by {
        }
    }
    vstd::set_lib::lemma_subset_equality(keys.to_set(), descriptors(instances));
    assert forall|i: int, j: int| 0 <= i < j < passes.len() implies (#[trigger] passes[i]).descriptor.precedes(
        (#[trigger] passes[j]).descriptor,
    ) by {
        assert(keys[i].precedes(keys[j]));
    }
    assert forall|j: int| 0 <= j < passes.len() implies (#[trigger] passes[j]).instances@.len()
        > 0 && passes[j].texture.is_some() by {
        let d = passes[j].descriptor;
        lemma_pass_draws_something(instances, d);
        let i = choose|i: int| 0 <= i < instances.len() && #[trigger] instances[i].descriptor() == d;
        lemma_registry_covers(instances, i);
    }
    assert(passes.map_values(|pass: Pass| pass.instances@) =~= keys.map_values(
        |key: PassDescriptor| raw_instances(pass_instances(instances, key)),
    ));
    lemma_passes_partition_instances(instances, keys);
}

/// In every frame exactly one pass clears the target, and it is the first to run; a
/// frame without draw calls consists of that pass alone, which draws nothing.
pub proof fn lemma_frame_clears_once(
    passes: Seq<Pass>,
    instances: Seq<Instance>,
    clear_color: Color,
)
    requires
        is_frame(passes, instances, clear_color),
    ensures
        passes.len() >= 1,
        passes[0].load_op == LoadOp::Clear(clear_color),
        forall|j: int| 1 <= j < passes.len() ==> (#[trigger] passes[j]).load_op == LoadOp::Load,
        instances.len() == 0 ==> passes.len() == 1 && passes[0].instances@.len() == 0
            && passes[0].texture.is_none(),
{
    if instances.len() == 0 {
        reveal(Seq::filter);
    } else {
        lemma_descriptors_finite(instances);
        assert(descriptors(instances).contains(instances[0].descriptor()));
    }
}

/// The passes of a frame and their order go by what was drawn, not by the order in
/// which it was drawn: two frames with the same instances, each as often in the one
/// as in the other, have the same passes in the same order.
pub proof fn lemma_pass_order_ignores_draw_order(
    passes: Seq<Pass>,
    instances: Seq<Instance>,
    clear_color: Color,
    other_passes: Seq<Pass>,
    other_instances: Seq<Instance>,
    other_clear_color: Color,
)
    requires
        is_frame(passes, instances, clear_color),
        is_frame(other_passes, other_instances, other_clear_color),
        instances.to_multiset() == other_instances.to_multiset(),
    ensures
        pass_descriptors(passes) == pass_descriptors(other_passes),
{
    vstd::seq_lib::to_multiset_len(instances);
    vstd::seq_lib::to_multiset_len(other_instances);
    if !(instances.len() == 0) {
        assert forall|d: PassDescriptor| descriptors(instances).contains(d) <==> descriptors(
            other_instances,
        ).contains(d) by {
            if descriptors(instances).contains(d) {
                let i = choose|i: int|
                    0 <= i < instances.len() && #[trigger] instances[i].descriptor() == d;
                lemma_same_instances(instances, other_instances, i);
            }
            if descriptors(other_instances).contains(d) {
                let i = choose|i: int|
                    0 <= i < other_instances.len() && #[trigger] other_instances[i].descriptor()
                        == d;
                lemma_same_instances(other_instances, instances, i);
            }
        }
        assert(descriptors(instances) =~= descriptors(other_instances));
        lemma_frame_batches_instances(passes, instances, clear_color);
        lemma_frame_batches_instances(other_passes, other_instances, other_clear_color);
        lemma_ascending_is_unique(pass_descriptors(passes), pass_descriptors(other_passes));
    }
}

/// What is drawn in one frame is drawn in another that holds the same instances.
proof fn lemma_same_instances(instances: Seq<Instance>, others: Seq<Instance>, i: int)
    requires
        0 <= i < instances.len(),
        instances.to_multiset() == others.to_multiset(),
    ensures
        exists|j: int| 0 <= j < others.len() && #[trigger] others[j] == instances[i],
{
    vstd::seq_lib::to_multiset_contains(instances, instances[i]);
    vstd::seq_lib::to_multiset_contains(others, instances[i]);
}

/// A descriptor that occurs among the instances has an instance to draw.
pub proof fn lemma_pass_draws_something(instances: Seq<Instance>, descriptor: PassDescriptor)
    requires
        descriptors(instances).contains(descriptor),
    ensures
        pass_instances(instances, descriptor).len() > 0,
        raw_instances(pass_instances(instances, descriptor)).len() > 0,
{
    let i = choose|i: int| 0 <= i < instances.len() && #[trigger] instances[i].descriptor()
        == descriptor;
    instances.lemma_filter_contains(in_pass(descriptor), i);
}

/// Only finitely many passes are asked for.
pub proof fn lemma_descriptors_finite(instances: Seq<Instance>)
    ensures
        descriptors(instances).finite(),
        descriptors(instances).len() <= instances.len(),
    decreases instances.len(),
{
    if instances.len() == 0 {
        assert(descriptors(instances) =~= Set::<PassDescriptor>::empty());
    } else {
        let front = instances.drop_last();
        lemma_descriptors_finite(front);
        lemma_descriptors_push(front, instances.last());
        assert(front.push(instances.last()) =~= instances);
    }
}

} // verus!
