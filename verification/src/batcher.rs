use vstd::prelude::*;
use vstd::seq_lib::lemma_multiset_commutative;
use crate::instances::descriptors;
use crate::instances::in_pass;
use crate::instances::pass_instances;
use crate::instances::raw_instances;
use crate::instances::Instance;
use crate::pass::insert_descriptor;
use crate::pass::lemma_ascending_has_no_duplicates;
use crate::pass::strictly_ascending;
use crate::pass::InstanceRaw;
use crate::pass::PassDescriptor;

verus! {

/// Drawing one more instance asks for its pass and for nothing else.
pub proof fn lemma_descriptors_push(instances: Seq<Instance>, instance: Instance)
    ensures
        descriptors(instances.push(instance)) == descriptors(instances).insert(
            instance.descriptor(),
        ),
{
    let longer = instances.push(instance);
    assert forall|d: PassDescriptor| descriptors(longer).contains(d) <==> descriptors(
        instances,
    ).insert(instance.descriptor()).contains(d) by {
        if descriptors(instances).contains(d) {
            let i = choose|i: int|
                0 <= i < instances.len() && #[trigger] instances[i].descriptor() == d;
            assert(longer[i].descriptor() == d);
        }
        if d == instance.descriptor() {
            assert(longer[instances.len() as int].descriptor() == d);
        }
    }
}

/// The passes of a frame in the order in which they run: each descriptor that occurs
/// among the instances once, by layer and within a layer by texture.
pub fn sorted_descriptors(instances: &Vec<Instance>) -> (keys: Vec<PassDescriptor>)
    ensures
        strictly_ascending(keys@),
        keys@.to_set() == descriptors(instances@),
        keys@.len() == descriptors(instances@).len(),
{
    let mut keys: Vec<PassDescriptor> = Vec::new();
    let mut i: usize = 0;
    while i < instances.len()
        invariant
            i <= instances@.len(),
            strictly_ascending(keys@),
            keys@.to_set() == descriptors(instances@.take(i as int)),
        decreases instances@.len() - i,
    {
        let key = instances[i].to_pass_descriptor();
        proof {
            lemma_descriptors_push(instances@.take(i as int), instances@[i as int]);
            assert(instances@.take(i as int).push(instances@[i as int]) =~= instances@.take(
                i + 1,
            ));
        }
        insert_descriptor(&mut keys, key);
        i = i + 1;
    }
    proof {
        assert(instances@.take(i as int) =~= instances@);
        lemma_ascending_has_no_duplicates(keys@);
        keys@.unique_seq_to_set();
    }
    keys
}

/// The instance lists of the passes `keys`, one after the other.
pub open spec fn batched(instances: Seq<Instance>, keys: Seq<PassDescriptor>) -> Seq<Instance> {
    keys.map_values(|key: PassDescriptor| pass_instances(instances, key)).flatten()
}

/// What the passes `keys` hand to the GPU, one pass after the other.
pub open spec fn batched_raw(instances: Seq<Instance>, keys: Seq<PassDescriptor>) -> Seq<
    InstanceRaw,
> {
    keys.map_values(|key: PassDescriptor| raw_instances(pass_instances(instances, key))).flatten()
}

/// The predicate that picks the instances of any of the passes `keys`.
pub open spec fn in_passes(keys: Seq<PassDescriptor>) -> spec_fn(Instance) -> bool {
    |instance: Instance| keys.contains(instance.descriptor())
}

proof fn lemma_filter_step(instances: Seq<Instance>, pred: spec_fn(Instance) -> bool)
    requires
        instances.len() > 0,
    ensures
        instances.filter(pred) == if pred(instances.last()) {
            instances.drop_last().filter(pred).push(instances.last())
        } else {
            instances.drop_last().filter(pred)
        },
{
    reveal(Seq::filter);
}

proof fn lemma_split_off_pass<B>(
    instances: Seq<Instance>,
    keys: Seq<PassDescriptor>,
    key: PassDescriptor,
    f: spec_fn(Instance) -> B,
)
    requires
        !keys.contains(key),
    ensures
        instances.filter(in_passes(keys.push(key))).map_values(f).to_multiset()
            == instances.filter(in_passes(keys)).map_values(f).to_multiset().add(
            instances.filter(in_pass(key)).map_values(f).to_multiset(),
        ),
    decreases instances.len(),
{
    broadcast use vstd::multiset::group_multiset_axioms;

    let all = in_passes(keys.push(key));
    let rest = in_passes(keys);
    let one = in_pass(key);
    if instances.len() == 0 {
        reveal(Seq::filter);
        let none = instances.map_values(f);
        vstd::seq_lib::to_multiset_len(none);
        vstd::multiset::lemma_multiset_empty_len(none.to_multiset());
    } else {
        let last = instances.last();
        let front = instances.drop_last();
        lemma_split_off_pass(front, keys, key, f);
        lemma_filter_step(instances, all);
        lemma_filter_step(instances, rest);
        lemma_filter_step(instances, one);
        assert(all(last) <==> rest(last) || one(last)) by {
            if keys.contains(last.descriptor()) {
                let i = choose|i: int| 0 <= i < keys.len() && keys[i] == last.descriptor();
                assert(keys.push(key)[i] == last.descriptor());
            }
            if last.descriptor() == key {
                assert(keys.push(key)[keys.len() as int] == key);
            }
        }
        let front_all = front.filter(all).map_values(f);
        let front_rest = front.filter(rest).map_values(f);
        let front_one = front.filter(one).map_values(f);
        vstd::seq_lib::to_multiset_build(front_all, f(last));
        vstd::seq_lib::to_multiset_build(front_rest, f(last));
        vstd::seq_lib::to_multiset_build(front_one, f(last));
        assert(front.filter(all).push(last).map_values(f) =~= front_all.push(f(last)));
        assert(front.filter(rest).push(last).map_values(f) =~= front_rest.push(f(last)));
        assert(front.filter(one).push(last).map_values(f) =~= front_one.push(f(last)));
    }
}

proof fn lemma_filter_keeps_all(instances: Seq<Instance>, pred: spec_fn(Instance) -> bool)
    requires
        forall|i: int| 0 <= i < instances.len() ==> pred(#[trigger] instances[i]),
    ensures
        instances.filter(pred) == instances,
    decreases instances.len(),
{
    if instances.len() == 0 {
        reveal(Seq::filter);
    } else {
        lemma_filter_keeps_all(instances.drop_last(), pred);
        lemma_filter_step(instances, pred);
    }
}

proof fn lemma_batches_are_filtered<B>(
    instances: Seq<Instance>,
    keys: Seq<PassDescriptor>,
    f: spec_fn(Instance) -> B,
)
    requires
        keys.no_duplicates(),
    ensures
        keys.map_values(
            |key: PassDescriptor| pass_instances(instances, key).map_values(f),
        ).flatten().to_multiset() == instances.filter(in_passes(keys)).map_values(
            f,
        ).to_multiset(),
    decreases keys.len(),
{
    let lists = keys.map_values(|key: PassDescriptor| pass_instances(instances, key).map_values(f));
    if keys.len() == 0 {
        let none = instances.filter(in_passes(keys));
        if none.len() > 0 {
            instances.lemma_filter_pred(in_passes(keys), 0);
        }
        assert(none.map_values(f) =~= Seq::<B>::empty());
    } else {
        let front = keys.drop_last();
        let key = keys.last();
        let front_lists = front.map_values(
            |key: PassDescriptor| pass_instances(instances, key).map_values(f),
        );
        let list = pass_instances(instances, key).map_values(f);
        assert(front.push(key) =~= keys);
        assert(front_lists.push(list) =~= lists);
        front_lists.lemma_flatten_push(list);
        lemma_multiset_commutative(front_lists.flatten(), list);
        lemma_batches_are_filtered(instances, front, f);
        assert(!front.contains(key)) by {
        }
        lemma_split_off_pass(instances, front, key, f);
    }
}

/// The passes of a frame divide its instances among them: where `keys` holds each
/// descriptor of the frame once, the instance lists of these passes together hold
/// every instance of the frame as often as it was drawn, none lost and none twice.
/// The same holds of what the passes hand to the GPU.
pub proof fn lemma_passes_partition_instances(
    instances: Seq<Instance>,
    keys: Seq<PassDescriptor>,
)
    requires
        keys.no_duplicates(),
        keys.to_set() == descriptors(instances),
    ensures
        batched(instances, keys).to_multiset() == instances.to_multiset(),
        batched(instances, keys).len() == instances.len(),
        batched_raw(instances, keys).to_multiset() == raw_instances(instances).to_multiset(),
        batched_raw(instances, keys).len() == instances.len(),
{
    assert forall|i: int| 0 <= i < instances.len() implies in_passes(keys)(
        #[trigger] instances[i],
    ) by {
        assert(keys.to_set().contains(instances[i].descriptor()));
    }
    lemma_filter_keeps_all(instances, in_passes(keys));

    let raw = |instance: Instance| instance.raw();
    lemma_batches_are_filtered(instances, keys, raw);
    assert(keys.map_values(|key: PassDescriptor| pass_instances(instances, key).map_values(raw))
        =~= keys.map_values(|key: PassDescriptor| raw_instances(pass_instances(instances, key))));
    vstd::seq_lib::to_multiset_len(batched_raw(instances, keys));
    vstd::seq_lib::to_multiset_len(raw_instances(instances));

    let same = |instance: Instance| instance;
    lemma_batches_are_filtered(instances, keys, same);
    assert forall|key: PassDescriptor|
        #[trigger] pass_instances(instances, key).map_values(same) == pass_instances(
            instances,
            key,
        ) by {
    }
    assert(keys.map_values(|key: PassDescriptor| pass_instances(instances, key).map_values(same))
        =~= keys.map_values(|key: PassDescriptor| pass_instances(instances, key)));
    assert(instances.map_values(same) =~= instances);
    vstd::seq_lib::to_multiset_len(batched(instances, keys));
    vstd::seq_lib::to_multiset_len(instances);
}

} // verus!
