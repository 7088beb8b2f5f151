use vstd::prelude::*;
use crate::color::Color;
use crate::layer::Layer;
use crate::texture::Texture;
use crate::vector::Vector2;

verus! {

/// The key under which draw calls are batched: one GPU pass draws all the instances of
/// one texture on one layer. The pass of a frame without draw calls has no texture.
#[derive(Debug, Copy, Clone, PartialEq, Eq, Structural, Hash)]
pub struct PassDescriptor {
    pub texture_id: Option<usize>,
    pub layer: Layer,
}

/// The place of a texture among the passes of one layer: no texture comes first, then
/// the textures by their identifier.
pub open spec fn texture_rank(texture_id: Option<usize>) -> int {
    match texture_id {
        None => -1,
        Some(id) => id as int,
    }
}

impl PassDescriptor {
    /// The order in which passes run: by layer, and within a layer by texture.
    pub open spec fn precedes(self, other: PassDescriptor) -> bool {
        self.layer.0 < other.layer.0 || (self.layer.0 == other.layer.0 && texture_rank(
            self.texture_id,
        ) < texture_rank(other.texture_id))
    }

    /// Whether the pass of `self` runs before the pass of `other`.
    pub fn runs_before(&self, other: &PassDescriptor) -> (r: bool)
        ensures
            r == self.precedes(*other),
    {
        if self.layer.0 != other.layer.0 {
            self.layer.0 < other.layer.0
        } else {
            match (self.texture_id, other.texture_id) {
                (None, None) => false,
                (None, Some(_)) => true,
                (Some(_), None) => false,
                (Some(a), Some(b)) => a < b,
            }
        }
    }

    /// Whether the two descriptors name the same pass.
    pub fn same(&self, other: &PassDescriptor) -> (r: bool)
        ensures
            r == (*self == *other),
    {
        self.layer.0 == other.layer.0 && match (self.texture_id, other.texture_id) {
            (None, None) => true,
            (Some(a), Some(b)) => a == b,
            _ => false,
        }
    }
}

/// Of two different descriptors exactly one precedes the other, and the order is
/// transitive: the passes of a frame have one order only.
pub proof fn lemma_precedes_is_a_strict_total_order(
    a: PassDescriptor,
    b: PassDescriptor,
    c: PassDescriptor,
)
    ensures
        !a.precedes(a),
        a.precedes(b) ==> !b.precedes(a),
        a.precedes(b) && b.precedes(c) ==> a.precedes(c),
        a != b ==> a.precedes(b) || b.precedes(a),
{
}

/// Whether each descriptor of the sequence precedes all that follow it.
pub open spec fn strictly_ascending(keys: Seq<PassDescriptor>) -> bool {
    forall|i: int, j: int| 0 <= i < j < keys.len() ==> (#[trigger] keys[i]).precedes(#[trigger] keys[j])
}

pub proof fn lemma_ascending_has_no_duplicates(keys: Seq<PassDescriptor>)
    requires
        strictly_ascending(keys),
    ensures
        keys.no_duplicates(),
{
    assert forall|i: int, j: int| 0 <= i < keys.len() && 0 <= j < keys.len() && i != j implies keys[i]
        != keys[j] by {
    }
}

/// A set of descriptors has one ascending order only.
pub proof fn lemma_ascending_is_unique(a: Seq<PassDescriptor>, b: Seq<PassDescriptor>)
    requires
        strictly_ascending(a),
        strictly_ascending(b),
        a.to_set() == b.to_set(),
    ensures
        a == b,
    decreases a.len(),
{
    lemma_ascending_has_no_duplicates(a);
    lemma_ascending_has_no_duplicates(b);
    a.unique_seq_to_set();
    b.unique_seq_to_set();
    if a.len() > 0 {
        let last_a = a.last();
        let last_b = b.last();
        assert(a.to_set().contains(last_a));
        assert(b.to_set().contains(last_b));
        let front_a = a.drop_last();
        let front_b = b.drop_last();
        assert forall|d: PassDescriptor| front_a.to_set().contains(d) <==> front_b.to_set().contains(
            d,
        ) by {
            if front_a.contains(d) {
                assert(b.to_set().contains(d));
                let m = choose|m: int| 0 <= m < b.len() && b[m] == d;
                assert(front_b[m] == d);
            }
            if front_b.contains(d) {
                assert(a.to_set().contains(d));
                let m = choose|m: int| 0 <= m < a.len() && a[m] == d;
                assert(front_a[m] == d);
            }
        }
        assert(front_a.to_set() =~= front_b.to_set());
        lemma_ascending_is_unique(front_a, front_b);
        assert(b =~= front_b.push(last_b));
    }
}

/// Puts `key` at its place in an ascending sequence of descriptors, unless it is there
/// already.
pub fn insert_descriptor(keys: &mut Vec<PassDescriptor>, key: PassDescriptor)
    requires
        strictly_ascending(old(keys)@),
    ensures
        strictly_ascending(final(keys)@),
        final(keys)@.to_set() == old(keys)@.to_set().insert(key),
        old(keys)@.contains(key) ==> final(keys)@ == old(keys)@,
{
    let mut at: usize = 0;
    while at < keys.len() && keys[at].runs_before(&key)
        invariant
            at <= keys@.len(),
            keys@ == old(keys)@,
            forall|i: int| 0 <= i < at ==> (#[trigger] keys@[i]).precedes(key),
        decreases keys@.len() - at,
    {
        at = at + 1;
    }
    let ghost before = keys@;
    if !(at < keys.len() && keys[at].same(&key)) {
        keys.insert(at, key);
        proof {
            let after = keys@;
            assert forall|i: int, j: int| 0 <= i < j < after.len() implies (#[trigger] after[i]).precedes(
                #[trigger] after[j],
            ) by {
                let b = if j < at { j } else { j - 1 };
                if i == at {
                    lemma_precedes_is_a_strict_total_order(key, before[at as int], before[b]);
                }
            }
            assert forall|d: PassDescriptor| after.to_set().contains(d) <==> before.to_set().insert(
                key,
            ).contains(d) by {
                if before.contains(d) {
                    let i = choose|i: int| 0 <= i < before.len() && before[i] == d;
                    if i < at {
                        assert(after[i] == d);
                    } else {
                        assert(after[i + 1] == d);
                    }
                }
                if d == key {
                    assert(after[at as int] == d);
                }
            }
        }
    }
}

/// What a pass does to the render target before it draws.
#[derive(Debug, Copy, Clone, PartialEq, Eq, Structural)]
pub enum LoadOp {
    /// Fill the target with this colour.
    Clear(Color),
    /// Keep what earlier passes drew.
    Load,
}

/// One instance of a pass as the GPU gets it, in whole numbers: the unit quad is
/// scaled to `size` pixels and moved to `position`, and shows the texels from
/// `tex_lower_bounds` up to `tex_higher_bounds` of a texture of `tex_size` texels.
/// Dividing the bounds by `tex_size` gives the texture coordinates.
#[derive(Debug, Copy, Clone, PartialEq, Eq)]
pub struct InstanceRaw {
    pub position: Vector2<i32>,
    pub size: Vector2<u32>,
    pub tex_lower_bounds: Vector2<u32>,
    pub tex_higher_bounds: Vector2<u32>,
    pub tex_size: Vector2<u32>,
    pub tint: Color,
}

/// One GPU pass of a frame: what it does to the target first, the texture it binds
/// and the instances it draws with one call.
#[derive(Debug, PartialEq, Eq)]
pub struct Pass {
    pub descriptor: PassDescriptor,
    pub load_op: LoadOp,
    pub texture: Option<Texture>,
    pub instances: Vec<InstanceRaw>,
}

} // verus!
