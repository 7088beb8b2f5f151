use vstd::prelude::*;
use crate::color::Color;
use crate::layer::Layer;
use crate::pass::InstanceRaw;
use crate::pass::PassDescriptor;
use crate::sprite::Sprite;
use crate::vector::Vector2;

verus! {

/// One draw call of a frame: a sprite placed at a pixel position on a layer, tinted.
#[derive(Debug, Copy, Clone, PartialEq, Eq)]
pub struct Instance {
    pub position: Vector2<i32>,
    pub sprite: Sprite,
    pub layer: Layer,
    pub tint: Color,
}

impl Instance {
    /// The pass this instance is drawn in.
    pub open spec fn descriptor(self) -> PassDescriptor {
        PassDescriptor { texture_id: Some(self.sprite.texture().id), layer: self.layer }
    }

    /// The instance as the GPU gets it: the quad has the sprite's size in pixels and
    /// shows the sprite's region of the texture.
    pub open spec fn raw(self) -> InstanceRaw {
        InstanceRaw {
            position: self.position,
            size: self.sprite.size(),
            tex_lower_bounds: self.sprite.offset(),
            tex_higher_bounds: Vector2 {
                x: (self.sprite.offset().x + self.sprite.size().x) as u32,
                y: (self.sprite.offset().y + self.sprite.size().y) as u32,
            },
            tex_size: self.sprite.texture().size,
            tint: self.tint,
        }
    }

    pub fn to_pass_descriptor(&self) -> (d: PassDescriptor)
        ensures
            d == self.descriptor(),
    {
        PassDescriptor { texture_id: Some(self.sprite.get_texture().id), layer: self.layer }
    }

    pub fn to_raw(&self) -> (r: InstanceRaw)
        ensures
            r == self.raw(),
            r.tex_higher_bounds.x == r.tex_lower_bounds.x + r.size.x,
            r.tex_higher_bounds.y == r.tex_lower_bounds.y + r.size.y,
            r.tex_higher_bounds.x <= r.tex_size.x,
            r.tex_higher_bounds.y <= r.tex_size.y,
    {
        proof {
            use_type_invariant(&self.sprite);
            self.sprite.lemma_within();
        }
        let offset = self.sprite.get_offset();
        let size = self.sprite.get_size();
        InstanceRaw {
            position: self.position,
            size,
            tex_lower_bounds: offset,
            tex_higher_bounds: Vector2 { x: offset.x + size.x, y: offset.y + size.y },
            tex_size: self.sprite.get_texture().size,
            tint: self.tint,
        }
    }
}

/// The predicate that picks the instances of the pass `descriptor`.
pub open spec fn in_pass(descriptor: PassDescriptor) -> spec_fn(Instance) -> bool {
    |instance: Instance| instance.descriptor() == descriptor
}

/// The instances of the pass `descriptor` among `instances`, in the order in which
/// they were drawn.
pub open spec fn pass_instances(instances: Seq<Instance>, descriptor: PassDescriptor) -> Seq<
    Instance,
> {
    instances.filter(in_pass(descriptor))
}

/// The passes that the instances ask for: the descriptors that occur among them.
pub open spec fn descriptors(instances: Seq<Instance>) -> Set<PassDescriptor> {
    Set::new(
        |d: PassDescriptor|
            exists|i: int| 0 <= i < instances.len() && #[trigger] instances[i].descriptor() == d,
    )
}

/// The instances as the GPU gets them, one for one.
pub open spec fn raw_instances(instances: Seq<Instance>) -> Seq<InstanceRaw> {
    instances.map_values(|instance: Instance| instance.raw())
}

} // verus!
