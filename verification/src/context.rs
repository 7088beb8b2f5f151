use std::collections::HashMap;
use vstd::prelude::*;
use crate::batcher::sorted_descriptors;
use crate::bitmap_font::BitmapFont;
use crate::bitmap_font::TextAlignment;
use crate::color::Color;
use crate::error::Error;
use crate::frame::bound_texture;
use crate::frame::is_frame;
use crate::frame::is_pass;
use crate::frame::pass_descriptors;
use crate::frame::register;
use crate::frame::registry_of;
use crate::instances::descriptors;
use crate::instances::in_pass;
use crate::instances::pass_instances;
use crate::instances::raw_instances;
use crate::instances::Instance;
use crate::layer::Layer;
use crate::layout::instances_at;
use crate::layout::Spot;
use crate::pass::InstanceRaw;
use crate::pass::LoadOp;
use crate::pass::Pass;
use crate::pass::PassDescriptor;
use crate::sprite::Sprite;
use crate::texture::Texture;
use crate::vector::Vector2;

verus! {

/// What one frame has asked for so far: the colour to clear to, the draw calls in the
/// order in which they were made, and the textures that they use, by identifier.
#[derive(Debug)]
pub struct RenderContext {
    clear_color: Color,
    instances: Vec<Instance>,
    textures: HashMap<usize, Texture>,
}

impl RenderContext {
    #[verifier::type_invariant]
    pub closed spec fn inv(self) -> bool {
        self.textures@ == registry_of(self.instances@)
    }

    /// The colour that the first pass of the frame clears the target to.
    pub closed spec fn clear_color(self) -> Color {
        self.clear_color
    }

    /// The draw calls made so far, in order.
    pub closed spec fn instances(self) -> Seq<Instance> {
        self.instances@
    }

    /// The textures used so far, by identifier.
    pub closed spec fn textures(self) -> Map<usize, Texture> {
        self.textures@
    }

    /// The registry goes by the draw calls alone.
    pub proof fn lemma_textures(self)
        requires
            self.inv(),
        ensures
            self.textures() == registry_of(self.instances()),
    {
    }

    /// The context of a frame in which nothing was drawn yet.
    pub fn new() -> (ctx: RenderContext)
        ensures
            ctx.clear_color() == Color::opaque(0, 0, 0),
            ctx.instances() == Seq::<Instance>::empty(),
            ctx.textures() == Map::<usize, Texture>::empty(),
    {
        RenderContext {
            clear_color: Color::default(),
            instances: Vec::new(),
            textures: HashMap::new(),
        }
    }

    pub fn set_clear_color(&mut self, color: Color)
        ensures
            final(self).clear_color() == color,
            final(self).instances() == old(self).instances(),
            final(self).textures() == old(self).textures(),
            final(self).textures() == registry_of(final(self).instances()),
    {
        proof {
            use_type_invariant(&*self);
        }
        self.clear_color = color;
    }

    /// Adds one draw call to the frame. The texture of the sprite is registered under
    /// its identifier unless one is registered there already.
    pub fn draw_sprite(&mut self, sprite: &Sprite, position: Vector2<i32>, layer: Layer, tint: Color)
        ensures
            final(self).clear_color() == old(self).clear_color(),
            final(self).instances() == old(self).instances().push(
                Instance { position, sprite: *sprite, layer, tint },
            ),
            final(self).textures() == register(old(self).textures(), sprite.texture()),
            final(self).textures() == registry_of(final(self).instances()),
    {
        broadcast use vstd::std_specs::hash::group_hash_axioms;

        proof {
            use_type_invariant(&*self);
        }
        let mut frame = RenderContext::new();
        core::mem::swap(self, &mut frame);
        let RenderContext { clear_color, mut instances, mut textures } = frame;
        let texture = sprite.get_texture();
        if !textures.contains_key(&texture.id) {
            textures.insert(texture.id, texture);
        }
        let ghost before = instances@;
        instances.push(Instance { position, sprite: *sprite, layer, tint });
        proof {
            assert(instances@.drop_last() =~= before);
        }
        *self = RenderContext { clear_color, instances, textures };
    }

    /// Draws a text with the glyphs of `font`, or draws nothing and says why not.
    pub fn draw_text(
        &mut self,
        font: &BitmapFont,
        alignment: &TextAlignment,
        padding: Vector2<i32>,
        text: &str,
        position: Vector2<i32>,
        layer: Layer,
        color: Color,
    ) -> (r: Result<(), Error>)
        ensures
            final(self).clear_color() == old(self).clear_color(),
            final(self).textures() == registry_of(final(self).instances()),
            match r {
                Ok(()) => font.layout_text_spec(text@, position, *alignment, padding) matches Ok(
                    spots,
                ) && final(self).instances() == old(self).instances() + instances_at(
                    spots,
                    layer,
                    color,
                ),
                Err(e) => font.layout_text_spec(text@, position, *alignment, padding) == Err::<
                    Seq<Spot>,
                    Error,
                >(e) && final(self).instances() == old(self).instances(),
            },
    {
        font.draw_text(self, text, position, layer, alignment, padding, color)
    }

    pub fn get_clear_color(&self) -> (color: Color)
        ensures
            color == self.clear_color(),
    {
        self.clear_color
    }

    pub fn get_instances(&self) -> (instances: &Vec<Instance>)
        ensures
            instances@ == self.instances(),
    {
        &self.instances
    }

    /// The texture registered under `id`, if any.
    pub fn get_texture(&self, id: usize) -> (texture: Option<Texture>)
        ensures
            texture == bound_texture(
                self.textures(),
                PassDescriptor { texture_id: Some(id), layer: Layer(0) },
            ),
    {
        broadcast use vstd::std_specs::hash::group_hash_axioms;

        match self.textures.get(&id) {
            Some(texture) => Some(*texture),
            None => None,
        }
    }

    /// The instances of the pass `pass_descriptor`, in the order drawn, as the GPU
    /// gets them.
    pub fn get_raw_instances_for_pass(&self, pass_descriptor: &PassDescriptor) -> (raw: Vec<
        InstanceRaw,
    >)
        ensures
            raw@ == raw_instances(pass_instances(self.instances(), *pass_descriptor)),
    {
        let mut raw: Vec<InstanceRaw> = Vec::new();
        let mut i: usize = 0;
        proof {
            reveal(Seq::filter);
        }
        while i < self.instances.len()
            invariant
                i <= self.instances@.len(),
                raw@ == raw_instances(
                    pass_instances(self.instances@.take(i as int), *pass_descriptor),
                ),
            decreases self.instances@.len() - i,
        {
            let instance = &self.instances[i];
            proof {
                let longer = self.instances@.take(i + 1);
                assert(longer.drop_last() =~= self.instances@.take(i as int));
                reveal(Seq::filter);
            }
            if instance.to_pass_descriptor().same(pass_descriptor) {
                raw.push(instance.to_raw());
            }
            i = i + 1;
        }
        proof {
            assert(self.instances@.take(i as int) =~= self.instances@);
        }
        raw
    }

    /// The pass `pass_descriptor` of this frame, run at place `id`.
    pub fn encode_pass(&self, pass_descriptor: &PassDescriptor, id: usize) -> (pass: Pass)
        ensures
            is_pass(pass, self.instances(), self.clear_color(), *pass_descriptor, id as int),
    {
        broadcast use vstd::std_specs::hash::group_hash_axioms;

        proof {
            use_type_invariant(self);
        }
        let instances = self.get_raw_instances_for_pass(pass_descriptor);
        let load_op = if id == 0 {
            LoadOp::Clear(self.clear_color)
        } else {
            LoadOp::Load
        };
        let texture = match pass_descriptor.texture_id {
            Some(texture_id) => match self.textures.get(&texture_id) {
                Some(texture) => Some(*texture),
                None => None,
            },
            None => None,
        };
        Pass { descriptor: *pass_descriptor, load_op, texture, instances }
    }

    /// The passes of the frame, in the order in which they run.
    pub fn render(&self) -> (passes: Vec<Pass>)
        ensures
            is_frame(passes@, self.instances(), self.clear_color()),
    {
        let mut passes: Vec<Pass> = Vec::new();
        let keys = sorted_descriptors(&self.instances);
        if keys.len() == 0 {
            proof {
                if self.instances@.len() > 0 {
                    assert(keys@.to_set().contains(self.instances@[0].descriptor()));
                }
            }
            let clear = PassDescriptor { texture_id: None, layer: Layer(0) };
            passes.push(self.encode_pass(&clear, 0));
            return passes;
        }
        proof {
            if self.instances@.len() == 0 {
                assert(descriptors(self.instances@).contains(keys@[0]));
            }
        }
        let mut id: usize = 0;
        while id < keys.len()
            invariant
                id <= keys@.len(),
                passes@.len() == id,
                keys@.to_set() == descriptors(self.instances@),
                forall|j: int|
                    0 <= j < id ==> (#[trigger] passes@[j]).descriptor == keys@[j] && is_pass(
                        passes@[j],
                        self.instances(),
                        self.clear_color(),
                        keys@[j],
                        j,
                    ),
            decreases keys@.len() - id,
        {
            let pass = self.encode_pass(&keys[id], id);
            passes.push(pass);
            id = id + 1;
        }
        proof {
            assert forall|j: int| 0 <= j < passes@.len() implies descriptors(
                self.instances@,
            ).contains((#[trigger] passes@[j]).descriptor) by {
            }
        }
        passes
    }
}

} // verus!
