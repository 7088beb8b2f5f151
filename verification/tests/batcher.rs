use arkanoid::color::Color;
use arkanoid::context::RenderContext;
use arkanoid::instances::Instance;
use arkanoid::layer::Layer;
use arkanoid::pass::{insert_descriptor, InstanceRaw, LoadOp, PassDescriptor};
use arkanoid::sprite::Sprite;
use arkanoid::texture::Texture;
use arkanoid::vector::Vector2;

fn key(texture_id: usize, layer: isize) -> PassDescriptor {
    PassDescriptor { texture_id: Some(texture_id), layer: Layer(layer) }
}

fn sprite_of(id: usize) -> Sprite {
    Sprite::from_whole_texture(&Texture::new(id, 64, 64))
}

#[test]
fn frame_without_draw_calls_clears_once() {
    let ctx = RenderContext::new();
    let passes = ctx.render();
    assert_eq!(passes.len(), 1);
    assert_eq!(passes[0].load_op, LoadOp::Clear(Color::black()));
    assert_eq!(passes[0].descriptor, PassDescriptor { texture_id: None, layer: Layer(0) });
    assert_eq!(passes[0].texture, None);
    assert!(passes[0].instances.is_empty());
}

#[test]
fn frame_without_draw_calls_clears_to_the_colour_that_was_set() {
    let mut ctx = RenderContext::new();
    ctx.set_clear_color(Color::new(1, 2, 3, 4));
    assert_eq!(ctx.get_clear_color(), Color::new(1, 2, 3, 4));
    let passes = ctx.render();
    assert_eq!(passes.len(), 1);
    assert_eq!(passes[0].load_op, LoadOp::Clear(Color::new(1, 2, 3, 4)));
}

#[test]
fn default_clear_colour_is_opaque_black() {
    let ctx = RenderContext::new();
    assert_eq!(ctx.get_clear_color(), Color { r: 0, g: 0, b: 0, a: 255 });
    assert_eq!(Color::default(), Color::black());
}

#[test]
fn draw_sprite_appends_one_instance() {
    let mut ctx = RenderContext::new();
    let sprite = sprite_of(4);
    ctx.draw_sprite(&sprite, Vector2::new(-3, 9), Layer(2), Color::red());
    ctx.draw_sprite(&sprite, Vector2::new(5, 6), Layer(-1), Color::blue());
    assert_eq!(
        ctx.get_instances(),
        &vec![
            Instance { position: Vector2::new(-3, 9), sprite, layer: Layer(2), tint: Color::red() },
            Instance { position: Vector2::new(5, 6), sprite, layer: Layer(-1), tint: Color::blue() },
        ]
    );
}

#[test]
fn texture_is_registered_once_under_its_identifier() {
    let mut ctx = RenderContext::new();
    let first = Sprite::from_whole_texture(&Texture::new(4, 64, 64));
    let second = Sprite::from_whole_texture(&Texture::new(4, 32, 32));
    assert_eq!(ctx.get_texture(4), None);
    ctx.draw_sprite(&first, Vector2::new(0, 0), Layer(0), Color::white());
    ctx.draw_sprite(&second, Vector2::new(0, 0), Layer(0), Color::white());
    assert_eq!(ctx.get_texture(4), Some(Texture::new(4, 64, 64)));
    assert_eq!(ctx.get_texture(5), None);
}

#[test]
fn passes_are_one_for_each_pair_of_texture_and_layer() {
    let mut ctx = RenderContext::new();
    ctx.set_clear_color(Color::yellow());
    let one = sprite_of(1);
    let two = sprite_of(2);
    ctx.draw_sprite(&two, Vector2::new(0, 0), Layer(1), Color::white());
    ctx.draw_sprite(&one, Vector2::new(1, 0), Layer(0), Color::white());
    ctx.draw_sprite(&one, Vector2::new(2, 0), Layer(1), Color::white());
    ctx.draw_sprite(&two, Vector2::new(3, 0), Layer(1), Color::white());
    ctx.draw_sprite(&one, Vector2::new(4, 0), Layer(-1), Color::white());
    let passes = ctx.render();
    let descriptors: Vec<PassDescriptor> = passes.iter().map(|pass| pass.descriptor).collect();
    assert_eq!(descriptors, vec![key(1, -1), key(1, 0), key(1, 1), key(2, 1)]);
    let xs: Vec<Vec<i32>> = passes
        .iter()
        .map(|pass| pass.instances.iter().map(|raw| raw.position.x).collect())
        .collect();
    assert_eq!(xs, vec![vec![4], vec![1], vec![2], vec![0, 3]]);
    let load_ops: Vec<LoadOp> = passes.iter().map(|pass| pass.load_op).collect();
    assert_eq!(
        load_ops,
        vec![LoadOp::Clear(Color::yellow()), LoadOp::Load, LoadOp::Load, LoadOp::Load]
    );
    let textures: Vec<Option<usize>> =
        passes.iter().map(|pass| pass.texture.map(|texture| texture.id)).collect();
    assert_eq!(textures, vec![Some(1), Some(1), Some(1), Some(2)]);
}

#[test]
fn passes_do_not_depend_on_the_order_of_the_draw_calls() {
    let sprites = [sprite_of(9), sprite_of(3), sprite_of(5)];
    let calls = [(0usize, 2isize), (1, 2), (2, -7), (1, 0), (0, 2), (2, 2)];
    let mut forward = RenderContext::new();
    for (sprite, layer) in calls {
        forward.draw_sprite(&sprites[sprite], Vector2::new(0, 0), Layer(layer), Color::white());
    }
    let mut backward = RenderContext::new();
    for (sprite, layer) in calls.iter().rev() {
        backward.draw_sprite(&sprites[*sprite], Vector2::new(0, 0), Layer(*layer), Color::white());
    }
    let forward: Vec<PassDescriptor> = forward.render().iter().map(|p| p.descriptor).collect();
    let backward: Vec<PassDescriptor> = backward.render().iter().map(|p| p.descriptor).collect();
    assert_eq!(forward, vec![key(5, -7), key(3, 0), key(3, 2), key(5, 2), key(9, 2)]);
    assert_eq!(forward, backward);
}

#[test]
fn passes_together_hold_every_instance_once() {
    let mut ctx = RenderContext::new();
    let sprites = [sprite_of(1), sprite_of(2), sprite_of(3)];
    for i in 0..30i32 {
        let sprite = &sprites[(i % 3) as usize];
        ctx.draw_sprite(sprite, Vector2::new(i, -i), Layer((i % 4) as isize), Color::white());
    }
    let passes = ctx.render();
    assert_eq!(passes.len(), 12);
    let mut drawn: Vec<i32> =
        passes.iter().flat_map(|pass| pass.instances.iter().map(|raw| raw.position.x)).collect();
    assert_eq!(drawn.len(), 30);
    drawn.sort();
    assert_eq!(drawn, (0..30).collect::<Vec<i32>>());
    for pass in &passes {
        assert!(!pass.instances.is_empty());
        let id = pass.texture.unwrap().id;
        assert_eq!(pass.descriptor.texture_id, Some(id));
    }
}

#[test]
fn raw_instance_holds_placement_and_texture_region() {
    let mut ctx = RenderContext::new();
    let sheet = Sprite::from_whole_texture(&Texture::new(1, 64, 32));
    let sprite = sheet.slice(Vector2::new(16, 8), Vector2::new(48, 24)).unwrap();
    ctx.draw_sprite(&sprite, Vector2::new(-5, 70), Layer(0), Color::green());
    let expected = InstanceRaw {
        position: Vector2::new(-5, 70),
        size: Vector2::new(16, 8),
        tex_lower_bounds: Vector2::new(48, 24),
        tex_higher_bounds: Vector2::new(64, 32),
        tex_size: Vector2::new(64, 32),
        tint: Color::green(),
    };
    assert_eq!(ctx.get_instances()[0].to_raw(), expected);
    assert_eq!(ctx.get_instances()[0].to_pass_descriptor(), key(1, 0));
    assert_eq!(ctx.get_raw_instances_for_pass(&key(1, 0)), vec![expected]);
    assert_eq!(ctx.get_raw_instances_for_pass(&key(1, 1)), vec![]);
    assert_eq!(ctx.get_raw_instances_for_pass(&key(2, 0)), vec![]);
}

#[test]
fn encode_pass_clears_only_at_the_first_place() {
    let mut ctx = RenderContext::new();
    ctx.set_clear_color(Color::blue());
    ctx.draw_sprite(&sprite_of(1), Vector2::new(0, 0), Layer(0), Color::white());
    let first = ctx.encode_pass(&key(1, 0), 0);
    let later = ctx.encode_pass(&key(1, 0), 3);
    assert_eq!(first.load_op, LoadOp::Clear(Color::blue()));
    assert_eq!(later.load_op, LoadOp::Load);
    assert_eq!(first.instances, later.instances);
    assert_eq!(first.texture, Some(Texture::new(1, 64, 64)));
    assert_eq!(ctx.encode_pass(&key(8, 0), 1).texture, None);
}

#[test]
fn descriptors_are_ordered_by_layer_then_texture() {
    assert!(key(9, 0).runs_before(&key(1, 1)));
    assert!(key(1, 1).runs_before(&key(2, 1)));
    assert!(!key(2, 1).runs_before(&key(1, 1)));
    assert!(!key(2, 1).runs_before(&key(2, 1)));
    assert!(key(0, -1).runs_before(&key(0, 0)));
    let clear_only = PassDescriptor { texture_id: None, layer: Layer(1) };
    assert!(clear_only.runs_before(&key(0, 1)));
    assert!(!key(0, 1).runs_before(&clear_only));
    assert!(key(2, 1).same(&key(2, 1)));
    assert!(!key(2, 1).same(&key(2, 0)));
    assert!(!key(2, 1).same(&clear_only));
}

#[test]
fn insert_descriptor_keeps_the_order_and_adds_nothing_twice() {
    let mut keys = Vec::new();
    for (texture, layer) in [(2, 1), (1, 1), (2, 1), (3, 0), (1, 1), (0, 2)] {
        insert_descriptor(&mut keys, key(texture, layer));
    }
    assert_eq!(keys, vec![key(3, 0), key(1, 1), key(2, 1), key(0, 2)]);
}

#[test]
fn layers_compare_by_their_number() {
    assert!(Layer(-1).below(&Layer(0)));
    assert!(!Layer(0).below(&Layer(0)));
    assert!(!Layer(3).below(&Layer(2)));
}
