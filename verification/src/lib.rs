//! The core of a sprite renderer and the game that is drawn with it.
//!
//! A frame is built in a [`context::RenderContext`]: sprites ([`sprite`], cut from
//! textures by [`grid`]) and texts ([`bitmap_font`], [`layout`]) are drawn into it,
//! and [`context::RenderContext::render`] turns the draw calls into the passes that
//! the GPU runs, one for each texture on each layer, in a fixed order ([`batcher`],
//! [`pass`]); [`frame`] says what these passes are. The [`camera`] maps pixels to
//! device coordinates.
//!
//! The game itself is [`game::Arkanoid`], with its [`ball`], [`palette`] and
//! [`block`]s, steered through [`input`] and stepped by [`main_loop`].

pub mod assets;
pub mod ball;
pub mod batcher;
pub mod bitmap_font;
pub mod block;
pub mod camera;
pub mod collisions;
pub mod color;
pub mod context;
pub mod error;
pub mod frame;
pub mod game;
pub mod grid;
pub mod input;
pub mod instances;
pub mod layer;
pub mod layout;
pub mod lines;
pub mod main_loop;
pub mod palette;
pub mod pass;
pub mod sprite;
pub mod texture;
pub mod vector;
