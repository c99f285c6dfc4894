//! A palette of up to nine colour blocks and the harmony theories that
//! recolour it.
//!
//! The palette keeps its blocks in nine storage cells. Removing a block
//! leaves a hole, so the harmony rules work on logical positions: the rank
//! of each occupied cell among the occupied cells. A generation derives an
//! anchor colour, from the locked blocks or from a random draw, and gives
//! every unlocked block the colour that the chosen theory assigns to its
//! logical position. Locked blocks are never touched.
//!
//! Colours are kept in fixed point: hue in thousandths of a degree,
//! saturation and value in ten-thousandths. Everything random is drawn
//! ahead into a [`noise::Noise`] value, so that a generation is a function
//! of the palette, the theory and the noise.

pub mod app;
pub mod color;
pub mod harmony;
pub mod laws;
pub mod noise;
pub mod status_bar;
pub mod store;
pub mod theory;
