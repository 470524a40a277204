pub mod decimal;
pub mod laws;
pub mod painter;

pub use decimal::Decimal;
pub use painter::{CoordError, TikzPainter, TikzPlotter};
