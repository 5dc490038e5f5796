pub mod decimal;
pub mod draw;
