//! The fixed skeleton of a QR-style symbol: a square grid of modules inside a
//! quiet zone, with finder patterns at three corners and two timing stripes,
//! composed by overlaying pattern fragments under a first-writer-wins rule.

pub mod bit;
pub mod error;
pub mod overlay;
pub mod pattern;
pub mod qr_code;
pub mod symbol;
pub mod text;

pub use bit::Bit;
pub use error::QRError;
pub use qr_code::QRCode;
