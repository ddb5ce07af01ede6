pub mod arduino_keyer_io;
pub mod keyer_io;
pub mod null_keyer_io;
