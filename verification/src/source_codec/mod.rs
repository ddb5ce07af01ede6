pub mod keying_timing;
pub mod source_encoding;
