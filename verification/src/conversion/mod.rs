pub mod conversion;
