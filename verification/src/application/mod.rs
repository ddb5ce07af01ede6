pub mod application;
