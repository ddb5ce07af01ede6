pub mod gui;
pub mod gui_facades;
pub mod message;
