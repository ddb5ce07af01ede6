pub mod observer;
