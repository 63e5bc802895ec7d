pub mod scheduler;
pub mod value;
pub mod grid;
pub mod event;
pub mod bridge;
pub mod channel;
pub mod screen;
pub mod tick;
pub mod theorems;
pub mod geometry;
pub mod config;
