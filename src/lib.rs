pub mod collision;
pub mod consts;
pub mod entities;
pub mod geometry;
pub mod lifecycle;
pub mod motion;
pub mod player;
pub mod spawn;
pub mod timer;
pub mod world;
