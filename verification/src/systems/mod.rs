pub mod animation;
pub mod attack;
pub mod bullet;
pub mod collision;
pub mod detection;
pub mod dialog;
pub mod enemy;
pub mod garbage;
pub mod groups;
pub mod health;
pub mod player;
pub mod schedule;
pub mod spawn;
pub mod wave;
pub mod world;
