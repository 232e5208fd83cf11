pub mod animations;
pub mod enemy;
pub mod player;
