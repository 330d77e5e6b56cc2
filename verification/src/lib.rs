//! Runtime core of an endless side-scrolling runner: the character's state
//! machine and physics, the obstacles it can land on or run into, the segment
//! templates that extend the level, and the scrolling world that ties them
//! together. Every function carries a contract that Verus proves.

pub mod engine;
pub mod red_hat_boy_states;
pub mod red_hat_boy;
pub mod obstacles;
pub mod segments;
pub mod game;
pub mod steady;
