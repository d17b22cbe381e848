//! A flock of birds steered by cohesion and alignment, advanced one tick at a
//! time. Positions are fixed-point numbers (`geometry::UNITS_PER_WORLD` to a
//! world unit) and headings are whole angle units (`angle::HALF_TURN` to half
//! a turn). The trigonometry (the step along a heading, the bearing of a
//! point) is computed by the host and handed in as values.
pub mod arith;
pub mod angle;
pub mod geometry;
pub mod flock;
pub mod steering;
pub mod sim;
