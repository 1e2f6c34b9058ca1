//! Kinematics of a car-like vehicle in exact fixed-point arithmetic.
//!
//! Every quantity (lengths, speeds, angles in radians, seconds) is an `i64`
//! counted in billionths, so that a step of the simulation is a function on
//! integers whose result can be stated and proved exactly.
//!
//! - [`fixed`], [`trig`] and [`power`] hold the arithmetic: products and
//!   quotients, square roots, sine, cosine, arctangent and powers.
//! - [`vector`] holds points and directions in space.
//! - [`wheel`] holds the shape of a wheel and the mesh of its tread.
//! - [`vehicle`] holds the state of the vehicle and its step in time.
//! - [`controls`] turns what the driver does into speed and curvature.
//! - [`scene`] derives what there is to draw: the angle of each wheel, the
//!   treads in the world and the marks of the turn.
//! - [`builder`] is the interface of the builders of wheel and vehicle.
pub mod builder;
pub mod controls;
pub mod fixed;
pub mod power;
pub mod scene;
pub mod trig;
pub mod vector;
pub mod vehicle;
pub mod wheel;
