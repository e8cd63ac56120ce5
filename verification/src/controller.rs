//! What the overlay keeps while it runs, and how it answers events.
pub mod markers;
pub mod markers_laws;
pub mod pathing;
pub mod pathing_laws;
pub mod timers;
pub mod timers_laws;
