//! A live terminal progress display for a download job, with its logic
//! verified: scaling byte counts into human-readable units, rendering
//! fixed-width two-line progress frames, the render loop's decision
//! machine, and the job configuration it is gated by.
pub mod byte_format;
pub mod clock;
pub mod config;
pub mod progress_bar;
pub mod render_loop;
pub mod text;
