//! A daemon that drives a Wayland desktop: it presses keys, moves the pointer,
//! captures frames, and looks at windows and at what is in them.
//!
//! This library decides; it does nothing itself.  What the portal, the shell
//! extension, the accessibility bus and the capture of frames have to do is told
//! to the caller, and what came of it is told to the library:
//!
//! - [`job`] carries out a request, and [`query`] finds the elements of a window;
//! - [`course`] states what comes of whole jobs, and [`reach`] what whole queries show;
//! - [`session`] decides when the session ends or is replaced;
//! - [`capture`] makes frames of what the streams deliver;
//! - the other modules hold the rules that these go by.

pub mod text;
pub mod number;
pub mod keys;
pub mod steps;
pub mod coord;
pub mod stream;
pub mod capture;
pub mod paths;
pub mod dict;
pub mod window;
pub mod protocol;
pub mod extension;
pub mod a11y;
pub mod ui;
pub mod walk;
pub mod query;
pub mod job;
pub mod course;
pub mod reach;
pub mod session;
