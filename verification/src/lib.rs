//! The decisions behind a web view: how its requests are answered from the
//! bundled assets or by a development server, and how a window whose title bar
//! the page draws itself answers the messages of the window system.
//!
//! Requests: [`protocol`] answers them; [`uri`], [`percent`], [`fields`],
//! [`builder`], [`response`], [`content_range`] and [`text`] are what it is
//! made of. [`answer_laws`] says what they ask for and what their answers hold,
//! and [`protocol_laws`] what holds of the protocol as a whole.
//!
//! Windows: [`window_procs`] answers the messages of [`messages`]; [`hover`],
//! [`search`] and [`frame`] are what it has the window system do, and
//! [`geometry`] says what part of the title bar a point is in. [`window_laws`]
//! says what it all comes to.
pub mod answer_laws;
pub mod builder;
pub mod content_range;
pub mod fields;
pub mod frame;
pub mod geometry;
pub mod hover;
pub mod messages;
pub mod percent;
pub mod protocol;
pub mod protocol_laws;
pub mod response;
pub mod search;
pub mod text;
pub mod uri;
pub mod window_laws;
pub mod window_procs;
