//! Chat text styling.
//!
//! Two ways lead from a plain string to styled text, an ordered sequence of
//! runs that each carry a text, a colour and a format:
//!
//! - [`color_parser`] reads `&`-markers out of the string;
//! - [`gradient`] colours the string letter by letter, along the hues or
//!   along a list of colour stops.
//!
//! [`marker_laws`] and [`gradient_laws`] state what holds of the two on
//! every input. Around them stand what the chat plugin decides with them:
//! the styles a player can choose and the configuration ([`config`]), the
//! commands that set a style ([`commands`]), the styling of a chat line
//! ([`handlers`]), and what is kept of the players between two runs
//! ([`data`]).

pub mod color_parser;
pub mod color_utils;
pub mod commands;
pub mod config;
pub mod data;
pub mod gradient;
pub mod gradient_laws;
pub mod handlers;
pub mod marker_laws;
pub mod strings;
pub mod text;
