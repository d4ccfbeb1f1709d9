//! A read-only filesystem whose file names are colours.
//!
//! The root directory lists nothing, yet every name of the form
//! `rrggbb.png` can be looked up in it: the file is a one-pixel PNG image of
//! the colour that the six hexadecimal digits spell. Nothing is stored; each
//! request is answered from the path alone.
//!
//! - [`path`] splits a path into segments and classifies it;
//! - [`color`] reads a colour out of a file name;
//! - [`encode`] makes the image of a colour;
//! - [`window`] cuts the part of a file that a read asks for;
//! - [`attr`] and [`clock`] hold what is reported about a node;
//! - [`fs`] answers the requests.

pub mod attr;
pub mod clock;
pub mod color;
pub mod encode;
pub mod fs;
pub mod path;
pub mod window;

pub use color::{color_from_str, Color, InvalidName};
pub use fs::{ColorFs, FsError, Node};
