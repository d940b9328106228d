//! Driving `clang-format` as a dprint plugin: what the plugin decides,
//! verified.
//!
//! * [`configuration`] resolves the raw configuration of the plugin against
//!   the global one and writes the resolved settings as the `--style`
//!   argument of `clang-format`.
//! * [`plugin`] decides what a format request leads to: whether the formatter
//!   is run, with which argument, and what its exit and output come to.
//! * [`key_map`] is the insertion-ordered map that settings are kept in, and
//!   [`value`] the values stored in it.
//! * [`text`] builds decimal numerals and separated lists.

pub mod configuration;
pub mod key_map;
pub mod plugin;
pub mod text;
pub mod value;
