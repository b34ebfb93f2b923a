//! The layout of a speedrun timer: a tree of components, each defined by a
//! script, with what the user has set on each of them recorded beside the
//! tree under the path of the component.
//!
//! The tree and what is recorded are edited together, so that everything
//! recorded stays with its component when components are added, taken away
//! or moved, and are built together into the tree of widgets that is shown.
//! What the library promises is stated in the contracts of its functions and
//! proved with Verus; what it takes on trust of the crates it calls is
//! written above each place where it calls them.

pub mod assoc;
pub mod component_editor;
pub mod editor;
pub mod error;
pub mod layout;
pub mod lua;
pub mod number;
pub mod path;
pub mod repository;
pub mod timer;
pub mod tree;
