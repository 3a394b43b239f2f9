//! Loads the definition of a material from a file: parses the file, resolves the
//! files that it inherits from into one definition, finds the type that the
//! definition names and the types of its properties, and turns the paths of
//! assets into asset paths. What a host engine has to do, reading files and
//! building typed values, is handed to it as plain values.

use vstd::prelude::*;

pub mod collections;
pub mod generic_material;
pub mod keyed;
pub mod load;
pub mod reflect;
pub mod text;
pub mod value;
