//! Descriptions of GPU resources.

use std::path::PathBuf;

use vstd::prelude::*;

verus! {

/// A shader: compiled into the binary (source and label) or read from a
/// file.
pub enum Shader {
    CompiledIn(String, String),
    Path(PathBuf),
}

impl Clone for Shader {
    fn clone(&self) -> (r: Self)
        ensures
            r == *self,
    {
        match self {
            Shader::CompiledIn(source, label) => Shader::CompiledIn(source.clone(), label.clone()),
            Shader::Path(path) => Shader::Path(path.clone()),
        }
    }
}

} // verus!
