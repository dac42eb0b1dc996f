//! What the shading side of the system can report, and the one
//! capability the draw path needs from a shader: where its vertex
//! attribute lives.  The heavy lifting — compiling, linking, looking
//! up uniforms — happens in the host shell; these types are the
//! contract it reports through.

use vstd::prelude::*;

verus! {

/// A failure while setting up the shading program: allocation,
/// compilation, linking, or a uniform missing from the linked
/// program.
#[derive(Debug)]
pub enum ShaderError {
    ShaderAllocError,
    ShaderProgramAllocError,
    ShaderGetInfoError,
    MissingUniform(String),
    ShaderCompileError { shader_type: u32, compiler_output: String },
    ShaderLinkError(),
}

/// A linked shading program the full-screen draw can bind: it knows
/// the location of its vertex-position attribute.
pub trait Shader {
    fn get_attrib_position(&self) -> u32;
}

} // verus!
