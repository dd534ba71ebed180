//! The LuaDB file-system image packer.
//!
//! LuaDB is the LuatOS file-system image format used to bundle Lua scripts
//! and resource files into a binary blob that is flashed to a dedicated
//! partition on the chip. Packing is not implemented yet.

use vstd::prelude::*;

verus! {

#[verifier::external_type_specification]
#[verifier::external_body]
pub struct ExPath(std::path::Path);

/// Why packing failed.
#[derive(PartialEq, Eq, Structural, Clone, Copy)]
pub enum LuadbError {
    /// The packer is not implemented yet.
    NotImplemented,
}

impl LuadbError {
    /// The text of the error.
    pub fn message(&self) -> (r: String)
        ensures
            r@ == "luadb packer is not yet implemented"@,
    {
        "luadb packer is not yet implemented".to_owned()
    }
}

/// Packs the directory `input_dir` of Lua scripts and assets into a LuaDB
/// image at `output_path`. Not implemented yet: it always fails.
pub fn pack_directory(input_dir: &std::path::Path, output_path: &std::path::Path) -> (r: Result<
    (),
    LuadbError,
>)
    ensures
        r == Err::<(), LuadbError>(LuadbError::NotImplemented),
{
    Err(LuadbError::NotImplemented)
}

} // verus!
