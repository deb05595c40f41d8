//! The files of the compute shaders, and how they are compiled.

use vstd::prelude::*;
use crate::actions::Shader;

verus! {

impl Shader {
    /// The name of the shader's files, without an ending.
    pub open spec fn stem(self) -> Seq<char> {
        match self {
            Shader::Saxpy => "saxpy"@,
            Shader::Reduce => "reduce"@,
            Shader::Matmul => "matmul"@,
            Shader::Copy => "copy"@,
        }
    }

    /// The name of the shader's files, without an ending.
    pub fn file_stem(&self) -> (r: &'static str)
        ensures
            r@ == self.stem(),
    {
        match self {
            Shader::Saxpy => "saxpy",
            Shader::Reduce => "reduce",
            Shader::Matmul => "matmul",
            Shader::Copy => "copy",
        }
    }

    /// The name of the file that holds the shader's source.
    pub fn source_name(&self) -> (r: String)
        ensures
            r@ == self.stem() + ".comp"@,
    {
        let mut name = self.file_stem().to_owned();
        name.append(".comp");
        name
    }

    /// The name of the file that the shader is compiled into.
    pub fn binary_name(&self) -> (r: String)
        ensures
            r@ == self.stem() + ".spv"@,
    {
        let mut name = self.file_stem().to_owned();
        name.append(".spv");
        name
    }
}

/// The arguments that make `glslangValidator` compile `source` into `binary` for
/// Vulkan 1.1.
pub fn compile_arguments(source: &str, binary: &str) -> (r: Vec<String>)
    ensures
        r@.map_values(|a: String| a@) == seq![
            "-V"@,
            "--target-env"@,
            "vulkan1.1"@,
            "-o"@,
            binary@,
            source@,
        ],
{
    let list: Vec<String> = vec![
        "-V".to_owned(),
        "--target-env".to_owned(),
        "vulkan1.1".to_owned(),
        "-o".to_owned(),
        binary.to_owned(),
        source.to_owned(),
    ];
    assert(list@.map_values(|a: String| a@) =~= seq![
        "-V"@,
        "--target-env"@,
        "vulkan1.1"@,
        "-o"@,
        binary@,
        source@,
    ]);
    list
}

} // verus!
