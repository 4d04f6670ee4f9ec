use vstd::prelude::*;

verus! {

/// The languages for which a server can be launched.
#[derive(Clone, Copy, PartialEq, Eq, Structural, Debug)]
pub enum Language {
    Cpp,
    C,
    Python,
    Rust,
}

/// The executable that serves a language.
pub open spec fn program_of(l: Language) -> Seq<char> {
    match l {
        Language::C | Language::Cpp => "clangd"@,
        Language::Rust => "rust-analyzer"@,
        Language::Python => "pylsp"@,
    }
}

impl Language {
    /// The name of the executable that serves this language.
    pub fn program(&self) -> (r: &'static str)
        ensures
            r@ == program_of(*self),
    {
        match self {
            Language::C | Language::Cpp => "clangd",
            Language::Rust => "rust-analyzer",
            Language::Python => "pylsp",
        }
    }
}

} // verus!
