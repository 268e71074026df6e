//! The ways in which compiling a presentation fails.

use vstd::prelude::*;

verus! {

/// Why a presentation could not be compiled.
#[derive(Debug)]
pub enum CompileError {
    /// An unknown or malformed tag, or a tag without its argument; holds the tag line.
    FaultyTag(String),
    /// A media file that is missing or whose type cannot be told; holds its path.
    MediaResolutionFailure(String),
    /// The input holds no slide.
    EmptyPresentation,
}

/// What a `CompileError` holds.
pub enum Fault {
    FaultyTag(Seq<char>),
    MediaResolutionFailure(Seq<char>),
    EmptyPresentation,
}

impl View for CompileError {
    type V = Fault;

    open spec fn view(&self) -> Fault {
        match self {
            CompileError::FaultyTag(t) => Fault::FaultyTag(t@),
            CompileError::MediaResolutionFailure(p) => Fault::MediaResolutionFailure(p@),
            CompileError::EmptyPresentation => Fault::EmptyPresentation,
        }
    }
}

/// What a fallible text result holds.
pub open spec fn text_result(r: Result<String, CompileError>) -> Result<Seq<char>, Fault> {
    match r {
        Ok(s) => Ok(s@),
        Err(e) => Err(e@),
    }
}

} // verus!
