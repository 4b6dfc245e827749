use vstd::prelude::*;

verus! {

/// Errors of the rendering core.
///
/// `InitError` reports malformed startup input (bad arguments, a failed
/// window setup), `DrawError` a failure of the outside draw primitive,
/// `FileReadError` an unreadable mesh file (it carries the path),
/// `ParseError` a malformed mesh record, and `DomainError` degenerate
/// geometry (a zero-length normal during normalization).
#[derive(Debug)]
pub enum RendererError {
    InitError(String),
    DrawError(String),
    FileReadError(String),
    ParseError,
    DomainError,
}

impl RendererError {
    /// A human-readable description of the error.
    pub fn message(&self) -> (r: String)
        ensures
            match self {
                RendererError::InitError(s) => r@ == s@,
                RendererError::DrawError(s) => r@ == s@,
                RendererError::FileReadError(s) => r@ == "unable to read file "@ + s@,
                RendererError::ParseError => r@ == "malformed mesh record"@,
                RendererError::DomainError => r@ == "degenerate geometry"@,
            },
    {
        match self {
            RendererError::InitError(s) => s.clone(),
            RendererError::DrawError(s) => s.clone(),
            RendererError::FileReadError(s) => "unable to read file ".to_owned().concat(s.as_str()),
            RendererError::ParseError => "malformed mesh record".to_owned(),
            RendererError::DomainError => "degenerate geometry".to_owned(),
        }
    }
}

} // verus!
