use vstd::prelude::*;

verus! {

/// Why a glyph could not be drawn.
#[derive(Clone, Copy, PartialEq, Eq, Debug, Structural)]
pub enum RenderError {
    FontNotLoaded,
    GlyphNotFound,
    OutlineError,
}

impl RenderError {
    /// The words of `message`.
    pub open spec fn text(self) -> Seq<char> {
        match self {
            RenderError::FontNotLoaded => "font not loaded"@,
            RenderError::GlyphNotFound => "glyph not found"@,
            RenderError::OutlineError => "could not outline glyph"@,
        }
    }

    /// The error in words.
    pub fn message(&self) -> (words: String)
        ensures
            words@ == self.text(),
    {
        match self {
            RenderError::FontNotLoaded => "font not loaded".to_owned(),
            RenderError::GlyphNotFound => "glyph not found".to_owned(),
            RenderError::OutlineError => "could not outline glyph".to_owned(),
        }
    }
}

} // verus!
