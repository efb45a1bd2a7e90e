//! The documents that a form is rendered to.
pub mod markdown;
pub mod pdf;

use vstd::prelude::*;

verus! {

/// Why a document could not be produced.
#[derive(Debug, Clone, Copy, PartialEq, Eq, Structural)]
pub enum RenderError {
    /// No font could be loaded for the page.
    MissingFont,
    /// The backend that draws the pages failed.
    Backend,
}

impl RenderError {
    /// The failure in words.
    pub fn message(&self) -> (text: &'static str)
        ensures
            text@ == match *self {
                RenderError::MissingFont => "aucune police trouvée : placer DejaVuSans ou Inter dans ./fonts"@,
                RenderError::Backend => "échec lors du rendu PDF"@,
            },
    {
        match self {
            RenderError::MissingFont => "aucune police trouvée : placer DejaVuSans ou Inter dans ./fonts",
            RenderError::Backend => "échec lors du rendu PDF",
        }
    }
}

} // verus!
