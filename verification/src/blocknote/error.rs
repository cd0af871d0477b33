//! Conversion errors.

use vstd::prelude::*;

verus! {

/// Errors that can occur during format conversion.
#[derive(Debug, Clone, PartialEq, Eq)]
pub enum ConvertError {
    /// Markdown rendering failed.
    MarkdownRender(String),
    /// The document has no fragment with the given name.
    FragmentNotFound(String),
    /// The document's structure doesn't match the block schema.
    InvalidSchema(String),
}

impl ConvertError {
    /// The error message.
    pub fn message(&self) -> (r: String)
        ensures
            r@ == match *self {
                ConvertError::MarkdownRender(m) => "markdown render error: "@ + m@,
                ConvertError::FragmentNotFound(n) => "XmlFragment '"@ + n@ + "' not found in Y.Doc"@,
                ConvertError::InvalidSchema(m) => "invalid BlockNote schema: "@ + m@,
            },
    {
        match self {
            ConvertError::MarkdownRender(m) => crate::text::concat("markdown render error: ", m.as_str()),
            ConvertError::FragmentNotFound(n) => crate::text::concat3("XmlFragment '", n.as_str(), "' not found in Y.Doc"),
            ConvertError::InvalidSchema(m) => crate::text::concat("invalid BlockNote schema: ", m.as_str()),
        }
    }
}

/// Result type for conversion operations.
pub type ConvertResult<T> = Result<T, ConvertError>;

}
