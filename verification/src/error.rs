use vstd::prelude::*;

verus! {

/// Why a label batch produced no artifact. Every variant ends the call.
#[derive(Clone, Copy, Debug, PartialEq, Eq, Structural)]
pub enum LabelError {
    /// A grid dimension is below one or above the supported maximum.
    InvalidGrid,
    /// No record was resolved for the batch.
    EmptyBatch,
    /// A payload does not fit any supported symbol version.
    QrEncoding,
    /// The glyph source needed for the text is missing.
    FontUnavailable,
    /// The final document or image could not be serialized.
    Encoding,
}

impl LabelError {
    /// The message text of each variant.
    pub open spec fn message_text(self) -> Seq<char> {
        match self {
            LabelError::InvalidGrid => "Invalid grid size. Columns and rows must be between 1 and 10"@,
            LabelError::EmptyBatch => "No items found"@,
            LabelError::QrEncoding => "QR code generation failed"@,
            LabelError::FontUnavailable => "No Chinese font found in system fonts"@,
            LabelError::Encoding => "Label encoding failed"@,
        }
    }

    /// One human-readable line for the caller.
    pub fn message(&self) -> (text: String)
        ensures
            text@ == self.message_text(),
    {
        match self {
            LabelError::InvalidGrid => String::from_str(
                "Invalid grid size. Columns and rows must be between 1 and 10",
            ),
            LabelError::EmptyBatch => String::from_str("No items found"),
            LabelError::QrEncoding => String::from_str("QR code generation failed"),
            LabelError::FontUnavailable => String::from_str("No Chinese font found in system fonts"),
            LabelError::Encoding => String::from_str("Label encoding failed"),
        }
    }
}

} // verus!
