use vstd::prelude::*;

verus! {

/// The ways a conversion can fail.
///
/// Two silent-drop policies are deliberately *not* errors: an `@`-prefixed
/// key whose value is not a string is dropped without error, and a missing
/// version string falls back to a placeholder comment without error.
#[derive(Debug)]
pub enum ConversionError {
    /// The supplied text is not valid JSON; nothing is transcoded.
    InputParse(String),
    /// The nesting depth of the value tree exceeds the configured ceiling.
    DepthExceeded,
    /// The underlying byte sink rejected a write. The in-memory emitter of
    /// this crate never fails, so the variant exists for hosts that stream
    /// the output to a fallible sink instead.
    EmitterWrite(String),
    /// The accumulated bytes were not valid text at finalize time. Kept as a
    /// defensive part of the taxonomy; the emitter's escaping makes it
    /// unreachable here.
    Encoding(String),
    /// A version string could not be resolved from manifest text.
    Toml(String),
    /// A host-side read or write failed; constructed by the host program.
    Io(String),
}

impl ConversionError {
    /// A human-readable description of the failure.
    pub fn message(&self) -> (r: String)
        ensures
            r@ == match self {
                ConversionError::InputParse(m) => "JSON error: "@ + m@,
                ConversionError::DepthExceeded => "nesting depth exceeds the ceiling"@,
                ConversionError::EmitterWrite(m) => "write error: "@ + m@,
                ConversionError::Encoding(m) => "encoding error: "@ + m@,
                ConversionError::Toml(m) => "TOML error: "@ + m@,
                ConversionError::Io(m) => "IO error: "@ + m@,
            },
    {
        match self {
            ConversionError::InputParse(m) => "JSON error: ".to_owned().concat(m.as_str()),
            ConversionError::DepthExceeded => "nesting depth exceeds the ceiling".to_owned(),
            ConversionError::EmitterWrite(m) => "write error: ".to_owned().concat(m.as_str()),
            ConversionError::Encoding(m) => "encoding error: ".to_owned().concat(m.as_str()),
            ConversionError::Toml(m) => "TOML error: ".to_owned().concat(m.as_str()),
            ConversionError::Io(m) => "IO error: ".to_owned().concat(m.as_str()),
        }
    }
}

} // verus!
