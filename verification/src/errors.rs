//! Error reporting for the audio capture boundary.

use vstd::prelude::*;

verus! {

use vstd::string::StringExecFns;

/// DeviceError is returned when there is an error with the audio device.
/// The first field is a description of the failure; the second holds the
/// rendered underlying cause, when one exists.
pub struct DeviceError(pub String, pub Option<String>);

impl DeviceError {
    /// The full human-readable message: a fixed prefix, the description,
    /// then the cause (or nothing, when there is none).
    pub open spec fn spec_message(self) -> Seq<char> {
        "Audio Device Error: "@ + self.0@ + match self.1 {
            Some(cause) => cause@,
            None => Seq::<char>::empty(),
        }
    }

    /// Renders the error as text, prefix first, cause last.
    pub fn message(&self) -> (r: String)
        ensures
            r@ == self.spec_message(),
    {
        let mut out = String::from_str("Audio Device Error: ");
        out.append(self.0.as_str());
        match &self.1 {
            Some(cause) => {
                out.append(cause.as_str());
            }
            None => {}
        }
        out
    }
}

} // verus!
