use vstd::prelude::*;
use vstd::string::*;

verus! {

/// A failure of the manifest SDK, as the tool reports it.
#[derive(Debug, PartialEq, Eq)]
pub enum SdkError {
    /// The asset holds no manifest.
    JumbfNotFound,
    /// A file named by the manifest was not found.
    FileNotFound(String),
    UnsupportedType,
    /// The asset holds a manifest from before the first release of the format.
    PrereleaseError,
    /// Any other failure, with the SDK's own description.
    Other(String),
}

impl SdkError {
    /// The text of the message shown for the failure.
    pub open spec fn message_spec(&self) -> Seq<char> {
        match self {
            SdkError::JumbfNotFound => "No claim found"@,
            SdkError::FileNotFound(name) => "File not found: "@ + name@,
            SdkError::UnsupportedType => "Unsupported file type"@,
            SdkError::PrereleaseError => "Prerelease claim found"@,
            SdkError::Other(text) => text@,
        }
    }

    /// The message shown for the failure: the common ones in the tool's words, any
    /// other as the SDK describes it.
    pub fn message(&self) -> (r: String)
        ensures
            r@ == self.message_spec(),
    {
        match self {
            SdkError::JumbfNotFound => "No claim found".to_string(),
            SdkError::FileNotFound(name) => {
                let mut s = "File not found: ".to_string();
                s.append(name.as_str());
                s
            },
            SdkError::UnsupportedType => "Unsupported file type".to_string(),
            SdkError::PrereleaseError => "Prerelease claim found".to_string(),
            SdkError::Other(text) => text.clone(),
        }
    }
}

} // verus!
