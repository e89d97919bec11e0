//! The library's error type.

use vstd::prelude::*;

verus! {

/// What can go wrong while saving.
#[derive(Debug)]
pub enum HtmlSaverError {
    /// A storage backend failed to persist content.
    StorageUpload(String),
    /// The queue to the worker is full, or the worker has stopped.
    ChannelClosed,
    /// A sanitizer failed on its input.
    Sanitizer(String),
    /// The configuration is invalid.
    Config(String),
}

/// A result whose error is [`HtmlSaverError`].
pub type Result<T> = core::result::Result<T, HtmlSaverError>;

pub open spec fn error_text(e: &HtmlSaverError) -> Seq<char> {
    match e {
        HtmlSaverError::StorageUpload(m) => "Storage upload failed: "@ + m@,
        HtmlSaverError::ChannelClosed => "Channel closed or full"@,
        HtmlSaverError::Sanitizer(m) => "Sanitizer error: "@ + m@,
        HtmlSaverError::Config(m) => "Config error: "@ + m@,
    }
}

impl HtmlSaverError {
    /// The error as a message for people.
    pub fn to_string(&self) -> (r: String)
        ensures
            r@ == error_text(self),
    {
        match self {
            HtmlSaverError::StorageUpload(m) => {
                let mut s = "Storage upload failed: ".to_owned();
                s.append(m.as_str());
                s
            },
            HtmlSaverError::ChannelClosed => "Channel closed or full".to_owned(),
            HtmlSaverError::Sanitizer(m) => {
                let mut s = "Sanitizer error: ".to_owned();
                s.append(m.as_str());
                s
            },
            HtmlSaverError::Config(m) => {
                let mut s = "Config error: ".to_owned();
                s.append(m.as_str());
                s
            },
        }
    }
}

} // verus!
