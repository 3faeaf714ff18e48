//! Error types shared by the audio, analysis and feature-gating code, with
//! the text each one is shown as.
use vstd::prelude::*;
use vstd::string::StringExecFns;

verus! {

/// An operation that needs a feature the build leaves out.
#[derive(Debug, Clone)]
pub struct FeatureDisabledError {
    msg: String,
}

impl View for FeatureDisabledError {
    type V = Seq<char>;

    /// The description of the disabled feature.
    closed spec fn view(&self) -> Seq<char> {
        self.msg@
    }
}

impl FeatureDisabledError {
    /// An error describing the disabled feature with `msg`.
    pub fn new(msg: &str) -> (e: FeatureDisabledError)
        ensures
            e@ == msg@,
    {
        FeatureDisabledError { msg: String::from_str(msg) }
    }

    /// The text the error is shown as.
    pub fn message(&self) -> (m: String)
        ensures
            m@ == "feature disabled: "@ + self@,
    {
        let mut m = String::from_str("feature disabled: ");
        m.append(self.msg.as_str());
        m
    }
}

/// Failures of audio devices and streams.
#[derive(Debug, Clone)]
pub enum AudioError {
    Unknown(String),
    DeviceNotFound(String),
    DeviceNotAvailable(String),
}

impl AudioError {
    /// The text the error is shown as.
    pub fn message(&self) -> (m: String)
        ensures
            m@ == match self {
                AudioError::Unknown(msg) => "audio error: "@ + msg@,
                AudioError::DeviceNotFound(d) => "device \""@ + d@ + "\" was not found"@,
                AudioError::DeviceNotAvailable(d) => "device \""@ + d@ + "\" is not available"@,
            },
    {
        match self {
            AudioError::Unknown(msg) => {
                let mut m = String::from_str("audio error: ");
                m.append(msg.as_str());
                m
            },
            AudioError::DeviceNotFound(d) => {
                let mut m = String::from_str("device \"");
                m.append(d.as_str());
                m.append("\" was not found");
                m
            },
            AudioError::DeviceNotAvailable(d) => {
                let mut m = String::from_str("device \"");
                m.append(d.as_str());
                m.append("\" is not available");
                m
            },
        }
    }
}

/// Failures of an audio analysis.
#[derive(Debug, Clone)]
pub enum AudioAnalysisError {
    Unknown(String),
}

impl AudioAnalysisError {
    /// The text the error is shown as.
    pub fn message(&self) -> (m: String)
        ensures
            m@ == match self {
                AudioAnalysisError::Unknown(msg) => "analysis error: "@ + msg@,
            },
    {
        match self {
            AudioAnalysisError::Unknown(msg) => {
                let mut m = String::from_str("analysis error: ");
                m.append(msg.as_str());
                m
            },
        }
    }
}

} // verus!
