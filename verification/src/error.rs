//! The library's error type.
//!
//! Per-frame trouble (a decode, inference, annotation or save failure) never
//! becomes an error value: the affected frame is dropped and processing goes
//! on. `AppError` is reserved for invocation-level failures that abort a whole
//! run.

use vstd::prelude::*;

verus! {

/// An invocation-level failure.
#[derive(Debug, Clone, PartialEq, Eq)]
pub enum AppError {
    /// The TOML configuration could not be parsed.
    TomlConfig(String),
    /// An unrecoverable filesystem error, such as failing to clear or create
    /// the destination directory.
    Io(String),
    /// The configured device specification was not understood by the engine.
    InvalidDevice(String),
    /// The model could not be loaded.
    ModelLoad(String),
    /// A single image could not be loaded where that is fatal.
    ImageLoad(String),
    /// Collecting images from a source directory failed: the directory does
    /// not exist.
    ImageCollection(String),
    /// A font needed for annotation could not be loaded.
    FontLoad(String),
    /// The inference engine reported an invocation-level failure.
    Inference(String),
    /// The invocation was configured inconsistently.
    Config(String),
}

impl AppError {
    /// A human-readable description of the error.
    pub fn message(&self) -> (r: String)
        ensures
            r@ == self.spec_message(),
    {
        match self {
            AppError::TomlConfig(s) => String::from_str("TOML config file error: ").concat(
                s.as_str(),
            ),
            AppError::Io(s) => String::from_str("IO error: ").concat(s.as_str()),
            AppError::InvalidDevice(s) => String::from_str(
                "Invalid device specification: ",
            ).concat(s.as_str()),
            AppError::ModelLoad(s) => String::from_str("Model loading failed: ").concat(
                s.as_str(),
            ),
            AppError::ImageLoad(s) => String::from_str("Image loading failed: ").concat(
                s.as_str(),
            ),
            AppError::ImageCollection(s) => String::from_str("Image collection failed: ").concat(
                s.as_str(),
            ),
            AppError::FontLoad(s) => String::from_str("Font loading failed: ").concat(s.as_str()),
            AppError::Inference(s) => String::from_str("YOLO inference error: ").concat(
                s.as_str(),
            ),
            AppError::Config(s) => String::from_str("Invalid configuration: ").concat(s.as_str()),
        }
    }

    /// What `message` returns: a fixed prefix naming the error class, then the
    /// detail string carried by the variant.
    pub open spec fn spec_message(&self) -> Seq<char> {
        match self {
            AppError::TomlConfig(s) => "TOML config file error: "@ + s@,
            AppError::Io(s) => "IO error: "@ + s@,
            AppError::InvalidDevice(s) => "Invalid device specification: "@ + s@,
            AppError::ModelLoad(s) => "Model loading failed: "@ + s@,
            AppError::ImageLoad(s) => "Image loading failed: "@ + s@,
            AppError::ImageCollection(s) => "Image collection failed: "@ + s@,
            AppError::FontLoad(s) => "Font loading failed: "@ + s@,
            AppError::Inference(s) => "YOLO inference error: "@ + s@,
            AppError::Config(s) => "Invalid configuration: "@ + s@,
        }
    }
}

} // verus!
