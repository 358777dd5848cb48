//! Loading the memo file: what the program does with the outcome of
//! reading it. The reading and writing themselves are file I/O done by
//! the program around this library.
use vstd::prelude::*;
use crate::config::{height_from_lines, Config};
use crate::constants::DEFAULT_HEIGHT;
use crate::document::{parse_notes, Document, ParseError};
use crate::text::text_lines;

verus! {

/// `std::io::Error`, the error of a failed file read, declared so that a
/// load error can carry it. Verus sees nothing inside it; it is only
/// passed on.
#[verifier::external_type_specification]
#[verifier::external_body]
pub struct ExIoError(std::io::Error);

/// `std::path::Path`, a borrowed file-system path, declared so that the
/// memo file's path can be formed here. Verus sees nothing inside it.
#[verifier::external_type_specification]
#[verifier::external_body]
pub struct ExPath(std::path::Path);

/// `std::path::PathBuf`, an owned file-system path. Verus sees nothing
/// inside it.
#[verifier::external_type_specification]
#[verifier::external_body]
pub struct ExPathBuf(std::path::PathBuf);

/// The memo file `file_name` in `directory`, by `Path::join`: the name
/// adjoined to the directory (a path is opaque here, so nothing is stated
/// of the result).
#[verifier::external_body]
pub fn memo_path(directory: &std::path::Path, file_name: &str) -> std::path::PathBuf {
    directory.join(file_name)
}

/// Why the memo file could not be loaded.
#[derive(Debug)]
pub enum LoadError {
    Io(std::io::Error),
    Parse(ParseError),
}

impl From<ParseError> for LoadError {
    fn from(error: ParseError) -> (out: Self) {
        LoadError::Parse(error)
    }
}

impl vstd::std_specs::convert::FromSpecImpl<ParseError> for LoadError {
    open spec fn obeys_from_spec() -> bool {
        true
    }

    open spec fn from_spec(error: ParseError) -> Self {
        LoadError::Parse(error)
    }
}

impl From<std::io::Error> for LoadError {
    fn from(error: std::io::Error) -> (out: Self) {
        LoadError::Io(error)
    }
}

impl vstd::std_specs::convert::FromSpecImpl<std::io::Error> for LoadError {
    open spec fn obeys_from_spec() -> bool {
        true
    }

    open spec fn from_spec(error: std::io::Error) -> Self {
        LoadError::Io(error)
    }
}

/// What reading a file gave.
pub enum ReadOutcome {
    /// The file was read; this is its text.
    Text(String),
    /// There is no memo file yet.
    Missing,
    /// Reading failed for another reason.
    Failed(std::io::Error),
}

/// The document that a read of the memo file yields, and whether the file
/// is new: missing files start as a document with one empty note (to be
/// written out by the caller), read text is parsed, and any other read
/// failure is passed on.
pub fn load_outcome(outcome: ReadOutcome) -> (result: Result<(Document, bool), LoadError>)
    ensures
        match outcome {
            ReadOutcome::Text(text) => match result {
                Ok((doc, created)) => !created && parse_notes(text@) == Some(doc@),
                Err(LoadError::Parse(_)) => parse_notes(text@) is None,
                Err(LoadError::Io(_)) => false,
            },
            ReadOutcome::Missing => match result {
                Ok((doc, created)) => created && doc@ == seq![Seq::<char>::empty()],
                Err(_) => false,
            },
            ReadOutcome::Failed(error) => result == Err::<(Document, bool), LoadError>(
                LoadError::Io(error),
            ),
        },
{
    match outcome {
        ReadOutcome::Text(text) => match Document::parse(text.as_str()) {
            Ok(doc) => Ok((doc, false)),
            Err(error) => Err(LoadError::Parse(error)),
        },
        ReadOutcome::Missing => Ok((Document::new(), true)),
        ReadOutcome::Failed(error) => Err(LoadError::Io(error)),
    }
}

/// The settings that a read of the settings file yields: read text is
/// parsed, a missing file gives the defaults, and any other read failure
/// is passed on.
pub fn config_outcome(outcome: ReadOutcome) -> (result: Result<Config, std::io::Error>)
    ensures
        match outcome {
            ReadOutcome::Text(text) => match result {
                Ok(config) => config.default_height == height_from_lines(text_lines(text@)),
                Err(_) => false,
            },
            ReadOutcome::Missing => match result {
                Ok(config) => config.default_height == DEFAULT_HEIGHT,
                Err(_) => false,
            },
            ReadOutcome::Failed(error) => result == Err::<Config, std::io::Error>(error),
        },
{
    match outcome {
        ReadOutcome::Text(text) => Ok(Config::parse(text.as_str())),
        ReadOutcome::Missing => Ok(Config::default()),
        ReadOutcome::Failed(error) => Err(error),
    }
}

} // verus!
