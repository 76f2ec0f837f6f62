//! The start of a watch session.
//!
//! The caller parses the command line and asks the file system whether the
//! two folders exist; this module decides what is to be done with them. A
//! folder that does not exist is created where it is the default folder, and
//! is an error otherwise.

use crate::generator::{dialect_named, Dialect};
use crate::text::same_text;
use vstd::prelude::*;

verus! {

/// The quiescence window of a watch session, in milliseconds.
pub const DEBOUNCE_WINDOW_MS: u64 = 10;

/// The arguments of the command line.
#[derive(Clone, Debug, PartialEq, Eq)]
pub struct Args {
    /// The folder that holds the shader files.
    pub input_float: String,
    /// The folder that the binding files are written to.
    pub output_folder: String,
    /// The identifier of the language of the binding files.
    pub language: String,
}

/// Why a watch session cannot start.
#[derive(Clone, Copy, Debug, PartialEq, Eq, Structural)]
pub enum StartError {
    /// The input folder does not exist and is not the default one.
    MissingInputFolder,
    /// The output folder does not exist and is not the default one.
    MissingOutputFolder,
    /// This library renders no binding files in the language asked for.
    UnsupportedLanguage,
}

/// What the caller is to do before it watches the input folder.
#[derive(Clone, Debug, PartialEq, Eq)]
pub struct StartPlan {
    pub input_folder: String,
    /// Whether the input folder is to be created first.
    pub create_input_folder: bool,
    pub output_folder: String,
    /// Whether the output folder is to be created first.
    pub create_output_folder: bool,
    pub dialect: Dialect,
    /// The quiescence window of the debouncer, in milliseconds.
    pub debounce_window: u64,
}

/// The default input folder.
pub open spec fn default_input_folder() -> Seq<char> {
    "shaders"@
}

/// The default output folder.
pub open spec fn default_output_folder() -> Seq<char> {
    "output"@
}

/// Whether a folder is to be created: `Some(false)` for one that exists,
/// `Some(true)` for a default folder that does not, `None` for any other.
pub open spec fn folder_plan(folder: Seq<char>, exists: bool, default: Seq<char>) -> Option<bool> {
    if exists {
        Some(false)
    } else if folder == default {
        Some(true)
    } else {
        None
    }
}

/// What the start of a session yields. The input folder is looked at first,
/// then the output folder, then the language.
pub open spec fn start_outcome(
    input_folder: Seq<char>,
    output_folder: Seq<char>,
    language: Seq<char>,
    input_exists: bool,
    output_exists: bool,
) -> Result<(bool, bool, Dialect), StartError> {
    match folder_plan(input_folder, input_exists, default_input_folder()) {
        None => Err(StartError::MissingInputFolder),
        Some(create_input) => match folder_plan(output_folder, output_exists, default_output_folder()) {
            None => Err(StartError::MissingOutputFolder),
            Some(create_output) => if language == "ts"@ {
                Ok((create_input, create_output, Dialect::TypeScript))
            } else {
                Err(StartError::UnsupportedLanguage)
            },
        },
    }
}

/// Whether a folder is to be created.
pub fn plan_folder(folder: &str, exists: bool, default: &str) -> (plan: Option<bool>)
    ensures
        plan == folder_plan(folder@, exists, default@),
{
    if exists {
        Some(false)
    } else if same_text(folder, default) {
        Some(true)
    } else {
        None
    }
}

/// Decides how a watch session starts. `input_exists` and `output_exists`
/// say whether the two folders of `args` exist.
pub fn start(args: Args, input_exists: bool, output_exists: bool) -> (outcome: Result<StartPlan, StartError>)
    ensures
        match start_outcome(args.input_float@, args.output_folder@, args.language@, input_exists, output_exists) {
            Ok((create_input, create_output, dialect)) => outcome == Ok::<StartPlan, StartError>(
                StartPlan {
                    input_folder: args.input_float,
                    create_input_folder: create_input,
                    output_folder: args.output_folder,
                    create_output_folder: create_output,
                    dialect,
                    debounce_window: DEBOUNCE_WINDOW_MS,
                },
            ),
            Err(error) => outcome == Err::<StartPlan, StartError>(error),
        },
{
    let create_input_folder = match plan_folder(args.input_float.as_str(), input_exists, "shaders") {
        Some(create) => create,
        None => {
            return Err(StartError::MissingInputFolder);
        },
    };
    let create_output_folder = match plan_folder(args.output_folder.as_str(), output_exists, "output") {
        Some(create) => create,
        None => {
            return Err(StartError::MissingOutputFolder);
        },
    };
    let dialect = match dialect_named(args.language.as_str()) {
        Some(dialect) => dialect,
        None => {
            return Err(StartError::UnsupportedLanguage);
        },
    };
    Ok(
        StartPlan {
            input_folder: args.input_float,
            create_input_folder,
            output_folder: args.output_folder,
            create_output_folder,
            dialect,
            debounce_window: DEBOUNCE_WINDOW_MS,
        },
    )
}

} // verus!
