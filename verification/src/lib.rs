//! Typed host-language bindings for the interface of a pair of GLSL shaders.
//!
//! A watch session feeds change events to the `debounce` module; a fired
//! event is paired with its sibling shader (`pairing`), both sources are
//! parsed (`front_end`) and read (`extractor`), the two interfaces are
//! checked against each other and merged (`validator`), and the merged
//! interface is rendered as a binding file (`generator`). The `imports`
//! module resolves the import directives of a shader, and `orchestrator`
//! orders the steps of a cycle. Reading, writing, watching and waiting are
//! the caller's.

use vstd::prelude::*;

pub mod cli;
pub mod cycle;
pub mod debounce;
pub mod debounce_laws;
pub mod extractor;
pub mod front_end;
pub mod generator;
pub mod imports;
pub mod interface;
pub mod orchestrator;
pub mod pairing;
pub mod paths;
pub mod syntax;
pub mod text;
pub mod validator;

verus! {

/// The entry point of a host: decides how a watch session starts, as
/// `cli::start` does.
pub fn start_cli(args: cli::Args, input_exists: bool, output_exists: bool) -> (outcome: Result<
    cli::StartPlan,
    cli::StartError,
>)
    ensures
        match cli::start_outcome(
            args.input_float@,
            args.output_folder@,
            args.language@,
            input_exists,
            output_exists,
        ) {
            Ok((create_input, create_output, dialect)) => outcome == Ok::<cli::StartPlan, cli::StartError>(
                cli::StartPlan {
                    input_folder: args.input_float,
                    create_input_folder: create_input,
                    output_folder: args.output_folder,
                    create_output_folder: create_output,
                    dialect,
                    debounce_window: cli::DEBOUNCE_WINDOW_MS,
                },
            ),
            Err(error) => outcome == Err::<cli::StartPlan, cli::StartError>(error),
        },
{
    cli::start(args, input_exists, output_exists)
}

} // verus!
