//! `chopper-exe`: the launcher without built-ins.
use crate::cli::{invocation_result, parse_invocation_as, CliError, InvocationInput, Launcher};
use crate::text::views;
use vstd::prelude::*;

verus! {

/// `chopper-exe`'s command line: started as `chopper-exe` (or
/// `chopper_exe`) the first argument names the alias, otherwise the name it
/// was started under does.
pub fn parse_invocation(args: &[String]) -> (r: Result<InvocationInput, CliError>)
    ensures
        match invocation_result(views(args@), Launcher::ChopperExe) {
            Ok((alias, pass)) => r is Ok && r->Ok_0.alias@ == alias && views(
                r->Ok_0.passthrough_args@,
            ) == pass,
            Err(e) => r == Err::<InvocationInput, CliError>(e),
        },
{
    parse_invocation_as(args, Launcher::ChopperExe)
}

} // verus!
