//! The command surface's decision logic: what a given argument list
//! asks the tool to do.

use vstd::prelude::*;
use vstd::string::StringExecFns;
use crate::config::Config;
use crate::errors::CliError;
use crate::dec::{parse_digits, scan_digits};
use crate::chars::{chars_of_str, chars_eq};

verus! {

/// What one invocation asks for.
#[derive(Debug, PartialEq, Eq, Structural)]
pub enum Action {
    ShowHelp,
    EditConfig,
    ListUsers,
    SwitchTo(usize),
}

/// Whether two strings hold the same characters.
fn str_eq(a: &str, b: &str) -> (r: bool)
    ensures
        r == (a@ == b@),
{
    let av = chars_of_str(a);
    let bv = chars_of_str(b);
    chars_eq(&av, &bv)
}

/// Decides what the argument list asks for. The first argument is the
/// program's own name. Alone it asks for the usage text; a single
/// command is one of the fixed words, the previous-identity marker, or
/// a decimal identity index; anything else is rejected with the
/// offending word in the message, and more than one command is a usage
/// error.
pub fn parse(args: &Vec<String>, config: &Config) -> (r: Result<Action, CliError>)
    requires
        args@.len() >= 1,
    ensures
        args@.len() == 1 ==> r == Ok::<Action, CliError>(Action::ShowHelp),
        args@.len() > 2 ==> (r matches Err(e) && e matches CliError::InvalidUsage(m) && m@
            == "Too many arguments provided"@),
        args@.len() == 2 ==> {
            let a = args@[1]@;
            &&& a == "config"@ ==> r == Ok::<Action, CliError>(Action::EditConfig)
            &&& a == "ls"@ || a == "list"@ ==> r == Ok::<Action, CliError>(Action::ListUsers)
            &&& a == "-"@ ==> r == Ok::<Action, CliError>(
                Action::SwitchTo(config.previous_user),
            )
            &&& a != "config"@ && a != "ls"@ && a != "list"@ && a != "-"@ ==> (match parse_digits(
                a,
            ) {
                Some(n) => r == Ok::<Action, CliError>(Action::SwitchTo(n)),
                None => r matches Err(e) && e matches CliError::ParseError(m) && m@ == "'"@ + a
                    + "' is not a valid user ID or command"@,
            })
        },
{
    proof {
        reveal_strlit("config");
        reveal_strlit("ls");
        reveal_strlit("list");
        reveal_strlit("-");
    }
    if args.len() == 1 {
        return Ok(Action::ShowHelp);
    }
    if args.len() > 2 {
        return Err(CliError::InvalidUsage(String::from_str("Too many arguments provided")));
    }
    let command = &args[1];
    if str_eq(command.as_str(), "config") {
        return Ok(Action::EditConfig);
    }
    if str_eq(command.as_str(), "ls") || str_eq(command.as_str(), "list") {
        return Ok(Action::ListUsers);
    }
    if str_eq(command.as_str(), "-") {
        return Ok(Action::SwitchTo(config.previous_user));
    }
    let cchars = chars_of_str(command.as_str());
    assert(cchars@.skip(0) =~= command@);
    match scan_digits(&cchars, 0) {
        Some(n) => Ok(Action::SwitchTo(n)),
        None => {
            let mut msg = String::from_str("'");
            msg.append(command.as_str());
            msg.append("' is not a valid user ID or command");
            Err(CliError::ParseError(msg))
        },
    }
}

} // verus!
