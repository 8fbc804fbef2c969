//! The command line that runs a bash function from its script file.
use crate::paths::{file_name_of, parent_of, path_file_name, path_parent};
use crate::script::error::ParseError;
pub use crate::script::utils::is_valid_bash_identifier;
use crate::script::utils::is_bash_identifier;
use vstd::prelude::*;

verus! {

/// The `bash -c` command that runs `function` from the script at `path`:
/// `cd "<dir>" && source "<file>" && <function>`, or the error that stops it.
pub open spec fn function_invocation_of(path: Seq<char>, function: Seq<char>) -> Result<Seq<char>, Seq<char>> {
    match parent_of(path) {
        None => Err("Failed to get parent directory for: "@ + path),
        Some(dir) => match file_name_of(path) {
            None => Err("Invalid script filename: "@ + path),
            Some(file) => if function.len() == 0 {
                Err("Function name cannot be empty"@)
            } else if !is_bash_identifier(function) {
                Err("Invalid function name '"@ + function + "'. Must be a valid bash identifier."@)
            } else {
                Ok("cd \""@ + dir + "\" && source \""@ + file + "\" && "@ + function)
            },
        },
    }
}

fn err(prefix: &str, s: &str, suffix: &str) -> (r: ParseError)
    ensures
        r.message@ == prefix@ + s@ + suffix@,
{
    let mut m = String::from_str(prefix);
    m.append(s);
    m.append(suffix);
    ParseError { message: m }
}

fn err2(prefix: &str, s: &str) -> (r: ParseError)
    ensures
        r.message@ == prefix@ + s@,
{
    let mut m = String::from_str(prefix);
    m.append(s);
    ParseError { message: m }
}

/// Checks the function name and builds the command that sources the script
/// from its own directory and calls the function.
pub fn function_invocation(script_path: &str, function_name: &str) -> (r: Result<String, ParseError>)
    ensures
        match (r, function_invocation_of(script_path@, function_name@)) {
            (Ok(c), Ok(s)) => c@ == s,
            (Err(e), Err(m)) => e.message@ == m,
            _ => false,
        },
{
    let dir = match path_parent(script_path) {
        Some(d) => d,
        None => {
            return Err(err2("Failed to get parent directory for: ", script_path));
        },
    };
    let file = match path_file_name(script_path) {
        Some(f) => f,
        None => {
            return Err(err2("Invalid script filename: ", script_path));
        },
    };
    if function_name.is_empty() {
        return Err(ParseError { message: String::from_str("Function name cannot be empty") });
    }
    if !is_valid_bash_identifier(function_name) {
        return Err(err("Invalid function name '", function_name, "'. Must be a valid bash identifier."));
    }
    let mut c = String::from_str("cd \"");
    c.append(dir.as_str());
    c.append("\" && source \"");
    c.append(file.as_str());
    c.append("\" && ");
    c.append(function_name);
    Ok(c)
}

} // verus!
