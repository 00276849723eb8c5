use vstd::prelude::*;
use vstd::string::StringExecFns;
use crate::errors::Error;

verus! {

/// What the caller learned about the directory path it was handed: the
/// path's display text (rendered lossily by the caller) and whether the
/// path exists on disk at call time.
pub struct PathStatus {
    pub text: String,
    pub exists: bool,
}

/// The executable to invoke on the given host: the tool ships a
/// `.cmd`-suffixed binary on Windows-family systems and a bare-named one
/// everywhere else.
pub fn executable_name(windows: bool) -> (r: String)
    ensures
        windows ==> r@ == "devcontainer.cmd"@,
        !windows ==> r@ == "devcontainer"@,
{
    if windows {
        String::from_str("devcontainer.cmd")
    } else {
        String::from_str("devcontainer")
    }
}

/// Decide the argument list for the external tool, validating the path
/// first.
///
/// The fixed read-configuration subcommand is always the first argument.
/// With no path, it is the only one. With a path that exists, the path's
/// display text is appended as the second argument. With a path that does
/// not exist, the call fails with the invalid-path error naming that text,
/// and the caller must not invoke the tool.
pub fn plan_invocation(path: Option<PathStatus>) -> (r: Result<Vec<String>, Error>)
    ensures
        (match path {
            None => r matches Ok(args) && args@.len() == 1 && args@[0]@ == "read-configuration"@,
            Some(p) => if p.exists {
                r matches Ok(args) && args@.len() == 2 && args@[0]@ == "read-configuration"@
                    && args@[1]@ == p.text@
            } else {
                r matches Err(e) && e matches Error::InvalidPath(t) && t@ == p.text@
            },
        }),
{
    let mut args: Vec<String> = Vec::new();
    args.push(String::from_str("read-configuration"));
    match path {
        None => Ok(args),
        Some(p) => {
            if !p.exists {
                Err(Error::InvalidPath(p.text))
            } else {
                args.push(p.text);
                Ok(args)
            }
        },
    }
}

} // verus!
