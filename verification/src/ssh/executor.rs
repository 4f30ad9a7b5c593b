//! The SSH connection target and the output of one command.
use vstd::prelude::*;

verus! {

/// Where and as whom to connect.
pub struct SshTarget<'a> {
    pub host: &'a str,
    pub port: u16,
    pub username: &'a str,
    pub password: &'a str,
}

/// The result of one command: whether it ran, and its output (or the
/// error message when it did not).
#[derive(Debug, Clone)]
pub struct CmdOutput {
    pub ok: bool,
    pub text: String,
}

} // verus!
