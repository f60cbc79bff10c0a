//! The action selected on the command line for the legacy shadowsocks setup
//! flow: an install with its parameters, or an undo.

use vstd::prelude::*;

verus! {

pub enum Action {
    Install(Install),
    Undo(Undo),
}

/// The parameters of an undo: which installation type to remove.
pub struct Undo {
    pub ss_type: String,
}

/// The parameters of an install, kept in the string form they were given.
pub struct Install {
    pub ss_type: String,
    pub server_port: String,
    pub server_password: String,
    pub cipher: String,
}

impl Undo {
    pub fn new(ss_type: &str) -> (r: Undo)
        ensures
            r.ss_type@ == ss_type@,
    {
        Undo { ss_type: ss_type.to_owned() }
    }
}

impl Install {
    pub fn new(ss_type: &str, server_port: &str, server_password: &str, cipher: &str) -> (r:
        Install)
        ensures
            r.ss_type@ == ss_type@,
            r.server_port@ == server_port@,
            r.server_password@ == server_password@,
            r.cipher@ == cipher@,
    {
        Install {
            ss_type: ss_type.to_owned(),
            server_port: server_port.to_owned(),
            server_password: server_password.to_owned(),
            cipher: cipher.to_owned(),
        }
    }
}

impl Action {
    /// The install parameters, when this action is an install.
    pub fn get_install(&self) -> (r: Option<&Install>)
        ensures
            match r {
                Option::Some(i) => self matches Action::Install(j) && i == j,
                Option::None => self is Undo,
            },
    {
        match self {
            Action::Install(i) => Some(i),
            Action::Undo(_) => None,
        }
    }
}

} // verus!
