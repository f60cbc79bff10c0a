//! The parameters of the shadowsocks install and update flows, and the
//! partially filled input record their interactive front end completes.

use vstd::prelude::*;

use crate::cipher::Cipher;
use crate::version::Version;

verus! {

/// The complete install parameters.
pub struct Install {
    pub server_port: u32,
    pub server_password: String,
    pub cipher: Cipher,
    pub version: Version,
}

/// The complete update parameters.
pub struct Update {
    pub version: Version,
}

/// The caller-side arguments; any field may still be missing.
pub struct InstallArgs {
    pub port: Option<u32>,
    pub password: Option<String>,
    pub cipher: Option<Cipher>,
    pub version: Option<Version>,
}

/// The arguments of an update.
pub struct UpdateArgs {
    pub version: Option<Version>,
}

/// The input record built up across prompts.
pub struct DataInput {
    pub server_port: Option<u32>,
    pub server_password: Option<String>,
    pub cipher: Option<Cipher>,
    pub version: Option<Version>,
}

impl DataInput {
    /// An empty input record: everything still to be asked.
    pub fn new() -> (r: DataInput)
        ensures
            r.server_port is None,
            r.server_password is None,
            r.cipher is None,
            r.version is None,
    {
        DataInput { server_port: None, server_password: None, cipher: None, version: None }
    }

    /// Overlays command-line arguments on the record: each field only where
    /// supplied.
    pub fn update_from_args(self, args: InstallArgs) -> (r: DataInput)
        ensures
            r.server_port == (if args.port is Some {
                args.port
            } else {
                self.server_port
            }),
            r.server_password == (if args.password is Some {
                args.password
            } else {
                self.server_password
            }),
            r.cipher == (if args.cipher is Some {
                args.cipher
            } else {
                self.cipher
            }),
            r.version == (if args.version is Some {
                args.version
            } else {
                self.version
            }),
    {
        let mut r = self;
        if let arg @ Some(_) = args.port {
            r.server_port = arg;
        }
        if let arg @ Some(_) = args.password {
            r.server_password = arg;
        }
        if let arg @ Some(_) = args.cipher {
            r.cipher = arg;
        }
        if let arg @ Some(_) = args.version {
            r.version = arg;
        }
        r
    }

    /// The completed parameters, owed exactly when every field has been
    /// answered.
    pub fn complete(self) -> (r: Option<Install>)
        ensures
            match r {
                Option::Some(inst) => {
                    &&& self.server_port matches Option::Some(p) && inst.server_port == p
                    &&& self.server_password matches Option::Some(w) && inst.server_password == w
                    &&& self.cipher matches Option::Some(c) && inst.cipher == c
                    &&& self.version matches Option::Some(v) && inst.version == v
                },
                Option::None => self.server_port is None || self.server_password is None
                    || self.cipher is None || self.version is None,
            },
    {
        match (self.server_port, self.server_password, self.cipher, self.version) {
            (Some(server_port), Some(server_password), Some(cipher), Some(version)) => Some(
                Install { server_port, server_password, cipher, version },
            ),
            _ => None,
        }
    }
}

} // verus!
