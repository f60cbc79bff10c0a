//! The ordered steps of the install orchestration. Each step has a stable
//! string rendering, used both as the re-invocation argument and in generated
//! text, and a static privilege requirement. The dispatcher recognizes
//! exactly the fixed set of names and nothing else.

use vstd::prelude::*;

use crate::text::str_eq;

verus! {

#[derive(Clone, Copy, PartialEq, Eq, Structural, Debug)]
pub enum InstallStep {
    DownloadBinary,
    InstallBinary,
    ConfigureFirewall,
    ConfigureCertificate,
    ConfigureRemainder,
}

/// The fixed total order in which the steps run.
pub open spec fn step_order() -> Seq<InstallStep> {
    seq![
        InstallStep::DownloadBinary,
        InstallStep::InstallBinary,
        InstallStep::ConfigureFirewall,
        InstallStep::ConfigureCertificate,
        InstallStep::ConfigureRemainder,
    ]
}

/// The stable string rendering of a step.
pub open spec fn step_name(s: InstallStep) -> Seq<char> {
    match s {
        InstallStep::DownloadBinary => "download-binary"@,
        InstallStep::InstallBinary => "install-binary"@,
        InstallStep::ConfigureFirewall => "configure-firewall"@,
        InstallStep::ConfigureCertificate => "configure-certificate"@,
        InstallStep::ConfigureRemainder => "configure-remainder"@,
    }
}

/// The step a name denotes, if it is one of the five fixed names.
pub open spec fn step_from_name(s: Seq<char>) -> Option<InstallStep> {
    if s == step_name(InstallStep::DownloadBinary) {
        Option::Some(InstallStep::DownloadBinary)
    } else if s == step_name(InstallStep::InstallBinary) {
        Option::Some(InstallStep::InstallBinary)
    } else if s == step_name(InstallStep::ConfigureFirewall) {
        Option::Some(InstallStep::ConfigureFirewall)
    } else if s == step_name(InstallStep::ConfigureCertificate) {
        Option::Some(InstallStep::ConfigureCertificate)
    } else if s == step_name(InstallStep::ConfigureRemainder) {
        Option::Some(InstallStep::ConfigureRemainder)
    } else {
        Option::None
    }
}

/// Whether a step must run with elevated privileges. Downloading and
/// certificate issuance run as the operator; installing into system paths,
/// changing the firewall and writing service configuration need elevation.
pub open spec fn step_needs_elevation(s: InstallStep) -> bool {
    match s {
        InstallStep::DownloadBinary => false,
        InstallStep::InstallBinary => true,
        InstallStep::ConfigureFirewall => true,
        InstallStep::ConfigureCertificate => false,
        InstallStep::ConfigureRemainder => true,
    }
}

impl InstallStep {
    /// All steps, in execution order.
    pub fn values() -> (r: Vec<InstallStep>)
        ensures
            r@ == step_order(),
    {
        let mut v: Vec<InstallStep> = Vec::new();
        v.push(InstallStep::DownloadBinary);
        v.push(InstallStep::InstallBinary);
        v.push(InstallStep::ConfigureFirewall);
        v.push(InstallStep::ConfigureCertificate);
        v.push(InstallStep::ConfigureRemainder);
        proof {
            assert(v@ =~= step_order());
        }
        v
    }

    /// The stable string rendering of this step.
    pub fn as_str(&self) -> (r: &'static str)
        ensures
            r@ == step_name(*self),
    {
        match self {
            InstallStep::DownloadBinary => "download-binary",
            InstallStep::InstallBinary => "install-binary",
            InstallStep::ConfigureFirewall => "configure-firewall",
            InstallStep::ConfigureCertificate => "configure-certificate",
            InstallStep::ConfigureRemainder => "configure-remainder",
        }
    }

    /// The step a name denotes; `None` for anything but the five fixed names.
    pub fn from_str(s: &str) -> (r: Option<InstallStep>)
        ensures
            r == step_from_name(s@),
    {
        if str_eq(s, "download-binary") {
            Some(InstallStep::DownloadBinary)
        } else if str_eq(s, "install-binary") {
            Some(InstallStep::InstallBinary)
        } else if str_eq(s, "configure-firewall") {
            Some(InstallStep::ConfigureFirewall)
        } else if str_eq(s, "configure-certificate") {
            Some(InstallStep::ConfigureCertificate)
        } else if str_eq(s, "configure-remainder") {
            Some(InstallStep::ConfigureRemainder)
        } else {
            None
        }
    }

    /// Whether this step must run with elevated privileges.
    pub fn needs_elevation(&self) -> (r: bool)
        ensures
            r == step_needs_elevation(*self),
    {
        match self {
            InstallStep::DownloadBinary => false,
            InstallStep::InstallBinary => true,
            InstallStep::ConfigureFirewall => true,
            InstallStep::ConfigureCertificate => false,
            InstallStep::ConfigureRemainder => true,
        }
    }
}

/// Rendering a step name and reading it back returns the step: the
/// re-invocation argument round-trips.
pub proof fn lemma_step_name_round_trip(s: InstallStep)
    ensures
        step_from_name(step_name(s)) == Option::Some(s),
{
    reveal_strlit("download-binary");
    reveal_strlit("install-binary");
    reveal_strlit("configure-firewall");
    reveal_strlit("configure-certificate");
    reveal_strlit("configure-remainder");
    assert(("download-binary")@.len() == 15);
    assert(("install-binary")@.len() == 14);
    assert(("configure-firewall")@.len() == 18);
    assert(("configure-certificate")@.len() == 21);
    assert(("configure-remainder")@.len() == 19);
}

} // verus!
