//! Decisions of the experimental command surface.
//!
//! The network-kernel-arguments sub-command consults the kernel command
//! line and the selected provider, then either leaves the configuration
//! alone or writes arguments out. Reading the command line, asking the
//! provider and writing the file are I/O done by the command surface
//! around this crate; the decision between them is verified here.

use vstd::prelude::*;

verus! {

/// What the network-kernel-arguments sub-command decides to do.
#[derive(Debug)]
pub enum KargsDecision {
    /// The kernel command line already configures the network: change
    /// nothing.
    Keep,
    /// Write these network arguments out.
    Write { kargs: String },
}

/// Configuration of the network-kernel-arguments sub-command.
#[derive(Debug)]
pub struct CliRdNetworkKargs {
    /// The platform whose provider is asked for arguments.
    pub platform: String,
    /// What to write when the provider offers none.
    pub default_kargs: String,
}

/// The experimental sub-commands.
#[derive(Debug)]
pub enum CliExp {
    RdNetworkKargs(CliRdNetworkKargs),
}

/// The sub-command's decision rule: an already-configured command line is
/// left alone; otherwise the provider's arguments are written, or the
/// default when the provider offers none.
pub open spec fn kargs_decision_rel(
    cmd: CliRdNetworkKargs,
    cmdline_has_kargs: bool,
    provider_kargs: Option<String>,
    r: KargsDecision,
) -> bool {
    if cmdline_has_kargs {
        r is Keep
    } else {
        match provider_kargs {
            Some(k) => r == (KargsDecision::Write { kargs: k }),
            None => r == (KargsDecision::Write { kargs: cmd.default_kargs }),
        }
    }
}

impl CliRdNetworkKargs {
    pub fn new(platform: String, default_kargs: String) -> (r: Self)
        ensures
            r.platform == platform,
            r.default_kargs == default_kargs,
    {
        CliRdNetworkKargs { platform, default_kargs }
    }

    /// Decides what the sub-command does, given whether the kernel command
    /// line already carries network arguments and what the provider
    /// offered.
    pub fn run(&self, cmdline_has_kargs: bool, provider_kargs: Option<String>) -> (r: KargsDecision)
        ensures
            kargs_decision_rel(*self, cmdline_has_kargs, provider_kargs, r),
    {
        if cmdline_has_kargs {
            KargsDecision::Keep
        } else {
            match provider_kargs {
                Some(k) => KargsDecision::Write { kargs: k },
                None => KargsDecision::Write { kargs: self.default_kargs.clone() },
            }
        }
    }
}

impl CliExp {
    /// Runs the decision step of the selected sub-command.
    pub fn run(&self, cmdline_has_kargs: bool, provider_kargs: Option<String>) -> (r: KargsDecision)
        ensures
            match self {
                CliExp::RdNetworkKargs(cmd) => kargs_decision_rel(
                    *cmd,
                    cmdline_has_kargs,
                    provider_kargs,
                    r,
                ),
            },
    {
        match self {
            CliExp::RdNetworkKargs(cmd) => cmd.run(cmdline_has_kargs, provider_kargs),
        }
    }
}

} // verus!
