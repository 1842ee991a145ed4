//! The identity mapper.
//!
//! A platform-neutral `(service, account)` pair is turned into a
//! [`PlatformIdentity`]: a tagged variant over the addressing schemes of the
//! supported backends, one case per backend. Exactly one variant is active
//! per value, and it must match the platform the process runs on; the
//! backend adapters reject a mismatched variant with
//! [`crate::KeyringError::BadIdentityMapPlatform`].

use vstd::prelude::*;
use vstd::string::StringExecFns;

verus! {

/// The supported platforms, one per backend adapter.
#[derive(Clone, Copy, PartialEq, Eq, Structural, Debug)]
pub enum Platform {
    Linux,
    Windows,
    MacOs,
}

/// The address of a secret in a keychain-style backend: a service name and
/// an account name.
#[derive(Clone, Debug)]
pub struct MacCredential {
    pub service: String,
    pub account: String,
}

/// The address of a secret in a vault-style backend: a target name (derived
/// from service and account) plus the account name.
#[derive(Clone, Debug)]
pub struct WinCredential {
    pub username: String,
    pub target_name: String,
}

/// The address of a secret in a secret-service backend: the attributes the
/// entry is looked up by.
#[derive(Clone, Debug)]
pub struct LinuxCredential {
    pub service: String,
    pub account: String,
}

/// A platform-specific identity: exactly one variant is active, and it must
/// match the platform the process is running on.
#[derive(Clone, Debug)]
pub enum PlatformIdentity {
    Linux(LinuxCredential),
    Win(WinCredential),
    Mac(MacCredential),
}

/// The target name a vault-style backend addresses a secret by: the service
/// and account names joined with a dot.
pub open spec fn win_target_name_of(service: Seq<char>, account: Seq<char>) -> Seq<char> {
    service + "."@ + account
}

/// Maps a platform tag and a `(service, account)` pair to the identity
/// variant of that platform. Pure and total: any two strings yield a
/// well-formed identity, and this is the single place where the
/// platform-specific identity shape is decided.
pub fn default_identity_mapper(platform: Platform, service: &str, account: &str) -> (r:
    PlatformIdentity)
    ensures
        match r {
            PlatformIdentity::Linux(c) => {
                &&& platform == Platform::Linux
                &&& c.service@ == service@
                &&& c.account@ == account@
            },
            PlatformIdentity::Win(c) => {
                &&& platform == Platform::Windows
                &&& c.username@ == account@
                &&& c.target_name@ == win_target_name_of(service@, account@)
            },
            PlatformIdentity::Mac(c) => {
                &&& platform == Platform::MacOs
                &&& c.service@ == service@
                &&& c.account@ == account@
            },
        },
{
    match platform {
        Platform::Linux => PlatformIdentity::Linux(
            LinuxCredential { service: String::from_str(service), account: String::from_str(account) },
        ),
        Platform::Windows => {
            let mut target_name = String::from_str(service);
            target_name.append(".");
            target_name.append(account);
            PlatformIdentity::Win(
                WinCredential { username: String::from_str(account), target_name },
            )
        },
        Platform::MacOs => PlatformIdentity::Mac(
            MacCredential { service: String::from_str(service), account: String::from_str(account) },
        ),
    }
}

} // verus!
