//! The identity of the machine, which binds a vault to the host that made it.
//!
//! What identifies a host differs by platform: a MAC address, a machine GUID
//! from the registry, or the names of host and user. Whoever starts the
//! program gathers what the platform offers; this module turns it into the
//! one string that goes into the key derivation.

use vstd::prelude::*;
use vstd::string::StringExecFns;
use crate::text::{chars_of, starts_with};

verus! {

/// What the platform offers to identify the host by.
#[derive(Debug, Clone)]
pub enum HardwareSource {
    /// The address of a network card, as hexadecimal bytes joined by colons.
    MacAddress(String),
    /// The machine GUID of a Windows installation, with its hyphens.
    MachineGuid(String),
    /// Host and user name on a platform whose hardware identifier could not
    /// be read.
    Fallback { hostname: Option<String>, user: Option<String> },
    /// Host and user name on a platform without a hardware identifier.
    HostUser { hostname: Option<String>, user: Option<String> },
}

/// The characters of `s` other than `c`, in order.
pub open spec fn without(s: Seq<char>, c: char) -> Seq<char>
    decreases s.len(),
{
    if s.len() == 0 {
        Seq::empty()
    } else if s.last() == c {
        without(s.drop_last(), c)
    } else {
        without(s.drop_last(), c).push(s.last())
    }
}

/// A name, or what stands for it when the platform gives none.
pub open spec fn name_or(name: Option<String>, fallback: Seq<char>) -> Seq<char> {
    match name {
        Some(n) => n@,
        None => fallback,
    }
}

/// What every machine identity begins with.
pub open spec fn identity_prefix() -> Seq<char> {
    "ROKIO-"@
}

/// The identity of the host described by `source`.
pub open spec fn machine_id(source: HardwareSource) -> Seq<char> {
    match source {
        HardwareSource::MacAddress(address) => "ROKIO-MAC-"@ + without(address@, ':'),
        HardwareSource::MachineGuid(guid) => "ROKIO-WIN-"@ + without(guid@, '-'),
        HardwareSource::Fallback { hostname, user } => "ROKIO-FALLBACK-"@ + name_or(
            hostname,
            "unknown"@,
        ) + "-"@ + name_or(user, "user"@),
        HardwareSource::HostUser { hostname, user } => "ROKIO-LINUX-"@ + name_or(
            hostname,
            "unknown"@,
        ) + "-"@ + name_or(user, "user"@),
    }
}

/// Every machine identity begins with `ROKIO-`, so none is empty.
pub proof fn lemma_machine_id_prefix(source: HardwareSource)
    ensures
        starts_with(machine_id(source), identity_prefix()),
        machine_id(source).len() >= 6,
{
    reveal_strlit("ROKIO-");
    reveal_strlit("ROKIO-MAC-");
    reveal_strlit("ROKIO-WIN-");
    reveal_strlit("ROKIO-FALLBACK-");
    reveal_strlit("ROKIO-LINUX-");
    let id = machine_id(source);
    assert(id.len() >= 6);
    assert(id.subrange(0, 6) =~= "ROKIO-"@);
}

/// Appends the characters of `s` other than `c` to `out`.
fn push_without(out: &mut String, s: &str, c: char)
    ensures
        final(out)@ == old(out)@ + without(s@, c),
{
    let chars: Vec<char> = chars_of(s);
    let mut i: usize = 0;
    proof {
        assert(chars@.take(0) =~= Seq::<char>::empty());
    }
    while i < chars.len()
        invariant
            i <= chars@.len(),
            out@ == old(out)@ + without(chars@.take(i as int), c),
        decreases chars@.len() - i,
    {
        proof {
            assert(chars@.take(i + 1).drop_last() =~= chars@.take(i as int));
            assert(chars@.take(i + 1).last() == chars@[i as int]);
        }
        if chars[i] != c {
            out.push(chars[i]);
        }
        i = i + 1;
    }
    proof {
        assert(chars@.take(chars@.len() as int) =~= chars@);
    }
}

/// Appends `hostname-user` to `out`, with `unknown` and `user` for a
/// missing name.
fn push_host_user(out: &mut String, hostname: &Option<String>, user: &Option<String>)
    ensures
        final(out)@ == old(out)@ + name_or(*hostname, "unknown"@) + "-"@ + name_or(
            *user,
            "user"@,
        ),
{
    match hostname {
        Some(name) => out.append(name.as_str()),
        None => out.append("unknown"),
    }
    out.append("-");
    match user {
        Some(name) => out.append(name.as_str()),
        None => out.append("user"),
    }
}

/// The identity of the host described by `source`: never empty, the same
/// for the same source, and beginning with `ROKIO-`.
pub fn get_machine_id(source: &HardwareSource) -> (id: String)
    ensures
        id@ == machine_id(*source),
        starts_with(id@, identity_prefix()),
        id@.len() > 0,
{
    proof {
        lemma_machine_id_prefix(*source);
    }
    match source {
        HardwareSource::MacAddress(address) => {
            let mut id: String = String::from_str("ROKIO-MAC-");
            push_without(&mut id, address.as_str(), ':');
            id
        },
        HardwareSource::MachineGuid(guid) => {
            let mut id: String = String::from_str("ROKIO-WIN-");
            push_without(&mut id, guid.as_str(), '-');
            id
        },
        HardwareSource::Fallback { hostname, user } => {
            let mut id: String = String::from_str("ROKIO-FALLBACK-");
            push_host_user(&mut id, hostname, user);
            id
        },
        HardwareSource::HostUser { hostname, user } => {
            let mut id: String = String::from_str("ROKIO-LINUX-");
            push_host_user(&mut id, hostname, user);
            id
        },
    }
}

} // verus!
