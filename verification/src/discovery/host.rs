//! What is known of this machine: its address and its name.

use vstd::prelude::*;

verus! {

/// An address of a machine. Of an IPv6 address only its text is kept.
pub enum HostAddress {
    V4([u8; 4]),
    V6(String),
}

/// The value of a [`HostAddress`].
pub enum HostAddressView {
    V4([u8; 4]),
    V6(Seq<char>),
}

impl View for HostAddress {
    type V = HostAddressView;

    open spec fn view(&self) -> HostAddressView {
        match self {
            HostAddress::V4(octets) => HostAddressView::V4(*octets),
            HostAddress::V6(text) => HostAddressView::V6(text@),
        }
    }
}

/// The name of a machine that does not tell its own.
pub open spec fn fallback_hostname() -> Seq<char> {
    "localhost"@
}

/// Takes the local address of a socket as the address of this machine. Fails
/// with a message if it is not an IPv4 address.
pub fn local_ip(local: HostAddress) -> (result: Result<[u8; 4], String>)
    ensures
        match local@ {
            HostAddressView::V4(octets) => result == Ok::<[u8; 4], String>(octets),
            HostAddressView::V6(text) => result matches Err(message) && message@
                == "local address is not IPv4: "@ + text,
        },
{
    match local {
        HostAddress::V4(octets) => Ok(octets),
        HostAddress::V6(text) => {
            let mut message = String::new();
            message.append("local address is not IPv4: ");
            message.append(text.as_str());
            assert(message@ =~= "local address is not IPv4: "@ + text@);
            Err(message)
        },
    }
}

/// Asks the system for the name of this machine, through `hostname::get`. There
/// is none if the system fails to tell it or it is not text. The name holds no
/// NUL: on Unix the crate ends it at the first one, and on Windows it takes the
/// length that the system gives, which leaves the terminator out. Which name it
/// is depends on the machine and is left open.
#[verifier::external_body]
fn system_hostname() -> (name: Option<String>)
    ensures
        name matches Some(text) ==> !text@.contains('\0'),
{
    hostname::get().ok().and_then(|name| name.into_string().ok())
}

/// The name that the system told, or the fallback.
pub fn hostname_or_fallback(told: Option<String>) -> (name: String)
    ensures
        name@ == (match told {
            Some(text) => text@,
            None => fallback_hostname(),
        }),
{
    match told {
        Some(text) => text,
        None => "localhost".to_owned(),
    }
}

/// The name of this machine, or `localhost` if the system does not tell it.
pub fn local_hostname() -> (name: String)
    ensures
        !name@.contains('\0'),
{
    proof {
        reveal_strlit("localhost");
        assert(!"localhost"@.contains('\0'));
    }
    hostname_or_fallback(system_hostname())
}

} // verus!
