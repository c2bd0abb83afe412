use vstd::prelude::*;

use libsystemd::activation::IsType;

verus! {

/// The two listener families the gateway serves.
#[derive(Clone, Copy, Debug, PartialEq, Eq, Structural)]
pub enum SocketKind {
    /// A TCP listener (`PF_INET` or `PF_INET6`).
    Inet,
    /// A Unix domain listener (`PF_UNIX`).
    UnixDomain,
}

/// What the init system told us about one inherited descriptor: the raw
/// descriptor number and its socket family, reduced to the two families the
/// gateway cares about.
#[derive(Clone, Copy, Debug, PartialEq, Eq, Structural)]
pub struct FdInfo {
    /// The raw descriptor number.
    pub fd: i32,
    /// The descriptor is an internet-family socket.
    pub inet: bool,
    /// The descriptor is a Unix-domain socket.
    pub unix_domain: bool,
}

/// Why picking up a socket-activated listener failed.
#[derive(Clone, Copy, Debug, PartialEq, Eq, Structural)]
pub enum ActivationError {
    /// The init system's descriptor list could not be read.
    Receive,
    /// The init system passed no descriptors.
    NoDescriptors,
    /// The first descriptor's socket family does not match the requested
    /// listener kind.
    KindMismatch,
}

/// A descriptor received from the init system, as `libsystemd` hands it out.
/// Opaque here; the caller turns it into a listener.
#[verifier::external_type_specification]
#[verifier::external_body]
pub struct ExFileDescriptor(libsystemd::activation::FileDescriptor);

/// The error type `libsystemd` reports; it appears in trait impls of the
/// descriptor type above, so Verus must know of it.  Opaque here.
#[verifier::external_type_specification]
#[verifier::external_body]
pub struct ExSdError(libsystemd::errors::SdError);

/// Whether a descriptor of the given families suits the requested listener
/// kind.
pub open spec fn family_matches(inet: bool, unix_domain: bool, kind: SocketKind) -> bool {
    match kind {
        SocketKind::Inet => inet,
        SocketKind::UnixDomain => unix_domain,
    }
}

/// The single-descriptor family decision: does a descriptor with these
/// families suit the requested listener kind?
pub fn matches_family(inet: bool, unix_domain: bool, kind: SocketKind) -> (r: bool)
    ensures
        r == family_matches(inet, unix_domain, kind),
{
    match kind {
        SocketKind::Inet => inet,
        SocketKind::UnixDomain => unix_domain,
    }
}

/// Relies on `libsystemd::activation::receive_descriptors(false)`: returns
/// the descriptors the init system passed, in order, or an error.  The
/// outcome depends on the environment, so nothing is promised of it.
#[verifier::external_body]
fn receive_activation_fds() -> (r: Result<Vec<libsystemd::activation::FileDescriptor>, ()>) {
    match libsystemd::activation::receive_descriptors(false) {
        Ok(fds) => Ok(fds),
        Err(_) => Err(()),
    }
}

/// Relies on `libsystemd::activation::IsType::is_inet`: true iff the
/// descriptor is a `PF_INET` or `PF_INET6` socket.
#[verifier::external_body]
fn fd_is_inet(fd: &libsystemd::activation::FileDescriptor) -> (r: bool) {
    fd.is_inet()
}

/// Relies on `libsystemd::activation::IsType::is_unix`: true iff the
/// descriptor is a `PF_UNIX` socket.
#[verifier::external_body]
fn fd_is_unix(fd: &libsystemd::activation::FileDescriptor) -> (r: bool) {
    fd.is_unix()
}

/// The decision at the heart of socket activation: inspect the received
/// descriptor list (first descriptor only) and check its family against the
/// requested listener kind.  Missing or mismatched descriptors fail.
pub fn check_activated(fds: &Vec<FdInfo>, kind: SocketKind) -> (r: Result<i32, ActivationError>)
    ensures
        fds@.len() == 0 ==> r == Err::<i32, ActivationError>(ActivationError::NoDescriptors),
        fds@.len() > 0 && !family_matches(fds@[0].inet, fds@[0].unix_domain, kind) ==> r == Err::<
            i32,
            ActivationError,
        >(ActivationError::KindMismatch),
        fds@.len() > 0 && family_matches(fds@[0].inet, fds@[0].unix_domain, kind) ==> r == Ok::<
            i32,
            ActivationError,
        >(fds@[0].fd),
{
    if fds.len() == 0 {
        return Err(ActivationError::NoDescriptors);
    }
    let first = fds[0];
    let matches_kind: bool = matches_family(first.inet, first.unix_domain, kind);
    if matches_kind {
        Ok(first.fd)
    } else {
        Err(ActivationError::KindMismatch)
    }
}

/// Picks up a listener descriptor from the init system: receives the
/// descriptor list and checks the first descriptor's family against `kind`,
/// as [`check_activated`] decides on plain values.  The received list depends
/// on the environment, so the contract only classifies the outcomes; the
/// caller wraps the descriptor and must force it into non-blocking mode
/// before use.
pub fn from_activated_fd(kind: SocketKind) -> (r: Result<
    libsystemd::activation::FileDescriptor,
    ActivationError,
>)
    ensures
        (r matches Err(e) ==> (e == ActivationError::Receive || e == ActivationError::NoDescriptors
            || e == ActivationError::KindMismatch)),
{
    let mut fds = match receive_activation_fds() {
        Ok(fds) => fds,
        Err(_) => {
            return Err(ActivationError::Receive);
        },
    };
    if fds.len() == 0 {
        return Err(ActivationError::NoDescriptors);
    }
    let first = fds.remove(0);
    let inet = fd_is_inet(&first);
    let unix_domain = fd_is_unix(&first);
    if matches_family(inet, unix_domain, kind) {
        Ok(first)
    } else {
        Err(ActivationError::KindMismatch)
    }
}

} // verus!
