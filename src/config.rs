use vstd::prelude::*;

verus! {

/// A value of one of two types.
#[derive(Clone, Debug, PartialEq)]
pub enum Either<T, U> {
    Left(T),
    Right(U),
}

/// What the tool does once the socket is ready: receive datagrams, or send
/// the lines of standard input.
#[derive(Clone, Copy, Debug, PartialEq, Eq, Structural)]
pub enum Mode {
    Listen,
    Talk,
}

/// Why a configuration is refused before any socket is made.
#[derive(Clone, Copy, Debug, PartialEq, Eq, Structural)]
pub enum ConfigError {
    /// The interface text is neither an unsigned 32-bit integer nor an IPv4 address.
    InvalidInterface,
    /// The group address is not a multicast address.
    NotMulticast,
    /// An IPv4 group was given an interface index, or an IPv6 group an interface address.
    MismatchedInterface,
}

} // verus!
