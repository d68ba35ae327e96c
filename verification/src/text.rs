//! The text of the lines that are logged: numbers in decimal, byte strings in
//! base64, and the address of a socket.

use vstd::prelude::*;
use vstd::string::*;

verus! {

/// The base64 text of `bytes`, in the standard alphabet and with padding, as
/// the `base64` crate's `STANDARD` engine writes it.
pub uninterp spec fn base64_text(bytes: Seq<u8>) -> Seq<char>;

/// The number of characters in the base64 text of `len` bytes: four for every
/// three bytes begun.
pub open spec fn base64_len(len: nat) -> nat {
    ((len + 2) / 3 * 4) as nat
}

/// The decimal digit for a number below ten.
pub open spec fn digit(d: nat) -> char {
    (0x30 + d) as char
}

/// The decimal digits of `n`, without leading zeros.
pub open spec fn decimal(n: nat) -> Seq<char>
    decreases n,
{
    if n < 10 {
        seq![digit(n)]
    } else {
        decimal(n / 10).push(digit(n % 10))
    }
}

/// The address of the socket on `host` and `port`.
pub open spec fn endpoint_text(host: Seq<char>, port: u16) -> Seq<char> {
    "tcp://"@ + host + ":"@ + decimal(port as nat)
}

/// The base64 text of `bytes`.
///
/// Calls `encode` of `base64`'s `STANDARD` engine, which panics where the
/// length of the text does not fit in `usize`. Its result is named by
/// `base64_text`.
#[verifier::external_body]
pub(crate) fn base64_encode(bytes: &[u8]) -> (text: String)
    requires
        base64_len(bytes@.len()) <= usize::MAX,
    ensures
        text@ == base64_text(bytes@),
{
    base64::Engine::encode(&base64::engine::general_purpose::STANDARD, bytes)
}

/// The decimal digits of `n`.
///
/// Calls `to_string` on a `u64`, which writes the number in decimal without
/// sign or leading zeros.
#[verifier::external_body]
pub(crate) fn decimal_string(n: u64) -> (text: String)
    ensures
        text@ == decimal(n as nat),
{
    n.to_string()
}

/// The address of the socket on `host` and `port`.
pub fn endpoint(host: &str, port: u16) -> (address: String)
    ensures
        address@ == endpoint_text(host@, port),
{
    let mut address = String::from_str("tcp://");
    address.append(host);
    address.append(":");
    address.append(decimal_string(port as u64).as_str());
    address
}

/// `before`, then the address of the socket on `host` and `port`, then
/// `between`, then `error`.
pub open spec fn socket_line(
    before: Seq<char>,
    host: Seq<char>,
    port: u16,
    between: Seq<char>,
    error: Seq<char>,
) -> Seq<char> {
    before + endpoint_text(host, port) + between + error
}

/// The line for a failure on the socket on `host` and `port`.
pub fn socket_failure_line(before: &str, host: &str, port: u16, between: &str, error: &str) -> (line:
    String)
    ensures
        line@ == socket_line(before@, host@, port, between@, error@),
{
    let mut line = String::from_str(before);
    line.append(endpoint(host, port).as_str());
    line.append(between);
    line.append(error);
    line
}

} // verus!
