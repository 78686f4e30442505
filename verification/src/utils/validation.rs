//! The address that the server listens on.

use crate::utils::text::{begins_with, chars, starts_with};
use vstd::prelude::*;
use vstd::string::*;

verus! {

/// The host and port that `address` stands for: a leading colon binds the port
/// on the loopback address, a leading `localhost` is the loopback address, and
/// anything else is taken as it is.
pub open spec fn tcp_address(address: Seq<char>) -> Seq<char> {
    if starts_with(address, ":"@) {
        "127.0.0.1"@ + address
    } else if starts_with(address, "localhost"@) {
        "127.0.0.1"@ + address.subrange("localhost"@.len() as int, address.len() as int)
    } else {
        address
    }
}

/// Returns the host and port to bind for `string`.
pub fn construct_tcp_address(string: &str) -> (r: String)
    ensures
        r@ == tcp_address(string@),
{
    let text = chars(string);
    let colon = chars(":");
    let localhost = chars("localhost");
    if begins_with(&text, &colon) {
        String::from_str("127.0.0.1").concat(string)
    } else if begins_with(&text, &localhost) {
        let rest = string.substring_char(localhost.len(), text.len());
        String::from_str("127.0.0.1").concat(rest)
    } else {
        String::from_str(string)
    }
}

} // verus!
