//! The address a host name is looked up by.

use crate::consts::EIP_DEFAULT_PORT;
use crate::error::{decimal_digits, decimal_text, Error};
use vstd::prelude::*;
use vstd::string::StringExecFns;
use vstd::string::StringSliceAdditionalSpecFns;

verus! {

/// The address to look `host` up by: the host as given where it holds a
/// `:` (it names a port), else the host with `:` and the EtherNet/IP port
/// appended. An empty host is an error.
pub fn host_address(host: &str) -> (r: Result<String, Error>)
    ensures
        host@.len() == 0 ==> r == Err::<String, Error>(Error::InvalidHost),
        host@.len() > 0 && host.spec_bytes().contains(58u8) ==> (r matches Ok(s) && s@ == host@),
        host@.len() > 0 && !host.spec_bytes().contains(58u8) ==> (r matches Ok(s) && s@ == host@
            + seq![':'] + decimal_digits(EIP_DEFAULT_PORT as nat)),
{
    if host.is_empty() {
        return Err(Error::InvalidHost);
    }
    let bytes = host.as_bytes();
    let n = bytes.len();
    let mut i: usize = 0;
    while i < n
        invariant
            n == bytes@.len(),
            bytes@ == host.spec_bytes(),
            0 <= i <= n,
            forall|k: int| 0 <= k < i ==> bytes@[k] != 58u8,
        decreases n - i,
    {
        if bytes[i] == 58 {
            return Ok(host.to_owned());
        }
        i += 1;
    }
    let mut s = host.to_owned();
    s.append(":");
    let port = decimal_text(EIP_DEFAULT_PORT);
    s.append(port.as_str());
    proof {
        reveal_strlit(":");
    }
    Ok(s)
}

} // verus!
