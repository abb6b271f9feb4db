//! The connection descriptor handed to the kernel by the front-end: the
//! transport, the five channel ports, and the shared signing key.

use vstd::prelude::*;

use crate::decimal::dec_digits;
use crate::json::{ascii_bytes, ascii_seq};

verus! {

broadcast use {vstd::std_specs::vec::group_vec_axioms, vstd::seq::group_seq_axioms};

/// The transport the sockets bind over.
#[derive(Clone, Copy, Debug, PartialEq, Eq, Structural)]
pub enum Transport {
    Tcp,
}

/// The authentication scheme of the connection; only HMAC-SHA256 exists.
#[derive(Clone, Copy, Debug, PartialEq, Eq, Structural)]
pub enum SignatureScheme {
    HmacSha256,
}

/// The parsed connection file: where to bind each channel, and how to sign.
pub struct ConnectionInformation {
    /// The IP address text the sockets bind to.
    pub ip_address: Vec<u8>,
    pub signature_scheme: SignatureScheme,
    /// The shared signing key; empty disables signing.
    pub key: Vec<u8>,
    pub transport: Transport,
    pub kernel_name: Vec<u8>,
    pub shell_port: u16,
    pub iopub_port: u16,
    pub stdin_port: u16,
    pub control_port: u16,
    pub heartbeat_port: u16,
}

/// The endpoint text for one port: `tcp://<ip>:<port>`.
pub open spec fn endpoint(ip: Seq<u8>, port: u16) -> Seq<u8> {
    ascii_seq("tcp://"@) + ip + ascii_seq(":"@) + dec_digits(port as nat)
}

impl ConnectionInformation {
    /// The endpoint one channel binds to.
    pub fn endpoint_bytes(&self, port: u16) -> (r: Vec<u8>)
        ensures
            r@ == endpoint(self.ip_address@, port),
    {
        proof {
            reveal_strlit("tcp://");
            reveal_strlit(":");
        }
        let mut r = ascii_bytes("tcp://");
        crate::json_ser::push_bytes(&mut r, self.ip_address.as_slice());
        crate::json_ser::push_bytes(&mut r, ascii_bytes(":").as_slice());
        let p = crate::decimal::u64_to_dec(port as u64);
        crate::json_ser::push_bytes(&mut r, p.as_slice());
        proof {
            assert(r@ =~= endpoint(self.ip_address@, port));
        }
        r
    }
}

} // verus!
