//! The agent's model of an SSH public key.
//!
//! Keys reach the agent two ways: decrypted out of the platform's keyed
//! container (always RSA, built from the certificate's numeric components)
//! or as authorized-keys text from a plain metadata endpoint. Either way the
//! agent only carries the pieces onward: the algorithm's components, and the
//! optional options and comment fields of the authorized-keys format.

use vstd::prelude::*;

verus! {

/// Key material, by algorithm.
pub enum SshKeyData {
    /// An RSA public key: big-endian public exponent and modulus.
    Rsa { exponent: Vec<u8>, modulus: Vec<u8> },
    /// A key of any other algorithm, carried opaquely.
    Other { algorithm: String },
}

/// An SSH public key in the authorized-keys sense.
pub struct SshPublicKey {
    /// Options field of the authorized-keys format, when one was present.
    pub options: Option<String>,
    /// The key material itself.
    pub data: SshKeyData,
    /// Trailing comment of the authorized-keys format, when one was present.
    pub comment: Option<String>,
}

impl SshPublicKey {
    /// A bare RSA key from its numeric components: no options, no comment.
    pub fn from_rsa(e: Vec<u8>, n: Vec<u8>) -> (r: SshPublicKey)
        ensures
            r.options is None,
            r.comment is None,
            r.data matches SshKeyData::Rsa { exponent, modulus } && exponent == e && modulus == n,
    {
        SshPublicKey { options: None, data: SshKeyData::Rsa { exponent: e, modulus: n }, comment: None }
    }
}

} // verus!
