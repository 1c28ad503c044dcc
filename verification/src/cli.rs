//! The command line of the VPN: which adapter to drive, whom to dial, and
//! how to address the local end of the tunnel.
use std::path::PathBuf;
use std::str::FromStr;

use iroh_base::{KeyParsingError, PublicKey};
use vstd::prelude::*;

verus! {

#[verifier::external_type_specification]
#[verifier::external_body]
pub struct ExPathBuf(PathBuf);

#[verifier::external_type_specification]
#[verifier::external_body]
pub struct ExKeyParsingError(KeyParsingError);

/// Address that the host gives its end of the tunnel when none is given.
pub open spec fn host_default_ip() -> Seq<char> {
    "10.0.0.1"@
}

/// Address that the client gives its end of the tunnel when none is given.
pub open spec fn client_default_ip() -> Seq<char> {
    "10.0.0.2"@
}

/// Names the 32 bytes (`PublicKey::as_bytes`) of the key that iroh's
/// `PublicKey::from_str` reads out of a node ID written as text (64 hex
/// digits or base32), or `None` where iroh refuses the text.
pub uninterp spec fn node_id_bytes_from_text(text: Seq<char>) -> Option<Seq<u8>>;

/// Calls `iroh_base::PublicKey::from_str` and hands back the parsed key's
/// bytes (`PublicKey::as_bytes`), or iroh's error. Claimed: it succeeds
/// exactly where the named parse does, with the named bytes. Which error
/// comes back is not stated: iroh's error value carries metadata that
/// depends on the process's environment, not on the text alone.
#[verifier::external_body]
fn parse_public_key(text: &str) -> (r: Result<[u8; 32], KeyParsingError>)
    ensures
        r is Ok <==> node_id_bytes_from_text(text@) is Some,
        r matches Ok(bytes) ==> node_id_bytes_from_text(text@) == Some(bytes@),
{
    match PublicKey::from_str(text) {
        Ok(key) => Ok(*key.as_bytes()),
        Err(e) => Err(e),
    }
}

/// The node a client dials, held as the 32 bytes of its public key; iroh
/// gives back the same key for them (`PublicKey::from_bytes`).
pub struct NodeId {
    bytes: [u8; 32],
}

impl NodeId {
    /// The 32 bytes of the node's public key.
    pub closed spec fn key_bytes(&self) -> Seq<u8> {
        self.bytes@
    }

    /// The 32 bytes of the node's public key.
    pub fn bytes(&self) -> (b: [u8; 32])
        ensures
            b@ == self.key_bytes(),
    {
        self.bytes
    }
}

/// The options the program is started with.
pub struct Cli {
    /// TAP adapter name.
    pub device_name: String,
    /// Node ID of the host to dial; without it the program is the host.
    pub connect: Option<String>,
    /// Address for the TAP adapter; the role decides it when absent.
    pub tap_ip: Option<String>,
    /// MTU of the TAP adapter.
    pub tap_mtu: u16,
    /// Where the secret key is kept.
    pub key_file: Option<PathBuf>,
}

/// The address the TAP adapter gets: the one given, else 10.0.0.2 for a
/// client and 10.0.0.1 for the host.
pub open spec fn chosen_tap_ip(tap_ip: Option<Seq<char>>, is_client: bool) -> Seq<char> {
    match tap_ip {
        Some(ip) => ip,
        None => if is_client { client_default_ip() } else { host_default_ip() },
    }
}

impl Cli {
    /// The address for the TAP adapter: the one given, else the default of
    /// the program's role.
    pub fn tap_ip(&self) -> (ip: String)
        ensures
            ip@ == chosen_tap_ip(
                match self.tap_ip { Some(s) => Some(s@), None => None },
                self.connect is Some,
            ),
    {
        match &self.tap_ip {
            Some(ip) => ip.clone(),
            None => {
                if self.connect.is_some() {
                    "10.0.0.2".to_owned()
                } else {
                    "10.0.0.1".to_owned()
                }
            },
        }
    }

    /// The node to dial: none for the host, else the key bytes iroh reads
    /// from the text given, or iroh's error when the text is no node ID.
    pub fn parse_connect(&self) -> (r: Result<Option<NodeId>, KeyParsingError>)
        ensures
            match self.connect {
                None => r matches Ok(None),
                Some(text) => match node_id_bytes_from_text(text@) {
                    Some(bytes) => r matches Ok(Some(id)) && id.key_bytes() == bytes,
                    None => r is Err,
                },
            },
    {
        match &self.connect {
            Some(text) => {
                match parse_public_key(text.as_str()) {
                    Ok(bytes) => Ok(Some(NodeId { bytes })),
                    Err(e) => Err(e),
                }
            },
            None => Ok(None),
        }
    }
}

} // verus!
