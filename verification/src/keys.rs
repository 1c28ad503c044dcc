//! The persistent secret key: kept in a file of exactly 32 bytes so that
//! the node's ID stays the same across restarts.
use iroh_base::SecretKey;
use vstd::prelude::*;

verus! {

/// Length of a stored secret key, in bytes.
pub const SECRET_KEY_LEN: usize = 32;

/// Calls `iroh_base::SecretKey::generate` and hands back the new key's bytes
/// (`SecretKey::to_bytes`). The key is random: nothing is claimed of it.
#[verifier::external_body]
fn generate_secret_key_bytes() -> [u8; 32] {
    SecretKey::generate().to_bytes()
}

/// Where a secret key came from.
pub enum KeyChoice {
    /// The key file held a key: these are its bytes.
    Stored([u8; 32]),
    /// A new key that still has to be written to the key file.
    Fresh([u8; 32]),
}

impl KeyChoice {
    /// The bytes of the chosen secret key.
    pub fn bytes(&self) -> (b: [u8; 32])
        ensures
            b == match self { KeyChoice::Stored(k) => *k, KeyChoice::Fresh(k) => *k },
    {
        match self {
            KeyChoice::Stored(k) => *k,
            KeyChoice::Fresh(k) => *k,
        }
    }

    /// Whether the key still has to be written to the key file.
    pub fn must_be_saved(&self) -> (b: bool)
        ensures
            b == (self is Fresh),
    {
        match self {
            KeyChoice::Stored(_) => false,
            KeyChoice::Fresh(_) => true,
        }
    }
}

/// The secret key held by the contents of a key file: a file of exactly 32
/// bytes holds them, any other size holds none.
pub fn stored_secret_key(contents: &[u8]) -> (r: Option<[u8; 32]>)
    ensures
        r is Some <==> contents@.len() == SECRET_KEY_LEN,
        r matches Some(key) ==> key@ == contents@,
{
    if contents.len() == SECRET_KEY_LEN {
        let key: [u8; 32] = [
            contents[0], contents[1], contents[2], contents[3], contents[4], contents[5],
            contents[6], contents[7], contents[8], contents[9], contents[10], contents[11],
            contents[12], contents[13], contents[14], contents[15], contents[16], contents[17],
            contents[18], contents[19], contents[20], contents[21], contents[22], contents[23],
            contents[24], contents[25], contents[26], contents[27], contents[28], contents[29],
            contents[30], contents[31],
        ];
        assert(key@ =~= contents@);
        Some(key)
    } else {
        None
    }
}

/// Chooses the secret key from what the key file holds (`None` where there
/// is no key file): a file of exactly 32 bytes is reused as it is; a missing
/// file, or one of the wrong size, gets a new random key that must be saved.
pub fn choose_secret_key(existing: Option<&[u8]>) -> (r: KeyChoice)
    ensures
        match existing {
            Some(contents) => if contents@.len() == SECRET_KEY_LEN {
                r matches KeyChoice::Stored(key) && key@ == contents@
            } else {
                r is Fresh
            },
            None => r is Fresh,
        },
{
    match existing {
        Some(contents) => match stored_secret_key(contents) {
            Some(key) => KeyChoice::Stored(key),
            None => KeyChoice::Fresh(generate_secret_key_bytes()),
        },
        None => KeyChoice::Fresh(generate_secret_key_bytes()),
    }
}

/// Where the key file lives when no path is given on the command line.
#[derive(Debug, PartialEq, Eq)]
pub enum KeyLocation {
    /// The file named by `FAKEVPN_KEY_FILE`.
    Given(String),
    /// `fakevpn/key` under the directory named by `APPDATA`.
    UnderAppData(String),
    /// `.fakevpn/key` under the directory named by `HOME`.
    UnderHome(String),
}

impl KeyLocation {
    /// The directory, below the base directory, that holds the key file;
    /// none for a file named outright.
    pub fn dir_name(&self) -> (name: Option<&'static str>)
        ensures
            match self {
                KeyLocation::Given(_) => name is None,
                KeyLocation::UnderAppData(_) => name matches Some(n) && n@ == "fakevpn"@,
                KeyLocation::UnderHome(_) => name matches Some(n) && n@ == ".fakevpn"@,
            },
    {
        match self {
            KeyLocation::Given(_) => None,
            KeyLocation::UnderAppData(_) => Some("fakevpn"),
            KeyLocation::UnderHome(_) => Some(".fakevpn"),
        }
    }
}

/// Where the key file lives by default: the file `FAKEVPN_KEY_FILE` names
/// where it is set, else `fakevpn/key` under `APPDATA`, else `.fakevpn/key`
/// under `HOME`; none where none of them is set.
pub fn default_key_location(key_file_env: Option<String>, appdata: Option<String>, home: Option<String>) -> (r: Option<KeyLocation>)
    ensures
        r == match key_file_env {
            Some(f) => Some(KeyLocation::Given(f)),
            None => match appdata {
                Some(a) => Some(KeyLocation::UnderAppData(a)),
                None => match home {
                    Some(h) => Some(KeyLocation::UnderHome(h)),
                    None => None,
                },
            },
        },
{
    match key_file_env {
        Some(f) => Some(KeyLocation::Given(f)),
        None => match appdata {
            Some(a) => Some(KeyLocation::UnderAppData(a)),
            None => match home {
                Some(h) => Some(KeyLocation::UnderHome(h)),
                None => None,
            },
        },
    }
}

} // verus!
