//! The relay's configuration: the anchor endpoint, the anchor contract, the
//! signing credential and the watched contract with its event topic. Each is
//! checked before the relay starts.
use vstd::prelude::*;
use crate::decode::EventFilter;

verus! {

#[verifier::external_type_specification]
#[verifier::external_body]
pub struct ExSecretKey(secp256k1::SecretKey);

#[verifier::external_type_specification]
#[verifier::external_body]
pub struct ExSecpError(secp256k1::Error);

#[verifier::external_type_specification]
#[verifier::external_body]
pub struct ExFromHexError(rustc_hex::FromHexError);

pub open spec fn is_hex_digit(c: char) -> bool {
    ('0' <= c && c <= '9') || ('a' <= c && c <= 'f') || ('A' <= c && c <= 'F')
}

pub open spec fn hex_digit_value(c: char) -> nat {
    if '0' <= c && c <= '9' {
        (c as u32 - '0' as u32) as nat
    } else if 'a' <= c && c <= 'f' {
        (c as u32 - 'a' as u32 + 10) as nat
    } else {
        (c as u32 - 'A' as u32 + 10) as nat
    }
}

pub open spec fn all_hex(s: Seq<char>) -> bool {
    forall|i: int| 0 <= i < s.len() ==> is_hex_digit(#[trigger] s[i])
}

/// The number that the hex digits `s` write, most significant first.
pub open spec fn hex_value(s: Seq<char>) -> nat
    decreases s.len(),
{
    if s.len() == 0 {
        0
    } else {
        hex_value(s.drop_last()) * 16 + hex_digit_value(s.last())
    }
}

/// The bytes that the hex digits `s` write, two digits each.
pub open spec fn hex_bytes(s: Seq<char>) -> Seq<u8> {
    Seq::new(
        s.len() / 2,
        |i: int| (hex_digit_value(s[2 * i]) * 16 + hex_digit_value(s[2 * i + 1])) as u8,
    )
}

/// The order of the secp256k1 group.
pub open spec fn secp256k1_order() -> nat {
    let two_to_64: nat = 0x1_0000_0000_0000_0000;
    0xFFFF_FFFF_FFFF_FFFF_FFFF_FFFF_FFFF_FFFE * two_to_64 * two_to_64
        + 0xBAAE_DCE6_AF48_A03B_BFD2_5E8C_D036_4141
}

/// Whether `s` writes a secret key: 64 hex digits whose value is a nonzero
/// scalar below the group order.
pub open spec fn secret_key_text(s: Seq<char>) -> bool {
    &&& s.len() == 64
    &&& all_hex(s)
    &&& 0 < hex_value(s)
    &&& hex_value(s) < secp256k1_order()
}

pub open spec fn is_hex_space(c: char) -> bool {
    c == ' ' || c == '\r' || c == '\n' || c == '\t'
}

/// The digits of a hash written in hex: the text after an optional `0x`,
/// with blanks left out.
pub open spec fn hash_digits(s: Seq<char>) -> Seq<char> {
    let body = if s.len() >= 2 && s[0] == '0' && s[1] == 'x' {
        s.subrange(2, s.len() as int)
    } else {
        s
    };
    body.filter(|c: char| !is_hex_space(c))
}

/// Whether `s` writes a hash of `n` bytes.
pub open spec fn hash_text(s: Seq<char>, n: nat) -> bool {
    all_hex(hash_digits(s)) && hash_digits(s).len() == 2 * n
}

/// Relies on secp256k1's `SecretKey::from_str`, which accepts exactly 64 hex
/// digits whose value is a valid secret scalar.
#[verifier::external_body]
fn parse_secret_key(s: &str) -> (r: Result<secp256k1::SecretKey, secp256k1::Error>)
    ensures
        r is Ok <==> secret_key_text(s@),
{
    <secp256k1::SecretKey as std::str::FromStr>::from_str(s)
}

/// Relies on `H160::from_str` (web3's `Address`): after an optional `0x`
/// and with blanks skipped, exactly 40 hex digits, read big-endian.
#[verifier::external_body]
fn parse_address(s: &str) -> (r: Result<[u8; 20], rustc_hex::FromHexError>)
    ensures
        r is Ok <==> hash_text(s@, 20),
        r matches Ok(a) ==> a@ == hex_bytes(hash_digits(s@)),
{
    <web3::types::Address as std::str::FromStr>::from_str(s).map(|h| h.0)
}

/// Relies on `H256::from_str`: after an optional `0x` and with blanks
/// skipped, exactly 64 hex digits, read big-endian.
#[verifier::external_body]
fn parse_hash(s: &str) -> (r: Result<[u8; 32], rustc_hex::FromHexError>)
    ensures
        r is Ok <==> hash_text(s@, 32),
        r matches Ok(a) ==> a@ == hex_bytes(hash_digits(s@)),
{
    <web3::types::H256 as std::str::FromStr>::from_str(s).map(|h| h.0)
}

/// Why the relay refuses to start.
#[derive(Clone, Copy, Debug, PartialEq, Eq)]
pub enum ConfigError {
    MissingEndpoint,
    MissingAnchorContract,
    MissingCredential,
    MissingTargetContract,
    MissingEventTopic,
    MalformedAnchorContract,
    MalformedCredential,
    MalformedTargetContract,
    MalformedEventTopic,
}

/// The settings as read, each present or not.
pub struct Settings {
    pub l1_endpoint: Option<String>,
    pub anchor_contract: Option<String>,
    pub signing_credential: Option<String>,
    pub target_contract: Option<String>,
    pub event_topic: Option<String>,
}

/// The first fault of the settings, in the order in which they are checked:
/// presence of each, then the form of each.
pub open spec fn settings_fault(s: Settings) -> Option<ConfigError> {
    if s.l1_endpoint is None {
        Some(ConfigError::MissingEndpoint)
    } else if s.anchor_contract is None {
        Some(ConfigError::MissingAnchorContract)
    } else if s.signing_credential is None {
        Some(ConfigError::MissingCredential)
    } else if s.target_contract is None {
        Some(ConfigError::MissingTargetContract)
    } else if s.event_topic is None {
        Some(ConfigError::MissingEventTopic)
    } else if !hash_text(s.anchor_contract->0@, 20) {
        Some(ConfigError::MalformedAnchorContract)
    } else if !secret_key_text(s.signing_credential->0@) {
        Some(ConfigError::MalformedCredential)
    } else if !hash_text(s.target_contract->0@, 20) {
        Some(ConfigError::MalformedTargetContract)
    } else if !hash_text(s.event_topic->0@, 32) {
        Some(ConfigError::MalformedEventTopic)
    } else {
        None
    }
}

/// A checked configuration.
pub struct Config {
    pub l1_endpoint: String,
    pub anchor_contract: [u8; 20],
    pub signing_credential: secp256k1::SecretKey,
    pub filter: EventFilter,
}

impl Config {
    /// Checks the settings: the configuration they write, or their first fault.
    pub fn from_settings(s: Settings) -> (r: Result<Config, ConfigError>)
        ensures
            match r {
                Ok(c) => {
                    &&& settings_fault(s) is None
                    &&& c.l1_endpoint@ == s.l1_endpoint->0@
                    &&& c.anchor_contract@ == hex_bytes(hash_digits(s.anchor_contract->0@))
                    &&& c.filter.contract@ == hex_bytes(hash_digits(s.target_contract->0@))
                    &&& c.filter.incremented_topic@ == hex_bytes(hash_digits(s.event_topic->0@))
                },
                Err(e) => settings_fault(s) == Some(e),
            },
    {
        let Settings {
            l1_endpoint,
            anchor_contract,
            signing_credential,
            target_contract,
            event_topic,
        } = s;
        let l1_endpoint = match l1_endpoint {
            Some(e) => e,
            None => return Err(ConfigError::MissingEndpoint),
        };
        let anchor_contract = match anchor_contract {
            Some(a) => a,
            None => return Err(ConfigError::MissingAnchorContract),
        };
        let signing_credential = match signing_credential {
            Some(k) => k,
            None => return Err(ConfigError::MissingCredential),
        };
        let target_contract = match target_contract {
            Some(t) => t,
            None => return Err(ConfigError::MissingTargetContract),
        };
        let event_topic = match event_topic {
            Some(t) => t,
            None => return Err(ConfigError::MissingEventTopic),
        };
        let anchor_contract = match parse_address(anchor_contract.as_str()) {
            Ok(a) => a,
            Err(_) => return Err(ConfigError::MalformedAnchorContract),
        };
        let signing_credential = match parse_secret_key(signing_credential.as_str()) {
            Ok(k) => k,
            Err(_) => return Err(ConfigError::MalformedCredential),
        };
        let contract = match parse_address(target_contract.as_str()) {
            Ok(a) => a,
            Err(_) => return Err(ConfigError::MalformedTargetContract),
        };
        let incremented_topic = match parse_hash(event_topic.as_str()) {
            Ok(t) => t,
            Err(_) => return Err(ConfigError::MalformedEventTopic),
        };
        Ok(
            Config {
                l1_endpoint,
                anchor_contract,
                signing_credential,
                filter: EventFilter { contract, incremented_topic },
            },
        )
    }
}

} // verus!
