//! Endpoint identities: parsing endpoint IDs, secret keys and tickets with
//! iroh, and the decisions taken on what comes back.

use vstd::prelude::*;
use vstd::string::*;
use crate::text::{str_eq, strings_contain, trim, trimmed};

verus! {

#[verifier::external_type_specification]
#[verifier::external_body]
pub struct ExKeyParsingError(iroh::KeyParsingError);

#[verifier::external_type_specification]
#[verifier::external_body]
pub struct ExTicketParseError(iroh_tickets::ParseError);

/// Text of 32 key bytes in lower-case hex: 64 digits from `0-9a-f`. This is
/// how iroh prints endpoint IDs, and how identity key files hold secret keys.
pub open spec fn is_key_hex(s: Seq<char>) -> bool {
    &&& s.len() == 64
    &&& forall|i: int| 0 <= i < 64 ==> ('0' <= #[trigger] s[i] <= '9' || 'a' <= s[i] <= 'f')
}

/// Every character is ASCII.
pub open spec fn is_ascii_text(s: Seq<char>) -> bool {
    forall|i: int| 0 <= i < s.len() ==> (#[trigger] s[i] as int) < 128
}

/// The canonical text of the endpoint ID that `EndpointId::from_str` parses
/// from `s`, or `None` when it refuses `s`.
pub uninterp spec fn endpoint_id_text(s: Seq<char>) -> Option<Seq<char>>;

/// The 32 bytes of the secret key that `SecretKey::from_str` parses from
/// `s`, or `None` when it refuses `s`.
pub uninterp spec fn secret_key_bytes(s: Seq<char>) -> Option<Seq<u8>>;

/// The endpoint ID text of the public key of the secret key made of the 32
/// bytes `secret`.
pub uninterp spec fn public_key_text(secret: Seq<u8>) -> Seq<char>;

/// The endpoint ID text of the public key of the secret key that
/// `SecretKey::from_str` parses from `s`, or `None` when it refuses `s`.
pub open spec fn secret_key_endpoint_id(s: Seq<char>) -> Option<Seq<char>> {
    match secret_key_bytes(s) {
        Some(b) => Some(public_key_text(b)),
        None => None,
    }
}

/// The endpoint ID text inside the endpoint ticket that
/// `EndpointTicket::from_str` parses from `s`, or `None` when it refuses `s`.
pub uninterp spec fn ticket_endpoint_id(s: Seq<char>) -> Option<Seq<char>>;

/// Calls `iroh::EndpointId::from_str` (iroh-base's `PublicKey::from_str`) and
/// renders the parsed ID with its `Display`. The contract ties success and
/// the rendered text to the name `endpoint_id_text`, and states what the
/// source shows: the text is the lower-case hex of the 32 key bytes, it
/// parses back to itself, and ASCII text of a length other than 52 (base32)
/// or 64 (hex) is refused. Which texts of those lengths parse (they must
/// spell a valid key) is left unsaid.
#[verifier::external_body]
fn parse_endpoint_id(value: &str) -> (r: Result<String, iroh::KeyParsingError>)
    ensures
        r is Ok <==> endpoint_id_text(value@) is Some,
        r matches Ok(c) ==> endpoint_id_text(value@) == Some(c@) && is_key_hex(c@)
            && endpoint_id_text(c@) == Some(c@),
        is_ascii_text(value@) && value@.len() != 52 && value@.len() != 64 ==> r is Err,
{
    match value.parse::<iroh::EndpointId>() {
        Ok(id) => Ok(id.to_string()),
        Err(e) => Err(e),
    }
}

/// Calls `iroh::SecretKey::from_str` and takes the key's bytes with
/// `SecretKey::to_bytes`. The contract ties success and the bytes to the name
/// `secret_key_bytes`, and states what the source shows: a key is 32 bytes,
/// and 64 lower-case hex digits always parse, as the bytes they spell (the
/// hex is decoded and the bytes kept as they are). Which other spellings
/// parse (base32, and what they decode to) is left unsaid.
#[verifier::external_body]
fn parse_secret_key(text: &str) -> (r: Result<Vec<u8>, iroh::KeyParsingError>)
    ensures
        r is Ok <==> secret_key_bytes(text@) is Some,
        r matches Ok(b) ==> secret_key_bytes(text@) == Some(b@) && b@.len() == 32 && (is_key_hex(
            text@,
        ) ==> hex_lower_text(b@) == text@),
        is_key_hex(text@) ==> r is Ok,
{
    match text.parse::<iroh::SecretKey>() {
        Ok(key) => Ok(key.to_bytes().to_vec()),
        Err(e) => Err(e),
    }
}

/// Calls `iroh::SecretKey::try_from` on 32 bytes, then `SecretKey::public`,
/// and renders the public key with its `Display` (lower-case hex of the key
/// bytes). The contract ties the text to the name `public_key_text` and
/// states that it parses back to itself as an endpoint ID. The conversion
/// fails only on a length other than 32, which `requires` rules out.
#[verifier::external_body]
fn public_key_of(secret: &[u8]) -> (r: String)
    requires
        secret@.len() == 32,
    ensures
        r@ == public_key_text(secret@),
        is_key_hex(r@),
        endpoint_id_text(r@) == Some(r@),
{
    match iroh::SecretKey::try_from(secret) {
        Ok(key) => key.public().to_string(),
        Err(_) => String::new(),
    }
}

/// Calls `iroh_tickets::endpoint::EndpointTicket::from_str` and renders the
/// endpoint ID of the ticket's address with its `Display` (lower-case hex).
/// The contract ties success and the ID text to the name
/// `ticket_endpoint_id`, and states that the ID text parses back to itself as
/// an endpoint ID; the ticket encoding is left unsaid.
#[verifier::external_body]
fn parse_ticket_endpoint_id(ticket: &str) -> (r: Result<String, iroh_tickets::ParseError>)
    ensures
        r is Ok <==> ticket_endpoint_id(ticket@) is Some,
        r matches Ok(c) ==> ticket_endpoint_id(ticket@) == Some(c@) && is_key_hex(c@)
            && endpoint_id_text(c@) == Some(c@),
{
    match ticket.parse::<iroh_tickets::endpoint::EndpointTicket>() {
        Ok(t) => Ok(t.endpoint_addr().id.to_string()),
        Err(e) => Err(e),
    }
}

} // verus!

verus! {

/// Why an endpoint ID is refused, given what parsing it gave (`parsed`):
/// it is empty, it does not parse, or it differs from the canonical spelling.
pub open spec fn endpoint_id_fault_given(value: Seq<char>, parsed: Option<Seq<char>>) -> Option<
    crate::errors::EndpointIdFault,
> {
    if value.len() == 0 {
        Some(crate::errors::EndpointIdFault::Empty)
    } else {
        match parsed {
            None => Some(crate::errors::EndpointIdFault::Invalid),
            Some(c) => if c == value {
                None
            } else {
                Some(crate::errors::EndpointIdFault::NotCanonical(c))
            },
        }
    }
}

/// Why an endpoint ID is refused, if it is: empty, unparsable, or not in
/// the canonical spelling that iroh prints for it.
pub open spec fn endpoint_id_fault(value: Seq<char>) -> Option<crate::errors::EndpointIdFault> {
    endpoint_id_fault_given(value, endpoint_id_text(value))
}

/// Decide on the endpoint ID `value`, given the canonical text that parsing
/// it gave, or `None` when it did not parse.
pub fn endpoint_id_verdict(value: &str, parsed: Option<String>) -> (r: Result<
    (),
    crate::errors::EndpointIdProblem,
>)
    ensures
        match endpoint_id_fault_given(value@, crate::paths::opt_view(parsed)) {
            None => r is Ok,
            Some(f) => r matches Err(p) && p@ == f,
        },
{
    if value.unicode_len() == 0 {
        return Err(crate::errors::EndpointIdProblem::Empty);
    }
    match parsed {
        None => Err(crate::errors::EndpointIdProblem::Invalid),
        Some(canonical) => {
            if str_eq(value, canonical.as_str()) {
                Ok(())
            } else {
                Err(crate::errors::EndpointIdProblem::NotCanonical(canonical))
            }
        },
    }
}

/// Accept `value` only as a non-empty endpoint ID in canonical spelling.
pub fn validate_endpoint_id(value: &str) -> (r: Result<(), crate::errors::EndpointIdProblem>)
    ensures
        match endpoint_id_fault(value@) {
            None => r is Ok,
            Some(f) => r matches Err(p) && p@ == f,
        },
        r is Ok ==> is_key_hex(value@),
        value@.len() > 0 && is_ascii_text(value@) && value@.len() != 52 && value@.len() != 64
            ==> (r matches Err(p) && p@ == crate::errors::EndpointIdFault::Invalid),
{
    if value.unicode_len() == 0 {
        return Err(crate::errors::EndpointIdProblem::Empty);
    }
    let parsed = match parse_endpoint_id(value) {
        Ok(canonical) => Some(canonical),
        Err(_) => None,
    };
    endpoint_id_verdict(value, parsed)
}

/// The outcome for the key file at `path`, given the endpoint ID that
/// parsing its trimmed contents as a secret key gave, or `None`.
pub fn public_key_verdict(path: &str, parsed: Option<String>) -> (r: Result<
    String,
    crate::errors::ConfigError,
>)
    ensures
        match crate::paths::opt_view(parsed) {
            Some(id) => r matches Ok(s) && s@ == id,
            None => r matches Err(e) && e@ == (crate::errors::ConfigFault::ParseIdentityKey {
                path: path@,
            }),
        },
{
    match parsed {
        Some(id) => Ok(id),
        None => Err(crate::errors::ConfigError::ParseIdentityKey { path: String::from_str(path) }),
    }
}

/// The endpoint ID of the identity whose key file at `path` holds `contents`:
/// the contents, trimmed, must parse as a secret key. The ID it gives is in
/// the canonical spelling, so endpoint-ID validation accepts it verbatim, and
/// for a file that `identity init` wrote it is the public key of that key.
pub fn public_key_from_file(path: &str, contents: &str) -> (r: Result<
    String,
    crate::errors::ConfigError,
>)
    ensures
        is_key_hex(trimmed(contents@)) ==> r is Ok,
        r matches Ok(s) ==> endpoint_id_fault(s@) is None && is_key_hex(s@),
        match secret_key_endpoint_id(trimmed(contents@)) {
            Some(id) => r matches Ok(s) && s@ == id,
            None => r matches Err(e) && e@ == (crate::errors::ConfigFault::ParseIdentityKey {
                path: path@,
            }),
        },
        forall|secret: Seq<u8>|
            secret.len() == 32 && contents@ == #[trigger] identity_file_text(secret) ==> (r matches Ok(
                s,
            ) && s@ == public_key_text(secret)),
        forall|secret: Seq<u8>|
            secret.len() == 32 && contents@ == #[trigger] hex_lower_text(secret) + seq!['\r', '\n']
                ==> (r matches Ok(s) && s@ == public_key_text(secret)),
{
    let parsed_key = parse_secret_key(trim(contents));
    let parsed = match &parsed_key {
        Ok(secret) => Some(public_key_of(secret.as_slice())),
        Err(_) => None,
    };
    let r = public_key_verdict(path, parsed);
    proof {
        assert forall|secret: Seq<u8>|
            secret.len() == 32 && contents@ == #[trigger] identity_file_text(secret) implies (r matches Ok(
                s,
            ) && s@ == public_key_text(secret)) by {
            crate::laws::law_identity_file_reads_back(secret);
            if let Ok(b) = parsed_key {
                assert(hex_lower_text(b@) == hex_lower_text(secret));
            }
        }
        assert forall|secret: Seq<u8>|
            secret.len() == 32 && contents@ == #[trigger] hex_lower_text(secret) + seq!['\r', '\n']
                implies (r matches Ok(s) && s@ == public_key_text(secret)) by {
            crate::laws::law_identity_file_reads_back(secret);
            crate::laws::law_key_file_line_endings(secret);
            if let Ok(b) = parsed_key {
                assert(hex_lower_text(b@) == hex_lower_text(secret));
            }
        }
    }
    r
}

/// The secret key bytes of the identity whose key file at `path` holds
/// `contents`: the contents, trimmed, must parse as a secret key. A file
/// that `identity init` wrote for a key reads back as that same key.
pub fn secret_key_from_file(path: &str, contents: &str) -> (r: Result<
    Vec<u8>,
    crate::errors::ConfigError,
>)
    ensures
        match secret_key_bytes(trimmed(contents@)) {
            Some(b) => r matches Ok(v) && v@ == b,
            None => r matches Err(e) && e@ == (crate::errors::ConfigFault::ParseIdentityKey {
                path: path@,
            }),
        },
        r matches Ok(v) ==> v@.len() == 32,
        is_key_hex(trimmed(contents@)) ==> (r matches Ok(v) && hex_lower_text(v@) == trimmed(
            contents@,
        )),
        forall|secret: Seq<u8>|
            secret.len() == 32 && contents@ == #[trigger] identity_file_text(secret) ==> (r matches Ok(
                v,
            ) && v@ == secret),        forall|secret: Seq<u8>|
            secret.len() == 32 && contents@ == #[trigger] hex_lower_text(secret) + seq!['\r', '\n']
                ==> (r matches Ok(v) && v@ == secret),
{
    let r = match parse_secret_key(trim(contents)) {
        Ok(secret) => Ok(secret),
        Err(_) => Err(crate::errors::ConfigError::ParseIdentityKey { path: String::from_str(path) }),
    };
    proof {
        assert forall|secret: Seq<u8>|
            secret.len() == 32 && contents@ == #[trigger] identity_file_text(secret) implies (r matches Ok(
                v,
            ) && v@ == secret) by {
            crate::laws::law_identity_file_reads_back(secret);
        }
        assert forall|secret: Seq<u8>|
            secret.len() == 32 && contents@ == #[trigger] hex_lower_text(secret) + seq!['\r', '\n']
                implies (r matches Ok(v) && v@ == secret) by {
            crate::laws::law_identity_file_reads_back(secret);
            crate::laws::law_key_file_line_endings(secret);
        }
    }
    r
}

/// Why a ticket cannot be dialled for an import.
#[derive(Debug)]
pub enum TicketError {
    /// The text is not an endpoint ticket.
    Invalid,
    /// The ticket names another endpoint than the pinned one.
    PinMismatch { pinned: String, actual: String },
}

/// Plain form of [`TicketError`].
pub enum TicketFault {
    Invalid,
    PinMismatch { pinned: Seq<char>, actual: Seq<char> },
}

impl View for TicketError {
    type V = TicketFault;

    open spec fn view(&self) -> TicketFault {
        match self {
            TicketError::Invalid => TicketFault::Invalid,
            TicketError::PinMismatch { pinned, actual } => TicketFault::PinMismatch {
                pinned: pinned@,
                actual: actual@,
            },
        }
    }
}

/// Why an import's ticket is refused, given the endpoint ID that parsing
/// the ticket gave (`parsed`, `None` when it did not parse).
pub open spec fn ticket_fault_given(parsed: Option<Seq<char>>, pinned: Seq<char>) -> Option<
    TicketFault,
> {
    match parsed {
        None => Some(TicketFault::Invalid),
        Some(id) => if id == pinned {
            None
        } else {
            Some(TicketFault::PinMismatch { pinned, actual: id })
        },
    }
}

/// Decide on an import's ticket, given the endpoint ID that parsing it gave.
pub fn ticket_verdict(parsed: Option<String>, pinned: &str) -> (r: Result<(), TicketError>)
    ensures
        match ticket_fault_given(crate::paths::opt_view(parsed), pinned@) {
            None => r is Ok,
            Some(f) => r matches Err(e) && e@ == f,
        },
{
    match parsed {
        None => Err(TicketError::Invalid),
        Some(id) => {
            if str_eq(id.as_str(), pinned) {
                Ok(())
            } else {
                Err(TicketError::PinMismatch { pinned: String::from_str(pinned), actual: id })
            }
        },
    }
}

/// Accept an import's ticket only when it parses and names the pinned
/// endpoint; the endpoint it then names is in canonical spelling.
pub fn check_ticket_pin(ticket: &str, pinned: &str) -> (r: Result<(), TicketError>)
    ensures
        match ticket_fault_given(ticket_endpoint_id(ticket@), pinned@) {
            None => r is Ok,
            Some(f) => r matches Err(e) && e@ == f,
        },
        r is Ok ==> endpoint_id_fault(pinned@) is None,
{
    let parsed = match parse_ticket_endpoint_id(ticket) {
        Ok(id) => Some(id),
        Err(_) => None,
    };
    ticket_verdict(parsed, pinned)
}

/// Whether the endpoint `remote_id` is on the allowlist.
pub fn is_allowlisted(allowed: &Vec<String>, remote_id: &str) -> (r: bool)
    ensures
        r == allowed@.map_values(|s: String| s@).contains(remote_id@),
{
    strings_contain(allowed, remote_id)
}

} // verus!

verus! {

/// Lower-case hex digit of a value below 16.
pub open spec fn hex_digit(n: int) -> char {
    if n == 0 { '0' } else if n == 1 { '1' } else if n == 2 { '2' } else if n == 3 { '3' }
    else if n == 4 { '4' } else if n == 5 { '5' } else if n == 6 { '6' } else if n == 7 { '7' }
    else if n == 8 { '8' } else if n == 9 { '9' } else if n == 10 { 'a' } else if n == 11 { 'b' }
    else if n == 12 { 'c' } else if n == 13 { 'd' } else if n == 14 { 'e' } else { 'f' }
}

/// Bytes in lower-case hex, high digit first.
pub open spec fn hex_lower_text(bytes: Seq<u8>) -> Seq<char> {
    Seq::new(
        (2 * bytes.len()) as nat,
        |i: int|
            if i % 2 == 0 {
                hex_digit(bytes[i / 2] as int / 16)
            } else {
                hex_digit(bytes[i / 2] as int % 16)
            },
    )
}

/// Calls `data_encoding::HEXLOWER.encode`, which writes each byte as two
/// lower-case hex digits, high digit first; the contract states exactly that.
#[verifier::external_body]
fn hex_lower(bytes: &[u8]) -> (r: String)
    ensures
        r@ == hex_lower_text(bytes@),
{
    data_encoding::HEXLOWER.encode(bytes)
}

/// The text of an identity key file for the secret key bytes `secret`: the
/// bytes in lower-case hex and a line break.
pub open spec fn identity_file_text(secret: Seq<u8>) -> Seq<char> {
    hex_lower_text(secret) + seq!['\n']
}

/// What an identity key file holds for the secret key `secret`: the key
/// bytes in lower-case hex and a line break.
pub fn identity_file_contents(secret: &[u8]) -> (r: String)
    ensures
        r@ == identity_file_text(secret@),
{
    let mut text = hex_lower(secret);
    text.append("\n");
    proof {
        reveal_strlit("\n");
        assert("\n"@ =~= seq!['\n']);
    }
    text
}

} // verus!
