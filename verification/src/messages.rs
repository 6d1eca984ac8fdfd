//! The text of each error, as the command line reports it.

use vstd::prelude::*;
use vstd::string::*;
use crate::errors::{AliasError, AliasFault, AliasProblem, ConfigError, ConfigFault,
    EndpointIdFault, EndpointIdProblem};
use crate::paths::IdentityRole;
use crate::keys::{TicketError, TicketFault};
use crate::paths::role_word;
use crate::protocol::RouteError;
use crate::text::{debug_quoted, is_plain_text, str_debug};

verus! {

/// How `{:?}` prints `s`: plain text as itself in double quotes, other
/// text as `str_debug` names it.
pub open spec fn quoted(s: Seq<char>) -> Seq<char> {
    if is_plain_text(s) {
        seq!['"'] + s + seq!['"']
    } else {
        str_debug(s)
    }
}

/// Text of an alias fault.
pub open spec fn alias_message(f: AliasFault) -> Seq<char> {
    match f.problem {
        AliasProblem::Empty => f.kind + " alias cannot be empty"@,
        AliasProblem::InvalidCharacter => f.kind + " alias "@ + quoted(f.alias)
            + " must be ascii alphanumeric, '-' or '_'"@,
        AliasProblem::ReservedDelimiter => f.kind + " alias "@ + quoted(f.alias)
            + " cannot contain reserved delimiter '__'"@,
    }
}

/// Text of an endpoint ID fault about the value that `kind` describes.
pub open spec fn endpoint_id_message(kind: Seq<char>, f: EndpointIdFault) -> Seq<char> {
    match f {
        EndpointIdFault::Empty => kind + " cannot be empty"@,
        EndpointIdFault::Invalid => kind + " is invalid"@,
        EndpointIdFault::NotCanonical(c) => kind + " must be canonical endpoint ID "@ + quoted(c),
    }
}

/// How a profile is named in messages: its role word and quoted name.
pub open spec fn owner_text(role: IdentityRole, name: Seq<char>) -> Seq<char> {
    role_word(role) + " "@ + quoted(name)
}

/// Text of a configuration fault.
pub open spec fn config_message(f: ConfigFault) -> Seq<char> {
    match f {
        ConfigFault::Alias(a) => alias_message(a),
        ConfigFault::IdentityPathReused { role, name } => owner_text(role, name)
            + " reuses an identity path"@,
        ConfigFault::EmptyTicket { client, import } => "client "@ + quoted(client) + " import "@
            + quoted(import) + " ticket cannot be empty"@,
        ConfigFault::ImportEndpointId { client, import, problem } => endpoint_id_message(
            "client "@ + quoted(client) + " import "@ + quoted(import) + " endpointId"@,
            problem,
        ),
        ConfigFault::EmptyCommand { export } => "export "@ + quoted(export)
            + " command cannot be empty"@,
        ConfigFault::NoAllowedClients { export } => "export "@ + quoted(export)
            + " allowClients cannot be empty"@,
        ConfigFault::AllowedClientEndpointId { export, problem } => endpoint_id_message(
            "export "@ + quoted(export) + " allowClients entry"@,
            problem,
        ),
        ConfigFault::ReadIdentityKey { path } => "read identity key "@ + path,
        ConfigFault::ParseIdentityKey { path } => "parse identity key "@ + path,
        ConfigFault::EndpointIdentityReused { role, name, existing_role, existing_name } =>
            owner_text(role, name) + " reuses endpoint identity already used by "@ + owner_text(
            existing_role,
            existing_name,
        ),
        ConfigFault::ProfileNotFound { role, name } => role_word(role) + " profile "@ + quoted(
            name,
        ) + " not found"@,
    }
}

fn append_quoted(out: &mut String, s: &str)
    ensures
        final(out)@ == old(out)@ + quoted(s@),
{
    let q = debug_quoted(s);
    out.append(q.as_str());
}

impl AliasError {
    /// The text of this error.
    pub fn message(&self) -> (r: String)
        ensures
            r@ == alias_message(self@),
    {
        let mut out = String::from_str(self.kind.as_str());
        match self.problem {
            AliasProblem::Empty => {
                out.append(" alias cannot be empty");
            },
            AliasProblem::InvalidCharacter => {
                out.append(" alias ");
                append_quoted(&mut out, self.alias.as_str());
                out.append(" must be ascii alphanumeric, '-' or '_'");
            },
            AliasProblem::ReservedDelimiter => {
                out.append(" alias ");
                append_quoted(&mut out, self.alias.as_str());
                out.append(" cannot contain reserved delimiter '__'");
            },
        }
        out
    }
}

fn endpoint_id_text(kind: String, problem: &EndpointIdProblem) -> (r: String)
    ensures
        r@ == endpoint_id_message(kind@, problem@),
{
    let mut out = kind;
    match problem {
        EndpointIdProblem::Empty => {
            out.append(" cannot be empty");
        },
        EndpointIdProblem::Invalid => {
            out.append(" is invalid");
        },
        EndpointIdProblem::NotCanonical(c) => {
            out.append(" must be canonical endpoint ID ");
            append_quoted(&mut out, c.as_str());
        },
    }
    out
}

fn owner(role: IdentityRole, name: &str) -> (r: String)
    ensures
        r@ == owner_text(role, name@),
{
    let mut out = String::from_str(role.command_name());
    out.append(" ");
    append_quoted(&mut out, name);
    out
}

impl ConfigError {
    /// The text of this error.
    pub fn message(&self) -> (r: String)
        ensures
            r@ == config_message(self@),
    {
        match self {
            ConfigError::Alias(a) => a.message(),
            ConfigError::IdentityPathReused { role, name } => {
                let mut out = owner(*role, name.as_str());
                out.append(" reuses an identity path");
                out
            },
            ConfigError::EmptyTicket { client, import } => {
                let mut out = String::from_str("client ");
                append_quoted(&mut out, client.as_str());
                out.append(" import ");
                append_quoted(&mut out, import.as_str());
                out.append(" ticket cannot be empty");
                out
            },
            ConfigError::ImportEndpointId { client, import, problem } => {
                let mut kind = String::from_str("client ");
                append_quoted(&mut kind, client.as_str());
                kind.append(" import ");
                append_quoted(&mut kind, import.as_str());
                kind.append(" endpointId");
                endpoint_id_text(kind, problem)
            },
            ConfigError::EmptyCommand { export } => {
                let mut out = String::from_str("export ");
                append_quoted(&mut out, export.as_str());
                out.append(" command cannot be empty");
                out
            },
            ConfigError::NoAllowedClients { export } => {
                let mut out = String::from_str("export ");
                append_quoted(&mut out, export.as_str());
                out.append(" allowClients cannot be empty");
                out
            },
            ConfigError::AllowedClientEndpointId { export, problem } => {
                let mut kind = String::from_str("export ");
                append_quoted(&mut kind, export.as_str());
                kind.append(" allowClients entry");
                endpoint_id_text(kind, problem)
            },
            ConfigError::ReadIdentityKey { path } => {
                let mut out = String::from_str("read identity key ");
                out.append(path.as_str());
                out
            },
            ConfigError::ParseIdentityKey { path } => {
                let mut out = String::from_str("parse identity key ");
                out.append(path.as_str());
                out
            },
            ConfigError::EndpointIdentityReused { role, name, existing_role, existing_name } => {
                let mut out = owner(*role, name.as_str());
                out.append(" reuses endpoint identity already used by ");
                let other = owner(*existing_role, existing_name.as_str());
                out.append(other.as_str());
                out
            },
            ConfigError::ProfileNotFound { role, name } => {
                let mut out = String::from_str(role.command_name());
                out.append(" profile ");
                append_quoted(&mut out, name.as_str());
                out.append(" not found");
                out
            },
        }
    }
}

/// Text of a ticket fault.
pub open spec fn ticket_message(f: TicketFault) -> Seq<char> {
    match f {
        TicketFault::Invalid => "invalid endpoint ticket"@,
        TicketFault::PinMismatch { pinned, actual } => "ticket endpoint "@ + actual
            + " does not match pinned endpointId "@ + pinned,
    }
}

impl TicketError {
    /// The text of this error.
    pub fn message(&self) -> (r: String)
        ensures
            r@ == ticket_message(self@),
    {
        match self {
            TicketError::Invalid => String::from_str("invalid endpoint ticket"),
            TicketError::PinMismatch { pinned, actual } => {
                let mut out = String::from_str("ticket endpoint ");
                out.append(actual.as_str());
                out.append(" does not match pinned endpointId ");
                out.append(pinned.as_str());
                out
            },
        }
    }
}

/// Text of a routing fault.
pub open spec fn route_message(e: RouteError) -> Seq<char> {
    match e {
        RouteError::NotPrefixed => "tool name must be prefixed"@,
        RouteError::UnknownAlias => "unknown remote alias"@,
    }
}

impl RouteError {
    /// The text of this error.
    pub fn message(&self) -> (r: String)
        ensures
            r@ == route_message(*self),
    {
        match self {
            RouteError::NotPrefixed => String::from_str("tool name must be prefixed"),
            RouteError::UnknownAlias => String::from_str("unknown remote alias"),
        }
    }
}

} // verus!
