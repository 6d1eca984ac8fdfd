//! Errors of configuration handling, with a view over plain sequences.

use vstd::prelude::*;
use crate::paths::IdentityRole;

verus! {

/// Why an alias was refused.
#[derive(Clone, Copy, Debug, PartialEq, Eq, Structural)]
pub enum AliasProblem {
    /// The alias is empty.
    Empty,
    /// A character is not ASCII alphanumeric, `-` or `_`.
    InvalidCharacter,
    /// The alias contains the reserved delimiter `__`.
    ReservedDelimiter,
}

/// An alias refused by alias validation; `kind` names what the alias is for.
#[derive(Debug)]
pub struct AliasError {
    pub kind: String,
    pub alias: String,
    pub problem: AliasProblem,
}

/// Plain form of [`AliasError`].
pub struct AliasFault {
    pub kind: Seq<char>,
    pub alias: Seq<char>,
    pub problem: AliasProblem,
}

impl View for AliasError {
    type V = AliasFault;

    open spec fn view(&self) -> AliasFault {
        AliasFault { kind: self.kind@, alias: self.alias@, problem: self.problem }
    }
}

/// Why an endpoint ID was refused.
#[derive(Debug)]
pub enum EndpointIdProblem {
    /// The value is empty.
    Empty,
    /// The value does not parse as an endpoint ID.
    Invalid,
    /// The value parses, but differs from the canonical spelling given here.
    NotCanonical(String),
}

/// Plain form of [`EndpointIdProblem`].
pub enum EndpointIdFault {
    Empty,
    Invalid,
    NotCanonical(Seq<char>),
}

impl View for EndpointIdProblem {
    type V = EndpointIdFault;

    open spec fn view(&self) -> EndpointIdFault {
        match self {
            EndpointIdProblem::Empty => EndpointIdFault::Empty,
            EndpointIdProblem::Invalid => EndpointIdFault::Invalid,
            EndpointIdProblem::NotCanonical(c) => EndpointIdFault::NotCanonical(c@),
        }
    }
}

/// A configuration that cannot be used, or a profile that is not there.
#[derive(Debug)]
pub enum ConfigError {
    /// A profile or import alias is malformed.
    Alias(AliasError),
    /// A profile's identity path is already taken by an earlier profile.
    IdentityPathReused { role: IdentityRole, name: String },
    /// An import of a client profile has an empty ticket.
    EmptyTicket { client: String, import: String },
    /// The pinned endpoint ID of an import is refused.
    ImportEndpointId { client: String, import: String, problem: EndpointIdProblem },
    /// An export profile has an empty command.
    EmptyCommand { export: String },
    /// An export profile allows no client.
    NoAllowedClients { export: String },
    /// An entry of an export's client allowlist is refused.
    AllowedClientEndpointId { export: String, problem: EndpointIdProblem },
    /// An existing identity key file could not be read.
    ReadIdentityKey { path: String },
    /// An identity key file does not hold a secret key.
    ParseIdentityKey { path: String },
    /// Two profiles use the same endpoint identity.
    EndpointIdentityReused {
        role: IdentityRole,
        name: String,
        existing_role: IdentityRole,
        existing_name: String,
    },
    /// No profile of this role carries this name.
    ProfileNotFound { role: IdentityRole, name: String },
}

/// Plain form of [`ConfigError`].
pub enum ConfigFault {
    Alias(AliasFault),
    IdentityPathReused { role: IdentityRole, name: Seq<char> },
    EmptyTicket { client: Seq<char>, import: Seq<char> },
    ImportEndpointId { client: Seq<char>, import: Seq<char>, problem: EndpointIdFault },
    EmptyCommand { export: Seq<char> },
    NoAllowedClients { export: Seq<char> },
    AllowedClientEndpointId { export: Seq<char>, problem: EndpointIdFault },
    ReadIdentityKey { path: Seq<char> },
    ParseIdentityKey { path: Seq<char> },
    EndpointIdentityReused {
        role: IdentityRole,
        name: Seq<char>,
        existing_role: IdentityRole,
        existing_name: Seq<char>,
    },
    ProfileNotFound { role: IdentityRole, name: Seq<char> },
}

impl View for ConfigError {
    type V = ConfigFault;

    open spec fn view(&self) -> ConfigFault {
        match self {
            ConfigError::Alias(e) => ConfigFault::Alias(e@),
            ConfigError::IdentityPathReused { role, name } => ConfigFault::IdentityPathReused {
                role: *role,
                name: name@,
            },
            ConfigError::EmptyTicket { client, import } => ConfigFault::EmptyTicket {
                client: client@,
                import: import@,
            },
            ConfigError::ImportEndpointId { client, import, problem } =>
                ConfigFault::ImportEndpointId {
                    client: client@,
                    import: import@,
                    problem: problem@,
                },
            ConfigError::EmptyCommand { export } => ConfigFault::EmptyCommand { export: export@ },
            ConfigError::NoAllowedClients { export } => ConfigFault::NoAllowedClients {
                export: export@,
            },
            ConfigError::AllowedClientEndpointId { export, problem } =>
                ConfigFault::AllowedClientEndpointId { export: export@, problem: problem@ },
            ConfigError::ReadIdentityKey { path } => ConfigFault::ReadIdentityKey { path: path@ },
            ConfigError::ParseIdentityKey { path } => ConfigFault::ParseIdentityKey { path: path@ },
            ConfigError::EndpointIdentityReused { role, name, existing_role, existing_name } =>
                ConfigFault::EndpointIdentityReused {
                role: *role,
                name: name@,
                existing_role: *existing_role,
                existing_name: existing_name@,
            },
            ConfigError::ProfileNotFound { role, name } => ConfigFault::ProfileNotFound {
                role: *role,
                name: name@,
            },
        }
    }
}

} // verus!
