//! The configuration: client profiles with their imports, export profiles,
//! identity paths derived from profile names, and validation.

use vstd::prelude::*;
use vstd::string::*;
use crate::errors::{AliasError, AliasFault, AliasProblem, ConfigError, ConfigFault};
use crate::paths::IdentityRole;
use crate::names::{NameMap, lookup, names_sorted, lemma_lookup_at};
use crate::paths::{
    config_base_dir, identity_path, is_absolute, join, path_join, spec_config_base_dir,
    spec_identity_arg_path, spec_identity_path,
};
use crate::text::str_eq;

verus! {

/// One remote that a client profile imports: its ticket and pinned endpoint ID.
#[derive(Debug)]
pub struct ImportConfig {
    pub ticket: String,
    pub endpoint_id: String,
}

impl Clone for ImportConfig {
    fn clone(&self) -> (r: Self)
        ensures
            r == *self,
    {
        ImportConfig { ticket: self.ticket.clone(), endpoint_id: self.endpoint_id.clone() }
    }
}

/// A client profile: its identity key file and its imports by alias.
#[derive(Debug)]
pub struct ClientConfig {
    pub identity: String,
    pub imports: NameMap<ImportConfig>,
}

/// Plain form of [`ClientConfig`].
pub struct ClientView {
    pub identity: Seq<char>,
    pub imports: Seq<(Seq<char>, ImportConfig)>,
}

impl View for ClientConfig {
    type V = ClientView;

    open spec fn view(&self) -> ClientView {
        ClientView { identity: self.identity@, imports: self.imports@ }
    }
}

impl Clone for ClientConfig {
    fn clone(&self) -> (r: Self)
        ensures
            r@ == self@,
    {
        let imports = self.imports.duplicate();
        proof {
            assert forall|i: int| 0 <= i < imports@.len() implies #[trigger] imports@[i]
                == self.imports@[i] by {
                assert(imports@[i].0 == self.imports@[i].0);
            }
            assert(imports@ =~= self.imports@);
        }
        ClientConfig { identity: self.identity.clone(), imports }
    }
}

/// The plain form of a list of strings.
pub open spec fn strings_view(v: Seq<String>) -> Seq<Seq<char>> {
    v.map_values(|s: String| s@)
}

/// An export profile: its identity key file and the child MCP server it runs.
#[derive(Debug)]
pub struct ExportConfig {
    pub identity: String,
    pub command: String,
    pub args: Vec<String>,
    pub cwd: Option<String>,
    pub env: NameMap<String>,
    pub allow_clients: Vec<String>,
}

/// Plain form of [`ExportConfig`].
pub struct ExportView {
    pub identity: Seq<char>,
    pub command: Seq<char>,
    pub args: Seq<Seq<char>>,
    pub cwd: Option<Seq<char>>,
    pub env: Seq<(Seq<char>, String)>,
    pub allow_clients: Seq<Seq<char>>,
}

impl View for ExportConfig {
    type V = ExportView;

    open spec fn view(&self) -> ExportView {
        ExportView {
            identity: self.identity@,
            command: self.command@,
            args: strings_view(self.args@),
            cwd: crate::paths::opt_view(self.cwd),
            env: self.env@,
            allow_clients: strings_view(self.allow_clients@),
        }
    }
}

fn clone_strings(v: &Vec<String>) -> (r: Vec<String>)
    ensures
        r@ == v@,
{
    let mut r: Vec<String> = Vec::new();
    let n = v.len();
    let mut i: usize = 0;
    while i < n
        invariant
            n == v@.len(),
            i <= n,
            r@ == v@.take(i as int),
        decreases n - i,
    {
        r.push(v[i].clone());
        proof {
            assert(v@.take(i + 1) =~= v@.take(i as int).push(v@[i as int]));
        }
        i = i + 1;
    }
    proof {
        assert(v@.take(n as int) =~= v@);
    }
    r
}

impl Clone for ExportConfig {
    fn clone(&self) -> (r: Self)
        ensures
            r@ == self@,
    {
        let env = self.env.duplicate();
        proof {
            assert forall|i: int| 0 <= i < env@.len() implies #[trigger] env@[i]
                == self.env@[i] by {
                assert(env@[i].0 == self.env@[i].0);
            }
            assert(env@ =~= self.env@);
        }
        let cwd = match &self.cwd {
            Some(c) => Some(c.clone()),
            None => None,
        };
        ExportConfig {
            identity: self.identity.clone(),
            command: self.command.clone(),
            args: clone_strings(&self.args),
            cwd,
            env,
            allow_clients: clone_strings(&self.allow_clients),
        }
    }
}

/// All client and export profiles, each map in ascending name order.
#[derive(Debug)]
pub struct Config {
    pub clients: NameMap<ClientConfig>,
    pub exports: NameMap<ExportConfig>,
}

impl Config {
    /// A copy of the client profile `name`.
    pub fn client(&self, name: &str) -> (r: Result<ClientConfig, ConfigError>)
        ensures
            match lookup(self.clients@, name@) {
                Some(c) => r matches Ok(x) && x@ == c@,
                None => r matches Err(e) && e@ == (ConfigFault::ProfileNotFound {
                    role: IdentityRole::Client,
                    name: name@,
                }),
            },
    {
        match self.clients.get(name) {
            Some(c) => Ok(c.clone()),
            None => Err(
                ConfigError::ProfileNotFound {
                    role: IdentityRole::Client,
                    name: String::from_str(name),
                },
            ),
        }
    }

    /// A copy of the export profile `name`.
    pub fn export(&self, name: &str) -> (r: Result<ExportConfig, ConfigError>)
        ensures
            match lookup(self.exports@, name@) {
                Some(c) => r matches Ok(x) && x@ == c@,
                None => r matches Err(e) && e@ == (ConfigFault::ProfileNotFound {
                    role: IdentityRole::Export,
                    name: name@,
                }),
            },
    {
        match self.exports.get(name) {
            Some(c) => Ok(c.clone()),
            None => Err(
                ConfigError::ProfileNotFound {
                    role: IdentityRole::Export,
                    name: String::from_str(name),
                },
            ),
        }
    }
}

/// A working directory as resolved against the configuration directory:
/// relative ones are joined onto it, absolute ones stay.
pub open spec fn resolved_cwd(base_dir: Seq<char>, cwd: Option<Seq<char>>) -> Option<Seq<char>> {
    match cwd {
        Some(c) => if is_absolute(c) {
            Some(c)
        } else {
            Some(path_join(base_dir, c))
        },
        None => None,
    }
}

impl Config {
    /// Give every profile its identity path under `base_dir` and resolve
    /// relative export working directories against `base_dir`.
    pub fn resolve_identity_paths(&mut self, base_dir: &str)
        ensures
            final(self).clients@.len() == old(self).clients@.len(),
            forall|i: int|
                0 <= i < old(self).clients@.len() ==> {
                    let (name, c) = #[trigger] old(self).clients@[i];
                    &&& final(self).clients@[i].0 == name
                    &&& final(self).clients@[i].1.identity@ == spec_identity_path(
                        base_dir@,
                        IdentityRole::Client,
                        name,
                    )
                    &&& final(self).clients@[i].1.imports@ == c.imports@
                },
            final(self).exports@.len() == old(self).exports@.len(),
            forall|i: int|
                0 <= i < old(self).exports@.len() ==> {
                    let (name, e) = #[trigger] old(self).exports@[i];
                    let f = final(self).exports@[i].1@;
                    &&& final(self).exports@[i].0 == name
                    &&& f.identity == spec_identity_path(base_dir@, IdentityRole::Export, name)
                    &&& f.cwd == resolved_cwd(base_dir@, e@.cwd)
                    &&& f.command == e@.command
                    &&& f.args == e@.args
                    &&& f.env == e@.env
                    &&& f.allow_clients == e@.allow_clients
                },
    {
        let n = self.clients.len();
        let ghost old_clients = self.clients@;
        let mut i: usize = 0;
        while i < n
            invariant
                n == old_clients.len(),
                old_clients == old(self).clients@,
                self.exports@ == old(self).exports@,
                self.clients@.len() == n,
                i <= n,
                forall|j: int|
                    i <= j < n ==> #[trigger] self.clients@[j] == old_clients[j],
                forall|j: int|
                    0 <= j < i ==> {
                        let (name, c) = #[trigger] old_clients[j];
                        &&& self.clients@[j].0 == name
                        &&& self.clients@[j].1.identity@ == spec_identity_path(
                            base_dir@,
                            IdentityRole::Client,
                            name,
                        )
                        &&& self.clients@[j].1.imports@ == c.imports@
                    },
            decreases n - i,
        {
            let mut c = self.clients.value_at(i).clone();
            c.identity = identity_path(base_dir, IdentityRole::Client, self.clients.name_at(i).as_str());
            self.clients.set_value(i, c);
            i = i + 1;
        }
        let m = self.exports.len();
        let ghost old_exports = self.exports@;
        let ghost done_clients = self.clients@;
        let mut k: usize = 0;
        while k < m
            invariant
                m == old_exports.len(),
                self.clients@ == done_clients,
                self.exports@.len() == m,
                k <= m,
                forall|j: int|
                    k <= j < m ==> #[trigger] self.exports@[j] == old_exports[j],
                forall|j: int|
                    0 <= j < k ==> {
                        let (name, e) = #[trigger] old_exports[j];
                        let f = self.exports@[j].1@;
                        &&& self.exports@[j].0 == name
                        &&& f.identity == spec_identity_path(
                            base_dir@,
                            IdentityRole::Export,
                            name,
                        )
                        &&& f.cwd == resolved_cwd(base_dir@, e@.cwd)
                        &&& f.command == e@.command
                        &&& f.args == e@.args
                        &&& f.env == e@.env
                        &&& f.allow_clients == e@.allow_clients
                    },
            decreases m - k,
        {
            let mut e = self.exports.value_at(k).clone();
            e.identity = identity_path(base_dir, IdentityRole::Export, self.exports.name_at(k).as_str());
            let cwd = match &e.cwd {
                Some(c) => {
                    if c.as_str().unicode_len() > 0 && c.as_str().get_char(0) == '/' {
                        Some(c.clone())
                    } else {
                        Some(join(base_dir, c.as_str()))
                    }
                },
                None => None,
            };
            e.cwd = cwd;
            self.exports.set_value(k, e);
            k = k + 1;
        }
    }
}

impl Config {
    /// Resolve the profiles of the configuration read from the file `config`
    /// (the default file when `None`, found through `home`): each identity is
    /// the key file that the identity commands use for that profile, and
    /// relative export working directories are joined onto the file's
    /// directory.
    pub fn resolve_for_config_file(&mut self, config: Option<&str>, home: Option<&str>)
        ensures
            ({
                let c = match config {
                    Some(p) => Some(p@),
                    None => None,
                };
                let h = match home {
                    Some(x) => Some(x@),
                    None => None,
                };
                &&& final(self).clients@.len() == old(self).clients@.len()
                &&& forall|i: int|
                    0 <= i < old(self).clients@.len() ==> {
                        let (name, cl) = #[trigger] old(self).clients@[i];
                        &&& final(self).clients@[i].0 == name
                        &&& final(self).clients@[i].1.identity@ == spec_identity_arg_path(
                            c,
                            h,
                            IdentityRole::Client,
                            name,
                        )
                        &&& final(self).clients@[i].1.imports@ == cl.imports@
                    }
                &&& final(self).exports@.len() == old(self).exports@.len()
                &&& forall|i: int|
                    0 <= i < old(self).exports@.len() ==> {
                        let (name, e) = #[trigger] old(self).exports@[i];
                        let f = final(self).exports@[i].1@;
                        &&& final(self).exports@[i].0 == name
                        &&& f.identity == spec_identity_arg_path(c, h, IdentityRole::Export, name)
                        &&& f.cwd == resolved_cwd(spec_config_base_dir(c, h), e@.cwd)
                        &&& f.command == e@.command
                        &&& f.args == e@.args
                        &&& f.env == e@.env
                        &&& f.allow_clients == e@.allow_clients
                    }
            }),
    {
        let base = config_base_dir(config, home);
        self.resolve_identity_paths(base.as_str());
    }
}

/// Characters an alias may hold: ASCII letters and digits, `-` and `_`.
pub open spec fn is_alias_char(c: char) -> bool {
    ||| 'a' <= c <= 'z'
    ||| 'A' <= c <= 'Z'
    ||| '0' <= c <= '9'
    ||| c == '-'
    ||| c == '_'
}

/// `s` holds the delimiter `__` somewhere.
pub open spec fn has_double_underscore(s: Seq<char>) -> bool {
    exists|i: int| 0 <= i && i + 1 < s.len() && #[trigger] s[i] == '_' && s[i + 1] == '_'
}

/// Why an alias is refused, if it is, in the order the checks are made.
pub open spec fn alias_problem(alias: Seq<char>) -> Option<AliasProblem> {
    if alias.len() == 0 {
        Some(AliasProblem::Empty)
    } else if !(forall|i: int| 0 <= i < alias.len() ==> is_alias_char(#[trigger] alias[i])) {
        Some(AliasProblem::InvalidCharacter)
    } else if has_double_underscore(alias) {
        Some(AliasProblem::ReservedDelimiter)
    } else {
        None
    }
}

fn alias_char(c: char) -> (r: bool)
    ensures
        r == is_alias_char(c),
{
    ('a' <= c && c <= 'z') || ('A' <= c && c <= 'Z') || ('0' <= c && c <= '9') || c == '-' || c
        == '_'
}

/// Accept `alias` only when it is non-empty, made of ASCII letters, digits,
/// `-` and `_`, and free of the delimiter `__`; `kind` says what it names.
pub fn validate_alias(kind: &str, alias: &str) -> (r: Result<(), AliasError>)
    ensures
        match alias_problem(alias@) {
            None => r is Ok,
            Some(p) => r matches Err(e) && e@ == (AliasFault {
                kind: kind@,
                alias: alias@,
                problem: p,
            }),
        },
{
    let n = alias.unicode_len();
    if n == 0 {
        return Err(
            AliasError {
                kind: String::from_str(kind),
                alias: String::from_str(alias),
                problem: AliasProblem::Empty,
            },
        );
    }
    let mut i: usize = 0;
    while i < n
        invariant
            n == alias@.len(),
            i <= n,
            forall|j: int| 0 <= j < i ==> is_alias_char(#[trigger] alias@[j]),
        decreases n - i,
    {
        if !alias_char(alias.get_char(i)) {
            return Err(
                AliasError {
                    kind: String::from_str(kind),
                    alias: String::from_str(alias),
                    problem: AliasProblem::InvalidCharacter,
                },
            );
        }
        i = i + 1;
    }
    let mut k: usize = 0;
    while k < n
        invariant
            n == alias@.len(),
            k <= n,
            forall|j: int| 0 <= j < alias@.len() ==> is_alias_char(#[trigger] alias@[j]),
            forall|j: int| 0 <= j < k && j + 1 < n ==> !(#[trigger] alias@[j] == '_' && alias@[j + 1] == '_'),
        decreases n - k,
    {
        if k + 1 < n && alias.get_char(k) == '_' && alias.get_char(k + 1) == '_' {
            return Err(
                AliasError {
                    kind: String::from_str(kind),
                    alias: String::from_str(alias),
                    problem: AliasProblem::ReservedDelimiter,
                },
            );
        }
        k = k + 1;
    }
    Ok(())
}

} // verus!
