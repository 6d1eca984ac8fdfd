//! Validation of a loaded configuration: aliases, identity paths, imports,
//! export commands and allowlists, then the identity keys already on disk.

use vstd::prelude::*;
use vstd::string::*;
use crate::config::{Config, ImportConfig, alias_problem, validate_alias};
use crate::errors::{AliasFault, ConfigError, ConfigFault, EndpointIdFault};
use crate::paths::IdentityRole;
use crate::keys::{endpoint_id_fault, public_key_from_file, secret_key_endpoint_id, validate_endpoint_id};
use crate::names::NameMap;
use crate::text::{strings_contain, trimmed};

verus! {

/// The first fault in `s`, if any.
pub open spec fn first_fault<T>(s: Seq<Option<T>>) -> Option<T>
    decreases s.len(),
{
    if s.len() == 0 {
        None
    } else if s[0] is Some {
        s[0]
    } else {
        first_fault(s.drop_first())
    }
}

/// With no fault before position `k`, the first fault is whatever is at `k`.
pub proof fn lemma_first_fault_at<T>(s: Seq<Option<T>>, k: int)
    requires
        0 <= k < s.len(),
        forall|j: int| 0 <= j < k ==> s[j] is None,
    ensures
        first_fault(s) == s[k] || (s[k] is None && first_fault(s) == first_fault(s.skip(k + 1))),
        s[k] is Some ==> first_fault(s) == s[k],
    decreases k,
{
    if k > 0 {
        lemma_first_fault_at(s.drop_first(), k - 1);
        assert(s.drop_first().skip(k) =~= s.skip(k + 1));
    } else {
        assert(s.skip(1) =~= s.drop_first());
    }
}

/// Without any fault, there is no first fault.
pub proof fn lemma_first_fault_none<T>(s: Seq<Option<T>>)
    requires
        forall|j: int| 0 <= j < s.len() ==> s[j] is None,
    ensures
        first_fault(s) is None,
    decreases s.len(),
{
    if s.len() > 0 {
        lemma_first_fault_none(s.drop_first());
    }
}

/// No first fault means no fault at all.
pub proof fn lemma_first_fault_none_all<T>(s: Seq<Option<T>>)
    requires
        first_fault(s) is None,
    ensures
        forall|j: int| 0 <= j < s.len() ==> s[j] is None,
    decreases s.len(),
{
    if s.len() > 0 {
        lemma_first_fault_none_all(s.drop_first());
        assert forall|j: int| 0 <= j < s.len() implies s[j] is None by {
            if j > 0 {
                assert(s[j] == s.drop_first()[j - 1]);
            }
        }
    }
}

/// What an import of client `client` is refused for, if anything.
pub open spec fn import_fault(client: Seq<char>, alias: Seq<char>, import: ImportConfig) -> Option<
    ConfigFault,
> {
    match alias_problem(alias) {
        Some(p) => Some(ConfigFault::Alias(AliasFault { kind: "import"@, alias, problem: p })),
        None => if import.ticket@.len() == 0 {
            Some(ConfigFault::EmptyTicket { client, import: alias })
        } else {
            match endpoint_id_fault(import.endpoint_id@) {
                Some(p) => Some(ConfigFault::ImportEndpointId { client, import: alias, problem: p }),
                None => None,
            }
        },
    }
}

/// The faults of the imports of client `client`, in alias order.
pub open spec fn import_faults(client: Seq<char>, imports: Seq<(Seq<char>, ImportConfig)>) -> Seq<
    Option<ConfigFault>,
> {
    Seq::new(imports.len(), |k: int| import_fault(client, imports[k].0, imports[k].1))
}

/// The faults of the allowlist entries of export `export`, in list order.
pub open spec fn allowlist_faults(export: Seq<char>, allowed: Seq<Seq<char>>) -> Seq<
    Option<ConfigFault>,
> {
    Seq::new(
        allowed.len(),
        |k: int|
            match endpoint_id_fault(allowed[k]) {
                Some(p) => Some(ConfigFault::AllowedClientEndpointId { export, problem: p }),
                None => None,
            },
    )
}

fn check_imports(client: &str, imports: &NameMap<ImportConfig>) -> (r: Result<(), ConfigError>)
    ensures
        match first_fault(import_faults(client@, imports@)) {
            None => r is Ok,
            Some(f) => r matches Err(e) && e@ == f,
        },
{
    let n = imports.len();
    let ghost faults = import_faults(client@, imports@);
    let mut k: usize = 0;
    while k < n
        invariant
            n == imports@.len(),
            faults == import_faults(client@, imports@),
            k <= n,
            forall|j: int| 0 <= j < k ==> faults[j] is None,
        decreases n - k,
    {
        let alias = imports.name_at(k);
        let import = imports.value_at(k);
        let checked: Result<(), ConfigError> = match validate_alias("import", alias.as_str()) {
            Err(e) => Err(ConfigError::Alias(e)),
            Ok(()) => {
                if import.ticket.as_str().unicode_len() == 0 {
                    Err(
                        ConfigError::EmptyTicket {
                            client: String::from_str(client),
                            import: alias.clone(),
                        },
                    )
                } else {
                    match validate_endpoint_id(import.endpoint_id.as_str()) {
                        Err(p) => Err(
                            ConfigError::ImportEndpointId {
                                client: String::from_str(client),
                                import: alias.clone(),
                                problem: p,
                            },
                        ),
                        Ok(()) => Ok(()),
                    }
                }
            },
        };
        match checked {
            Err(e) => {
                proof {
                    lemma_first_fault_at(faults, k as int);
                }
                return Err(e);
            },
            Ok(()) => {},
        }
        k = k + 1;
    }
    proof {
        lemma_first_fault_none(faults);
    }
    Ok(())
}

fn check_allowlist(export: &str, allowed: &Vec<String>) -> (r: Result<(), ConfigError>)
    ensures
        match first_fault(allowlist_faults(export@, allowed@.map_values(|s: String| s@))) {
            None => r is Ok,
            Some(f) => r matches Err(e) && e@ == f,
        },
{
    let n = allowed.len();
    let ghost faults = allowlist_faults(export@, allowed@.map_values(|s: String| s@));
    let mut k: usize = 0;
    while k < n
        invariant
            n == allowed@.len(),
            faults == allowlist_faults(export@, allowed@.map_values(|s: String| s@)),
            k <= n,
            forall|j: int| 0 <= j < k ==> faults[j] is None,
        decreases n - k,
    {
        match validate_endpoint_id(allowed[k].as_str()) {
            Err(p) => {
                proof {
                    lemma_first_fault_at(faults, k as int);
                }
                return Err(
                    ConfigError::AllowedClientEndpointId { export: String::from_str(export), problem: p },
                );
            },
            Ok(()) => {},
        }
        k = k + 1;
    }
    proof {
        lemma_first_fault_none(faults);
    }
    Ok(())
}

/// What the filesystem says about a key file: absent, present but unreadable,
/// or present with these contents.
#[derive(Debug)]
pub enum KeyFile {
    Missing,
    Unreadable,
    Contents(String),
}

/// What the filesystem says about a profile's identity path: the path in
/// the form used to compare paths (canonical where it can be resolved), and
/// the state of the key file.
#[derive(Debug)]
pub struct IdentityProbe {
    pub comparable: String,
    pub key_file: KeyFile,
}

/// One probe per client profile and per export profile, in profile order.
#[derive(Debug)]
pub struct IdentityProbes {
    pub clients: Vec<IdentityProbe>,
    pub exports: Vec<IdentityProbe>,
}

/// Probes of all profiles: clients first, then exports.
pub open spec fn probe_list(p: IdentityProbes) -> Seq<IdentityProbe> {
    p.clients@ + p.exports@
}

/// Comparable identity paths of all profiles, clients first.
pub open spec fn comparables(p: IdentityProbes) -> Seq<Seq<char>> {
    probe_list(p).map_values(|q: IdentityProbe| q.comparable@)
}

/// The identity path of profile `g` is already used by an earlier profile.
pub open spec fn path_reused(p: IdentityProbes, g: int) -> bool {
    comparables(p).take(g).contains(comparables(p)[g])
}

/// Number of profiles, clients and exports together.
pub open spec fn profile_count(cfg: Config) -> int {
    (cfg.clients@.len() + cfg.exports@.len()) as int
}

/// Role of profile `g` in the order clients, then exports.
pub open spec fn profile_role(cfg: Config, g: int) -> IdentityRole {
    if g < cfg.clients@.len() {
        IdentityRole::Client
    } else {
        IdentityRole::Export
    }
}

/// Name of profile `g`.
pub open spec fn profile_name(cfg: Config, g: int) -> Seq<char> {
    if g < cfg.clients@.len() {
        cfg.clients@[g].0
    } else {
        cfg.exports@[g - cfg.clients@.len()].0
    }
}

/// Identity path of profile `g`.
pub open spec fn profile_identity(cfg: Config, g: int) -> Seq<char> {
    if g < cfg.clients@.len() {
        cfg.clients@[g].1.identity@
    } else {
        cfg.exports@[g - cfg.clients@.len()].1.identity@
    }
}

/// What client profile `i` is refused for, if anything.
pub open spec fn client_fault(cfg: Config, p: IdentityProbes, i: int) -> Option<ConfigFault> {
    let (name, c) = cfg.clients@[i];
    match alias_problem(name) {
        Some(a) => Some(
            ConfigFault::Alias(AliasFault { kind: "client profile"@, alias: name, problem: a }),
        ),
        None => if path_reused(p, i) {
            Some(ConfigFault::IdentityPathReused { role: IdentityRole::Client, name })
        } else {
            first_fault(import_faults(name, c.imports@))
        },
    }
}

/// What export profile `k` is refused for, if anything.
pub open spec fn export_fault(cfg: Config, p: IdentityProbes, k: int) -> Option<ConfigFault> {
    let (name, e) = cfg.exports@[k];
    match alias_problem(name) {
        Some(a) => Some(
            ConfigFault::Alias(AliasFault { kind: "export profile"@, alias: name, problem: a }),
        ),
        None => if path_reused(p, cfg.clients@.len() + k) {
            Some(ConfigFault::IdentityPathReused { role: IdentityRole::Export, name })
        } else if e@.command.len() == 0 {
            Some(ConfigFault::EmptyCommand { export: name })
        } else if e@.allow_clients.len() == 0 {
            Some(ConfigFault::NoAllowedClients { export: name })
        } else {
            first_fault(allowlist_faults(name, e@.allow_clients))
        },
    }
}

/// The faults found in the profiles themselves, clients first.
pub open spec fn layout_faults(cfg: Config, p: IdentityProbes) -> Seq<Option<ConfigFault>> {
    Seq::new(
        profile_count(cfg) as nat,
        |g: int|
            if g < cfg.clients@.len() {
                client_fault(cfg, p, g)
            } else {
                export_fault(cfg, p, g - cfg.clients@.len())
            },
    )
}

/// The endpoint ID of the key file of profile `g`, when it holds a secret key.
pub open spec fn key_id(p: IdentityProbes, g: int) -> Option<Seq<char>> {
    match probe_list(p)[g].key_file {
        KeyFile::Contents(t) => secret_key_endpoint_id(trimmed(t@)),
        _ => None,
    }
}

/// What the key file of profile `g` is refused for, if anything: it cannot
/// be read, it holds no secret key, or an earlier profile has the same key.
pub open spec fn key_fault(cfg: Config, p: IdentityProbes, g: int) -> Option<ConfigFault> {
    match probe_list(p)[g].key_file {
        KeyFile::Missing => None,
        KeyFile::Unreadable => Some(ConfigFault::ReadIdentityKey { path: profile_identity(cfg, g) }),
        KeyFile::Contents(t) => match secret_key_endpoint_id(trimmed(t@)) {
            None => Some(ConfigFault::ParseIdentityKey { path: profile_identity(cfg, g) }),
            Some(pk) => if exists|h: int| 0 <= h < g && #[trigger] key_id(p, h) == Some(pk) {
                let h = choose|h: int| 0 <= h < g && #[trigger] key_id(p, h) == Some(pk);
                Some(
                    ConfigFault::EndpointIdentityReused {
                        role: profile_role(cfg, g),
                        name: profile_name(cfg, g),
                        existing_role: profile_role(cfg, h),
                        existing_name: profile_name(cfg, h),
                    },
                )
            } else {
                None
            },
        },
    }
}

/// The faults found in the identity keys on disk, clients first.
pub open spec fn key_faults(cfg: Config, p: IdentityProbes) -> Seq<Option<ConfigFault>> {
    Seq::new(profile_count(cfg) as nat, |g: int| key_fault(cfg, p, g))
}

/// The fault that validation reports: the first one in the profiles, or,
/// when they have none, the first one in the identity keys.
pub open spec fn config_fault(cfg: Config, p: IdentityProbes) -> Option<ConfigFault> {
    match first_fault(layout_faults(cfg, p)) {
        Some(f) => Some(f),
        None => first_fault(key_faults(cfg, p)),
    }
}

/// Probes line up with profiles.
pub open spec fn probes_match(cfg: Config, p: IdentityProbes) -> bool {
    &&& p.clients@.len() == cfg.clients@.len()
    &&& p.exports@.len() == cfg.exports@.len()
}

proof fn lemma_key_ids_distinct(cfg: Config, p: IdentityProbes, g: int)
    requires
        probes_match(cfg, p),
        0 <= g <= profile_count(cfg),
        forall|h: int| 0 <= h < g ==> #[trigger] key_fault(cfg, p, h) is None,
    ensures
        forall|h1: int, h2: int|
            0 <= h1 < h2 < g && #[trigger] key_id(p, h2) is Some ==> #[trigger] key_id(p, h1)
                != key_id(p, h2),
{
    assert forall|h1: int, h2: int|
        0 <= h1 < h2 < g && #[trigger] key_id(p, h2) is Some implies #[trigger] key_id(p, h1)
        != key_id(p, h2) by {
        assert(key_fault(cfg, p, h2) is None);
        if key_id(p, h1) == key_id(p, h2) {
            assert(0 <= h1 < h2 && key_id(p, h1) == key_id(p, h2));
        }
    }
}

fn find_key(seen: &Vec<Option<String>>, pk: &str) -> (r: Option<usize>)
    ensures
        r matches Some(h) ==> h < seen@.len() && crate::paths::opt_view(seen@[h as int]) == Some(
            pk@,
        ),
        r is None ==> forall|h: int|
            0 <= h < seen@.len() ==> crate::paths::opt_view(#[trigger] seen@[h]) != Some(pk@),
{
    let n = seen.len();
    let mut h: usize = 0;
    while h < n
        invariant
            n == seen@.len(),
            h <= n,
            forall|j: int| 0 <= j < h ==> crate::paths::opt_view(#[trigger] seen@[j]) != Some(pk@),
        decreases n - h,
    {
        match &seen[h] {
            Some(k) => {
                if crate::text::str_eq(k.as_str(), pk) {
                    return Some(h);
                }
            },
            None => {},
        }
        h = h + 1;
    }
    None
}

/// Refuse an identity path that an earlier profile already uses.
fn validate_identity(role: IdentityRole, name: &String, comparable: &String, seen: &Vec<String>) -> (r: Result<
    (),
    ConfigError,
>)
    ensures
        if seen@.map_values(|s: String| s@).contains(comparable@) {
            r matches Err(e) && e@ == (ConfigFault::IdentityPathReused { role, name: name@ })
        } else {
            r is Ok
        },
{
    if strings_contain(seen, comparable.as_str()) {
        return Err(ConfigError::IdentityPathReused { role, name: name.clone() });
    }
    Ok(())
}

impl Config {
    fn check_client(&self, probes: &IdentityProbes, i: usize, seen: &Vec<String>) -> (r: Result<
        (),
        ConfigError,
    >)
        requires
            probes_match(*self, *probes),
            i < self.clients@.len(),
            seen@.map_values(|s: String| s@) == comparables(*probes).take(i as int),
        ensures
            match client_fault(*self, *probes, i as int) {
                None => r is Ok,
                Some(f) => r matches Err(e) && e@ == f,
            },
    {
        let name = self.clients.name_at(i);
        match validate_alias("client profile", name.as_str()) {
            Err(e) => {
                return Err(ConfigError::Alias(e));
            },
            Ok(()) => {},
        }
        proof {
            assert(comparables(*probes)[i as int] == probes.clients@[i as int].comparable@);
        }
        validate_identity(IdentityRole::Client, name, &probes.clients[i].comparable, seen)?;
        check_imports(name.as_str(), &self.clients.value_at(i).imports)
    }

    fn check_export(&self, probes: &IdentityProbes, k: usize, seen: &Vec<String>) -> (r: Result<
        (),
        ConfigError,
    >)
        requires
            probes_match(*self, *probes),
            k < self.exports@.len(),
            seen@.map_values(|s: String| s@) == comparables(*probes).take(
                self.clients@.len() + k,
            ),
        ensures
            match export_fault(*self, *probes, k as int) {
                None => r is Ok,
                Some(f) => r matches Err(e) && e@ == f,
            },
    {
        let name = self.exports.name_at(k);
        let export = self.exports.value_at(k);
        match validate_alias("export profile", name.as_str()) {
            Err(e) => {
                return Err(ConfigError::Alias(e));
            },
            Ok(()) => {},
        }
        proof {
            assert(comparables(*probes)[self.clients@.len() + k] == probes.exports@[k as int].comparable@);
        }
        validate_identity(IdentityRole::Export, name, &probes.exports[k].comparable, seen)?;
        if export.command.as_str().unicode_len() == 0 {
            return Err(ConfigError::EmptyCommand { export: name.clone() });
        }
        if export.allow_clients.len() == 0 {
            return Err(ConfigError::NoAllowedClients { export: name.clone() });
        }
        check_allowlist(name.as_str(), &export.allow_clients)
    }
}

impl Config {
    fn profile_at(&self, h: usize) -> (r: (IdentityRole, String))
        requires
            h < profile_count(*self),
        ensures
            r.0 == profile_role(*self, h as int),
            r.1@ == profile_name(*self, h as int),
    {
        let nc = self.clients.len();
        if h < nc {
            (IdentityRole::Client, self.clients.name_at(h).clone())
        } else {
            (IdentityRole::Export, self.exports.name_at(h - nc).clone())
        }
    }

    fn validate_existing_identity_public_key(
        &self,
        probes: &IdentityProbes,
        Ghost(g): Ghost<int>,
        role: IdentityRole,
        name: &String,
        identity: &String,
        key_file: &KeyFile,
        seen_keys: &Vec<Option<String>>,
    ) -> (r: Result<Option<String>, ConfigError>)
        requires
            probes_match(*self, *probes),
            0 <= g < profile_count(*self),
            role == profile_role(*self, g),
            name@ == profile_name(*self, g),
            identity@ == profile_identity(*self, g),
            *key_file == probe_list(*probes)[g].key_file,
            seen_keys@.len() == g,
            forall|h: int|
                0 <= h < g ==> crate::paths::opt_view(#[trigger] seen_keys@[h]) == key_id(
                    *probes,
                    h,
                ),
            forall|h: int| 0 <= h < g ==> #[trigger] key_fault(*self, *probes, h) is None,
        ensures
            match key_fault(*self, *probes, g) {
                None => r matches Ok(o) && crate::paths::opt_view(o) == key_id(*probes, g),
                Some(f) => r matches Err(e) && e@ == f,
            },
    {
        match key_file {
            KeyFile::Missing => Ok(None),
            KeyFile::Unreadable => Err(ConfigError::ReadIdentityKey { path: identity.clone() }),
            KeyFile::Contents(t) => {
                match public_key_from_file(identity.as_str(), t.as_str()) {
                    Err(e) => Err(e),
                    Ok(pk) => {
                        match find_key(seen_keys, pk.as_str()) {
                            None => {
                                proof {
                                    assert forall|h: int|
                                        0 <= h < g implies #[trigger] key_id(*probes, h) != Some(
                                        pk@,
                                    ) by {
                                        assert(crate::paths::opt_view(seen_keys@[h]) != Some(pk@));
                                    }
                                }
                                Ok(Some(pk))
                            },
                            Some(h) => {
                                let (existing_role, existing_name) = self.profile_at(h);
                                proof {
                                    assert(key_id(*probes, h as int) == Some(pk@));
                                    let c = choose|c: int|
                                        0 <= c < g && #[trigger] key_id(*probes, c) == Some(pk@);
                                    lemma_key_ids_distinct(*self, *probes, g);
                                    if c < h {
                                        assert(key_id(*probes, c) != key_id(*probes, h as int));
                                    } else if h < c {
                                        assert(key_id(*probes, h as int) != key_id(*probes, c));
                                    }
                                }
                                Err(
                                    ConfigError::EndpointIdentityReused {
                                        role,
                                        name: name.clone(),
                                        existing_role,
                                        existing_name,
                                    },
                                )
                            },
                        }
                    },
                }
            },
        }
    }

    /// Check the identity key files that exist: each must hold a secret key,
    /// and no two profiles may share an endpoint identity.
    fn validate_existing_identity_public_keys(&self, probes: &IdentityProbes) -> (r: Result<
        (),
        ConfigError,
    >)
        requires
            probes_match(*self, *probes),
        ensures
            match first_fault(key_faults(*self, *probes)) {
                None => r is Ok,
                Some(f) => r matches Err(e) && e@ == f,
            },
    {
        let nc = self.clients.len();
        let ne = self.exports.len();
        let ghost keys = key_faults(*self, *probes);
        let mut seen_keys: Vec<Option<String>> = Vec::new();
        let mut i: usize = 0;
        while i < nc
            invariant
                probes_match(*self, *probes),
                nc == self.clients@.len(),
                ne == self.exports@.len(),
                keys == key_faults(*self, *probes),
                i <= nc,
                seen_keys@.len() == i,
                forall|h: int|
                    0 <= h < i ==> crate::paths::opt_view(#[trigger] seen_keys@[h]) == key_id(
                        *probes,
                        h,
                    ),
                forall|h: int| 0 <= h < i ==> #[trigger] key_fault(*self, *probes, h) is None,
            decreases nc - i,
        {
            let checked = self.validate_existing_identity_public_key(
                probes,
                Ghost(i as int),
                IdentityRole::Client,
                self.clients.name_at(i),
                &self.clients.value_at(i).identity,
                &probes.clients[i].key_file,
                &seen_keys,
            );
            match checked {
                Err(e) => {
                    proof {
                        assert forall|j: int| 0 <= j < i implies keys[j] is None by {
                            assert(key_fault(*self, *probes, j) is None);
                        }
                        lemma_first_fault_at(keys, i as int);
                    }
                    return Err(e);
                },
                Ok(o) => {
                    seen_keys.push(o);
                },
            }
            i = i + 1;
        }
        let mut k: usize = 0;
        while k < ne
            invariant
                probes_match(*self, *probes),
                nc == self.clients@.len(),
                ne == self.exports@.len(),
                keys == key_faults(*self, *probes),
                k <= ne,
                seen_keys@.len() == nc + k,
                forall|h: int|
                    0 <= h < nc + k ==> crate::paths::opt_view(#[trigger] seen_keys@[h]) == key_id(
                        *probes,
                        h,
                    ),
                forall|h: int| 0 <= h < nc + k ==> #[trigger] key_fault(*self, *probes, h) is None,
            decreases ne - k,
        {
            let checked = self.validate_existing_identity_public_key(
                probes,
                Ghost(nc + k),
                IdentityRole::Export,
                self.exports.name_at(k),
                &self.exports.value_at(k).identity,
                &probes.exports[k].key_file,
                &seen_keys,
            );
            match checked {
                Err(e) => {
                    proof {
                        assert forall|j: int| 0 <= j < nc + k implies keys[j] is None by {
                            assert(key_fault(*self, *probes, j) is None);
                        }
                        lemma_first_fault_at(keys, nc + k);
                    }
                    return Err(e);
                },
                Ok(o) => {
                    seen_keys.push(o);
                },
            }
            k = k + 1;
        }
        proof {
            assert forall|j: int| 0 <= j < keys.len() implies keys[j] is None by {
                assert(key_fault(*self, *probes, j) is None);
            }
            lemma_first_fault_none(keys);
        }
        Ok(())
    }

    /// Check the configuration against what the filesystem says about each
    /// profile's identity path; the result is the first fault that
    /// `config_fault` finds.
    pub fn validate(&self, probes: &IdentityProbes) -> (r: Result<(), ConfigError>)
        requires
            probes_match(*self, *probes),
        ensures
            match config_fault(*self, *probes) {
                None => r is Ok,
                Some(f) => r matches Err(e) && e@ == f,
            },
    {
        let nc = self.clients.len();
        let ne = self.exports.len();
        let ghost layout = layout_faults(*self, *probes);
        let mut seen: Vec<String> = Vec::new();
        let mut i: usize = 0;
        while i < nc
            invariant
                probes_match(*self, *probes),
                nc == self.clients@.len(),
                ne == self.exports@.len(),
                layout == layout_faults(*self, *probes),
                i <= nc,
                seen@.map_values(|s: String| s@) == comparables(*probes).take(i as int),
                forall|j: int| 0 <= j < i ==> layout[j] is None,
            decreases nc - i,
        {
            match self.check_client(probes, i, &seen) {
                Err(e) => {
                    proof {
                        lemma_first_fault_at(layout, i as int);
                    }
                    return Err(e);
                },
                Ok(()) => {},
            }
            let ghost before = seen@;
            seen.push(probes.clients[i].comparable.clone());
            proof {
                let c = comparables(*probes);
                assert(probe_list(*probes).len() == nc + ne);
                assert(c.len() == nc + ne);
                assert(before.map_values(|s: String| s@) == c.take(i as int));
                assert(before.map_values(|s: String| s@).len() == before.len());
                assert(before.len() == i);
                assert(seen@ == before.push(seen@[i as int]));
                assert(probe_list(*probes)[i as int] == probes.clients@[i as int]);
                assert(c[i as int] == probes.clients@[i as int].comparable@);
                let after = seen@.map_values(|s: String| s@);
                assert forall|j: int| 0 <= j < i + 1 implies #[trigger] after[j] == c.take(
                    i + 1,
                )[j] by {
                    if j < i {
                        assert(seen@[j] == before[j]);
                        assert(before.map_values(|s: String| s@)[j] == c.take(i as int)[j]);
                    }
                }
                assert(after =~= c.take(i + 1));
            }
            i = i + 1;
        }
        let mut k: usize = 0;
        while k < ne
            invariant
                probes_match(*self, *probes),
                nc == self.clients@.len(),
                ne == self.exports@.len(),
                layout == layout_faults(*self, *probes),
                k <= ne,
                seen@.map_values(|s: String| s@) == comparables(*probes).take(nc + k),
                forall|j: int| 0 <= j < nc + k ==> layout[j] is None,
            decreases ne - k,
        {
            match self.check_export(probes, k, &seen) {
                Err(e) => {
                    proof {
                        lemma_first_fault_at(layout, nc + k);
                    }
                    return Err(e);
                },
                Ok(()) => {},
            }
            let ghost before = seen@;
            seen.push(probes.exports[k].comparable.clone());
            proof {
                let c = comparables(*probes);
                assert(probe_list(*probes).len() == nc + ne);
                assert(c.len() == nc + ne);
                assert(before.map_values(|s: String| s@) == c.take(nc + k));
                assert(before.map_values(|s: String| s@).len() == before.len());
                assert(before.len() == nc + k);
                assert(seen@ == before.push(seen@[nc + k]));
                assert(probe_list(*probes)[nc + k] == probes.exports@[k as int]);
                assert(before.map_values(|s: String| s@) == c.take(nc + k));
                let after = seen@.map_values(|s: String| s@);
                assert forall|j: int| 0 <= j < nc + k + 1 implies #[trigger] after[j] == c.take(
                    nc + k + 1,
                )[j] by {
                    if j < nc + k {
                        assert(seen@[j] == before[j]);
                        assert(before.map_values(|s: String| s@)[j] == c.take(nc + k)[j]);
                    }
                }
                assert(comparables(*probes)[nc + k] == probes.exports@[k as int].comparable@);
                assert(seen@.map_values(|s: String| s@) =~= comparables(*probes).take(nc + k + 1));
            }
            k = k + 1;
        }
        proof {
            lemma_first_fault_none(layout);
        }
        self.validate_existing_identity_public_keys(probes)
    }
}

} // verus!
