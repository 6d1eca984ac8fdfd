//! Filesystem paths as text: joining, parents, and where configuration and
//! identities live.

use vstd::prelude::*;
use vstd::string::*;

verus! {

/// The role a profile plays: a client aggregates imports, an export serves a child.
#[derive(Clone, Copy, Debug, PartialEq, Eq, Structural)]
pub enum IdentityRole {
    Client,
    Export,
}

/// A path is absolute when it starts at the root.
pub open spec fn is_absolute(p: Seq<char>) -> bool {
    p.len() > 0 && p[0] == '/'
}

/// `base` joined with `part` the way `PathBuf::join` does it: an absolute
/// `part` replaces `base`; otherwise a separator is put between the two
/// unless `base` is empty or already ends in one.
pub open spec fn path_join(base: Seq<char>, part: Seq<char>) -> Seq<char> {
    if is_absolute(part) {
        part
    } else if base.len() > 0 && base.last() != '/' {
        base + seq!['/'] + part
    } else {
        base + part
    }
}

/// The plain form of an optional string.
pub open spec fn opt_view(o: Option<String>) -> Option<Seq<char>> {
    match o {
        Some(s) => Some(s@),
        None => None,
    }
}

/// What `Path::parent` gives for the path spelled `p`, as text.
pub uninterp spec fn path_parent(p: Seq<char>) -> Option<Seq<char>>;

/// Calls `std::path::Path::parent` on `path`. The contract names the result
/// (`path_parent`) and states the documented fact that the empty path has no
/// parent; which prefix is the parent of a longer path is left unsaid.
#[verifier::external_body]
fn parent_of(path: &str) -> (r: Option<String>)
    ensures
        opt_view(r) == path_parent(path@),
        path@.len() == 0 ==> r is None,
{
    match std::path::Path::new(path).parent() {
        Some(p) => Some(p.to_string_lossy().into_owned()),
        None => None,
    }
}

/// Join `part` onto `base` as `PathBuf::join` does.
pub fn join(base: &str, part: &str) -> (r: String)
    ensures
        r@ == path_join(base@, part@),
{
    if part.unicode_len() > 0 && part.get_char(0) == '/' {
        return String::from_str(part);
    }
    let mut r = String::from_str(base);
    let n = base.unicode_len();
    if n > 0 && base.get_char(n - 1) != '/' {
        r.append("/");
        proof {
            reveal_strlit("/");
            assert("/"@ =~= seq!['/']);
        }
    }
    r.append(part);
    r
}

/// Where the configuration lives when no path is given: under `$HOME` when
/// `HOME` is set, else in the working directory.
pub open spec fn spec_default_config_path(home: Option<Seq<char>>) -> Seq<char> {
    match home {
        Some(h) => path_join(path_join(path_join(h, ".config"@), "tool-tunnel"@), "config.json"@),
        None => "tool-tunnel.json"@,
    }
}

/// The configuration file: the given path, or the default one.
pub open spec fn spec_config_file_path(path: Option<Seq<char>>, home: Option<Seq<char>>) -> Seq<
    char,
> {
    match path {
        Some(p) => p,
        None => spec_default_config_path(home),
    }
}

/// The directory that holds the configuration file; `.` when the file path has no parent.
pub open spec fn spec_config_base_dir(path: Option<Seq<char>>, home: Option<Seq<char>>) -> Seq<
    char,
> {
    match path_parent(spec_config_file_path(path, home)) {
        Some(d) => d,
        None => "."@,
    }
}

/// Directory name under `identities/` for a role.
pub open spec fn role_dir(role: IdentityRole) -> Seq<char> {
    match role {
        IdentityRole::Client => "clients"@,
        IdentityRole::Export => "exports"@,
    }
}

/// Word that names a role in commands and messages.
pub open spec fn role_word(role: IdentityRole) -> Seq<char> {
    match role {
        IdentityRole::Client => "client"@,
        IdentityRole::Export => "export"@,
    }
}

/// The identity key file of a profile: `<base>/identities/<role dir>/<profile>`.
pub open spec fn spec_identity_path(base_dir: Seq<char>, role: IdentityRole, profile: Seq<char>) -> Seq<
    char,
> {
    path_join(path_join(path_join(base_dir, "identities"@), role_dir(role)), profile)
}

impl IdentityRole {
    /// Directory name under `identities/` for this role.
    pub fn dir_name(self) -> (r: &'static str)
        ensures
            r@ == role_dir(self),
    {
        match self {
            IdentityRole::Client => "clients",
            IdentityRole::Export => "exports",
        }
    }

    /// Word that names this role in commands and messages.
    pub fn command_name(self) -> (r: &'static str)
        ensures
            r@ == role_word(self),
    {
        match self {
            IdentityRole::Client => "client",
            IdentityRole::Export => "export",
        }
    }
}

/// The default configuration path, given the value of `HOME` if it is set.
pub fn default_config_path(home: Option<&str>) -> (r: String)
    ensures
        r@ == spec_default_config_path(match home {
            Some(h) => Some(h@),
            None => None,
        }),
{
    match home {
        Some(h) => {
            let a = join(h, ".config");
            let b = join(a.as_str(), "tool-tunnel");
            join(b.as_str(), "config.json")
        },
        None => String::from_str("tool-tunnel.json"),
    }
}

/// The directory of the configuration file named by `path`, or of the
/// default configuration file when `path` is `None`.
pub fn config_base_dir(path: Option<&str>, home: Option<&str>) -> (r: String)
    ensures
        r@ == spec_config_base_dir(
            match path {
                Some(p) => Some(p@),
                None => None,
            },
            match home {
                Some(h) => Some(h@),
                None => None,
            },
        ),
{
    let file = match path {
        Some(p) => String::from_str(p),
        None => default_config_path(home),
    };
    base_dir_from_parent(parent_of(file.as_str()))
}

/// The configuration directory, given the parent that the configuration
/// file's path has (`None` when it has none): that parent, else `.`.
pub fn base_dir_from_parent(parent: Option<String>) -> (r: String)
    ensures
        r@ == match opt_view(parent) {
            Some(d) => d,
            None => "."@,
        },
{
    match parent {
        Some(d) => d,
        None => String::from_str("."),
    }
}

/// The identity key file of the profile `profile` in role `role`.
pub fn identity_path(base_dir: &str, role: IdentityRole, profile: &str) -> (r: String)
    ensures
        r@ == spec_identity_path(base_dir@, role, profile@),
{
    let a = join(base_dir, "identities");
    let b = join(a.as_str(), role.dir_name());
    join(b.as_str(), profile)
}

/// The identity key file that the identity commands use for a profile: its
/// identity path under the directory of the configuration file.
pub open spec fn spec_identity_arg_path(
    config: Option<Seq<char>>,
    home: Option<Seq<char>>,
    role: IdentityRole,
    profile: Seq<char>,
) -> Seq<char> {
    spec_identity_path(spec_config_base_dir(config, home), role, profile)
}

/// The identity key file named on the command line: the profile's identity
/// path under the directory of the configuration file.
pub fn identity_arg_path(
    config: Option<&str>,
    home: Option<&str>,
    role: IdentityRole,
    profile: &str,
) -> (r: String)
    ensures
        r@ == spec_identity_arg_path(
            match config {
                Some(p) => Some(p@),
                None => None,
            },
            match home {
                Some(h) => Some(h@),
                None => None,
            },
            role,
            profile@,
        ),
{
    let base = config_base_dir(config, home);
    identity_path(base.as_str(), role, profile)
}

} // verus!
