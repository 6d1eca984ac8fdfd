use tool_tunnel::config::{ClientConfig, Config, ExportConfig, ImportConfig};
use tool_tunnel::errors::ConfigError;
use tool_tunnel::paths::IdentityRole;
use tool_tunnel::names::NameMap;
use tool_tunnel::validation::{IdentityProbe, IdentityProbes, KeyFile};

const BASE: &str = "/home/me/.config/tool-tunnel";

fn endpoint_id() -> String {
    iroh::SecretKey::generate().public().to_string()
}

fn no_key_probe(path: &str) -> IdentityProbe {
    IdentityProbe { comparable: path.to_string(), key_file: KeyFile::Missing }
}

fn probes_without_keys(config: &Config) -> IdentityProbes {
    let mut clients = Vec::new();
    for i in 0..config.clients.len() {
        clients.push(no_key_probe(&config.clients.value_at(i).identity));
    }
    let mut exports = Vec::new();
    for i in 0..config.exports.len() {
        exports.push(no_key_probe(&config.exports.value_at(i).identity));
    }
    IdentityProbes { clients, exports }
}

fn parse_config(mut config: Config) -> Result<Config, ConfigError> {
    config.resolve_identity_paths(BASE);
    let probes = probes_without_keys(&config);
    config.validate(&probes)?;
    Ok(config)
}

fn client(imports: Vec<(&str, &str, &str)>) -> ClientConfig {
    let mut map = NameMap::new();
    for (alias, ticket, endpoint) in imports {
        map.insert(
            alias.to_string(),
            ImportConfig { ticket: ticket.to_string(), endpoint_id: endpoint.to_string() },
        );
    }
    ClientConfig { identity: String::new(), imports: map }
}

fn export(command: &str, args: &[&str], cwd: Option<&str>, env: &[(&str, &str)], allow: &[&str]) -> ExportConfig {
    let mut env_map = NameMap::new();
    for (k, v) in env {
        env_map.insert(k.to_string(), v.to_string());
    }
    ExportConfig {
        identity: String::new(),
        command: command.to_string(),
        args: args.iter().map(|s| s.to_string()).collect(),
        cwd: cwd.map(|s| s.to_string()),
        env: env_map,
        allow_clients: allow.iter().map(|s| s.to_string()).collect(),
    }
}

fn config(clients: Vec<(&str, ClientConfig)>, exports: Vec<(&str, ExportConfig)>) -> Config {
    let mut c = NameMap::new();
    for (name, value) in clients {
        c.insert(name.to_string(), value);
    }
    let mut e = NameMap::new();
    for (name, value) in exports {
        e.insert(name.to_string(), value);
    }
    Config { clients: c, exports: e }
}

fn message_of(result: Result<Config, ConfigError>) -> String {
    match result {
        Ok(_) => String::new(),
        Err(error) => error.message(),
    }
}

#[test]
fn parses_client_imports_and_export_profiles() {
    let endpoint = endpoint_id();
    let input = config(
        vec![("default", client(vec![("mini", "ticket", &endpoint)]))],
        vec![(
            "mini-tools",
            export("uv", &["run", "server.py"], Some("tools"), &[("CACHE_DIR", "/tmp/tool-tunnel")], &[&endpoint]),
        )],
    );
    let config = parse_config(input).expect("config is valid");
    assert_eq!(
        config.client("default").expect("client exists").identity,
        "/home/me/.config/tool-tunnel/identities/clients/default"
    );
    assert_eq!(
        config.export("mini-tools").expect("export exists").cwd,
        Some("/home/me/.config/tool-tunnel/tools".to_string())
    );
}

#[test]
fn derives_distinct_identities_for_matching_client_and_export_names() {
    let endpoint = endpoint_id();
    let input = config(
        vec![("default", client(vec![]))],
        vec![("default", export("server", &[], None, &[], &[&endpoint]))],
    );
    let config = parse_config(input).expect("config is valid");
    assert_eq!(
        config.client("default").expect("client exists").identity,
        "/home/me/.config/tool-tunnel/identities/clients/default"
    );
    assert_eq!(
        config.export("default").expect("export exists").identity,
        "/home/me/.config/tool-tunnel/identities/exports/default"
    );
}

#[test]
fn rejects_alias_with_reserved_delimiter() {
    let result = parse_config(config(vec![("lab__mini", client(vec![]))], vec![]));
    let message = message_of(result);
    assert!(message.contains("reserved delimiter"));
}

#[test]
fn rejects_export_without_allow_clients() {
    let result = parse_config(config(vec![], vec![("mini-tools", export("server", &[], None, &[], &[]))]));
    let message = message_of(result);
    assert!(message.contains("allowClients cannot be empty"));
}

#[test]
fn rejects_invalid_endpoint_id() {
    let result = parse_config(config(
        vec![("default", client(vec![("mini", "ticket", "not-an-endpoint")]))],
        vec![],
    ));
    let message = message_of(result);
    assert!(message.contains("endpointId is invalid"));
}

#[test]
fn missing_profiles_are_reported_by_role() {
    let config = config(vec![], vec![]);
    let err = config.client("nope").unwrap_err();
    assert_eq!(err.message(), "client profile \"nope\" not found");
    let err = config.export("nope").unwrap_err();
    assert_eq!(err.message(), "export profile \"nope\" not found");
}

#[test]
fn absolute_cwd_is_kept_and_relative_is_joined() {
    let endpoint = endpoint_id();
    let mut cfg = config(
        vec![],
        vec![
            ("a", export("server", &[], Some("/srv/tools"), &[], &[&endpoint])),
            ("b", export("server", &[], Some("rel/dir"), &[], &[&endpoint])),
            ("c", export("server", &[], None, &[], &[&endpoint])),
        ],
    );
    cfg.resolve_identity_paths("/base");
    assert_eq!(cfg.export("a").unwrap().cwd, Some("/srv/tools".to_string()));
    assert_eq!(cfg.export("b").unwrap().cwd, Some("/base/rel/dir".to_string()));
    assert_eq!(cfg.export("c").unwrap().cwd, None);
    assert_eq!(cfg.export("c").unwrap().identity, "/base/identities/exports/c");
}

#[test]
fn rejects_empty_ticket_and_empty_command() {
    let endpoint = endpoint_id();
    let message = message_of(parse_config(config(
        vec![("default", client(vec![("mini", "", &endpoint)]))],
        vec![],
    )));
    assert_eq!(message, "client \"default\" import \"mini\" ticket cannot be empty");
    let message = message_of(parse_config(config(vec![], vec![("x", export("", &[], None, &[], &[&endpoint]))])));
    assert_eq!(message, "export \"x\" command cannot be empty");
}

#[test]
fn rejects_non_canonical_endpoint_id() {
    let key = iroh::SecretKey::generate().public();
    let upper = key.to_string().to_uppercase();
    let message = message_of(parse_config(config(vec![], vec![("x", export("server", &[], None, &[], &[&upper]))])));
    assert!(message.starts_with("export \"x\" allowClients entry"), "{message}");
    let message = message_of(parse_config(config(vec![], vec![("x", export("server", &[], None, &[], &[""]))])));
    assert_eq!(message, "export \"x\" allowClients entry cannot be empty");
}

#[test]
fn rejects_reused_identity_path() {
    let endpoint = endpoint_id();
    let mut cfg = config(
        vec![("one", client(vec![])), ("two", client(vec![]))],
        vec![("x", export("server", &[], None, &[], &[&endpoint]))],
    );
    cfg.resolve_identity_paths(BASE);
    let probes = IdentityProbes {
        clients: vec![no_key_probe("/same"), no_key_probe("/other")],
        exports: vec![no_key_probe("/same")],
    };
    let err = cfg.validate(&probes).unwrap_err();
    assert_eq!(err.message(), "export \"x\" reuses an identity path");
}

#[test]
fn checks_identity_keys_on_disk() {
    let endpoint = endpoint_id();
    let secret = iroh::SecretKey::generate();
    let hex = data_encoding::HEXLOWER.encode(&secret.to_bytes());
    let mut cfg = config(
        vec![("one", client(vec![])), ("two", client(vec![]))],
        vec![("x", export("server", &[], None, &[], &[&endpoint]))],
    );
    cfg.resolve_identity_paths("/b");
    let key = |text: &str| KeyFile::Contents(text.to_string());
    let probes = IdentityProbes {
        clients: vec![
            IdentityProbe { comparable: "/1".into(), key_file: key(&format!("{hex}\n")) },
            IdentityProbe { comparable: "/2".into(), key_file: KeyFile::Missing },
        ],
        exports: vec![IdentityProbe { comparable: "/3".into(), key_file: key(&format!("  {hex}")) }],
    };
    let err = cfg.validate(&probes).unwrap_err();
    assert_eq!(
        err.message(),
        "export \"x\" reuses endpoint identity already used by client \"one\""
    );
    assert!(matches!(
        err,
        ConfigError::EndpointIdentityReused { role: IdentityRole::Export, existing_role: IdentityRole::Client, .. }
    ));

    let probes = IdentityProbes {
        clients: vec![
            IdentityProbe { comparable: "/1".into(), key_file: KeyFile::Unreadable },
            no_key_probe("/2"),
        ],
        exports: vec![no_key_probe("/3")],
    };
    assert_eq!(cfg.validate(&probes).unwrap_err().message(), "read identity key /b/identities/clients/one");

    let probes = IdentityProbes {
        clients: vec![no_key_probe("/1"), no_key_probe("/2")],
        exports: vec![IdentityProbe { comparable: "/3".into(), key_file: key("garbage") }],
    };
    assert_eq!(cfg.validate(&probes).unwrap_err().message(), "parse identity key /b/identities/exports/x");

    let probes = IdentityProbes {
        clients: vec![
            IdentityProbe { comparable: "/1".into(), key_file: key(&hex) },
            no_key_probe("/2"),
        ],
        exports: vec![no_key_probe("/3")],
    };
    assert!(cfg.validate(&probes).is_ok());
}

#[test]
fn reports_non_canonical_import_pin_with_canonical_form() {
    let key = iroh::SecretKey::generate().public();
    let base32 = data_encoding::BASE32_NOPAD.encode(key.as_bytes()).to_lowercase();
    let message = message_of(parse_config(config(
        vec![("default", client(vec![("mini", "ticket", &base32)]))],
        vec![],
    )));
    assert_eq!(
        message,
        format!("client \"default\" import \"mini\" endpointId must be canonical endpoint ID \"{key}\"")
    );
}

#[test]
fn loaded_identities_are_the_identity_command_paths() {
    let endpoint = endpoint_id();
    let mut cfg = config(
        vec![("laptop", client(vec![]))],
        vec![("files", export("server", &[], Some("data"), &[], &[&endpoint]))],
    );
    cfg.resolve_for_config_file(Some("/etc/tt/config.json"), Some("/home/u"));
    let client_path = tool_tunnel::paths::identity_arg_path(
        Some("/etc/tt/config.json"),
        Some("/home/u"),
        IdentityRole::Client,
        "laptop",
    );
    assert_eq!(client_path, "/etc/tt/identities/clients/laptop");
    assert_eq!(cfg.client("laptop").unwrap().identity, client_path);
    assert_eq!(cfg.export("files").unwrap().identity, "/etc/tt/identities/exports/files");
    assert_eq!(cfg.export("files").unwrap().cwd, Some("/etc/tt/data".to_string()));

    let mut default_cfg = config(vec![("laptop", client(vec![]))], vec![]);
    default_cfg.resolve_for_config_file(None, Some("/home/u"));
    assert_eq!(
        default_cfg.client("laptop").unwrap().identity,
        "/home/u/.config/tool-tunnel/identities/clients/laptop"
    );
}
