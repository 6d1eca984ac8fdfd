use tool_tunnel::paths::IdentityRole;
use tool_tunnel::keys::{
    check_ticket_pin, endpoint_id_verdict, identity_file_contents, is_allowlisted, public_key_from_file,
    public_key_verdict, secret_key_from_file, ticket_verdict, validate_endpoint_id, TicketError,
};
use tool_tunnel::errors::EndpointIdProblem;
use tool_tunnel::paths::{
    base_dir_from_parent, config_base_dir, default_config_path, identity_arg_path, identity_path, join,
};
use tool_tunnel::text::trim;

#[test]
fn roles_name_their_directories_and_commands() {
    assert_eq!(IdentityRole::Client.dir_name(), "clients");
    assert_eq!(IdentityRole::Export.dir_name(), "exports");
    assert_eq!(IdentityRole::Client.command_name(), "client");
    assert_eq!(IdentityRole::Export.command_name(), "export");
}

#[test]
fn joins_like_pathbuf() {
    for (base, part) in [("/a", "b"), ("/a/", "b"), ("", "b"), ("/a", "/c"), ("a", ""), ("/", "x")] {
        let expected = std::path::Path::new(base).join(part).to_string_lossy().into_owned();
        assert_eq!(join(base, part), expected, "{base:?} + {part:?}");
    }
}

#[test]
fn identity_paths_live_under_the_config_directory() {
    assert_eq!(identity_path("/cfg", IdentityRole::Client, "default"), "/cfg/identities/clients/default");
    assert_eq!(identity_path("/cfg", IdentityRole::Export, "default"), "/cfg/identities/exports/default");
    assert_eq!(identity_path("/cfg", IdentityRole::Export, "/abs"), "/abs");
}

#[test]
fn config_locations() {
    assert_eq!(default_config_path(Some("/home/me")), "/home/me/.config/tool-tunnel/config.json");
    assert_eq!(default_config_path(None), "tool-tunnel.json");
    assert_eq!(config_base_dir(None, Some("/home/me")), "/home/me/.config/tool-tunnel");
    assert_eq!(config_base_dir(Some("/etc/tt/config.json"), None), "/etc/tt");
    assert_eq!(config_base_dir(Some("config.json"), None), "");
    assert_eq!(config_base_dir(Some("/"), None), ".");
    assert_eq!(
        identity_arg_path(None, Some("/home/me"), IdentityRole::Client, "default"),
        "/home/me/.config/tool-tunnel/identities/clients/default"
    );
}

#[test]
fn trims_unicode_white_space() {
    assert_eq!(trim("  key\n"), "key");
    assert_eq!(trim("\u{3000}k e\u{a0}"), "k e");
    assert_eq!(trim(" \t "), "");
    for s in ["", "x", " a b ", "\u{2029}z\u{85}", "\u{180e}y"] {
        assert_eq!(trim(s), s.trim());
    }
}

#[test]
fn endpoint_ids_must_be_canonical() {
    let key = iroh::SecretKey::generate().public();
    let canonical = key.to_string();
    assert!(validate_endpoint_id(&canonical).is_ok());
    assert!(matches!(validate_endpoint_id(""), Err(EndpointIdProblem::Empty)));
    assert!(matches!(validate_endpoint_id("nope"), Err(EndpointIdProblem::Invalid)));
    let base32 = data_encoding::BASE32_NOPAD.encode(key.as_bytes()).to_lowercase();
    match validate_endpoint_id(&base32) {
        Err(EndpointIdProblem::NotCanonical(c)) => assert_eq!(c, canonical),
        other => panic!("unexpected {other:?}"),
    }
}

#[test]
fn public_key_of_identity_file() {
    let secret = iroh::SecretKey::generate();
    let contents = format!("{}\n", data_encoding::HEXLOWER.encode(&secret.to_bytes()));
    assert_eq!(public_key_from_file("/k", &contents).unwrap(), secret.public().to_string());
    let err = public_key_from_file("/k", "not a key").unwrap_err();
    assert_eq!(err.message(), "parse identity key /k");
}

#[test]
fn tickets_must_name_the_pinned_endpoint() {
    let secret = iroh::SecretKey::generate();
    let id = secret.public();
    let ticket = iroh_tickets::endpoint::EndpointTicket::new(iroh::EndpointAddr::new(id)).to_string();
    assert!(check_ticket_pin(&ticket, &id.to_string()).is_ok());
    let other = iroh::SecretKey::generate().public().to_string();
    match check_ticket_pin(&ticket, &other) {
        Err(TicketError::PinMismatch { pinned, actual }) => {
            assert_eq!(pinned, other);
            assert_eq!(actual, id.to_string());
        }
        r => panic!("unexpected {r:?}"),
    }
    let err = check_ticket_pin("ticket", &other).unwrap_err();
    assert_eq!(err.message(), "invalid endpoint ticket");
}

#[test]
fn allowlist_admits_only_listed_endpoints() {
    let allowed = vec!["aa".to_string(), "bb".to_string()];
    assert!(is_allowlisted(&allowed, "bb"));
    assert!(!is_allowlisted(&allowed, "cc"));
    assert!(!is_allowlisted(&Vec::new(), "aa"));
}

#[test]
fn identity_files_read_back() {
    let secret = iroh::SecretKey::generate();
    let contents = identity_file_contents(&secret.to_bytes());
    assert_eq!(contents, format!("{}\n", data_encoding::HEXLOWER.encode(&secret.to_bytes())));
    assert_eq!(contents.len(), 65);
    assert_eq!(public_key_from_file("/id", &contents).unwrap(), secret.public().to_string());
    assert_eq!(identity_file_contents(&[0x0f, 0xa0]), "0fa0\n");
}

#[test]
fn shown_endpoint_ids_pass_validation() {
    let secret = iroh::SecretKey::generate();
    let shown = public_key_from_file("/id", &identity_file_contents(&secret.to_bytes())).unwrap();
    assert!(validate_endpoint_id(&shown).is_ok());
}

#[test]
fn verdicts_on_parsed_values() {
    assert!(endpoint_id_verdict("abc", Some("abc".to_string())).is_ok());
    assert!(matches!(endpoint_id_verdict("", Some("abc".to_string())), Err(EndpointIdProblem::Empty)));
    assert!(matches!(endpoint_id_verdict("abc", None), Err(EndpointIdProblem::Invalid)));
    match endpoint_id_verdict("ABC", Some("abc".to_string())) {
        Err(EndpointIdProblem::NotCanonical(c)) => assert_eq!(c, "abc"),
        other => panic!("unexpected {other:?}"),
    }
    assert!(ticket_verdict(Some("aa".into()), "aa").is_ok());
    assert_eq!(ticket_verdict(None, "aa").unwrap_err().message(), "invalid endpoint ticket");
    assert_eq!(
        ticket_verdict(Some("bb".into()), "aa").unwrap_err().message(),
        "ticket endpoint bb does not match pinned endpointId aa"
    );
    assert_eq!(public_key_verdict("/k", Some("id".into())).unwrap(), "id");
    assert_eq!(public_key_verdict("/k", None).unwrap_err().message(), "parse identity key /k");
    assert!(matches!(validate_endpoint_id("not-an-endpoint"), Err(EndpointIdProblem::Invalid)));
}

#[test]
fn identity_files_read_back_as_the_same_key() {
    let secret = iroh::SecretKey::generate();
    let contents = identity_file_contents(&secret.to_bytes());
    assert_eq!(secret_key_from_file("/id", &contents).unwrap(), secret.to_bytes().to_vec());
    let fixed: Vec<u8> = (0u8..32).collect();
    assert_eq!(secret_key_from_file("/id", &identity_file_contents(&fixed)).unwrap(), fixed);
    assert_eq!(
        secret_key_from_file("/id", "not a key").unwrap_err().message(),
        "parse identity key /id"
    );
}

#[test]
fn config_directory_falls_back_to_the_current_one() {
    assert_eq!(base_dir_from_parent(Some("/etc/tt".to_string())), "/etc/tt");
    assert_eq!(base_dir_from_parent(None), ".");
    assert_eq!(config_base_dir(Some("/etc/tt/config.json"), None), "/etc/tt");
}
