use tool_tunnel::messages;
use tool_tunnel::protocol::{
    alpn, handshake, handshake_matches, prefix_tool, route_tool_call, split_tool_name, RouteError,
    Admission, AdmissionEvent, Refusal, ToolCatalog, ToolLabel, next_admission,
};

#[test]
fn prefixes_tool_name() {
    let tool = ToolLabel { name: "status".to_string(), title: None };
    let prefixed = prefix_tool("remote_a", tool);

    assert_eq!(prefixed.name, "remote_a__status");
}

#[test]
fn splits_prefixed_name() {
    assert_eq!(split_tool_name("remote_a__status"), Some(("remote_a", "status")));
}

#[test]
fn prefix_sets_missing_title_and_keeps_given_one() {
    let untitled = prefix_tool("lab", ToolLabel { name: "status".into(), title: None });
    assert_eq!(untitled.title, Some("lab: status".to_string()));
    let titled = prefix_tool("lab", ToolLabel { name: "status".into(), title: Some("Status".into()) });
    assert_eq!(titled.title, Some("Status".to_string()));
    assert_eq!(titled.name, "lab__status");
}

#[test]
fn split_cuts_at_first_delimiter() {
    assert_eq!(split_tool_name("a__b__c"), Some(("a", "b__c")));
    assert_eq!(split_tool_name("__x"), Some(("", "x")));
    assert_eq!(split_tool_name("plain"), None);
    assert_eq!(split_tool_name("one_two"), None);
    // An alias ending in '_' does not survive the round trip.
    assert_eq!(split_tool_name("lab___status"), Some(("lab", "_status")));
}

#[test]
fn routes_published_tool_to_its_remote() {
    let aliases = vec!["alpha".to_string(), "beta".to_string()];
    let published = prefix_tool("beta", ToolLabel { name: "run".into(), title: None });
    assert_eq!(route_tool_call(&published.name, &aliases), Ok((1, "run".to_string())));
    assert_eq!(route_tool_call("run", &aliases), Err(RouteError::NotPrefixed));
    assert_eq!(route_tool_call("gamma__run", &aliases), Err(RouteError::UnknownAlias));
    assert_eq!(RouteError::NotPrefixed.message(), "tool name must be prefixed");
    assert_eq!(RouteError::UnknownAlias.message(), "unknown remote alias");
    let _ = messages::route_message;
}

#[test]
fn protocol_bytes() {
    assert_eq!(alpn(), b"tool-tunnel/stdio/0".to_vec());
    assert_eq!(handshake(), b"tool-tunnel\n".to_vec());
    assert!(handshake_matches(b"tool-tunnel\n"));
    assert!(!handshake_matches(b"tool-tunnel\r"));
    assert!(!handshake_matches(b"tool-tunnel"));
}

#[test]
fn catalog_publishes_and_routes_back() {
    let mut catalog = ToolCatalog::new();
    catalog.add_remote(
        "alpha",
        10u32,
        vec![
            ToolLabel { name: "status".into(), title: None },
            ToolLabel { name: "run".into(), title: Some("Run it".into()) },
        ],
    );
    catalog.add_remote("beta", 20u32, vec![ToolLabel { name: "status".into(), title: None }]);
    let names: Vec<&str> = catalog.labels().iter().map(|t| t.name.as_str()).collect();
    assert_eq!(names, vec!["alpha__status", "alpha__run", "beta__status"]);
    assert_eq!(catalog.labels()[1].title.as_deref(), Some("Run it"));
    assert_eq!(catalog.labels()[2].title.as_deref(), Some("beta: status"));
    assert_eq!(catalog.aliases(), &vec!["alpha".to_string(), "beta".to_string()]);
    assert_eq!(catalog.route("beta__status"), Ok((&20, "status".to_string())));
    assert_eq!(catalog.route("alpha__run"), Ok((&10, "run".to_string())));
    assert_eq!(catalog.route("gamma__run"), Err(RouteError::UnknownAlias));
}

#[test]
fn admission_needs_allowlist_then_handshake() {
    use_admission();
}

fn use_admission() {
    let allowed = vec!["aa".to_string()];
    let peer = |id: &str| AdmissionEvent::PeerIdentified(id.to_string());
    let bytes = |b: &[u8]| AdmissionEvent::HandshakeRead(b.to_vec());
    let s = next_admission(&allowed, Admission::Connected, &peer("aa"));
    assert_eq!(s, Admission::AwaitingHandshake);
    assert_eq!(next_admission(&allowed, s, &bytes(b"tool-tunnel\n")), Admission::Serve);
    assert_eq!(
        next_admission(&allowed, s, &bytes(b"hello\n")),
        Admission::Refused(Refusal::BadHandshake)
    );
    let s = next_admission(&allowed, Admission::Connected, &peer("bb"));
    assert_eq!(s, Admission::Refused(Refusal::NotAllowlisted));
    assert_eq!(next_admission(&allowed, s, &bytes(b"tool-tunnel\n")), s);
    assert_eq!(
        next_admission(&allowed, Admission::Connected, &bytes(b"tool-tunnel\n")),
        Admission::Refused(Refusal::OutOfOrder)
    );
}

#[test]
fn skipped_imports_leave_the_catalog_unchanged() {
    let mut catalog = ToolCatalog::<u32>::new();
    catalog.record_import("down", None);
    catalog.record_import("up", Some((7, vec![ToolLabel { name: "t".into(), title: None }])));
    assert_eq!(catalog.aliases(), &vec!["up".to_string()]);
    assert_eq!(catalog.labels()[0].name, "up__t");
    assert_eq!(catalog.route("up__t"), Ok((&7, "t".to_string())));
    assert_eq!(catalog.route("down__t"), Err(RouteError::UnknownAlias));
}
