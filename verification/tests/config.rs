use syncerting_tray::config::{
    apply_overrides, candidate_paths_in, config_from_sections, find_config_file, normalise_url, not_found_message, parse,
    waives_certificate_check,
    ConfigError, SyncthingConfig,
};

#[test]
fn wildcard_addresses_become_loopback() {
    assert_eq!(normalise_url("0.0.0.0:8384", false), "http://127.0.0.1:8384");
    assert_eq!(normalise_url(":8384", false), "http://127.0.0.1:8384");
    assert_eq!(normalise_url("::", false), "http://127.0.0.1:8384");
    assert_eq!(normalise_url("", false), "http://127.0.0.1:8384");
}

#[test]
fn explicit_addresses_are_preserved() {
    assert_eq!(normalise_url("192.168.1.5:9090", false), "http://192.168.1.5:9090");
    assert_eq!(normalise_url("127.0.0.1:8384", true), "https://127.0.0.1:8384");
}

#[test]
fn ipv6_literals_keep_their_brackets() {
    assert_eq!(normalise_url("[::1]:8384", false), "http://[::1]:8384");
}

#[test]
fn missing_port_falls_back_to_default() {
    assert_eq!(normalise_url("127.0.0.1", false), "http://127.0.0.1:8384");
}

#[test]
fn addresses_are_trimmed_and_ports_must_be_numeric() {
    assert_eq!(normalise_url("  localhost:8080 \n", false), "http://localhost:8080");
    assert_eq!(normalise_url("host:http", false), "http://[host:http]:8384");
    assert_eq!(normalise_url("[::]:22000", true), "https://127.0.0.1:22000");
}

#[test]
fn candidate_locations_in_order() {
    let paths = candidate_paths_in(Some("/st"), Some("/home/u/.local/state"), Some("/home/u/.config/"));
    assert_eq!(
        paths,
        vec![
            "/st/config.xml".to_string(),
            "/home/u/.local/state/syncthing/config.xml".to_string(),
            "/home/u/.config/syncthing/config.xml".to_string(),
        ]
    );
    assert!(candidate_paths_in(None, None, None).is_empty());
}

#[test]
fn the_first_existing_candidate_wins() {
    let c = vec!["a".to_string(), "b".to_string(), "c".to_string()];
    assert_eq!(find_config_file(&c, &vec![false, true, true]), Some("b".to_string()));
    assert_eq!(find_config_file(&c, &vec![false, false, false]), None);
}

const CONFIG: &str = r#"<configuration version="37">
    <folder id="docs"></folder>
    <gui enabled="true" tls="true" debugging="false">
        <address>0.0.0.0:8385</address>
        <apikey> abc123 </apikey>
    </gui>
</configuration>"#;

#[test]
fn the_gui_section_gives_url_and_key() {
    let cfg = parse("/c/config.xml", CONFIG).expect("parses");
    assert_eq!(cfg.base_url, "https://127.0.0.1:8385");
    assert_eq!(cfg.api_key, "abc123");
    assert!(cfg.insecure_tls);
}

#[test]
fn a_config_without_gui_is_refused() {
    match parse("/c/config.xml", "<configuration><folder/></configuration>") {
        Err(ConfigError::NoGuiSection { path }) => assert_eq!(path, "/c/config.xml"),
        other => panic!("unexpected {other:?}"),
    }
    match parse("/c/config.xml", "<configuration>") {
        Err(ConfigError::InvalidXml { path, .. }) => assert_eq!(path, "/c/config.xml"),
        other => panic!("unexpected {other:?}"),
    }
    assert!(config_from_sections("p", &Vec::new()).is_err());
}

#[test]
fn a_gui_without_address_uses_the_default() {
    let cfg = parse("p", "<configuration><gui><apikey>k</apikey></gui></configuration>").unwrap();
    assert_eq!(cfg.base_url, "http://127.0.0.1:8384");
    assert!(!cfg.insecure_tls);
}

#[test]
fn environment_overrides_win() {
    let cfg = SyncthingConfig { base_url: "http://127.0.0.1:8384".into(), api_key: "".into(), insecure_tls: false };
    let out = apply_overrides(cfg.clone(), Some("key".into()), Some("https://10.0.0.2:8385//"), "p").unwrap();
    assert_eq!(out.base_url, "https://10.0.0.2:8385");
    assert_eq!(out.api_key, "key");
    // A remote host keeps the certificate check.
    assert!(!out.insecure_tls);
    let local = apply_overrides(cfg.clone(), Some("key".into()), Some("https://localhost:8385/"), "p").unwrap();
    assert!(local.insecure_tls);
    match apply_overrides(cfg, None, None, "p") {
        Err(ConfigError::NoApiKey { path }) => assert_eq!(path, "p"),
        other => panic!("unexpected {other:?}"),
    }
}

#[test]
fn bracketed_wildcards_and_other_ports_become_loopback() {
    assert_eq!(normalise_url("[::]:9000", true), "https://127.0.0.1:9000");
    assert_eq!(normalise_url("[0.0.0.0]:22000", false), "http://127.0.0.1:22000");
    assert_eq!(normalise_url("sync.example.org:1234", false), "http://sync.example.org:1234");
}

#[test]
fn refusals_say_what_is_wrong_and_where() {
    let no_gui = parse("/c/config.xml", "<configuration/>").unwrap_err();
    assert_eq!(no_gui.message(), "no <gui> section in /c/config.xml");
    let broken = parse("/c/config.xml", "<configuration>").unwrap_err();
    assert_eq!(broken.message(), "parsing /c/config.xml");
    let no_key = ConfigError::NoApiKey { path: "/c/config.xml".into() };
    assert_eq!(no_key.message(), "Syncthing config at /c/config.xml has no API key set");
    let looked = vec!["/a/config.xml".to_string(), "/b/syncthing/config.xml".to_string()];
    assert_eq!(
        not_found_message(&looked),
        "no Syncthing config.xml found (looked in /a/config.xml, /b/syncthing/config.xml)"
    );
    assert_eq!(not_found_message(&Vec::new()), "no Syncthing config.xml found (looked in )");
}

#[test]
fn tls_to_a_remote_gui_keeps_the_certificate_check() {
    let text = r#"<configuration><gui tls="true"><address>192.168.1.5:8384</address><apikey>K</apikey></gui></configuration>"#;
    let cfg = parse("/c/config.xml", text).unwrap();
    assert_eq!(cfg.base_url, "https://192.168.1.5:8384");
    assert_eq!(cfg.api_key, "K");
    assert!(!cfg.insecure_tls);
    let v6 = r#"<configuration><gui tls="true"><address>[::1]:8384</address><apikey>K</apikey></gui></configuration>"#;
    assert!(parse("p", v6).unwrap().insecure_tls);
}

#[test]
fn the_certificate_check_is_waived_only_towards_loopback() {
    assert!(waives_certificate_check("https://127.0.0.1:8384"));
    assert!(waives_certificate_check("https://[::1]:8384/"));
    assert!(waives_certificate_check("https://localhost"));
    assert!(!waives_certificate_check("http://127.0.0.1:8384"));
    assert!(!waives_certificate_check("https://192.168.1.5:8384"));
    assert!(!waives_certificate_check("https://127.0.0.1.example.org:8384"));
}
