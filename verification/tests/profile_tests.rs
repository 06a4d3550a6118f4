use packet::profiles::{ProfileAuthMethod, ProfileConnectionType, ProfileStore};

#[test]
fn create_stores_and_returns_the_profile() {
    let mut store = ProfileStore::new();
    let p = store
        .create_profile_at(
            "core router".to_string(),
            "SSH".to_string(),
            "10.0.0.1".to_string(),
            22,
            Some("admin".to_string()),
            Some("PublicKey".to_string()),
            Some("~/.ssh/id_rsa".to_string()),
            "2024-01-01 10:00:00",
        )
        .unwrap();
    assert_eq!(p.name, "core router");
    assert!(matches!(p.connection_type, ProfileConnectionType::Ssh));
    assert!(matches!(p.auth_method, Some(ProfileAuthMethod::PublicKey)));
    assert_eq!(p.port, 22);
    assert_eq!(p.id.len(), 36);
    assert_eq!(p.created_at, "2024-01-01 10:00:00");
    assert_eq!(p.created_at, p.updated_at);
    let got = store.get_profile(&p.id).unwrap();
    assert_eq!(got.name, "core router");
    assert_eq!(got.host, "10.0.0.1");
}

#[test]
fn create_rejects_unknown_connection_types() {
    let mut store = ProfileStore::new();
    let r = store.create_profile(
        "x".to_string(),
        "serial".to_string(),
        "h".to_string(),
        1,
        None,
        None,
        None,
    );
    assert_eq!(r.err().as_deref(), Some("Invalid connection type"));
    assert_eq!(store.list_profiles().len(), 0);
}

#[test]
fn unknown_auth_words_mean_password() {
    let mut store = ProfileStore::new();
    let p = store
        .create_profile(
            "t".to_string(),
            "telnet".to_string(),
            "h".to_string(),
            23,
            None,
            Some("whatever".to_string()),
            None,
        )
        .unwrap();
    assert!(matches!(p.auth_method, Some(ProfileAuthMethod::Password)));
    assert!(matches!(p.connection_type, ProfileConnectionType::Telnet));
}

#[test]
fn update_keeps_creation_time_and_checks_existence() {
    let mut store = ProfileStore::new();
    let p = store
        .create_profile_at(
            "r".to_string(),
            "ssh".to_string(),
            "old-host".to_string(),
            22,
            None,
            None,
            None,
            "2024-01-01 10:00:00",
        )
        .unwrap();
    let updated = store
        .update_profile_at(
            p.id.clone(),
            "r2".to_string(),
            "ssh".to_string(),
            "new-host".to_string(),
            2222,
            Some("ops".to_string()),
            Some("password".to_string()),
            None,
            "2024-02-02 20:00:00",
        )
        .unwrap();
    assert_eq!(updated.created_at, "2024-01-01 10:00:00");
    assert_eq!(updated.updated_at, "2024-02-02 20:00:00");
    assert_eq!(updated.host, "new-host");
    assert_eq!(store.list_profiles().len(), 1);

    let missing = store.update_profile(
        "no-such-id".to_string(),
        "n".to_string(),
        "ssh".to_string(),
        "h".to_string(),
        22,
        None,
        None,
        None,
    );
    assert_eq!(missing.err().as_deref(), Some("Profile not found"));

    let bad_type = store.update_profile(
        p.id.clone(),
        "n".to_string(),
        "bogus".to_string(),
        "h".to_string(),
        22,
        None,
        None,
        None,
    );
    assert_eq!(bad_type.err().as_deref(), Some("Invalid connection type"));
}

#[test]
fn delete_reports_whether_anything_was_stored() {
    let mut store = ProfileStore::new();
    let p = store
        .create_profile("a".to_string(), "telnet".to_string(), "h".to_string(), 23, None, None, None)
        .unwrap();
    assert!(store.delete_profile(&p.id));
    assert!(!store.delete_profile(&p.id));
    assert!(store.get_profile(&p.id).is_none());
}

#[test]
fn listing_sorts_by_display_name() {
    let mut store = ProfileStore::new();
    for (name, host) in [("zulu", "h3"), ("alpha", "h1"), ("mike", "h2")] {
        store
            .create_profile(
                name.to_string(),
                "telnet".to_string(),
                host.to_string(),
                23,
                None,
                None,
                None,
            )
            .unwrap();
    }
    let listed = store.list_profiles();
    let names: Vec<&str> = listed.iter().map(|p| p.name.as_str()).collect();
    assert_eq!(names, vec!["alpha", "mike", "zulu"]);
}

#[test]
fn clocked_timestamps_are_human_readable() {
    let mut store = ProfileStore::new();
    let p = store
        .create_profile("t".to_string(), "telnet".to_string(), "h".to_string(), 23, None, None, None)
        .unwrap();
    let b = p.created_at.as_bytes();
    assert_eq!(b.len(), 19);
    assert_eq!(b[4], b'-');
    assert_eq!(b[7], b'-');
    assert_eq!(b[10], b' ');
    assert_eq!(b[13], b':');
    assert_eq!(b[16], b':');
    assert!(b[0].is_ascii_digit() && b[18].is_ascii_digit());
}
