use client_filters::{
    remove_excluded_clients, remove_hidden_clients, Client, ConfigError, ConfigSource, StringTable,
};

/// There are 3 clients, one hidden.
fn test_data() -> (Vec<Client>, StringTable) {
    let mut strings = StringTable::new();
    strings.insert(1, "10.1.1.1".to_owned());
    strings.insert(2, "client1".to_owned());
    strings.insert(3, "10.1.1.2".to_owned());
    strings.insert(4, "0.0.0.0".to_owned());

    let clients = vec![
        Client::new(30, 0, 1, Some(2)),
        Client::new(20, 0, 3, None),
        Client::new(0, 0, 4, None),
    ];
    (clients, strings)
}

/// Only clients marked as excluded are removed.
#[test]
fn only_remove_excluded() {
    let (mut clients, strings) = test_data();
    let config = ConfigSource::Available {
        exclusions: "10.1.1.2,client1".to_owned(),
    };

    remove_excluded_clients(&mut clients, &config, &strings).unwrap();

    assert_eq!(clients, vec![Client::new(0, 0, 4, None)]);
}

/// When there are no excluded clients, the vector is not modified.
#[test]
fn unmodified_when_not_excluded() {
    let (mut clients, strings) = test_data();
    let config = ConfigSource::Available {
        exclusions: String::new(),
    };
    let clients_clone = clients.clone();

    remove_excluded_clients(&mut clients, &config, &strings).unwrap();

    assert_eq!(clients, clients_clone);
}

/// Only clients marked as hidden are removed.
#[test]
fn only_remove_hidden() {
    let (mut clients, strings) = test_data();
    let mut clients_clone = clients.clone();
    clients_clone.remove(2);

    remove_hidden_clients(&mut clients, &strings);

    assert_eq!(clients, clients_clone);
}

/// When there are no hidden clients, the vector is not modified.
#[test]
fn unmodified_when_not_hidden() {
    let (mut clients, strings) = test_data();
    clients.remove(2);
    let clients_clone = clients.clone();

    remove_hidden_clients(&mut clients, &strings);

    assert_eq!(clients, clients_clone);
}

/// Exclusion then privacy filtering on the three-client fixture leaves
/// nothing: the exclusion list takes two, the placeholder address the third.
#[test]
fn exclusion_then_privacy_removes_all() {
    let (mut clients, strings) = test_data();
    let config = ConfigSource::Available {
        exclusions: "10.1.1.2,client1".to_owned(),
    };

    remove_excluded_clients(&mut clients, &config, &strings).unwrap();
    assert_eq!(clients, vec![Client::new(0, 0, 4, None)]);

    remove_hidden_clients(&mut clients, &strings);
    assert_eq!(clients, Vec::new());
}

/// With an empty exclusion value the exclusion filter keeps all three
/// clients; privacy filtering then keeps the first two only.
#[test]
fn empty_config_then_privacy() {
    let (mut clients, strings) = test_data();
    let config = ConfigSource::Available {
        exclusions: String::new(),
    };

    remove_excluded_clients(&mut clients, &config, &strings).unwrap();
    assert_eq!(
        clients,
        vec![
            Client::new(30, 0, 1, Some(2)),
            Client::new(20, 0, 3, None),
            Client::new(0, 0, 4, None),
        ]
    );

    remove_hidden_clients(&mut clients, &strings);
    assert_eq!(
        clients,
        vec![Client::new(30, 0, 1, Some(2)), Client::new(20, 0, 3, None)]
    );
}

/// A value of only commas holds no tokens and excludes nobody.
#[test]
fn only_empty_tokens_is_noop() {
    let (mut clients, strings) = test_data();
    let config = ConfigSource::Available {
        exclusions: ",,,".to_owned(),
    };
    let clients_clone = clients.clone();

    remove_excluded_clients(&mut clients, &config, &strings).unwrap();

    assert_eq!(clients, clients_clone);
}

/// An unreadable configuration store yields the error and leaves the list
/// unmodified.
#[test]
fn unreadable_config_is_an_error() {
    let (mut clients, strings) = test_data();
    let clients_clone = clients.clone();

    let r = remove_excluded_clients(&mut clients, &ConfigSource::Unreadable, &strings);

    assert_eq!(r, Err(ConfigError::Unreadable));
    assert_eq!(clients, clients_clone);
}

/// A client named "Client1" is removed when the configured list holds
/// "client1", and when it holds "CLIENT1": matching is case-insensitive.
#[test]
fn case_insensitive_name_match() {
    let mut strings = StringTable::new();
    strings.insert(1, "10.1.1.1".to_owned());
    strings.insert(2, "Client1".to_owned());
    let fixture = vec![Client::new(5, 0, 1, Some(2))];

    for raw in ["client1", "CLIENT1", "cLiEnT1"] {
        let mut clients = fixture.clone();
        let config = ConfigSource::Available {
            exclusions: raw.to_owned(),
        };
        remove_excluded_clients(&mut clients, &config, &strings).unwrap();
        assert_eq!(clients, Vec::new());
    }
}

/// A client matches by address alone, and by name alone.
#[test]
fn dual_key_match() {
    let (clients_fixture, strings) = test_data();

    // By address only: the first client's name is not listed.
    let mut clients = clients_fixture.clone();
    let config = ConfigSource::Available {
        exclusions: "10.1.1.1".to_owned(),
    };
    remove_excluded_clients(&mut clients, &config, &strings).unwrap();
    assert_eq!(
        clients,
        vec![Client::new(20, 0, 3, None), Client::new(0, 0, 4, None)]
    );

    // By name only: the first client's address is not listed.
    let mut clients = clients_fixture.clone();
    let config = ConfigSource::Available {
        exclusions: "client1".to_owned(),
    };
    remove_excluded_clients(&mut clients, &config, &strings).unwrap();
    assert_eq!(
        clients,
        vec![Client::new(20, 0, 3, None), Client::new(0, 0, 4, None)]
    );
}

/// Applying the exclusion filter twice with the same configuration yields
/// the same result as applying it once.
#[test]
fn exclusion_is_idempotent() {
    let (mut clients, strings) = test_data();
    let config = ConfigSource::Available {
        exclusions: "client1".to_owned(),
    };

    remove_excluded_clients(&mut clients, &config, &strings).unwrap();
    let once = clients.clone();
    remove_excluded_clients(&mut clients, &config, &strings).unwrap();

    assert_eq!(clients, once);
}

/// The relative order of the kept clients is preserved.
#[test]
fn order_preserved() {
    let mut strings = StringTable::new();
    strings.insert(1, "10.0.0.1".to_owned());
    strings.insert(2, "10.0.0.2".to_owned());
    strings.insert(3, "10.0.0.3".to_owned());
    let a = Client::new(1, 0, 1, None);
    let b = Client::new(2, 0, 2, None);
    let c = Client::new(3, 0, 3, None);
    let mut clients = vec![a, b, c];
    let config = ConfigSource::Available {
        exclusions: "10.0.0.2".to_owned(),
    };

    remove_excluded_clients(&mut clients, &config, &strings).unwrap();

    assert_eq!(clients, vec![a, c]);
}

/// A name identifier the table does not resolve degrades to "no name": the
/// client is kept unless its address is listed.
#[test]
fn unresolved_name_degrades_to_absent() {
    let mut strings = StringTable::new();
    strings.insert(1, "10.1.1.1".to_owned());
    let mut clients = vec![Client::new(7, 0, 1, Some(99))];
    let config = ConfigSource::Available {
        exclusions: "client1".to_owned(),
    };

    remove_excluded_clients(&mut clients, &config, &strings).unwrap();

    assert_eq!(clients, vec![Client::new(7, 0, 1, Some(99))]);
}

/// A later table entry for an identifier shadows an earlier one.
#[test]
fn later_table_entry_wins() {
    let mut strings = StringTable::new();
    strings.insert(1, "first".to_owned());
    strings.insert(1, "second".to_owned());

    assert_eq!(strings.get(1), Some(&"second".to_owned()));
    assert_eq!(strings.get(2), None);
}
