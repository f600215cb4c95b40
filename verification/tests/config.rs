//! Settings, from the defaults and from an environment.

use rust_nn_api::config::{
    check_reachability, number_from_env, AddrSetting, Config, DataDirSetting, Environment, IpAddr,
    Limits, Location, SocketAddr,
};

fn v4(octets: [u8; 4]) -> IpAddr {
    IpAddr::V4(u32::from_be_bytes(octets))
}

fn text(value: &str) -> Option<String> {
    Some(String::from(value))
}

fn unset() -> Environment {
    Environment {
        addr: AddrSetting::Unset,
        allow_remote: None,
        body_limit_mb: None,
        max_models: None,
        max_layers: None,
        max_units: None,
        max_features: None,
        max_samples: None,
        max_epochs: None,
        cors: None,
        data_dir: DataDirSetting::Unset,
        max_file_mb: None,
    }
}

fn refusal(environment: Environment) -> String {
    Config::from_env(environment).unwrap_err()
}

#[test]
fn loopback_addresses_are_allowed() {
    assert!(check_reachability(v4([127, 0, 0, 1]), "127.0.0.1:8079", false).is_ok());
    assert!(check_reachability(v4([127, 0, 0, 5]), "127.0.0.5:8079", false).is_ok());
    assert!(check_reachability(IpAddr::V6(1), "[::1]:8079", false).is_ok());
}

#[test]
fn anything_reachable_from_outside_has_to_be_asked_for() {
    let addresses = [
        (v4([0, 0, 0, 0]), "0.0.0.0:8079"),
        (v4([192, 168, 1, 10]), "192.168.1.10:8079"),
        (IpAddr::V6(0), "[::]:8079"),
    ];
    for (ip, shown) in addresses {
        let refusal = check_reachability(ip, shown, false).expect_err(&format!("{shown} was allowed"));
        assert!(refusal.contains("NN_API_ALLOW_REMOTE"), "{refusal}");
        assert!(refusal.starts_with(&format!("NN_API_ADDR '{shown}' would accept")), "{refusal}");

        assert!(check_reachability(ip, shown, true).is_ok(), "{shown} was refused even when asked for");
    }
}

#[test]
fn a_server_told_nothing_has_the_defaults() {
    let config = Config::from_env(unset()).unwrap();
    let default = Config::default();

    for config in [config, default] {
        assert_eq!(config.addr, SocketAddr { ip: v4([127, 0, 0, 1]), port: 8079 });
        assert_eq!(config.body_limit_bytes, 32 * 1024 * 1024);
        assert!(!config.permissive_cors);
        assert!(config.data_dir.is_none());
        assert_eq!(config.max_file_bytes, 256 * 1024 * 1024);
        assert_eq!(config.limits, Limits::default());
    }
    let limits = Limits::default();
    assert_eq!(limits.max_models, 256);
    assert_eq!(limits.max_layers, 64);
    assert_eq!(limits.max_units_per_layer, 4096);
    assert_eq!(limits.max_features, 4096);
    assert_eq!(limits.max_samples, 1_000_000);
    assert_eq!(limits.max_epochs, 100_000);
}

#[test]
fn every_setting_can_be_changed() {
    let environment = Environment {
        addr: AddrSetting::Address {
            addr: SocketAddr { ip: v4([10, 0, 0, 1]), port: 80 },
            shown: String::from("10.0.0.1:80"),
        },
        allow_remote: text("yes"),
        body_limit_mb: text("1"),
        max_models: text("2"),
        max_layers: text("3"),
        max_units: text("4"),
        max_features: text("5"),
        max_samples: text("6"),
        max_epochs: text("+7"),
        cors: text("permissive"),
        data_dir: DataDirSetting::Directory(Location { parts: vec![b"data".to_vec()] }),
        max_file_mb: text("8"),
    };
    assert!(environment.check_sizes());
    let config = Config::from_env(environment).unwrap();

    assert_eq!(config.addr, SocketAddr { ip: v4([10, 0, 0, 1]), port: 80 });
    assert_eq!(config.body_limit_bytes, 1_048_576);
    assert!(config.permissive_cors);
    assert_eq!(config.data_dir.unwrap().parts, vec![b"data".to_vec()]);
    assert_eq!(config.max_file_bytes, 8 * 1_048_576);
    assert_eq!(
        config.limits,
        Limits {
            max_models: 2,
            max_layers: 3,
            max_units_per_layer: 4,
            max_features: 5,
            max_samples: 6,
            max_epochs: 7,
        }
    );
}

#[test]
fn a_wrong_setting_keeps_the_server_from_starting() {
    let remote = Environment {
        addr: AddrSetting::Address {
            addr: SocketAddr { ip: v4([0, 0, 0, 0]), port: 8079 },
            shown: String::from("0.0.0.0:8079"),
        },
        allow_remote: text("YES"),
        ..unset()
    };
    assert!(refusal(remote).contains("NN_API_ALLOW_REMOTE=yes"));

    let unreadable = Environment {
        addr: AddrSetting::Unreadable {
            value: String::from("nowhere"),
            reason: String::from("invalid socket address syntax"),
        },
        // The first wrong setting is the one that is named.
        max_models: text("many"),
        ..unset()
    };
    assert_eq!(
        refusal(unreadable),
        "NN_API_ADDR is not a socket address ('nowhere'): invalid socket address syntax"
    );

    let numbers: Vec<(Environment, &str)> = vec![
        (Environment { body_limit_mb: text("x"), ..unset() }, "NN_API_BODY_LIMIT_MB"),
        (Environment { max_models: text("x"), ..unset() }, "NN_API_MAX_MODELS"),
        (Environment { max_layers: text("x"), ..unset() }, "NN_API_MAX_LAYERS"),
        (Environment { max_units: text("x"), ..unset() }, "NN_API_MAX_UNITS"),
        (Environment { max_features: text("x"), ..unset() }, "NN_API_MAX_FEATURES"),
        (Environment { max_samples: text("x"), ..unset() }, "NN_API_MAX_SAMPLES"),
        (Environment { max_epochs: text("x"), ..unset() }, "NN_API_MAX_EPOCHS"),
        (Environment { max_file_mb: text("x"), ..unset() }, "NN_API_MAX_FILE_MB"),
    ];
    for (environment, key) in numbers {
        let refusal = refusal(environment);
        assert_eq!(
            refusal,
            format!("{key} is not a number ('x'): {}", "x".parse::<usize>().unwrap_err())
        );
    }

    let unopened = DataDirSetting::Unopened {
        value: String::from("/nope"),
        reason: String::from("No such file or directory"),
    };
    assert_eq!(
        refusal(Environment { data_dir: unopened, ..unset() }),
        "NN_API_DATA_DIR '/nope' cannot be opened: No such file or directory"
    );
    let file = DataDirSetting::NotADirectory { value: String::from("/etc/hosts") };
    assert_eq!(
        refusal(Environment { data_dir: file, ..unset() }),
        "NN_API_DATA_DIR '/etc/hosts' is not a directory"
    );
}

#[test]
fn numbers_are_read_as_they_are_written() {
    let read = |value: &str| number_from_env("KEY", &text(value), 9);

    assert_eq!(read("0"), Ok(0));
    assert_eq!(read("42"), Ok(42));
    assert_eq!(read("+42"), Ok(42));
    assert_eq!(read("007"), Ok(7));
    assert_eq!(read("18446744073709551615"), Ok(usize::MAX));
    assert_eq!(number_from_env("KEY", &None, 9), Ok(9));
    for wrong in ["", "+", "-1", " 1", "1 ", "1.0", "0x1", "1_000", "18446744073709551616", "٣"] {
        let refusal = read(wrong).unwrap_err();
        let reason = wrong.parse::<usize>().unwrap_err().to_string();
        assert_eq!(refusal, format!("KEY is not a number ('{wrong}'): {reason}"));
    }
    assert_eq!(
        read("1.0"),
        Err(String::from("KEY is not a number ('1.0'): invalid digit found in string"))
    );
    // A number that grows too large is refused for that, whatever follows.
    assert_ne!(
        read("99999999999999999999999x").unwrap_err().replace("99999999999999999999999x", ""),
        read("x").unwrap_err().replace("'x'", "''")
    );
}

#[test]
fn sizes_that_cannot_be_counted_are_noticed() {
    assert!(unset().check_sizes());
    assert!(!Environment { body_limit_mb: text("18446744073709551615"), ..unset() }.check_sizes());
    assert!(!Environment { max_file_mb: text("18446744073709551615"), ..unset() }.check_sizes());
    assert!(Environment { max_file_mb: text("17592186044415"), ..unset() }.check_sizes());

    // What is wrong before a size is looked at is answered first.
    let unreadable = Environment {
        addr: AddrSetting::Unreadable { value: String::from("x"), reason: String::from("why") },
        body_limit_mb: text("18446744073709551615"),
        ..unset()
    };
    assert!(unreadable.check_sizes());
    assert_eq!(refusal(unreadable), "NN_API_ADDR is not a socket address ('x'): why");
    let unopened = Environment {
        data_dir: DataDirSetting::NotADirectory { value: String::from("/x") },
        max_file_mb: text("18446744073709551615"),
        ..unset()
    };
    assert!(unopened.check_sizes());
    assert_eq!(refusal(unopened), "NN_API_DATA_DIR '/x' is not a directory");
}
