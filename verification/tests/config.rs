use talkboy::cli::{delay_from_flags, port_validator, proxy_config_from_cli};
use talkboy::config::{
    Config, ConfigError, DelayOptions, NextUnusedPort, PlaybackConfig, PlaybackProject,
    PlaybackServerConfig, ProjectConfig, ProxyConfig, ProxyServerConfig,
};

fn project(name: &str, port: Option<u16>, playback: bool, record: bool) -> ProjectConfig {
    ProjectConfig {
        name: name.to_string(),
        addr: None,
        port,
        playback: if playback { Some(PlaybackConfig { delay: None }) } else { None },
        record: if record {
            Some(ProxyConfig {
                uri: format!("https://{}.test", name),
                ignored_status_codes: Vec::new(),
            })
        } else {
            None
        },
    }
}

#[test]
fn a_port_between_1_and_65535_is_accepted() {
    assert_eq!(port_validator("1".to_string()), Ok(()));
    assert_eq!(port_validator("8080".to_string()), Ok(()));
    assert_eq!(port_validator("65535".to_string()), Ok(()));
    assert_eq!(port_validator("+80".to_string()), Ok(()));
    assert_eq!(port_validator("00080".to_string()), Ok(()));
}

#[test]
fn port_zero_is_refused() {
    assert_eq!(port_validator("0".to_string()), Err("Port must be in range 1-65535".to_string()));
    assert_eq!(port_validator("000".to_string()), Err("Port must be in range 1-65535".to_string()));
    assert_eq!(port_validator("+0".to_string()), Err("Port must be in range 1-65535".to_string()));
}

#[test]
fn a_port_that_is_no_number_is_refused() {
    let message = Err("Port must be an integer in range 1-65535".to_string());
    assert_eq!(port_validator("65536".to_string()), message);
    assert_eq!(port_validator("".to_string()), message);
    assert_eq!(port_validator("+".to_string()), message);
    assert_eq!(port_validator("-1".to_string()), message);
    assert_eq!(port_validator("80 ".to_string()), message);
    assert_eq!(port_validator(" 80".to_string()), message);
    assert_eq!(port_validator("8o".to_string()), message);
    assert_eq!(port_validator("++80".to_string()), message);
    assert_eq!(port_validator("99999999999999999999".to_string()), message);
    assert_eq!(port_validator("\u{664}\u{662}".to_string()), message);
}

#[test]
fn the_flags_choose_the_delay() {
    assert_eq!(delay_from_flags(true, None), DelayOptions::Original);
    assert_eq!(delay_from_flags(true, Some(5)), DelayOptions::Original);
    assert_eq!(delay_from_flags(false, Some(250)), DelayOptions::Static { millis: 250 });
    assert_eq!(delay_from_flags(false, None), DelayOptions::NoDelay);
}

#[test]
fn a_command_line_describes_one_recording_server() {
    let servers = proxy_config_from_cli("recordings", "0.0.0.0", 9000, "shop", "https://shop.test");
    assert_eq!(
        servers,
        vec![ProxyServerConfig {
            name: "shop".to_string(),
            addr: "0.0.0.0".to_string(),
            port: 9000,
            archive_path: "recordings".to_string(),
            proxy_for: "https://shop.test".to_string(),
            ignored_status_codes: Vec::new(),
        }]
    );
}

#[test]
fn server_settings_are_kept() {
    let c = PlaybackServerConfig::new(
        "p".to_string(),
        "127.0.0.1".to_string(),
        8081,
        Vec::new(),
        DelayOptions::Original,
    );
    assert_eq!(c.name, "p");
    assert_eq!(c.addr, "127.0.0.1");
    assert_eq!(c.port, 8081);
    assert_eq!(c.archives.len(), 0);
    assert_eq!(c.delay, DelayOptions::Original);
    let c = ProxyServerConfig::new(
        "p".to_string(),
        "::1".to_string(),
        1,
        "http://up.test".to_string(),
        "dir".to_string(),
    );
    assert_eq!(c.name, "p");
    assert_eq!(c.addr, "::1");
    assert_eq!(c.port, 1);
    assert_eq!(c.proxy_for, "http://up.test");
    assert_eq!(c.archive_path, "dir");
    assert_eq!(c.ignored_status_codes, Vec::<u16>::new());
}

#[test]
fn ports_are_handed_out_upwards() {
    let mut ports = NextUnusedPort::new(8080);
    assert_eq!(ports.next(), Some(8080));
    assert_eq!(ports.next(), Some(8081));
    assert_eq!(ports.next(), Some(8082));
}

#[test]
fn observed_ports_are_passed_over() {
    let mut ports = NextUnusedPort::new(8080);
    assert_eq!(ports.observe(8081), 8081);
    assert_eq!(ports.observe(8080), 8080);
    assert_eq!(ports.observe(8083), 8083);
    assert_eq!(ports.next(), Some(8082));
    assert_eq!(ports.next(), Some(8084));
    assert_eq!(ports.observe(8000), 8000);
    assert_eq!(ports.next(), Some(8085));
}

#[test]
fn the_ports_run_out_near_the_top() {
    let mut ports = NextUnusedPort::new(65533);
    assert_eq!(ports.next(), Some(65533));
    assert_eq!(ports.next(), None);
    assert_eq!(ports.next(), None);
    let mut ports = NextUnusedPort::new(65535);
    assert_eq!(ports.next(), None);
    let mut ports = NextUnusedPort::new(65533);
    ports.observe(65533);
    ports.observe(65534);
    assert_eq!(ports.next(), None);
    assert_eq!(ports.next(), None);
}

#[test]
fn recording_servers_are_made_of_the_projects_that_record() {
    let config = Config {
        projects: vec![
            project("one", None, false, true),
            project("two", Some(9000), true, false),
            ProjectConfig {
                name: "three".to_string(),
                addr: Some("0.0.0.0".to_string()),
                port: Some(8081),
                playback: None,
                record: Some(ProxyConfig {
                    uri: "http://three.test:81/base".to_string(),
                    ignored_status_codes: vec![429, 503],
                }),
            },
            project("four", None, true, true),
        ],
    };
    let servers = config.try_into_proxy_servers("recordings").unwrap();
    assert_eq!(
        servers,
        vec![
            ProxyServerConfig {
                name: "one".to_string(),
                addr: "127.0.0.1".to_string(),
                port: 8080,
                archive_path: "recordings".to_string(),
                proxy_for: "https://one.test".to_string(),
                ignored_status_codes: Vec::new(),
            },
            ProxyServerConfig {
                name: "three".to_string(),
                addr: "0.0.0.0".to_string(),
                port: 8081,
                archive_path: "recordings".to_string(),
                proxy_for: "http://three.test:81/base".to_string(),
                ignored_status_codes: vec![429, 503],
            },
            ProxyServerConfig {
                name: "four".to_string(),
                addr: "127.0.0.1".to_string(),
                port: 8082,
                archive_path: "recordings".to_string(),
                proxy_for: "https://four.test".to_string(),
                ignored_status_codes: Vec::new(),
            },
        ]
    );
}

#[test]
fn playback_servers_are_made_of_the_projects_that_play_back() {
    let config = Config {
        projects: vec![
            project("one", Some(8080), true, false),
            project("two", None, false, true),
            ProjectConfig {
                name: "three".to_string(),
                addr: Some("10.0.0.1".to_string()),
                port: None,
                playback: Some(PlaybackConfig { delay: Some(DelayOptions::Static { millis: 500 }) }),
                record: None,
            },
            project("four", Some(8081), true, false),
            project("five", None, true, false),
        ],
    };
    let servers = config.try_into_playback_servers().unwrap();
    assert_eq!(
        servers,
        vec![
            PlaybackProject {
                name: "one".to_string(),
                addr: "127.0.0.1".to_string(),
                port: 8080,
                delay: DelayOptions::NoDelay,
            },
            PlaybackProject {
                name: "three".to_string(),
                addr: "10.0.0.1".to_string(),
                port: 8081,
                delay: DelayOptions::Static { millis: 500 },
            },
            PlaybackProject {
                name: "four".to_string(),
                addr: "127.0.0.1".to_string(),
                port: 8081,
                delay: DelayOptions::NoDelay,
            },
            PlaybackProject {
                name: "five".to_string(),
                addr: "127.0.0.1".to_string(),
                port: 8082,
                delay: DelayOptions::NoDelay,
            },
        ]
    );
}

#[test]
fn a_configuration_without_projects_has_no_servers() {
    assert_eq!(Config { projects: Vec::new() }.try_into_proxy_servers("d").unwrap(), Vec::new());
    assert_eq!(Config { projects: Vec::new() }.try_into_playback_servers().unwrap(), Vec::new());
    let config = Config { projects: vec![project("idle", Some(1), false, false)] };
    assert_eq!(config.try_into_proxy_servers("d").unwrap(), Vec::new());
}

#[test]
fn running_out_of_ports_is_an_error() {
    let mut projects: Vec<ProjectConfig> = Vec::new();
    for port in 8080..65534u16 {
        projects.push(project("fixed", Some(port), true, false));
    }
    projects.push(project("last", None, true, false));
    assert_eq!(Config { projects }.try_into_playback_servers(), Err(ConfigError::OutOfPorts));
}
