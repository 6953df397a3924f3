use config::Config;
use warden_secret_operator::settings::{
    noop_requeue_delay, parse_ip, webserver_settings, TlsSettings, WebserverSettings,
    BW_OPERATOR_ENV_PREFIX, DEFAULT_CONFIG_PATH, DEFAULT_NOOP_REQUEUE_DELAY, ENV_CONFIG_PATH,
    ENV_NOOP_REQUEUE_DELAY,
};

fn configured(settings: &[(&str, &str)]) -> Config {
    let mut builder = Config::builder();
    for (key, value) in settings {
        builder = builder.set_override(key, *value).unwrap();
    }
    builder.build().unwrap()
}

#[test]
fn environment_variables_have_the_prefix() {
    assert_eq!(ENV_CONFIG_PATH, format!("{BW_OPERATOR_ENV_PREFIX}_CONFIG"));
    assert_eq!(ENV_NOOP_REQUEUE_DELAY, format!("{BW_OPERATOR_ENV_PREFIX}_NOOP_REQUEUE_DELAY"));
    assert_eq!(BW_OPERATOR_ENV_PREFIX, "BW_OPERATOR");
    assert_eq!(DEFAULT_CONFIG_PATH, "config/config");
    assert_eq!(DEFAULT_NOOP_REQUEUE_DELAY, 300);
}

#[test]
fn webserver_defaults() {
    assert_eq!(
        webserver_settings(&configured(&[])),
        Some(WebserverSettings { ip: [0, 0, 0, 0], port: 8080, tls: None })
    );
}

#[test]
fn webserver_follows_the_configuration() {
    let config = configured(&[
        ("webserver_ip", "127.0.0.1"),
        ("webserver_port", "9443"),
        ("webserver_tls", "true"),
        ("tls_cert_path", "/tmp/cert"),
    ]);
    assert_eq!(
        webserver_settings(&config),
        Some(WebserverSettings {
            ip: [127, 0, 0, 1],
            port: 9443,
            tls: Some(TlsSettings {
                cert_path: "/tmp/cert".to_owned(),
                key_path: "/certs/tls.key".to_owned(),
            }),
        })
    );
    let config = configured(&[("webserver_tls", "true"), ("tls_key_path", "/tmp/key")]);
    let tls = webserver_settings(&config).unwrap().tls.unwrap();
    assert_eq!(tls.cert_path, "/certs/tls.crt");
    assert_eq!(tls.key_path, "/tmp/key");
}

#[test]
fn webserver_settings_that_cannot_be_read() {
    let config = configured(&[("webserver_port", "many"), ("webserver_tls", "perhaps")]);
    assert_eq!(
        webserver_settings(&config),
        Some(WebserverSettings { ip: [0, 0, 0, 0], port: 8080, tls: None })
    );
    assert_eq!(webserver_settings(&configured(&[("webserver_ip", "localhost")])), None);
    assert_eq!(webserver_settings(&configured(&[("webserver_tls", "false")])).unwrap().tls, None);
}

#[test]
fn port_is_taken_modulo_two_to_the_sixteenth() {
    let port = |text: &str| webserver_settings(&configured(&[("webserver_port", text)])).unwrap().port;
    assert_eq!(port("65535"), 65535);
    assert_eq!(port("65536"), 0);
    assert_eq!(port("73616"), 8080);
    assert_eq!(port("-1"), 65535);
}

#[test]
fn ip_addresses() {
    assert_eq!(parse_ip("192.168.0.255"), Some([192, 168, 0, 255]));
    assert_eq!(parse_ip("0.0.0.0"), Some([0, 0, 0, 0]));
    assert_eq!(parse_ip("1.2.3"), None);
    assert_eq!(parse_ip("1.2.3.4.5"), None);
    assert_eq!(parse_ip("1.2.3.256"), None);
    assert_eq!(parse_ip("1..3.4"), None);
    assert_eq!(parse_ip(""), None);
    assert_eq!(parse_ip("a.b.c.d"), None);
}

#[test]
fn delay_when_there_is_nothing_to_do() {
    assert_eq!(noop_requeue_delay(&None), Some(300));
    assert_eq!(noop_requeue_delay(&Some("60".to_owned())), Some(60));
    assert_eq!(noop_requeue_delay(&Some("0".to_owned())), Some(0));
    assert_eq!(noop_requeue_delay(&Some("soon".to_owned())), None);
    assert_eq!(noop_requeue_delay(&Some("".to_owned())), None);
    assert_eq!(noop_requeue_delay(&Some("-5".to_owned())), None);
}
