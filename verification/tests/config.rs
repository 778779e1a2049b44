use fancy_talk::parse_port;
use fancy_talk::Config;

#[test]
fn ports_parse_as_decimal() {
    assert_eq!(parse_port("65432"), Some(65432));
    assert_eq!(parse_port("0"), Some(0));
    assert_eq!(parse_port("65535"), Some(65535));
    assert_eq!(parse_port("007"), Some(7));
}

#[test]
fn bad_ports_do_not_parse() {
    assert_eq!(parse_port(""), None);
    assert_eq!(parse_port("65536"), None);
    assert_eq!(parse_port("99999999999999999999"), None);
    assert_eq!(parse_port("12a"), None);
    assert_eq!(parse_port("-1"), None);
    assert_eq!(parse_port(" 1"), None);
}

#[test]
fn config_takes_address_port_and_query() {
    let args = vec![
        String::from("client"),
        String::from("127.0.0.1"),
        String::from("65432"),
        String::from("hamlet"),
    ];
    let config = Config::new(&args).unwrap();
    assert_eq!(config.address, "127.0.0.1");
    assert_eq!(config.port, 65432);
    assert_eq!(config.query, "hamlet");
}

#[test]
fn too_few_arguments_are_refused() {
    let args = vec![String::from("client"), String::from("host"), String::from("1")];
    let err = Config::new(&args).unwrap_err();
    assert_eq!(err, "not enough arguments");
}
