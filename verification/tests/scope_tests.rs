use wfgen::scope::Scope;

#[test]
fn parse_normal_and_full() {
    assert_eq!("normal".parse::<Scope>().unwrap(), Scope::Normal);
    assert_eq!("full".parse::<Scope>().unwrap(), Scope::Normal);
}

#[test]
fn parse_rules() {
    assert_eq!("rules".parse::<Scope>().unwrap(), Scope::Rules);
}

#[test]
fn parse_conf() {
    assert_eq!("conf".parse::<Scope>().unwrap(), Scope::Conf);
}

#[test]
fn parse_invalid() {
    assert!("".parse::<Scope>().is_err());
    assert!("unknown".parse::<Scope>().is_err());
}

#[test]
fn unknown_scope_message_lists_valid_scopes() {
    let err = "bad".parse::<Scope>().unwrap_err();
    assert_eq!(err, "unknown scope: 'bad'. Valid: normal, rules, conf");
}
