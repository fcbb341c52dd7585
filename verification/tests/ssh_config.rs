use rust_autossh::ssh_config::parse_ssh_config_text;

#[test]
fn parse_ssh_config_extracts_aliases_and_skips_wildcard() {
    let text = "# home servers\n\
                Host c005 c006\n\
                \tHostName 192.168.1.5\n\
                \tUser alice\n\
                \tPort 22\n\
                \n\
                Host c007\n\
                \tHostname 10.0.0.7\n\
                \tUser bob\n\
                \tPort 2222\n\
                \n\
                # Catch-all: not a real host\n\
                Host *\n\
                \tServerAliveInterval 30\n";
    let entries = parse_ssh_config_text(text);
    assert_eq!(entries.len(), 3, "got {entries:?}");
    let aliases: Vec<&str> = entries.iter().map(|e| e.alias.as_str()).collect();
    assert_eq!(
        aliases,
        vec!["c005", "c006", "c007"],
        "wildcard + catch-all must be skipped",
    );
    let c005 = &entries[0];
    assert_eq!(c005.port, 22);
    assert_eq!(c005.destination, "alice@192.168.1.5:22");
    assert!(c005.selected);
    let c007 = &entries[2];
    assert_eq!(c007.port, 2222);
    assert_eq!(c007.destination, "bob@10.0.0.7:2222");
}

#[test]
fn parse_ssh_config_handles_default_port_and_user() {
    let entries = parse_ssh_config_text("Host solo\n  HostName solo.example.com\n");
    assert_eq!(entries.len(), 1);
    let e = &entries[0];
    assert_eq!(e.port, 22, "missing Port should default to 22");
    assert_eq!(e.destination, "solo.example.com:22");
    assert!(e.selected);
}

#[test]
fn alias_is_the_hostname_when_none_is_given() {
    let entries = parse_ssh_config_text("Host box\r\n  port 2200 # custom\r\n");
    assert_eq!(entries.len(), 1);
    assert_eq!(entries[0].destination, "box:2200");
    assert_eq!(entries[0].port, 2200);
}

#[test]
fn quoted_values_and_bad_ports() {
    let entries = parse_ssh_config_text("HOST \"q\"\nUser \"carol\"\nPort nope\nHost p?x\n");
    assert_eq!(entries.len(), 1);
    assert_eq!(entries[0].alias, "q");
    assert_eq!(entries[0].destination, "carol@q:22");
}

#[test]
fn empty_config_has_no_hosts() {
    assert!(parse_ssh_config_text("").is_empty());
    assert!(parse_ssh_config_text("HostName orphan\n# only comments\n").is_empty());
}
