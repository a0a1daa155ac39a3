use jenkins_tui::config::{parse_jenkins_config, ConfigError};

const TWO_SERVERS: &str = "[serverA]\n\
url=http://a.example/\n\
user=alice\n\
password=pa\n\
[serverB]\n\
url=http://b.example/\n\
user=bob\n\
password=pb\n";

#[test]
fn fully_specified_sections_become_servers_ordered_by_name() {
    let servers = parse_jenkins_config(TWO_SERVERS).unwrap();
    assert_eq!(servers.len(), 2);
    assert_eq!(servers[0].0, "serverA");
    assert_eq!(servers[0].1.url, "http://a.example/");
    assert_eq!(servers[0].1.user, "alice");
    assert_eq!(servers[0].1.password, "pa");
    assert_eq!(servers[1].0, "serverB");
    assert_eq!(servers[1].1.url, "http://b.example/");
}

#[test]
fn sections_come_out_ascending_by_name_whatever_the_text_order() {
    let text = "[zeta]\nurl=http://z/\nuser=z\npassword=z\n\
                [alpha]\nurl=http://a/\nuser=a\npassword=a\n";
    let servers = parse_jenkins_config(text).unwrap();
    assert_eq!(servers[0].0, "alpha");
    assert_eq!(servers[1].0, "zeta");
}

#[test]
fn section_missing_a_required_field_is_silently_excluded() {
    let text = "[good]\nurl=http://g/\nuser=u\npassword=p\n\
                [nopassword]\nurl=http://n/\nuser=u\n\
                [nourl]\nuser=u\npassword=p\n\
                [nouser]\nurl=http://n/\npassword=p\n";
    let servers = parse_jenkins_config(text).unwrap();
    assert_eq!(servers.len(), 1);
    assert_eq!(servers[0].0, "good");
}

#[test]
fn extra_fields_are_ignored() {
    let text = "[s]\nurl=http://s/\nuser=u\npassword=p\ncolor=green\n";
    let servers = parse_jenkins_config(text).unwrap();
    assert_eq!(servers.len(), 1);
    assert_eq!(servers[0].1.password, "p");
}

#[test]
fn malformed_text_is_a_config_error() {
    assert_eq!(
        parse_jenkins_config("[section\nurl=x\n"),
        Err(ConfigError::Malformed)
    );
    assert_eq!(
        parse_jenkins_config("[s]\nthis line has no equals sign\n"),
        Err(ConfigError::Malformed)
    );
}

#[test]
fn empty_text_yields_no_servers() {
    let servers = parse_jenkins_config("").unwrap();
    assert_eq!(servers.len(), 0);
}
