use aparte::jid::{parse_jid, BareJid, Jid, JidError};

fn bare(node: &str, domain: &str) -> BareJid {
    BareJid { node: Some(String::from(node)), domain: String::from(domain) }
}

#[test]
fn parse_bare_address() {
    match parse_jid("alice@example.com") {
        Ok(Jid::Bare(b)) => {
            assert_eq!(b.node.as_deref(), Some("alice"));
            assert_eq!(b.domain, "example.com");
        },
        other => panic!("expected a bare address, got {:?}", other.is_ok()),
    }
}

#[test]
fn parse_full_address() {
    match parse_jid("room@conf.example/bob") {
        Ok(Jid::Full(f)) => {
            assert_eq!(f.bare.node.as_deref(), Some("room"));
            assert_eq!(f.bare.domain, "conf.example");
            assert_eq!(f.resource, "bob");
        },
        _ => panic!("expected a full address"),
    }
}

#[test]
fn parse_domain_only() {
    match parse_jid("example.com") {
        Ok(Jid::Bare(b)) => {
            assert!(b.node.is_none());
            assert_eq!(b.domain, "example.com");
        },
        _ => panic!("expected a bare address"),
    }
}

#[test]
fn parse_resource_with_slash() {
    match parse_jid("room@conf.example/a/b") {
        Ok(Jid::Full(f)) => assert_eq!(f.resource, "a/b"),
        _ => panic!("expected a full address"),
    }
}

#[test]
fn parse_empty_node_rejected() {
    assert_eq!(parse_jid("@example.com").unwrap_err(), JidError::EmptyNode);
}

#[test]
fn parse_empty_domain_rejected() {
    assert_eq!(parse_jid("alice@").unwrap_err(), JidError::EmptyDomain);
    assert_eq!(parse_jid("").unwrap_err(), JidError::EmptyDomain);
}

#[test]
fn parse_second_at_rejected() {
    assert_eq!(parse_jid("a@b@c").unwrap_err(), JidError::InvalidDomain);
}

#[test]
fn parse_empty_resource_rejected() {
    assert_eq!(parse_jid("room@conf.example/").unwrap_err(), JidError::EmptyResource);
}

#[test]
fn render_bare_and_full() {
    let b = bare("room", "conf.example");
    assert_eq!(b.to_text(), "room@conf.example");
    let f = bare("room", "conf.example").with_resource(String::from("bob"));
    assert_eq!(Jid::Full(f).to_text(), "room@conf.example/bob");
    let d = BareJid { node: None, domain: String::from("conf.example") };
    assert_eq!(d.to_text(), "conf.example");
}

#[test]
fn bare_projection_of_full() {
    match parse_jid("room@conf.example/bob").unwrap() {
        j @ Jid::Full(_) => {
            let b = j.to_bare();
            assert_eq!(b.to_text(), "room@conf.example");
        },
        _ => panic!("expected a full address"),
    }
}

#[test]
fn same_as_compares_identity() {
    assert!(bare("a", "b").same_as(&bare("a", "b")));
    assert!(!bare("a", "b").same_as(&bare("a", "c")));
    assert!(!bare("a", "b").same_as(&BareJid { node: None, domain: String::from("b") }));
}
