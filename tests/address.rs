use site_registry::address::Address;
use site_registry::error::Error;

#[test]
fn parse_then_render_gives_input_back() {
    for raw in ["1Address111", "1HeLLo4uzjaLetFx6NH3PMwFP3qbRbTf3D", "1"] {
        let a = Address::parse(raw).unwrap();
        assert_eq!(a.to_canonical(), raw);
    }
}

#[test]
fn parse_rejects_malformed_strings() {
    for raw in ["not-an-address", "", "2Address111", "1Add0ress", "1AddOress", "1AddIress", "1Addless", "1Address 111"] {
        assert!(matches!(Address::parse(raw), Err(Error::MalformedAddress)), "{}", raw);
    }
}

#[test]
fn parse_length_limit() {
    let longest = format!("1{}", "a".repeat(39));
    assert!(Address::parse(&longest).is_ok());
    let too_long = format!("1{}", "a".repeat(40));
    assert!(matches!(Address::parse(&too_long), Err(Error::MalformedAddress)));
}

#[test]
fn short_form() {
    let a = Address::parse("1HeLLo4uzjaLetFx6NH3PMwFP3qbRbTf3D").unwrap();
    assert_eq!(a.get_address_short(), "1HeLLo...Tf3D");
    let b = Address::parse("1Address11").unwrap();
    assert_eq!(b.get_address_short(), "1Address11");
}

#[test]
fn same_address() {
    let a = Address::parse("1Address111").unwrap();
    let b = Address::parse("1Address111").unwrap();
    let c = Address::parse("1Address112").unwrap();
    assert_eq!(a, b);
    assert_ne!(a, c);
}
