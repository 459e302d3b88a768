use maildir::digits::u64_to_dec;
use maildir::ident::delivery_identity;
use maildir::ident::message_id;
use maildir::ident::staging_name;

#[test]
fn decimal_rendering() {
    assert_eq!(u64_to_dec(0), "0");
    assert_eq!(u64_to_dec(7), "7");
    assert_eq!(u64_to_dec(10), "10");
    assert_eq!(u64_to_dec(1463868505), "1463868505");
    assert_eq!(u64_to_dec(u64::MAX), "18446744073709551615");
}

#[test]
fn staging_name_layout() {
    assert_eq!(staging_name(1463868505, 42, 1000, "localhost"), "1463868505.M42P1000.localhost");
}

#[test]
fn message_id_layout() {
    assert_eq!(
        message_id(1463868505, 42, 1000, 2049, 131072, "localhost", 1234),
        "1463868505.M42P1000V2049I131072.localhost,S=1234"
    );
}

#[test]
fn back_to_back_deliveries_mint_distinct_identifiers() {
    let a = message_id(1463868505, 42, 1000, 2049, 131072, "localhost", 1234);
    let b = message_id(1463868505, 43, 1000, 2049, 131072, "localhost", 1234);
    let c = message_id(1463868505, 42, 1000, 2049, 131073, "localhost", 1234);
    assert_ne!(a, b);
    assert_ne!(a, c);
    assert_ne!(b, c);
}

#[test]
fn identity_of_this_process() {
    let ident = delivery_identity().ok().expect("host name should resolve");
    assert!(!ident.host.contains('/'));
    let name = staging_name(1, 2, ident.pid, &ident.host);
    assert!(name.starts_with("1.M2P"));
}
