use blockdag::subnets::HexDecodeError;
use blockdag::subnets::SubnetworkId;
use blockdag::subnets::subnetwork_id_coinbase;
use blockdag::subnets::subnetwork_id_native;
use blockdag::subnets::subnetwork_id_registry;

#[test]
fn test_subnetwork_builtin_ids() {
    let native = subnetwork_id_native();
    let coinbase = subnetwork_id_coinbase();
    let registry = subnetwork_id_registry();
    assert_eq!(native, SubnetworkId::from_byte(0));
    assert_eq!(coinbase, SubnetworkId::from_byte(1));
    assert_eq!(registry, SubnetworkId::from_byte(2));

    assert!(!native.is_builtin());
    assert!(coinbase.is_builtin());
    assert!(registry.is_builtin());
    assert!(!SubnetworkId::from_byte(3).is_builtin());

    assert!(native.is_builtin_or_native());
    assert!(coinbase.is_builtin_or_native());
    assert!(registry.is_builtin_or_native());
    assert!(!SubnetworkId::from_byte(3).is_builtin_or_native());

    let mut bytes = [0u8; 20];
    bytes[0] = 1;
    assert_eq!(SubnetworkId::from_bytes(bytes), coinbase);
}

#[test]
fn test_to_hex_exact() {
    assert_eq!(
        subnetwork_id_coinbase().to_hex(),
        "0100000000000000000000000000000000000000"
    );
    let mut bytes = [0u8; 20];
    bytes[0] = 0xab;
    bytes[19] = 0x0f;
    assert_eq!(
        SubnetworkId::from_bytes(bytes).to_hex(),
        "ab0000000000000000000000000000000000000f"
    );
}

#[test]
fn test_from_hex_roundtrip_and_case() {
    let mut bytes = [0u8; 20];
    for (i, b) in bytes.iter_mut().enumerate() {
        *b = (i as u8) * 7 + 3;
    }
    let id = SubnetworkId::from_bytes(bytes);
    let hex = id.to_hex();
    assert_eq!(hex.len(), 40);
    let back = SubnetworkId::from_hex(hex.as_bytes()).unwrap();
    assert_eq!(back, id);
    // Uppercase digits decode too.
    let upper = hex.to_uppercase();
    let back_upper = SubnetworkId::from_hex(upper.as_bytes()).unwrap();
    assert_eq!(back_upper, id);
}

#[test]
fn test_from_hex_errors() {
    assert_eq!(SubnetworkId::from_hex(b"abc"), Err(HexDecodeError::OddLength));
    assert_eq!(SubnetworkId::from_hex(b"ab"), Err(HexDecodeError::LengthMismatch));
    assert_eq!(
        SubnetworkId::from_hex(b"zz00000000000000000000000000000000000000"),
        Err(HexDecodeError::InvalidChar)
    );
}
