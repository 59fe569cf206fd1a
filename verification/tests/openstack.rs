//! Capabilities of the plain REST metadata shape.

use bootagent::providers::{
    instance_attributes, interpret_optional_fetch, parse_public_keys_index, parse_ssh_keys,
    MetadataError,
};
use bootagent::sshkey::SshKeyData;

#[test]
fn test_ssh_keys() {
    let key1 = "ssh-rsa AAAAB3NzaC1yc2EAAAADAQABAAABgQCsXe6CfHl45kCIzMF92VhDf2NpBWUyS1+IiTtxm5a83mT9730Hb8xim7GYeJu47kiESw2DAN8vNJ/Irg0apZ217ah2rXXjPQuWYSXuEuap8yLBSjqw8exgqVj/kzW+YqmnHASxI13eoFDxTQQGzyqbqowvxu/5gQmDwBmNAa9bT809ziB/qmpS1mD6qyyFDpR23kUwu3TkgAbwMXBDoqK+pdwfaF9uo9XaLHNEH8lD5BZuG2BeDafm2o76DhNSo83MvcCPNXKLxu3BbX/FCMFO6O8RRqony4i91fEV1b8TbXrbJz1bwEYEnJRvmjnqI/389tQFeYvplXR2WdT9PCKyEAG+j8y6XgecIcdTqV/7gFfak1mp2S7mYHZDnXixsn3MjCP/cIxxJVDitKusnj1TdFqtSXl4tqGccbg/5Sqnt/EVSK4bGwwBxv/YmE0P9cbXLxuEVI0JYzgrQvC8TtUgd8kUu2jqi1/Yj9IWm3aFsl/hhh8YwYrv/gm8PV0TxkM= root@example1";
    let key2 = "ssh-rsa AAAAB3NzaC1yc2EAAAADAQABAAABgQDj6FBVgkTt7/DB93VVLk6304Nx7WUjLBJDSCh38zjCimHUpeo9uYDxflfu2N1CLtrSImIKBVP/JRy9g7K4zmRAH/wXw2UxYziX+hZoFIpbW3GmYQqhjx2lDvIRXJI7blhHhTUNWX5f10lFAYOLqA9J859AB1w7ND09+MS3jQgSazCx17h+QZ0qQ6kLSfnXw9PMUOE1Xba9hD1nYj14ryTVj9jrFPMFuUfXdb/G9lsDJ+cGvdE2/RMuPfDmEdo04zvZ5fQJJKvS7OyAuYev4Y+JC8MhEr756ITDZ17yq4BEMo/8rNPxZ5Von/8xnvry+8/2C3ep9rZyHtCwpRb6WT6TndV2ddXKhEIneyd1XiOcWPJguHj5vSoMN3mo8k2PvznGauvxBstvpjUSFLQu869/ZQwyMnbQi3wnkJk5CpLXePXn1J9njocJjt8+SKGijmmIAsmYosx8gmmu3H1mvq9Wi0qqWDITMm+J24AZBEPBhwVrjhLZb5MKxylF6JFJJBs= root@example2";

    let index = parse_public_keys_index("0=test1\n1=test2").unwrap();
    assert_eq!(index.len(), 2);
    assert_eq!(index[0], "0");
    assert_eq!(index[1], "1");

    let bodies = vec![key1.to_string(), key2.to_string()];
    let keys = parse_ssh_keys(&bodies).unwrap();
    assert_eq!(keys.len(), 2);
    assert_eq!(keys[0].options, None);
    assert_eq!(keys[0].comment, Some("root@example1".to_string()));

    assert_eq!(keys[1].options, None);
    assert_eq!(keys[1].comment, Some("root@example2".to_string()));

    assert!(matches!(keys[0].data, SshKeyData::Rsa { .. }));
}

#[test]
fn test_ssh_keys_404_ok() {
    let listing = interpret_optional_fetch(404, String::new()).unwrap();
    assert!(listing.is_none());
    let keys = parse_ssh_keys(&Vec::new()).unwrap();
    assert_eq!(keys.len(), 0);
    // Any other non-success status is a propagated error, not absence.
    assert_eq!(
        interpret_optional_fetch(500, String::new()),
        Err(MetadataError::Status { code: 500 })
    );
}

#[test]
fn test_instance_uuid() {
    let meta = r#"{"uuid": "99dcf33b-6eb5-4acf-9abb-d81723e0c949", "name": "test"}"#;
    let v = instance_attributes(Some(meta)).unwrap();
    assert_eq!(v.len(), 1);
    assert_eq!(v[0].0, "OPENSTACK_INSTANCE_UUID");
    assert_eq!(v[0].1, "99dcf33b-6eb5-4acf-9abb-d81723e0c949");
}

#[test]
fn test_instance_uuid_404_ok() {
    let v = instance_attributes(None).unwrap();
    assert_eq!(v.len(), 0);
}

#[test]
fn malformed_key_listing_is_rejected() {
    assert_eq!(
        parse_public_keys_index("0=test1\nno-separator-here"),
        Err(MetadataError::MalformedKeyList)
    );
    let empty = parse_public_keys_index("").unwrap();
    assert_eq!(empty.len(), 0);
    let blank_lines = parse_public_keys_index("\n0=test1\n\n").unwrap();
    assert_eq!(blank_lines, vec!["0".to_string()]);
}

#[test]
fn unparsable_key_text_is_an_error() {
    let bodies = vec!["not an ssh key at all".to_string()];
    assert!(matches!(parse_ssh_keys(&bodies), Err(MetadataError::KeyParse)));
}

#[test]
fn metadata_without_uuid_is_missing_field() {
    assert_eq!(
        instance_attributes(Some(r#"{"name": "test"}"#)),
        Err(MetadataError::MissingField)
    );
}

#[test]
fn success_status_hands_body_through() {
    let r = interpret_optional_fetch(200, "payload".to_string()).unwrap();
    assert_eq!(r, Some("payload".to_string()));
}

#[test]
fn non_ascii_key_text_is_rejected_not_parsed() {
    let bodies = vec!["\u{e9}\u{e9} ssh-rsa AAAAB3NzaC1yc2E comment".to_string()];
    assert!(matches!(parse_ssh_keys(&bodies), Err(MetadataError::KeyParse)));
}

#[test]
fn json_key_lookup_ignores_values_containing_the_name() {
    let doc = r#"{"trap":"\"vmName\":\"fake\"","vmName":"real"}"#;
    assert_eq!(
        bootagent::providers::parse_identity_hostname(doc),
        Some("real".to_string())
    );
}

#[test]
fn json_key_lookup_accepts_whitespace_around_members() {
    let doc = "{ \"uuid\" : \"abc-123\" }";
    let v = instance_attributes(Some(doc)).unwrap();
    assert_eq!(v[0].1, "abc-123");
}
