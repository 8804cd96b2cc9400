use tui_chat_app::compat::{
    compat_info, CompatibilityError, CompatibilityInfo, MagicBytes, Version, PROTOCOL_MAGIC,
};

fn info(magic: u64, version: [u16; 3]) -> CompatibilityInfo {
    CompatibilityInfo { magic_bytes: MagicBytes(magic), version: Version(version) }
}

#[test]
fn local_fingerprint_is_the_protocol_constant() {
    assert_eq!(PROTOCOL_MAGIC, 0x3064396a3df83f1d);
    assert_eq!(compat_info(), info(0x3064396a3df83f1d, [0, 1, 0]));
}

#[test]
fn same_major_is_compatible_whatever_minor_and_patch() {
    let server = info(PROTOCOL_MAGIC, [0, 1, 0]);
    assert_eq!(server.compatible(info(PROTOCOL_MAGIC, [0, 1, 0])), Ok(()));
    assert_eq!(server.compatible(info(PROTOCOL_MAGIC, [0, 9, 77])), Ok(()));
    assert_eq!(server.compatible(info(PROTOCOL_MAGIC, [0, 0, 65535])), Ok(()));
}

#[test]
fn different_major_is_a_version_mismatch() {
    let server = info(PROTOCOL_MAGIC, [0, 1, 0]);
    let client = info(PROTOCOL_MAGIC, [1, 0, 0]);
    assert_eq!(
        server.compatible(client),
        Err(CompatibilityError::VersionMismatch {
            server: Version([0, 1, 0]),
            client: Version([1, 0, 0]),
        })
    );
    assert_eq!(
        client.compatible(server),
        Err(CompatibilityError::VersionMismatch {
            server: Version([1, 0, 0]),
            client: Version([0, 1, 0]),
        })
    );
}

#[test]
fn different_magic_is_an_invalid_client_even_with_equal_versions() {
    let server = info(PROTOCOL_MAGIC, [0, 1, 0]);
    assert_eq!(
        server.compatible(info(PROTOCOL_MAGIC + 1, [0, 1, 0])),
        Err(CompatibilityError::InvalidClient)
    );
    // the magic is looked at first
    assert_eq!(server.compatible(info(0, [7, 1, 0])), Err(CompatibilityError::InvalidClient));
}

#[test]
fn compatibility_is_symmetric_on_a_grid_of_fingerprints() {
    let magics = [0u64, 1, PROTOCOL_MAGIC, u64::MAX];
    let versions = [[0u16, 0, 0], [0, 1, 0], [0, 65535, 3], [1, 0, 0], [65535, 1, 0]];
    for ma in magics {
        for va in versions {
            for mb in magics {
                for vb in versions {
                    let a = info(ma, va);
                    let b = info(mb, vb);
                    let expected = ma == mb && va[0] == vb[0];
                    assert_eq!(a.compatible(b).is_ok(), expected);
                    assert_eq!(a.compatible(b).is_ok(), b.compatible(a).is_ok());
                }
            }
        }
    }
}

#[test]
fn version_text_joins_the_numbers_with_dots() {
    assert_eq!(Version([0, 1, 0]).to_text(), "0.1.0");
    assert_eq!(Version([10, 205, 65535]).to_text(), "10.205.65535");
    assert_eq!(Version([9, 99, 100]).to_text(), "9.99.100");
}

#[test]
fn compatibility_errors_say_what_went_wrong() {
    assert_eq!(
        CompatibilityError::InvalidClient.to_text(),
        "Client is invalid (Invalid magic bytes)"
    );
    assert_eq!(
        CompatibilityError::VersionMismatch {
            server: Version([0, 1, 0]),
            client: Version([1, 0, 12]),
        }
        .to_text(),
        "The client is incompatible (server:0.1.0 and client:1.0.12)"
    );
}
