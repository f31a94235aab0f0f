use tanoshi::metadata::{ProviderMetadata, SemanticVersion};
use tanoshi::store::{scan, validate_header, StoreEntry, StoreError};
use tanoshi::version::InterfaceVersion;

const GOOD: [u8; 8] = [0x00, 0x61, 0x73, 0x6d, 0x01, 0x00, 0x00, 0x00];

fn entry(id: i64, binary: Vec<u8>) -> StoreEntry {
    StoreEntry {
        metadata: ProviderMetadata {
            id,
            name: format!("p{}", id),
            semantic_version: SemanticVersion { major: 0, minor: 1, patch: 0 },
            interface_version: InterfaceVersion { major: 1, minor: 0 },
            icon: String::new(),
        },
        binary,
    }
}

#[test]
fn a_bare_header_is_valid() {
    assert_eq!(validate_header(&GOOD), Ok(()));
    let mut longer = GOOD.to_vec();
    longer.extend_from_slice(&[1, 2, 3]);
    assert_eq!(validate_header(&longer), Ok(()));
}

#[test]
fn short_binaries_are_truncated() {
    assert_eq!(validate_header(&[]), Err(StoreError::Truncated));
    assert_eq!(validate_header(&GOOD[..7]), Err(StoreError::Truncated));
    assert_eq!(validate_header(&[0xff; 7]), Err(StoreError::Truncated));
}

#[test]
fn wrong_magic_is_reported() {
    for i in 0..4 {
        let mut bytes = GOOD;
        bytes[i] ^= 0x40;
        assert_eq!(validate_header(&bytes), Err(StoreError::BadMagic));
    }
    assert_eq!(validate_header(&[0xff; 8]), Err(StoreError::BadMagic));
}

#[test]
fn wrong_format_version_is_reported() {
    for i in 4..8 {
        let mut bytes = GOOD;
        bytes[i] ^= 0x02;
        assert_eq!(validate_header(&bytes), Err(StoreError::UnsupportedFormat));
    }
}

#[test]
fn scan_skips_and_reports_corrupt_entries() {
    let entries = vec![
        entry(1, GOOD.to_vec()),
        entry(2, vec![1, 2, 3]),
        entry(3, GOOD.to_vec()),
        entry(4, vec![0x7f, b'E', b'L', b'F', 1, 0, 0, 0]),
        entry(5, vec![0x00, 0x61, 0x73, 0x6d, 0x02, 0x00, 0x00, 0x00]),
        entry(6, GOOD.to_vec()),
    ];
    let report = scan(&entries);
    assert_eq!(report.accepted, vec![0, 2, 5]);
    assert_eq!(
        report.rejected,
        vec![
            (1, StoreError::Truncated),
            (3, StoreError::BadMagic),
            (4, StoreError::UnsupportedFormat)
        ]
    );
}

#[test]
fn scan_of_nothing() {
    let report = scan(&vec![]);
    assert!(report.accepted.is_empty());
    assert!(report.rejected.is_empty());
}
