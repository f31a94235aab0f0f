use tanoshi::metadata::{ProviderMetadata, SemanticVersion};
use tanoshi::pool::Slot;
use tanoshi::registry::{LoadOutcome, Registry, Status};
use tanoshi::store::{StoreEntry, StoreError};
use tanoshi::version::{Incompatibility, InterfaceVersion};

const MODULE: [u8; 8] = [0x00, 0x61, 0x73, 0x6d, 0x01, 0x00, 0x00, 0x00];

fn provider(id: i64, major: u32, minor: u32) -> ProviderMetadata {
    ProviderMetadata {
        id,
        name: format!("provider-{}", id),
        semantic_version: SemanticVersion { major: 1, minor: 0, patch: 0 },
        interface_version: InterfaceVersion { major, minor },
        icon: String::new(),
    }
}

fn host() -> InterfaceVersion {
    InterfaceVersion { major: 1, minor: 3 }
}

fn ids(registry: &Registry) -> Vec<i64> {
    registry.list().iter().map(|m| m.id).collect()
}

#[test]
fn new_registry_is_empty() {
    let registry = Registry::new(host());
    assert!(registry.list().is_empty());
    assert!(registry.list_all().is_empty());
    assert_eq!(registry.find(1), None);
    assert_eq!(registry.lookup(1), None);
}

#[test]
fn compatible_provider_is_enabled() {
    let mut registry = Registry::new(host());
    assert_eq!(registry.load(provider(1, 1, 3), MODULE.to_vec(), 2), LoadOutcome::Enabled);
    assert_eq!(registry.load(provider(2, 1, 0), MODULE.to_vec(), 1), LoadOutcome::Enabled);
    assert_eq!(ids(&registry), vec![1, 2]);
    assert_eq!(registry.lookup(2), Some(1));
    assert_eq!(registry.providers[0].pool.slots, vec![Slot::Vacant, Slot::Vacant]);
    assert_eq!(registry.providers[0].binary, MODULE.to_vec());
    assert_eq!(registry.list()[1], provider(2, 1, 0));
}

#[test]
fn incompatible_provider_is_recorded_disabled_with_reason() {
    let mut registry = Registry::new(host());
    let major = Incompatibility::MajorMismatch { declared: 2, host: 1 };
    let minor = Incompatibility::MinorTooNew { declared: 4, host: 3 };
    assert_eq!(registry.load(provider(3, 2, 0), MODULE.to_vec(), 1), LoadOutcome::Disabled(major));
    assert_eq!(registry.load(provider(4, 1, 4), MODULE.to_vec(), 1), LoadOutcome::Disabled(minor));
    assert!(registry.list().is_empty());
    assert_eq!(registry.find(3), Some(0));
    assert_eq!(registry.lookup(3), None);
    assert_eq!(registry.lookup(4), None);
    let all = registry.list_all();
    assert_eq!(all.len(), 2);
    assert_eq!(all[0], (provider(3, 2, 0), Status::Disabled(major)));
    assert_eq!(all[1], (provider(4, 1, 4), Status::Disabled(minor)));
}

#[test]
fn listed_ids_are_pairwise_distinct() {
    let mut registry = Registry::new(host());
    for id in [5, 1, 5, 9, 1, 1, 7, 9] {
        registry.load(provider(id, 1, 0), MODULE.to_vec(), 1);
    }
    let listed = ids(&registry);
    assert_eq!(listed, vec![5, 1, 9, 7]);
    for a in 0..listed.len() {
        for b in 0..a {
            assert_ne!(listed[a], listed[b]);
        }
    }
}

#[test]
fn duplicate_id_is_refused_and_changes_nothing() {
    let mut registry = Registry::new(host());
    assert_eq!(registry.load(provider(1, 1, 0), MODULE.to_vec(), 1), LoadOutcome::Enabled);
    assert_eq!(registry.load(provider(1, 1, 1), vec![], 4), LoadOutcome::DuplicateId);
    // also when the first holder of the id is disabled
    assert_eq!(
        registry.load(provider(2, 9, 0), MODULE.to_vec(), 1),
        LoadOutcome::Disabled(Incompatibility::MajorMismatch { declared: 9, host: 1 })
    );
    assert_eq!(registry.load(provider(2, 1, 0), MODULE.to_vec(), 1), LoadOutcome::DuplicateId);
    assert_eq!(registry.providers.len(), 2);
    assert_eq!(registry.list(), vec![provider(1, 1, 0)]);
}

#[test]
fn zero_capacity_is_refused() {
    let mut registry = Registry::new(host());
    assert_eq!(registry.load(provider(1, 1, 0), MODULE.to_vec(), 0), LoadOutcome::NoCapacity);
    assert!(registry.providers.is_empty());
}

#[test]
fn removing_a_provider() {
    let mut registry = Registry::new(host());
    registry.load(provider(1, 1, 0), MODULE.to_vec(), 1);
    registry.load(provider(2, 1, 0), MODULE.to_vec(), 1);
    registry.load(provider(3, 1, 0), MODULE.to_vec(), 1);
    let gone = registry.remove(2).unwrap();
    assert_eq!(gone.metadata, provider(2, 1, 0));
    assert_eq!(ids(&registry), vec![1, 3]);
    assert_eq!(registry.lookup(2), None);
    assert_eq!(registry.lookup(3), Some(1));
    assert!(registry.remove(2).is_none());
    assert_eq!(ids(&registry), vec![1, 3]);
    // the id is free again
    assert_eq!(registry.load(provider(2, 1, 1), MODULE.to_vec(), 1), LoadOutcome::Enabled);
    assert_eq!(ids(&registry), vec![1, 3, 2]);
}

#[test]
fn two_compatible_and_one_incompatible_provider() {
    let mut registry = Registry::new(InterfaceVersion { major: 1, minor: 0 });
    registry.load(provider(1, 1, 0), MODULE.to_vec(), 1);
    registry.load(provider(2, 1, 0), MODULE.to_vec(), 1);
    registry.load(provider(3, 2, 0), MODULE.to_vec(), 1);
    assert_eq!(ids(&registry), vec![1, 2]);
    assert_eq!(registry.lookup(3), None);
    assert_eq!(registry.list_all().len(), 3);
}

#[test]
fn populate_skips_corrupt_entries_and_goes_on() {
    let entries = vec![
        StoreEntry { metadata: provider(1, 1, 0), binary: MODULE.to_vec() },
        StoreEntry { metadata: provider(2, 1, 0), binary: vec![0, 1, 2] },
        StoreEntry { metadata: provider(3, 2, 0), binary: MODULE.to_vec() },
        StoreEntry { metadata: provider(1, 1, 2), binary: MODULE.to_vec() },
        StoreEntry { metadata: provider(2, 1, 1), binary: MODULE.to_vec() },
        StoreEntry { metadata: provider(4, 1, 0), binary: b"not wasm".to_vec() },
    ];
    let (registry, outcomes) = Registry::populate(host(), entries, 2);
    assert_eq!(
        outcomes,
        vec![
            Ok(LoadOutcome::Enabled),
            Err(StoreError::Truncated),
            Ok(LoadOutcome::Disabled(Incompatibility::MajorMismatch { declared: 2, host: 1 })),
            Ok(LoadOutcome::DuplicateId),
            Ok(LoadOutcome::Enabled),
            Err(StoreError::BadMagic),
        ]
    );
    assert_eq!(registry.list(), vec![provider(1, 1, 0), provider(2, 1, 1)]);
    assert_eq!(registry.providers.len(), 3);
    assert_eq!(registry.providers[1].metadata, provider(3, 2, 0));
    assert_eq!(registry.host, host());
}

#[test]
fn populate_without_capacity_keeps_nothing() {
    let entries = vec![
        StoreEntry { metadata: provider(1, 1, 0), binary: MODULE.to_vec() },
        StoreEntry { metadata: provider(1, 1, 0), binary: MODULE.to_vec() },
    ];
    let (registry, outcomes) = Registry::populate(host(), entries, 0);
    assert_eq!(outcomes, vec![Ok(LoadOutcome::NoCapacity), Ok(LoadOutcome::NoCapacity)]);
    assert!(registry.providers.is_empty());
}

#[test]
fn refresh_replaces_the_contents() {
    let mut registry = Registry::new(host());
    registry.load(provider(1, 1, 0), MODULE.to_vec(), 1);
    registry.load(provider(2, 1, 0), MODULE.to_vec(), 1);
    let outcomes = registry.refresh(
        vec![StoreEntry { metadata: provider(7, 1, 1), binary: MODULE.to_vec() }],
        3,
    );
    assert_eq!(outcomes, vec![Ok(LoadOutcome::Enabled)]);
    assert_eq!(ids(&registry), vec![7]);
    assert_eq!(registry.host, host());
    assert_eq!(registry.providers[0].pool.capacity(), 3);
}

#[test]
fn well_formed_registries_are_recognized() {
    let mut registry = Registry::new(host());
    assert!(registry.check());
    registry.load(provider(1, 1, 0), MODULE.to_vec(), 1);
    registry.load(provider(2, 2, 0), MODULE.to_vec(), 1);
    registry.load(provider(3, 1, 9), MODULE.to_vec(), 1);
    assert!(registry.check());
    // a status that the compatibility rule does not give
    registry.providers[1].status = Status::Enabled;
    assert!(!registry.check());
    registry.providers[1].status =
        Status::Disabled(Incompatibility::MajorMismatch { declared: 2, host: 1 });
    assert!(registry.check());
    // two providers with one id
    registry.providers[2].metadata.id = 1;
    assert!(!registry.check());
    registry.providers[2].metadata.id = 3;
    // a broken pool
    registry.providers[0].pool.waiting.push(4);
    assert!(!registry.check());
}
