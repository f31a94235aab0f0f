//! The module binary store as the host sees it: entries read from storage,
//! and the check of the format header that tells a usable module from a
//! truncated or corrupt one.

use crate::metadata::ProviderMetadata;
use vstd::prelude::*;

verus! {

/// Why an entry of the store cannot be used.
#[derive(Clone, Copy, Debug, PartialEq, Eq, Structural)]
pub enum StoreError {
    /// The storage location could not be read at all.
    Unreachable,
    /// The binary is shorter than a module header.
    Truncated,
    /// The binary does not start with the module magic number.
    BadMagic,
    /// The binary announces a format version other than the supported one.
    UnsupportedFormat,
}

/// One entry of the store: the metadata declared for a provider and the raw
/// bytes of its module.
#[derive(Debug, PartialEq, Eq)]
pub struct StoreEntry {
    pub metadata: ProviderMetadata,
    pub binary: Vec<u8>,
}

/// Length of a module header: four bytes of magic, four of format version.
pub const HEADER_LEN: usize = 8;

/// The magic number that opens every module: a zero byte and `asm`.
pub open spec fn magic() -> Seq<u8> {
    seq![0x00u8, 0x61u8, 0x73u8, 0x6du8]
}

/// The one format version that the host loads, as it stands in the header.
pub open spec fn format_version() -> Seq<u8> {
    seq![0x01u8, 0x00u8, 0x00u8, 0x00u8]
}

/// Verdict on the header of a module binary. The checks are made in this
/// order: length, magic number, format version.
pub open spec fn header_verdict(bytes: Seq<u8>) -> Result<(), StoreError> {
    if bytes.len() < HEADER_LEN {
        Err(StoreError::Truncated)
    } else if bytes.subrange(0, 4) != magic() {
        Err(StoreError::BadMagic)
    } else if bytes.subrange(4, 8) != format_version() {
        Err(StoreError::UnsupportedFormat)
    } else {
        Ok(())
    }
}

/// Validates the format header of a module binary.
pub fn validate_header(bytes: &[u8]) -> (r: Result<(), StoreError>)
    ensures
        r == header_verdict(bytes@),
{
    if bytes.len() < HEADER_LEN {
        return Err(StoreError::Truncated);
    }
    let ghost head = bytes@.subrange(0, 4);
    let ghost tail = bytes@.subrange(4, 8);
    assert(head[0] == bytes@[0] && head[1] == bytes@[1] && head[2] == bytes@[2] && head[3]
        == bytes@[3]);
    assert(tail[0] == bytes@[4] && tail[1] == bytes@[5] && tail[2] == bytes@[6] && tail[3]
        == bytes@[7]);
    if !(bytes[0] == 0x00 && bytes[1] == 0x61 && bytes[2] == 0x73 && bytes[3] == 0x6d) {
        return Err(StoreError::BadMagic);
    }
    assert(head =~= magic());
    if !(bytes[4] == 0x01 && bytes[5] == 0x00 && bytes[6] == 0x00 && bytes[7] == 0x00) {
        return Err(StoreError::UnsupportedFormat);
    }
    assert(tail =~= format_version());
    Ok(())
}

/// Result of scanning the store: which entries can be loaded, and which were
/// skipped and why. Entries are named by their position in the scan.
#[derive(Debug, PartialEq, Eq)]
pub struct ScanReport {
    pub accepted: Vec<usize>,
    pub rejected: Vec<(usize, StoreError)>,
}

/// The positions in `found` rise strictly and stay below `limit`.
pub open spec fn rising(found: Seq<usize>, limit: int) -> bool {
    &&& forall|k: int| 0 <= k < found.len() ==> (#[trigger] found[k]) < limit
    &&& forall|k: int, l: int| 0 <= k < l < found.len() ==> found[k] < found[l]
}

/// `report` is the scan of the first `upto` entries: every entry with a valid
/// header is accepted, every other one is rejected with the verdict on its
/// header, each list in the order of the store.
pub open spec fn scanned(entries: Seq<StoreEntry>, upto: int, report: ScanReport) -> bool {
    let rejected_at = Seq::new(report.rejected@.len(), |k: int| report.rejected@[k].0);
    &&& rising(report.accepted@, upto)
    &&& rising(rejected_at, upto)
    &&& forall|i: int|
        0 <= i < upto ==> (header_verdict(#[trigger] entries[i].binary@) is Ok
            <==> report.accepted@.contains(i as usize))
    &&& forall|i: int|
        0 <= i < upto ==> (header_verdict(#[trigger] entries[i].binary@) is Err
            <==> rejected_at.contains(i as usize))
    &&& forall|k: int|
        0 <= k < report.rejected@.len() ==> header_verdict(
            entries[(#[trigger] report.rejected@[k]).0 as int].binary@,
        ) == Err::<(), StoreError>(report.rejected@[k].1)
}

/// Scans the entries read from the store. A corrupt entry is skipped and
/// reported; it does not stop the scan of the entries after it.
pub fn scan(entries: &Vec<StoreEntry>) -> (report: ScanReport)
    ensures
        scanned(entries@, entries@.len() as int, report),
        report.accepted@.len() + report.rejected@.len() == entries@.len(),
{
    let mut report = ScanReport { accepted: Vec::new(), rejected: Vec::new() };
    let mut i: usize = 0;
    while i < entries.len()
        invariant
            i <= entries@.len(),
            scanned(entries@, i as int, report),
            report.accepted@.len() + report.rejected@.len() == i,
        decreases entries@.len() - i,
    {
        let ghost before = report;
        let ghost before_at = Seq::new(before.rejected@.len(), |k: int| before.rejected@[k].0);
        match validate_header(entries[i].binary.as_slice()) {
            Ok(()) => {
                report.accepted.push(i);
                proof {
                    let now_at = Seq::new(report.rejected@.len(), |k: int| report.rejected@[k].0);
                    assert(now_at =~= before_at);
                    assert forall|j: int| 0 <= j < i + 1 implies (header_verdict(
                        #[trigger] entries@[j].binary@,
                    ) is Ok <==> report.accepted@.contains(j as usize)) by {
                        if j < i {
                            if before.accepted@.contains(j as usize) {
                                let k = before.accepted@.index_of(j as usize);
                                assert(report.accepted@[k] == j);
                            }
                            if report.accepted@.contains(j as usize) {
                                let k = report.accepted@.index_of(j as usize);
                                assert(k < before.accepted@.len());
                                assert(before.accepted@[k] == j);
                            }
                        } else {
                            assert(report.accepted@[before.accepted@.len() as int] == i);
                        }
                    }
                    assert forall|j: int| 0 <= j < i + 1 implies (header_verdict(
                        #[trigger] entries@[j].binary@,
                    ) is Err <==> now_at.contains(j as usize)) by {
                        if j == i && now_at.contains(j as usize) {
                            let k = now_at.index_of(j as usize);
                            assert(before_at[k] < i);
                        }
                    }
                }
            },
            Err(e) => {
                report.rejected.push((i, e));
                proof {
                    let now_at = Seq::new(report.rejected@.len(), |k: int| report.rejected@[k].0);
                    assert(now_at =~= before_at.push(i));
                    assert forall|j: int| 0 <= j < i + 1 implies (header_verdict(
                        #[trigger] entries@[j].binary@,
                    ) is Err <==> now_at.contains(j as usize)) by {
                        if j < i {
                            if before_at.contains(j as usize) {
                                let k = before_at.index_of(j as usize);
                                assert(now_at[k] == j);
                            }
                            if now_at.contains(j as usize) {
                                let k = now_at.index_of(j as usize);
                                assert(k < before_at.len());
                                assert(before_at[k] == j);
                            }
                        } else {
                            assert(now_at[before_at.len() as int] == i);
                        }
                    }
                    assert forall|j: int| 0 <= j < i + 1 implies (header_verdict(
                        #[trigger] entries@[j].binary@,
                    ) is Ok <==> report.accepted@.contains(j as usize)) by {
                        if j == i && report.accepted@.contains(j as usize) {
                            let k = report.accepted@.index_of(j as usize);
                            assert(report.accepted@[k] < i);
                        }
                    }
                    assert forall|k: int| 0 <= k < report.rejected@.len() implies header_verdict(
                        entries@[(#[trigger] report.rejected@[k]).0 as int].binary@,
                    ) == Err::<(), StoreError>(report.rejected@[k].1) by {
                        if k < before.rejected@.len() {
                            assert(report.rejected@[k] == before.rejected@[k]);
                        }
                    }
                }
            },
        }
        i += 1;
    }
    report
}

} // verus!
