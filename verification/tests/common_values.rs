use fvr::files::metadata::{Metadata, Timestamp};

#[test]
fn metadata_reads_type_and_execute_bits_from_the_mode() {
    let directory = Metadata { mode: 0o040_755, size: 0, uid: 0, gid: 0, created: None, accessed: None, modified: None };
    let file = Metadata { mode: 0o100_644, ..directory };
    let script = Metadata { mode: 0o100_755, ..directory };
    let link = Metadata { mode: 0o120_777, ..directory };
    assert!(directory.is_dir() && !directory.is_file() && !directory.is_symlink());
    assert!(file.is_file() && !file.is_dir() && !file.is_symlink());
    assert!(link.is_symlink() && !link.is_file() && !link.is_dir());
    assert!(!file.is_executable());
    assert!(script.is_executable());
    assert!(Metadata { mode: 0o100_001, ..directory }.is_executable());
    assert!(Metadata { mode: 0o100_010, ..directory }.is_executable());
}

#[test]
fn timestamps_order_by_seconds_then_nanoseconds() {
    let early = Timestamp { seconds: 10, nanoseconds: 999 };
    let late = Timestamp { seconds: 11, nanoseconds: 0 };
    let later = Timestamp { seconds: 11, nanoseconds: 1 };
    assert!(early.is_before(&late));
    assert!(late.is_before(&later));
    assert!(!later.is_before(&late));
    assert!(!late.is_before(&late));
    assert!(Timestamp { seconds: -1, nanoseconds: 5 }.is_before(&Timestamp { seconds: 0, nanoseconds: 0 }));
}
