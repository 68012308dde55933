use fvr::arguments::model::{ColorChoice, SizeVisibility, TimeVisibility};
use fvr::files::entry::Entry;
use fvr::files::metadata::{Metadata, Timestamp};
use fvr::section::color::{code, paint, use_color, wants_color, Tint};
use fvr::section::mode::{file_type, permissions, ModeSection};
use fvr::section::name::{Kind, NameSection, SymlinkSection};
use fvr::section::size::units::{base_10_unit, base_2_unit, Unit};
use fvr::section::size::{digits, max_simple_len, size_color, SizeSection};
use fvr::section::time::{TimeSection, TimeSectionType};
use fvr::section::tree::TreeSection;
use fvr::section::user::{max_len, GroupSection, UserSection};

fn data(mode: u32) -> Metadata {
    Metadata { mode, size: 0, uid: 0, gid: 0, created: None, accessed: None, modified: None }
}

#[test]
fn color_codes_are_the_escape_sequences_of_the_terminal() {
    assert_eq!(code(Tint::Default), b"\x1b[39m");
    assert_eq!(code(Tint::Blue), b"\x1b[34m");
    assert_eq!(code(Tint::Cyan), b"\x1b[36m");
    assert_eq!(code(Tint::Green), b"\x1b[32m");
    assert_eq!(code(Tint::White), b"\x1b[37m");
    assert_eq!(code(Tint::BrightBlack), b"\x1b[90m");
    assert_eq!(code(Tint::BrightRed), b"\x1b[91m");
    assert_eq!(code(Tint::BrightGreen), b"\x1b[92m");
    assert_eq!(code(Tint::BrightYellow), b"\x1b[93m");
    assert_eq!(code(Tint::BrightBlue), b"\x1b[94m");
    assert_eq!(code(Tint::BrightMagenta), b"\x1b[95m");
    assert_eq!(code(Tint::BrightCyan), b"\x1b[96m");
    assert_eq!(code(Tint::BrightWhite), b"\x1b[97m");
}

#[test]
fn paint_wraps_the_bytes_in_the_color_and_resets_it() {
    let mut out = b"x".to_vec();
    paint(&mut out, Tint::BrightRed, b"hot");
    assert_eq!(out, b"x\x1b[91mhot\x1b[39m");
}

#[test]
fn color_is_used_when_chosen_or_supported() {
    assert!(use_color(ColorChoice::Always, false));
    assert!(!use_color(ColorChoice::Never, true));
    assert!(use_color(ColorChoice::Auto, true));
    assert!(!use_color(ColorChoice::Auto, false));
    assert!(wants_color(ColorChoice::Always));
    assert!(!wants_color(ColorChoice::Never));
}

#[test]
fn mode_tests_isolate_their_bits() {
    assert!(file_type::test::<{ file_type::DIRECTORY }>(0o040_755));
    assert!(!file_type::test::<{ file_type::FILE }>(0o040_755));
    assert!(file_type::test::<{ file_type::SOCKET }>(0o140_000));
    assert_eq!(*file_type::test_map::<str, { file_type::FILE }>(0o100_644, "yes", "no"), *"yes");
    assert_eq!(*file_type::test_map::<str, { file_type::FILE }>(0o040_644, "yes", "no"), *"no");
    assert!(permissions::test::<{ permissions::MASK_OWNER }, { permissions::READ }>(0o400));
    assert!(!permissions::test::<{ permissions::MASK_OWNER }, { permissions::READ }>(0o044));
    assert!(permissions::test::<{ permissions::MASK }, { permissions::EXECUTE }>(0o001));
    assert_eq!(*permissions::test_map::<u8, { permissions::MASK_OTHER }, { permissions::WRITE }>(0o002, &1, &0), 1);
    assert_eq!(*permissions::test_map::<u8, { permissions::MASK_OTHER }, { permissions::WRITE }>(0o020, &1, &0), 0);
}

#[test]
fn mode_type_bytes() {
    assert_eq!(ModeSection::get_type(0o100_644), b'-');
    assert_eq!(ModeSection::get_type(0o040_755), b'd');
    assert_eq!(ModeSection::get_type(0o120_777), b'l');
    assert_eq!(ModeSection::get_type(0o010_000), b'p');
    assert_eq!(ModeSection::get_type(0o140_000), b's');
    assert_eq!(ModeSection::get_type(0o060_000), b'b');
    assert_eq!(ModeSection::get_type(0o020_000), b'c');
    assert_eq!(ModeSection::get_type(0), b'?');
}

#[test]
fn mode_permission_bytes() {
    assert_eq!(&ModeSection::get_permissions(0o100_644), b"---rw-r--r--");
    assert_eq!(&ModeSection::get_permissions(0o040_755), b"---rwxr-xr-x");
    assert_eq!(&ModeSection::get_permissions(0o107_777), b"ugurwxrwxrwx");
    assert_eq!(&ModeSection::get_permissions(0o104_000), b"u-----------");
    assert_eq!(&ModeSection::get_permissions(0o102_000), b"-g----------");
    assert_eq!(&ModeSection::get_permissions(0o101_000), b"--u---------");
    assert_eq!(&ModeSection::get_permissions(0), b"------------");
}

#[test]
fn mode_section_writes_type_and_permissions_in_brackets() {
    let mut out = Vec::new();
    ModeSection::new(false).write_plain(&mut out, 0o040_755);
    assert_eq!(out, b"[drwxr-xr-x]");
    let mut out = Vec::new();
    ModeSection::new(true).write_plain(&mut out, 0o104_640);
    assert_eq!(out, b"[-u--rw-r-----]");
    let file = data(0o100_600);
    assert_eq!(ModeSection::mode_of(&Entry::root(b"a", Some(&file))), 0o100_600);
    assert_eq!(ModeSection::mode_of(&Entry::root(b"a", None)), 0);
}

#[test]
fn mode_section_colors_each_byte() {
    let mut out = Vec::new();
    ModeSection::new(false).write_color(&mut out, 0o040_750);
    let expected = [
        "\x1b[90m[\x1b[39m",
        "\x1b[94md\x1b[39m",
        "\x1b[93mr\x1b[39m",
        "\x1b[91mw\x1b[39m",
        "\x1b[92mx\x1b[39m",
        "\x1b[93mr\x1b[39m",
        "\x1b[90m-\x1b[39m",
        "\x1b[92mx\x1b[39m",
        "\x1b[90m-\x1b[39m",
        "\x1b[90m-\x1b[39m",
        "\x1b[90m-\x1b[39m",
        "\x1b[90m]\x1b[39m",
    ]
    .concat();
    assert_eq!(String::from_utf8(out).unwrap(), expected);
}

#[test]
fn tree_branch_of_the_first_root() {
    let root = Entry::root(b"/r", None);
    let mut out = Vec::new();
    TreeSection.write_plain(&mut out, &[], &root);
    assert_eq!(String::from_utf8(out).unwrap(), "\u{250c}\u{2500}");
}

#[test]
fn tree_branch_draws_a_column_for_each_ancestor_below_the_root() {
    let root = Entry::root(b"/r", None);
    let dir = data(0o040_755);
    let mut open = Entry::new(b"/r/a", Some(&dir), 0, 2);
    open.has_children(&mut |_: &[u8]| true);
    let mut closed = Entry::new(b"/r/a/b", Some(&dir), 1, 2);
    closed.has_children(&mut |_: &[u8]| true);
    let mut parent = Entry::new(b"/r/a/b/c", Some(&dir), 0, 2);
    parent.has_children(&mut |_: &[u8]| true);
    let mut leaf = Entry::new(b"/r/a/b/c/d", Some(&dir), 1, 2);
    leaf.has_children(&mut |_: &[u8]| false);
    let show = |parents: &[Entry<'_>], entry: &Entry<'_>| {
        let mut out = Vec::new();
        TreeSection.write_plain(&mut out, parents, entry);
        String::from_utf8(out).unwrap()
    };
    assert_eq!(show(&[root], &open), "\u{251c}\u{2500}\u{252c}\u{2500}");
    assert_eq!(show(&[root, open], &closed), "\u{2502} \u{2514}\u{2500}\u{252c}\u{2500}");
    assert_eq!(show(&[root, open, closed], &parent), "\u{2502}   \u{251c}\u{2500}\u{252c}\u{2500}");
    assert_eq!(show(&[root, open, closed, parent], &leaf), "\u{2502}   \u{2502} \u{2514}\u{2500}\u{2500}\u{2500}");
    let second_root = Entry::new(b"/s", None, 1, 2);
    assert_eq!(show(&[], &second_root), "\u{2514}\u{2500}\u{2500}\u{2500}");
    let mut out = Vec::new();
    TreeSection.write_color(&mut out, &[root], &open);
    assert_eq!(String::from_utf8(out).unwrap(), "\x1b[90m\u{251c}\u{2500}\u{252c}\u{2500}\x1b[39m");
}

#[test]
fn digits_are_the_decimal_digits() {
    assert_eq!(digits(0), b"0");
    assert_eq!(digits(7), b"7");
    assert_eq!(digits(128), b"128");
    assert_eq!(digits(1_000_000), b"1000000");
    assert_eq!(digits(u64::MAX), b"18446744073709551615");
}

#[test]
fn simple_sizes_are_padded_to_the_column() {
    assert_eq!(SizeSection::simple_bytes(42, 5), b"42   ");
    assert_eq!(SizeSection::simple_bytes(42, 2), b"42");
    assert_eq!(SizeSection::simple_bytes(12345, 3), b"12345");
    assert_eq!(max_simple_len(&[1, 1000, 99]), 4);
    assert_eq!(max_simple_len(&[0]), 1);
    assert_eq!(max_simple_len(&[]), 20);
}

#[test]
fn scaled_sizes_are_laid_out_to_the_width_of_the_format() {
    let base2 = SizeSection::new(SizeVisibility::Base2);
    let base10 = SizeSection::new(SizeVisibility::Base10);
    assert_eq!(base2.scaled_bytes(b"1", b'5', b"KiB"), b"   1.5 KiB");
    assert_eq!(base2.scaled_bytes(b"1023", b'9', b"MiB"), b"1023.9 MiB");
    assert_eq!(base2.scaled_bytes(b"12", b'0', b"B  "), b"  12.0 B  ");
    assert_eq!(base10.scaled_bytes(b"1", b'5', b"KB"), b"  1.5 KB");
    assert_eq!(base10.scaled_bytes(b"999", b'9', b"GB"), b"999.9 GB");
    assert_eq!(base10.scaled_bytes(b"99999", b'9', b"GB"), b"99999.9 GB");
}

#[test]
fn directories_show_a_blank_size() {
    assert_eq!(SizeSection::new(SizeVisibility::Simple).blank_bytes(4), b"-   ");
    assert_eq!(SizeSection::new(SizeVisibility::Simple).blank_bytes(0), b"-");
    assert_eq!(SizeSection::new(SizeVisibility::Base2).blank_bytes(0), b"   -.- -  ");
    assert_eq!(SizeSection::new(SizeVisibility::Base10).blank_bytes(0), b"  -.- - ");
}

#[test]
fn sizes_are_colored_by_their_thresholds() {
    assert_eq!(size_color(0), Tint::BrightGreen);
    assert_eq!(size_color(50 * 1024 - 1), Tint::BrightGreen);
    assert_eq!(size_color(50 * 1024), Tint::BrightYellow);
    assert_eq!(size_color(50 * 1024 * 1024 - 1), Tint::BrightYellow);
    assert_eq!(size_color(50 * 1024 * 1024), Tint::BrightRed);
    let section = SizeSection::new(SizeVisibility::Simple);
    let mut out = Vec::new();
    section.write_color(&mut out, b"12 ", Some(12));
    section.write_color(&mut out, b"-  ", None);
    section.write_plain(&mut out, b"12 ");
    assert_eq!(out, b"\x1b[92m12 \x1b[39m\x1b[90m-  \x1b[39m12 ");
}

#[test]
fn units_are_the_largest_that_the_size_reaches() {
    let unit = |unit: Unit<3>| (unit.suffix.to_vec(), unit.divisor);
    assert_eq!(unit(base_2_unit(0)), (b"B  ".to_vec(), 1));
    assert_eq!(unit(base_2_unit(1023)), (b"B  ".to_vec(), 1));
    assert_eq!(unit(base_2_unit(1024)), (b"KiB".to_vec(), 1 << 10));
    assert_eq!(unit(base_2_unit((1 << 20) - 1)), (b"KiB".to_vec(), 1 << 10));
    assert_eq!(unit(base_2_unit(1 << 20)), (b"MiB".to_vec(), 1 << 20));
    assert_eq!(unit(base_2_unit(1 << 30)), (b"GiB".to_vec(), 1 << 30));
    assert_eq!(unit(base_2_unit(1 << 40)), (b"TiB".to_vec(), 1 << 40));
    assert_eq!(unit(base_2_unit(1 << 50)), (b"PiB".to_vec(), 1 << 50));
    assert_eq!(unit(base_2_unit(1 << 60)), (b"EiB".to_vec(), 1 << 60));
    assert_eq!(unit(base_2_unit(u64::MAX)), (b"EiB".to_vec(), 1 << 60));
    let unit = |unit: Unit<2>| (unit.suffix.to_vec(), unit.divisor);
    assert_eq!(unit(base_10_unit(999)), (b"B ".to_vec(), 1));
    assert_eq!(unit(base_10_unit(1000)), (b"KB".to_vec(), 1000));
    assert_eq!(unit(base_10_unit(999_999)), (b"KB".to_vec(), 1000));
    assert_eq!(unit(base_10_unit(1_000_000)), (b"MB".to_vec(), 1_000_000));
    assert_eq!(unit(base_10_unit(1_000_000_000)), (b"GB".to_vec(), 1_000_000_000));
    assert_eq!(unit(base_10_unit(u64::MAX)), (b"EB".to_vec(), 1_000_000_000_000_000_000));
    assert_eq!(Unit::new([1u8, 2], 3).divisor, 3);
}

#[test]
fn names_are_trimmed_and_marked() {
    let dir = data(0o040_755);
    let script = data(0o100_755);
    let text = data(0o100_644);
    let show = |section: NameSection, entry: &Entry<'_>, kind: Kind| {
        let mut out = Vec::new();
        let follows = section.write_plain(&mut out, entry, kind);
        (String::from_utf8(out).unwrap(), follows)
    };
    let is_dir = Kind { directory: true, file: false, symlink: false };
    let is_file = Kind { directory: false, file: true, symlink: false };
    let is_link = Kind { directory: false, file: false, symlink: true };
    let trimmed = NameSection::new(true, true);
    let full = NameSection::new(false, false);
    assert_eq!(show(trimmed, &Entry::root(b"/r/sub", Some(&dir)), is_dir), ("sub/".to_string(), false));
    assert_eq!(show(full, &Entry::root(b"/r/sub", Some(&dir)), is_dir), ("/r/sub/".to_string(), false));
    assert_eq!(show(trimmed, &Entry::root(b"/r/run.sh", Some(&script)), is_file), ("run.sh*".to_string(), false));
    assert_eq!(show(trimmed, &Entry::root(b"/r/a.txt", Some(&text)), is_file), ("a.txt".to_string(), false));
    assert_eq!(show(trimmed, &Entry::root(b"/r/link", Some(&script)), is_link), ("link".to_string(), true));
    assert_eq!(show(full, &Entry::root(b"/r/link", Some(&script)), is_link), ("/r/link".to_string(), false));
    assert_eq!(show(trimmed, &Entry::root(b"/", Some(&dir)), is_dir), ("//".to_string(), false));
    assert_eq!(show(trimmed, &Entry::root(b"..", Some(&dir)), is_dir), ("../".to_string(), false));
}

#[test]
fn names_are_colored_by_what_the_entry_is() {
    let dir = data(0o040_755);
    let script = data(0o100_755);
    let text = data(0o100_644);
    let show = |entry: &Entry<'_>, kind: Kind| {
        let mut out = Vec::new();
        NameSection::new(true, false).write_color(&mut out, entry, kind);
        String::from_utf8(out).unwrap()
    };
    let is_dir = Kind { directory: true, file: false, symlink: false };
    let is_file = Kind { directory: false, file: true, symlink: false };
    let is_link = Kind { directory: false, file: false, symlink: true };
    assert_eq!(show(&Entry::root(b"/r/sub", Some(&dir)), is_dir), "\x1b[94msub\x1b[39m\x1b[37m/\x1b[39m");
    assert_eq!(show(&Entry::root(b"/r/.sub", Some(&dir)), is_dir), "\x1b[34m.sub\x1b[39m\x1b[37m/\x1b[39m");
    assert_eq!(show(&Entry::root(b"/r/run", Some(&script)), is_file), "\x1b[92mrun\x1b[39m\x1b[37m*\x1b[39m");
    assert_eq!(show(&Entry::root(b"/r/.run", Some(&script)), is_file), "\x1b[32m.run\x1b[39m\x1b[37m*\x1b[39m");
    assert_eq!(show(&Entry::root(b"/r/link", Some(&script)), is_link), "\x1b[96mlink\x1b[39m");
    assert_eq!(show(&Entry::root(b"/r/.link", Some(&script)), is_link), "\x1b[36m.link\x1b[39m");
    assert_eq!(show(&Entry::root(b"/r/a.txt", Some(&text)), is_file), "a.txt");
    assert_eq!(show(&Entry::root(b"/r/.a.txt", Some(&text)), is_file), "\x1b[90m.a.txt\x1b[39m");
}

#[test]
fn symlink_arrows_tell_whether_the_target_exists() {
    let mut out = Vec::new();
    SymlinkSection.write_plain(&mut out, true);
    SymlinkSection.write_plain(&mut out, false);
    assert_eq!(out, b" ->  ~> ");
    let mut out = Vec::new();
    SymlinkSection.write_color(&mut out, true);
    SymlinkSection.write_color(&mut out, false);
    assert_eq!(out, b"\x1b[90m -> \x1b[39m\x1b[91m ~> \x1b[39m");
    assert_eq!(SymlinkSection::target(b"/a/b", b"/a/c/d".to_vec()), b"../c/d");
    assert_eq!(SymlinkSection::target(b"/a/b", b"c/d".to_vec()), b"c/d");
}

#[test]
fn owners_are_padded_to_the_column() {
    let mut out = Vec::new();
    UserSection.write_plain(&mut out, Some(b"root"), 6);
    UserSection.write_plain(&mut out, None, 6);
    UserSection.write_plain(&mut out, Some(b"longer-name"), 6);
    GroupSection.write_plain(&mut out, Some(b"wheel"), 5);
    assert_eq!(out, b"root  -     longer-namewheel");
    let mut out = Vec::new();
    UserSection.write_color(&mut out, Some(b"root"), 5);
    GroupSection.write_color(&mut out, Some(b"wheel"), 6);
    UserSection.write_color(&mut out, None, 3);
    GroupSection.write_color(&mut out, None, 0);
    assert_eq!(out, b"\x1b[92mroot \x1b[39m\x1b[93mwheel \x1b[39m-  -");
    assert_eq!(max_len(&[4, 9, 2]), 9);
    assert_eq!(max_len(&[]), 32);
}

#[test]
fn owners_are_written_as_they_are_found() {
    for uid in [0, 1, 4_000_000_000] {
        let mut out = Vec::new();
        let name = UserSection.write_owner(&mut out, uid, 8);
        assert_eq!(name, UserSection::name(uid));
        let mut expected = Vec::new();
        UserSection.write_plain(&mut expected, name.as_deref(), 8);
        assert_eq!(out, expected);
        let mut out = Vec::new();
        let name = GroupSection.write_owner(&mut out, uid, 8);
        let mut expected = Vec::new();
        GroupSection.write_plain(&mut expected, name.as_deref(), 8);
        assert_eq!(out, expected);
    }
}

#[test]
fn time_sections_pick_their_timestamp() {
    let stamp = |seconds: i64| Some(Timestamp { seconds, nanoseconds: 0 });
    let times = Metadata { created: stamp(1), accessed: stamp(2), modified: stamp(3), ..data(0) };
    assert_eq!(TimeSection::created(TimeVisibility::Simple).timestamp(Some(&times)), stamp(1));
    assert_eq!(TimeSection::accessed(TimeVisibility::Simple).timestamp(Some(&times)), stamp(2));
    assert_eq!(TimeSection::modified(TimeVisibility::Simple).timestamp(Some(&times)), stamp(3));
    assert_eq!(TimeSection::modified(TimeVisibility::Simple).timestamp(None), None);
    assert_eq!(TimeSection::new(TimeVisibility::Iso8601, TimeSectionType::Created).kind, TimeSectionType::Created);
    let mut out = Vec::new();
    TimeSection::created(TimeVisibility::Simple).write_blank(&mut out);
    assert_eq!(out, b"-               ");
    let mut out = Vec::new();
    TimeSection::created(TimeVisibility::Iso8601).write_blank(&mut out);
    assert_eq!(out.len(), 35);
    assert_eq!(out[0], b'-');
}
