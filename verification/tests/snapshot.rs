use regex::Regex;
use remote_mounts::snapshot::{
    mount_fields, parse_mount_line, parse_mounts, read_mounts, ListingError, MountSnapshot,
};

fn pair(source: &str, on: &str) -> Option<(String, String)> {
    Some((source.to_owned(), on.to_owned()))
}

fn mount_line_by_pattern(line: &str) -> Option<(String, String)> {
    let pattern = Regex::new("^([^ ]+) on ([^ ]+) ").unwrap();
    pattern
        .captures(line)
        .map(|m| (m.get(1).unwrap().as_str().to_owned(), m.get(2).unwrap().as_str().to_owned()))
}

fn found(snapshot: &MountSnapshot, path: &str) -> Option<String> {
    snapshot.get(path).cloned()
}

#[test]
fn a_mount_line_names_source_and_mount_point() {
    assert_eq!(
        parse_mount_line("hostB:/srv on /base/b type fuse.sshfs (rw,nosuid,nodev)"),
        pair("hostB:/srv", "/base/b")
    );
    assert_eq!(parse_mount_line("proc on /proc type proc (rw)"), pair("proc", "/proc"));
    assert_eq!(parse_mount_line("a on b "), pair("a", "b"));
    assert_eq!(parse_mount_line("a on b  "), pair("a", "b"));
    assert_eq!(parse_mount_line("a on on on "), pair("a", "on"));
}

#[test]
fn a_mount_line_needs_all_of_its_parts() {
    assert_eq!(parse_mount_line(""), None);
    assert_eq!(parse_mount_line("a"), None);
    assert_eq!(parse_mount_line("a on b"), None);
    assert_eq!(parse_mount_line("a on "), None);
    assert_eq!(parse_mount_line("a on  "), None);
    assert_eq!(parse_mount_line("a on  c"), None);
    assert_eq!(parse_mount_line(" on b c"), None);
    assert_eq!(parse_mount_line("a  on b c"), None);
    assert_eq!(parse_mount_line("a at b c"), None);
    assert_eq!(parse_mount_line("a On b c"), None);
    assert_eq!(parse_mount_line("a onb c"), None);
    assert_eq!(parse_mount_line("a on"), None);
    assert_eq!(parse_mount_line("a o"), None);
    assert_eq!(parse_mount_line("a "), None);
}

#[test]
fn a_mount_line_takes_any_character_but_a_space() {
    assert_eq!(parse_mount_line("hö:/ü on /mnt/日本 x"), pair("hö:/ü", "/mnt/日本"));
    assert_eq!(parse_mount_line("a\ton on b c"), pair("a\ton", "b"));
    assert_eq!(parse_mount_line("a\nb on c\nd e"), pair("a\nb", "c\nd"));
}

#[test]
fn mount_fields_reads_characters() {
    let line: Vec<char> = "x:/y on /z rest".chars().collect();
    assert_eq!(mount_fields(&line), pair("x:/y", "/z"));
    let none: Vec<char> = "x:/y on /z".chars().collect();
    assert_eq!(mount_fields(&none), None);
}

#[test]
fn mount_line_agrees_with_the_pattern() {
    let lines = [
        "hostB:/srv on /base/b type fuse.sshfs (rw,nosuid,nodev)",
        "sysfs on /sys type sysfs (rw,nosuid,nodev,noexec,relatime)",
        "/dev/sda1 on / type ext4 (rw,relatime)",
        "",
        " ",
        "a",
        "a ",
        "a on",
        "a on ",
        "a on b",
        "a on b ",
        "a on  b ",
        "a  on b ",
        " on b ",
        " a on b ",
        "a on b c on d e",
        "on on on on on",
        "a\ton b c",
        "a on\tb c",
        "a on b\tc",
        "ä on ö ü",
        "a on b\n",
        "a\non b c",
        "a on b \n",
        "a onn b ",
        "a o n b ",
    ];
    for line in lines {
        assert_eq!(parse_mount_line(line), mount_line_by_pattern(line), "line {:?}", line);
    }
}

#[test]
fn an_empty_snapshot_holds_nothing() {
    let snapshot = MountSnapshot::new();
    assert_eq!(found(&snapshot, "/base/a"), None);
    assert_eq!(found(&snapshot, ""), None);
}

#[test]
fn insert_records_a_mount() {
    let mut snapshot = MountSnapshot::new();
    snapshot.insert("/base/a".to_owned(), "hostA:/data".to_owned());
    assert_eq!(found(&snapshot, "/base/a"), Some("hostA:/data".to_owned()));
    assert_eq!(found(&snapshot, "/base/b"), None);
    assert_eq!(found(&snapshot, "/base/a/"), None);
    snapshot.insert("/base/a".to_owned(), "hostB:/srv".to_owned());
    assert_eq!(found(&snapshot, "/base/a"), Some("hostB:/srv".to_owned()));
}

#[test]
fn parse_mounts_reads_every_mount_line() {
    let listing = "sysfs on /sys type sysfs (rw)\n\
                   this line says nothing\n\
                   hostB:/srv on /base/b type fuse.sshfs (rw)\n\
                   \n\
                   hostA:/data on /base/a type fuse.sshfs (rw)\n";
    let snapshot = parse_mounts(listing);
    assert_eq!(found(&snapshot, "/sys"), Some("sysfs".to_owned()));
    assert_eq!(found(&snapshot, "/base/b"), Some("hostB:/srv".to_owned()));
    assert_eq!(found(&snapshot, "/base/a"), Some("hostA:/data".to_owned()));
    assert_eq!(found(&snapshot, "/base/c"), None);
    assert_eq!(found(&snapshot, "line"), None);
}

#[test]
fn parse_mounts_of_nothing_is_empty() {
    assert_eq!(found(&parse_mounts(""), "/"), None);
    assert_eq!(found(&parse_mounts("\n\n"), ""), None);
}

#[test]
fn of_two_mounts_on_one_path_the_later_counts() {
    let listing = "first:/x on /mnt type a (rw)\n\
                   other:/y on /elsewhere type a (rw)\n\
                   second:/x on /mnt type b (rw)\n";
    let snapshot = parse_mounts(listing);
    assert_eq!(found(&snapshot, "/mnt"), Some("second:/x".to_owned()));
    assert_eq!(found(&snapshot, "/elsewhere"), Some("other:/y".to_owned()));
}

#[test]
fn the_last_line_counts_without_a_newline() {
    let snapshot = parse_mounts("a on /m x\nb on /m y");
    assert_eq!(found(&snapshot, "/m"), Some("b".to_owned()));
}

#[test]
fn read_mounts_of_a_successful_listing() {
    let result = read_mounts(true, Some(0), "hostB:/srv on /base/b type fuse.sshfs (rw)\n");
    let snapshot = result.ok().unwrap();
    assert_eq!(found(&snapshot, "/base/b"), Some("hostB:/srv".to_owned()));
}

#[test]
fn read_mounts_of_a_failed_listing_gives_no_snapshot() {
    let listing = "hostB:/srv on /base/b type fuse.sshfs (rw)\n";
    assert_eq!(read_mounts(false, Some(32), listing).err(), Some(ListingError::ExitStatus(32)));
    assert_eq!(read_mounts(false, Some(0), listing).err(), Some(ListingError::ExitStatus(0)));
    assert_eq!(read_mounts(false, None, listing).err(), Some(ListingError::UnknownStatus));
    assert_eq!(read_mounts(false, Some(1), "").err(), Some(ListingError::ExitStatus(1)));
}

#[test]
fn a_listing_failure_is_reported_with_its_status() {
    assert_eq!(
        ListingError::ExitStatus(32).message(),
        "mount exited with status 32, we can't do our job."
    );
    assert_eq!(
        ListingError::ExitStatus(-1).message(),
        "mount exited with status -1, we can't do our job."
    );
    assert_eq!(
        ListingError::ExitStatus(i32::MIN).message(),
        "mount exited with status -2147483648, we can't do our job."
    );
    assert_eq!(
        ListingError::UnknownStatus.message(),
        "mount exited with an unknown unsuccessful status, we can't do our job."
    );
}

#[test]
fn mount_line_agrees_with_the_pattern_on_every_short_line() {
    let pattern = Regex::new("^([^ ]+) on ([^ ]+) ").unwrap();
    let alphabet = [' ', 'o', 'n', 'x'];
    let mut lines = vec![String::new()];
    let mut checked = 0;
    for _ in 0..=8 {
        let mut longer = Vec::new();
        for line in &lines {
            let by_pattern = pattern.captures(line).map(|m| {
                (m.get(1).unwrap().as_str().to_owned(), m.get(2).unwrap().as_str().to_owned())
            });
            assert_eq!(parse_mount_line(line), by_pattern, "line {:?}", line);
            checked += 1;
            for c in alphabet {
                let mut next = line.clone();
                next.push(c);
                longer.push(next);
            }
        }
        lines = longer;
    }
    assert_eq!(checked, 87381);
}
