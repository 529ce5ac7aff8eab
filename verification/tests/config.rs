use regex::Regex;
use remote_mounts::config::{
    host_fields, name_start, parse_host_line, read_hosts, HostList, TooManyHosts,
};
use remote_mounts::host::Host;
use remote_mounts::status::Status;

fn entry(name: &str, remote: &str) -> Option<(String, String)> {
    Some((name.to_owned(), remote.to_owned()))
}

fn host_line_by_pattern(line: &str) -> Option<(String, String)> {
    let pattern = Regex::new("^([-A-Za-z0-9_][-A-Za-z0-9_.]*)=(.*)$").unwrap();
    pattern
        .captures(line)
        .map(|m| (m.get(1).unwrap().as_str().to_owned(), m.get(2).unwrap().as_str().to_owned()))
}

fn declared(name: &str, remote: &str, y: i32) -> Host {
    Host { local: name.to_owned(), remote: remote.to_owned(), y, status: Status::Unknown }
}

fn read(text: &str) -> HostList {
    read_hosts(text).unwrap()
}

#[test]
fn a_host_line_is_a_name_and_a_remote() {
    assert_eq!(parse_host_line("a=hostA:/data"), entry("a", "hostA:/data"));
    assert_eq!(parse_host_line("web-1_x.y=user@host:/srv/www"), entry("web-1_x.y", "user@host:/srv/www"));
    assert_eq!(parse_host_line("a="), entry("a", ""));
    assert_eq!(parse_host_line("a=b=c"), entry("a", "b=c"));
    assert_eq!(parse_host_line("a= b c "), entry("a", " b c "));
    assert_eq!(parse_host_line("9=x"), entry("9", "x"));
    assert_eq!(parse_host_line("-=x"), entry("-", "x"));
    assert_eq!(parse_host_line("_=ü"), entry("_", "ü"));
    assert_eq!(parse_host_line("a=x\r"), entry("a", "x\r"));
}

#[test]
fn a_host_line_needs_a_name_of_the_allowed_characters() {
    assert_eq!(parse_host_line(""), None);
    assert_eq!(parse_host_line("a"), None);
    assert_eq!(parse_host_line("=x"), None);
    assert_eq!(parse_host_line(".a=x"), None);
    assert_eq!(parse_host_line("a b=x"), None);
    assert_eq!(parse_host_line(" a=x"), None);
    assert_eq!(parse_host_line("a =x"), None);
    assert_eq!(parse_host_line("a/b=x"), None);
    assert_eq!(parse_host_line("ä=x"), None);
    assert_eq!(parse_host_line("a:b=x"), None);
}

#[test]
fn a_host_line_holds_no_newline() {
    assert_eq!(parse_host_line("a=x\n"), None);
    assert_eq!(parse_host_line("a=x\ny"), None);
    assert_eq!(parse_host_line("a\n=x"), None);
    assert_eq!(parse_host_line("\na=x"), None);
}

#[test]
fn name_start_tells_the_characters_apart() {
    for c in ['a', 'z', 'A', 'Z', '0', '9', '-', '_'] {
        assert!(name_start(c), "{:?}", c);
    }
    for c in ['.', '=', ' ', '/', '@', '[', '`', '{', ':', '\n', 'é', '٣'] {
        assert!(!name_start(c), "{:?}", c);
    }
}

#[test]
fn host_fields_reads_characters() {
    let line: Vec<char> = "n=r".chars().collect();
    assert_eq!(host_fields(&line), entry("n", "r"));
    let none: Vec<char> = "n r".chars().collect();
    assert_eq!(host_fields(&none), None);
}

#[test]
fn host_line_agrees_with_the_pattern() {
    let lines = [
        "a=hostA:/data",
        "b=hostB:/srv",
        "",
        "=",
        "a",
        "a=",
        "=a",
        "a=b=c",
        "a.b=c",
        ".a=c",
        "a..=c",
        "-a=c",
        "_=c",
        "A9z=c",
        "a b=c",
        " a=c",
        "a =c",
        "a= c",
        "a=c ",
        "ä=c",
        "a=ä",
        "a=c\n",
        "a=c\nd",
        "a=\n",
        "\na=c",
        "a\n=c",
        "a=c\r",
        "a=c\r\n",
        "a.=.",
        "a[=b",
        "a@=b",
        "a`=b",
        "a{=b",
        "a/=b",
        "a:=b",
        "Z=b",
        "z=b",
        "0=b",
    ];
    for line in lines {
        assert_eq!(parse_host_line(line), host_line_by_pattern(line), "line {:?}", line);
    }
}

#[test]
fn read_hosts_gives_the_entries_in_order() {
    let list = read("a=hostA:/data\nb=hostB:/srv\n");
    assert_eq!(list.hosts, vec![declared("a", "hostA:/data", 0), declared("b", "hostB:/srv", 1)]);
    assert_eq!(list.bad_lines, Vec::<String>::new());
}

#[test]
fn read_hosts_of_nothing_is_empty() {
    assert_eq!(read(""), HostList { hosts: vec![], bad_lines: vec![] });
    assert_eq!(read("\n\n\n"), HostList { hosts: vec![], bad_lines: vec![] });
    assert_eq!(read("# nothing here\n"), HostList { hosts: vec![], bad_lines: vec![] });
}

#[test]
fn read_hosts_passes_over_comments_and_empty_lines() {
    let text = "# the hosts\n\
                a=hostA:/data # the first\n\
                \n\
                #b=hostB:/srv\n\
                c=hostC:/x#y\n";
    let list = read(text);
    assert_eq!(list.hosts, vec![declared("a", "hostA:/data ", 0), declared("c", "hostC:/x", 1)]);
    assert_eq!(list.bad_lines, Vec::<String>::new());
}

#[test]
fn read_hosts_hands_back_malformed_lines() {
    let text = "a=hostA:/data\nthis is no entry\n=nameless\n # a space before the comment\nb=hostB:/srv";
    let list = read(text);
    assert_eq!(list.hosts, vec![declared("a", "hostA:/data", 0), declared("b", "hostB:/srv", 1)]);
    assert_eq!(list.bad_lines, vec!["this is no entry", "=nameless", " "]);
}

#[test]
fn read_hosts_numbers_the_rows_by_entries_and_not_by_lines() {
    let list = read("\n\nbad\nx=1\n\ny=2\nbad too\nz=3\n");
    let rows: Vec<i32> = list.hosts.iter().map(|h| h.y).collect();
    assert_eq!(rows, vec![0, 1, 2]);
    let names: Vec<&str> = list.hosts.iter().map(|h| h.local.as_str()).collect();
    assert_eq!(names, vec!["x", "y", "z"]);
    assert_eq!(list.bad_lines, vec!["bad", "bad too"]);
}

#[test]
fn read_hosts_leaves_every_target_undecided() {
    let list = read("x=1\ny=2\n");
    assert!(list.hosts.iter().all(|h| h.status == Status::Unknown));
}

#[test]
fn too_many_hosts_is_an_error_of_its_own() {
    let failed: Result<HostList, TooManyHosts> = Err(TooManyHosts);
    assert_eq!(failed.err(), Some(TooManyHosts));
    assert!(read_hosts("a=b\n").is_ok());
}

#[test]
fn host_line_agrees_with_the_pattern_on_every_short_line() {
    let pattern = Regex::new("^([-A-Za-z0-9_][-A-Za-z0-9_.]*)=(.*)$").unwrap();
    let alphabet = ['a', '.', '=', '\n', ' ', '-'];
    let mut lines = vec![String::new()];
    let mut checked = 0;
    for _ in 0..=6 {
        let mut longer = Vec::new();
        for line in &lines {
            let by_pattern = pattern.captures(line).map(|m| {
                (m.get(1).unwrap().as_str().to_owned(), m.get(2).unwrap().as_str().to_owned())
            });
            assert_eq!(parse_host_line(line), by_pattern, "line {:?}", line);
            checked += 1;
            for c in alphabet {
                let mut next = line.clone();
                next.push(c);
                longer.push(next);
            }
        }
        lines = longer;
    }
    assert_eq!(checked, 55987);
}
