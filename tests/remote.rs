use megadvc::megacmd::{MegaCmd, MegaError};
use megadvc::options::Options;
use megadvc::{LOCK_PATH, OPTIONS_PATH};

fn opts() -> Options {
    Options::new("Sync/repo".to_string(), "/home/u/repo".to_string())
}

#[test]
fn options_paths() {
    let o = opts();
    assert_eq!(o.remote_path(), "Sync/repo");
    assert_eq!(o.local_path(), "/home/u/repo");
    assert!(o.local.ignore.is_empty());
}

#[test]
fn push_destination_under_remote_root() {
    let d = MegaCmd::push("/home/u/repo/a/b.txt", &opts()).unwrap();
    assert_eq!(d, "Sync/repo/a/b.txt");
}

#[test]
fn push_of_root_itself() {
    let d = MegaCmd::push("/home/u/repo", &opts()).unwrap();
    assert_eq!(d, "Sync/repo/");
}

#[test]
fn push_with_trailing_separators() {
    let o = Options::new("Sync/".to_string(), "/home/u/repo/".to_string());
    assert_eq!(MegaCmd::push("/home/u/repo/x", &o).unwrap(), "Sync/x");
}

#[test]
fn push_outside_root_fails() {
    let r = MegaCmd::push("/home/u/repository/x", &opts());
    assert!(matches!(r, Err(MegaError::StripPrefix)));
    let r = MegaCmd::push("/etc/passwd", &opts());
    assert!(matches!(r, Err(MegaError::StripPrefix)));
}

#[test]
fn extend_maps_every_file() {
    let files = vec!["/home/u/repo/a".to_string(), "/home/u/repo/d/e".to_string()];
    let v = MegaCmd::extend(&files, &opts()).unwrap();
    assert_eq!(v, vec!["Sync/repo/a".to_string(), "Sync/repo/d/e".to_string()]);
}

#[test]
fn extend_fails_on_outside_file() {
    let files = vec!["/home/u/repo/a".to_string(), "/tmp/x".to_string()];
    assert!(matches!(MegaCmd::extend(&files, &opts()), Err(MegaError::StripPrefix)));
}

#[test]
fn lock_exists_in_listing() {
    let listing = vec!["data".to_string(), ".mega.lock".to_string()];
    assert!(MegaCmd::lock_exists(&listing));
    let listing = vec!["data".to_string(), ".mega.lock.bak".to_string()];
    assert!(!MegaCmd::lock_exists(&listing));
    assert!(!MegaCmd::lock_exists(&vec![]));
}

#[test]
fn file_names() {
    assert_eq!(LOCK_PATH, ".mega.lock");
    assert_eq!(OPTIONS_PATH, ".mega.toml");
}

#[test]
fn listing_lines() {
    let s = |v: &[&str]| v.iter().map(|x| x.to_string()).collect::<Vec<String>>();
    assert_eq!(MegaCmd::parse_listing("a\nb\r\nc"), s(&["a", "b", "c"]));
    assert_eq!(MegaCmd::parse_listing("a\n\nb\n"), s(&["a", "", "b"]));
    assert_eq!(MegaCmd::parse_listing("x\r"), s(&["x\r"]));
    assert_eq!(MegaCmd::parse_listing("p\rq\n"), s(&["p\rq"]));
    assert!(MegaCmd::parse_listing("").is_empty());
    for text in ["data\n.mega.lock\n", "one\r\n\r\ntwo", "\n\n", "z\r\r\n"] {
        let expected: Vec<String> = text.lines().map(|l| l.to_string()).collect();
        assert_eq!(MegaCmd::parse_listing(text), expected);
    }
}

#[test]
fn lock_found_in_tool_output() {
    assert!(MegaCmd::lock_exists(&MegaCmd::parse_listing("data\r\n.mega.lock\r\n")));
    assert!(!MegaCmd::lock_exists(&MegaCmd::parse_listing("data\n.mega.lockx\n")));
}
