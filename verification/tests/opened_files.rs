use media_composer::opened_files::{
    opened_entry, parse_files_opened, starts_with_dash, UrlReading,
};

fn args(list: &[&str]) -> Vec<String> {
    list.iter().map(|s| s.to_string()).collect()
}

#[test]
fn plain_paths_are_kept_as_they_are() {
    let mut files: Vec<String> = Vec::new();
    parse_files_opened(&mut files, &args(&["app", "scene.json", "/home/me/clip.png", "a b.txt"]));
    assert_eq!(files, vec!["scene.json", "/home/me/clip.png", "a b.txt"]);
}

#[test]
fn the_program_name_and_flags_are_skipped() {
    let mut files: Vec<String> = Vec::new();
    parse_files_opened(
        &mut files,
        &args(&["scene.json", "-f", "one.png", "--verbose", "-", "two.png", "-x=3"]),
    );
    assert_eq!(files, vec!["one.png", "two.png"]);
}

#[test]
fn no_arguments_open_nothing() {
    let mut files: Vec<String> = vec!["kept.png".to_string()];
    parse_files_opened(&mut files, &args(&[]));
    assert_eq!(files, vec!["kept.png"]);
    parse_files_opened(&mut files, &args(&["app"]));
    assert_eq!(files, vec!["kept.png"]);
    parse_files_opened(&mut files, &args(&["app", "-a", "--b"]));
    assert_eq!(files, vec!["kept.png"]);
}

#[test]
fn new_entries_follow_what_was_there() {
    let mut files: Vec<String> = vec!["first.png".to_string(), "second.png".to_string()];
    parse_files_opened(&mut files, &args(&["app", "third.png"]));
    assert_eq!(files, vec!["first.png", "second.png", "third.png"]);
}

#[test]
fn file_urls_become_local_paths() {
    let mut files: Vec<String> = Vec::new();
    parse_files_opened(
        &mut files,
        &args(&["app", "file:///tmp/a%20b.png", "file://localhost/etc/hosts", "file:///"]),
    );
    assert_eq!(files, vec!["/tmp/a b.png", "/etc/hosts", "/"]);
}

#[test]
fn urls_without_a_local_path_are_kept_as_they_are() {
    let mut files: Vec<String> = Vec::new();
    parse_files_opened(
        &mut files,
        &args(&[
            "app",
            "https://example.com/clip.png",
            "file://example.com/etc/hosts",
            "data:text/plain,hello",
            "mailto:me@example.com",
        ]),
    );
    assert_eq!(
        files,
        vec![
            "https://example.com/clip.png",
            "file://example.com/etc/hosts",
            "data:text/plain,hello",
            "mailto:me@example.com",
        ]
    );
}

#[test]
fn a_drive_letter_is_no_file_url() {
    let mut files: Vec<String> = Vec::new();
    parse_files_opened(&mut files, &args(&["app", "C:\\clips\\one.png"]));
    assert_eq!(files, vec!["C:\\clips\\one.png"]);
}

#[test]
fn an_empty_argument_is_an_entry() {
    let mut files: Vec<String> = Vec::new();
    parse_files_opened(&mut files, &args(&["app", "", "x"]));
    assert_eq!(files, vec!["", "x"]);
}

#[test]
fn paths_and_urls_keep_their_order() {
    let mut files: Vec<String> = Vec::new();
    parse_files_opened(
        &mut files,
        &args(&["app", "a.png", "-q", "file:///b.png", "c.png", "--", "file:///d/e.png"]),
    );
    assert_eq!(files, vec!["a.png", "/b.png", "c.png", "/d/e.png"]);
}

#[test]
fn a_flag_starts_with_a_dash() {
    assert!(starts_with_dash("-f"));
    assert!(starts_with_dash("--flag"));
    assert!(starts_with_dash("-"));
    assert!(!starts_with_dash(""));
    assert!(!starts_with_dash("f-"));
    assert!(!starts_with_dash(" -f"));
    assert!(!starts_with_dash("\u{2013}f"));
}

#[test]
fn the_entry_is_the_path_of_a_url_that_has_one() {
    let reading = UrlReading::Url { cannot_be_a_base: false, file_path: Some("/tmp/x".to_string()) };
    assert_eq!(opened_entry("file:///tmp/x".to_string(), reading), "/tmp/x");
}

#[test]
fn the_entry_is_the_argument_otherwise() {
    assert_eq!(opened_entry("x.png".to_string(), UrlReading::NotUrl), "x.png");
    let no_path = UrlReading::Url { cannot_be_a_base: false, file_path: None };
    assert_eq!(opened_entry("https://e.com/x".to_string(), no_path), "https://e.com/x");
    let opaque = UrlReading::Url { cannot_be_a_base: true, file_path: None };
    assert_eq!(opened_entry("data:x".to_string(), opaque), "data:x");
    let opaque_with_path =
        UrlReading::Url { cannot_be_a_base: true, file_path: Some("/never".to_string()) };
    assert_eq!(opened_entry("data:y".to_string(), opaque_with_path), "data:y");
}
