use showfile::path_to_file_uri;
use showfile::show::file_manager_destination;
use showfile::show::file_manager_interface;
use showfile::show::file_manager_object_path;
use showfile::show::show_items_method;
use showfile::show_items_request_for_path;
use showfile::show_items_request_for_uri;
use showfile::to_shell_display_name;
use showfile::truncate_at_nul;

#[test]
fn encodes_home_path() {
    assert_eq!(
        path_to_file_uri(b"/home/alice/my file.txt").unwrap(),
        "file:///home/alice/my%20file.txt"
    );
}

#[test]
fn encodes_root() {
    assert_eq!(path_to_file_uri(b"/").unwrap(), "file:///");
}

#[test]
fn rejects_relative_paths() {
    assert!(path_to_file_uri(b"some/relative").is_none());
    assert!(path_to_file_uri(b"").is_none());
    assert!(path_to_file_uri(b"./x").is_none());
}

#[test]
fn collapses_repeated_separators() {
    assert_eq!(path_to_file_uri(b"/a//b/").unwrap(), "file:///a/b");
    assert_eq!(path_to_file_uri(b"///").unwrap(), "file:///");
}

#[test]
fn keeps_dot_segments() {
    assert_eq!(path_to_file_uri(b"/a/./b/../c").unwrap(), "file:///a/./b/../c");
}

#[test]
fn escapes_bytes_outside_the_unreserved_set() {
    assert_eq!(
        path_to_file_uri(b"/tmp/a+b&c \xff").unwrap(),
        "file:///tmp/a%2Bb%26c%20%FF"
    );
    assert_eq!(path_to_file_uri(b"/A-z_0.9~").unwrap(), "file:///A-z_0.9~");
}

#[test]
fn escapes_non_ascii_bytes() {
    assert_eq!(path_to_file_uri("/häuser".as_bytes()).unwrap(), "file:///h%C3%A4user");
}

#[test]
fn escapes_an_embedded_nul_in_a_path() {
    assert_eq!(path_to_file_uri(b"/a\0b").unwrap(), "file:///a%00b");
}

#[test]
fn rewrites_verbatim_unc_prefix() {
    assert_eq!(to_shell_display_name("\\\\?\\UNC\\srv\\share\\dir"), "\\\\srv\\share\\dir");
}

#[test]
fn rewrites_verbatim_disk_prefix() {
    assert_eq!(to_shell_display_name("\\\\?\\C:\\dir"), "C:\\dir");
}

#[test]
fn rewrites_other_verbatim_prefixes() {
    assert_eq!(to_shell_display_name("\\\\?\\pipe\\x"), "\\\\pipe\\x");
}

#[test]
fn rewrites_verbatim_disk_edge_forms() {
    assert_eq!(to_shell_display_name("\\\\?\\C:"), "C:");
    assert_eq!(to_shell_display_name("\\\\?\\c:\\d"), "c:\\d");
    assert_eq!(to_shell_display_name("\\\\?\\1:\\d"), "\\\\1:\\d");
    assert_eq!(to_shell_display_name("\\\\?\\UNC"), "\\\\UNC");
    assert_eq!(to_shell_display_name("\\\\?\\C:x"), "\\\\C:x");
}

#[test]
fn passes_traditional_paths_unchanged() {
    assert_eq!(
        to_shell_display_name("C:\\Users\\Alice\\hello.txt"),
        "C:\\Users\\Alice\\hello.txt"
    );
    assert_eq!(to_shell_display_name("\\\\srv\\share"), "\\\\srv\\share");
}

#[test]
fn truncates_a_uri_at_the_first_nul() {
    let req = show_items_request_for_uri("file:///a\0b");
    assert_eq!(req.uris, vec!["file:///a".to_string()]);
    assert_eq!(req.startup_id, "");
}

#[test]
fn keeps_a_nul_free_uri_whole() {
    let req = show_items_request_for_uri("file:///tmp/x");
    assert_eq!(req.uris, vec!["file:///tmp/x".to_string()]);
    assert_eq!(req.startup_id, "");
}

#[test]
fn builds_the_request_for_an_absolute_path() {
    let req = show_items_request_for_path(b"/tmp/test.txt").unwrap();
    assert_eq!(req.uris, vec!["file:///tmp/test.txt".to_string()]);
    assert_eq!(req.startup_id, "");
}

#[test]
fn builds_no_request_for_a_relative_path() {
    assert!(show_items_request_for_path(b"relative.txt").is_none());
}

#[test]
fn truncation_handles_unicode_and_edges() {
    assert_eq!(truncate_at_nul("héllo\0x"), "héllo");
    assert_eq!(truncate_at_nul(""), "");
    assert_eq!(truncate_at_nul("\0"), "");
    assert_eq!(truncate_at_nul("abc"), "abc");
}

#[test]
fn names_the_file_manager_service() {
    assert_eq!(file_manager_destination(), "org.freedesktop.FileManager1");
    assert_eq!(file_manager_object_path(), "/org/freedesktop/FileManager1");
    assert_eq!(file_manager_interface(), "org.freedesktop.FileManager1");
    assert_eq!(show_items_method(), "ShowItems");
}
