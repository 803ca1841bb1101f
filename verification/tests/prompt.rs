use trash_shell::prompt::{pwd, replace_home_dir};

fn replaced(path: &str, home: Option<&str>) -> String {
    let mut s = path.to_owned();
    replace_home_dir(&mut s, home);
    s
}

#[test]
fn the_home_directory_becomes_a_tilde() {
    assert_eq!(replaced("/home/alice/projects", Some("/home/alice")), "~/projects");
    assert_eq!(replaced("/home/alice", Some("/home/alice")), "~");
    assert_eq!(replaced("/home/alicia/x", Some("/home/alic")), "~ia/x");
}

#[test]
fn a_home_that_is_no_prefix_changes_nothing() {
    assert_eq!(replaced("/srv/www", Some("/home/alice")), "/srv/www");
    assert_eq!(replaced("/home", Some("/home/alice")), "/home");
    assert_eq!(replaced("/home/bob/alice", Some("/home/alice")), "/home/bob/alice");
    assert_eq!(replaced("", Some("/home/alice")), "");
}

#[test]
fn an_unknown_home_changes_nothing() {
    assert_eq!(replaced("/srv", None), "/srv");
    assert_eq!(replaced("/srv", Some("")), "/srv");
    assert_eq!(replaced("", None), "");
    assert_eq!(pwd("/usr/local/share", None, '/'), "/u/l/share");
    assert_eq!(pwd("/usr/local/share", Some(""), '/'), "/u/l/share");
    assert_eq!(pwd("/usr/local/share", Some("/home/alice"), '/'), "/u/l/share");
}

#[test]
fn the_prompt_shortens_all_but_the_last_component() {
    assert_eq!(pwd("/home/alice/projects", Some("/home/alice"), '/'), "~/projects");
    assert_eq!(pwd("/home/alice/pictures/projects", Some("/home/alice"), '/'), "~/p/projects");
    assert_eq!(pwd("/home/alice/projects", Some("/root"), '/'), "/h/a/projects");
    assert_eq!(pwd("/usr/local/share/man", Some("/home/alice"), '/'), "/u/l/s/man");
    assert_eq!(pwd("/home/alice/Ünïcode/ディレクトリ/x", Some("/home/alice"), '/'), "~/Ü/デ/x");
}

#[test]
fn a_path_of_one_component_stays() {
    assert_eq!(pwd("/home/alice", Some("/home/alice"), '/'), "~");
    assert_eq!(pwd("foo", Some("/home/alice"), '/'), "foo");
    assert_eq!(pwd("foo", None, '/'), "foo");
    assert_eq!(pwd("", Some("/home/alice"), '/'), "");
    assert_eq!(pwd("", None, '/'), "");
}

#[test]
fn the_prompt_of_short_paths() {
    assert_eq!(pwd("/", Some("/home/alice"), '/'), "/");
    assert_eq!(pwd("/home", Some("/home/alice"), '/'), "/home");
    assert_eq!(pwd("/a//b/", Some("/home/alice"), '/'), "/a//b/");
    assert_eq!(pwd("/ab//cd/ef", Some("/home/alice"), '/'), "/a//c/ef");
    assert_eq!(pwd("ab/cd", None, '/'), "a/cd");
}

#[test]
fn the_prompt_keeps_the_drive_letter() {
    assert_eq!(pwd("C:\\Users\\alice\\src\\shell", Some("C:\\Users\\alice"), '\\'), "~\\s\\shell");
    assert_eq!(pwd("C:\\Windows\\System32", Some("C:\\Users\\alice"), '\\'), "C:\\W\\System32");
    assert_eq!(pwd("d:\\data\\logs", None, '\\'), "d:\\d\\logs");
    assert_eq!(pwd("C:", None, '\\'), "C:");
    assert_eq!(pwd("C:\\", None, '\\'), "C:\\");
}

#[test]
fn only_a_letter_and_a_colon_is_a_drive() {
    assert_eq!(pwd("1:\\x\\y", None, '\\'), "1\\x\\y");
    assert_eq!(pwd("é:\\x\\y", None, '\\'), "é\\x\\y");
    assert_eq!(pwd("C:x\\y\\z", None, '\\'), "C\\y\\z");
    assert_eq!(pwd(":C\\y\\z", None, '\\'), ":\\y\\z");
    assert_eq!(pwd("/a:/b:/c:", None, '/'), "/a:/b:/c:");
}
