use dotfiles_status::{
    count_tracked_files, directory_listing_command, lines_of, parse_listing,
    report_tracking_status, tracked_listing_command, ListingError, GIT_DIR_NAME,
};

fn names(list: &[&str]) -> Vec<String> {
    list.iter().map(|name| name.to_string()).collect()
}

#[test]
fn lines_are_split_on_line_feeds() {
    assert_eq!(lines_of("a.txt\nb/\n"), names(&["a.txt", "b/"]));
    assert_eq!(lines_of("a.txt\nb/"), names(&["a.txt", "b/"]));
    assert_eq!(lines_of("one"), names(&["one"]));
}

#[test]
fn empty_lines_are_skipped() {
    assert_eq!(lines_of(""), names(&[]));
    assert_eq!(lines_of("\n"), names(&[]));
    assert_eq!(lines_of("\n\n\n"), names(&[]));
    assert_eq!(lines_of("\na\n\n\nb\n\n"), names(&["a", "b"]));
}

#[test]
fn lines_keep_every_other_character() {
    assert_eq!(lines_of("a b\t c\r\n d "), names(&["a b\t c\r", " d "]));
    assert_eq!(lines_of("日本語/\nrésumé.txt\n"), names(&["日本語/", "résumé.txt"]));
}

#[test]
fn lines_agree_with_std_split() {
    let texts = ["", "\n", "a", "a\n", "\na", "a\n\nb", "x/y\nz\n\n\nw/\n", "\n\n", "é\n\nü"];
    for text in texts {
        let expected: Vec<String> =
            text.split('\n').filter(|s| !s.is_empty()).map(String::from).collect();
        assert_eq!(lines_of(text), expected);
    }
}

#[test]
fn listing_output_is_decoded_then_split() {
    assert_eq!(
        parse_listing(b"a.txt\nb/\n".to_vec()),
        Ok(names(&["a.txt", "b/"]))
    );
    assert_eq!(parse_listing(Vec::new()), Ok(names(&[])));
    assert_eq!(
        parse_listing("日本語/\nrésumé.txt\n".as_bytes().to_vec()),
        Ok(names(&["日本語/", "résumé.txt"]))
    );
}

#[test]
fn listing_output_that_is_not_text_is_refused() {
    assert_eq!(parse_listing(vec![0xff]), Err(ListingError::NotText));
    assert_eq!(parse_listing(vec![b'a', b'\n', 0xc3]), Err(ListingError::NotText));
    assert_eq!(parse_listing(vec![0xed, 0xa0, 0x80]), Err(ListingError::NotText));
    assert_eq!(parse_listing(vec![0xc0, 0xaf]), Err(ListingError::NotText));
}

#[test]
fn directory_listing_command_marks_directories() {
    assert_eq!(directory_listing_command(), names(&["ls", "-p"]));
}

#[test]
fn tracked_listing_command_names_repository_and_work_tree() {
    assert_eq!(
        tracked_listing_command("/home/u/dotfiles", "/home/u"),
        names(&[
            "git",
            "--git-dir=/home/u/dotfiles",
            "--work-tree=/home/u",
            "ls-tree",
            "--name-only",
            "-r",
            "HEAD",
        ])
    );
    assert_eq!(tracked_listing_command("", "")[1], "--git-dir=");
    assert_eq!(tracked_listing_command("", "")[2], "--work-tree=");
}

#[test]
fn repository_directory_name() {
    assert_eq!(GIT_DIR_NAME, "dotfiles");
}

#[test]
fn from_tool_output_to_report() {
    let entries = parse_listing(b".bashrc\n.config/\nnotes.txt\nsrc/\n".to_vec()).unwrap();
    let listed =
        parse_listing(b".bashrc\n.config/nvim/init.lua\n.config/git/config\n".to_vec()).unwrap();
    let counts = count_tracked_files(&listed);
    assert_eq!(
        report_tracking_status(&entries, &counts),
        Ok(names(&[
            ".bashrc - CHECKED",
            ".config/ - 2",
            "notes.txt - LEFT",
            "src/ - None",
        ]))
    );
}
