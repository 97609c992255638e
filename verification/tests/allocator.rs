use file_downloader::paths::{get_file_info, get_name_extension};

#[test]
fn stem_and_extension_split() {
    assert_eq!(get_name_extension("video.mp4"), ("video", Some("mp4")));
    assert_eq!(get_name_extension("archive.tar.gz"), ("archive.tar", Some("gz")));
    assert_eq!(get_name_extension("README"), ("README", None));
    assert_eq!(get_name_extension(".bashrc"), (".bashrc", None));
    assert_eq!(get_name_extension("trailing."), ("trailing", Some("")));
    assert_eq!(get_name_extension(""), ("downloaded", None));
}

#[test]
fn fresh_name_is_kept() {
    let existing: Vec<String> = vec!["other.bin".to_owned()];
    let info = get_file_info("video.mp4", "alice", &existing);
    assert_eq!(info.name, "video.mp4");
    assert_eq!(info.path, "./downloads/alice/video.mp4");
}

#[test]
fn collision_yields_first_numbered_name() {
    let existing: Vec<String> = vec!["video.mp4".to_owned()];
    let info = get_file_info("video.mp4", "alice", &existing);
    assert_eq!(info.name, "video (1).mp4");
    assert_eq!(info.path, "./downloads/alice/video (1).mp4");
}

#[test]
fn second_collision_yields_second_numbered_name() {
    let existing: Vec<String> = vec!["video.mp4".to_owned(), "video (1).mp4".to_owned()];
    let info = get_file_info("video.mp4", "alice", &existing);
    assert_eq!(info.name, "video (2).mp4");
    assert_eq!(info.path, "./downloads/alice/video (2).mp4");
}

#[test]
fn gaps_are_filled_with_the_lowest_free_number() {
    let existing: Vec<String> = vec![
        "video.mp4".to_owned(),
        "video (1).mp4".to_owned(),
        "video (3).mp4".to_owned(),
    ];
    let info = get_file_info("video.mp4", "alice", &existing);
    assert_eq!(info.name, "video (2).mp4");
}

#[test]
fn collision_without_extension() {
    let existing: Vec<String> = vec!["README".to_owned()];
    let info = get_file_info("README", "bob", &existing);
    assert_eq!(info.name, "README (1)");
    assert_eq!(info.path, "./downloads/bob/README (1)");
}

#[test]
fn many_collisions_walk_upwards() {
    let mut existing: Vec<String> = vec!["a.txt".to_owned()];
    for i in 1..12 {
        existing.push(format!("a ({}).txt", i));
    }
    let info = get_file_info("a.txt", "carol", &existing);
    assert_eq!(info.name, "a (12).txt");
}
