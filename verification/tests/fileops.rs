use drift::fileops::compress::{
    archive_name, compress_directory, directory_needs_gzip, extension_text, gzip_choice,
    is_incompressible, should_compress,
    CompressError, SourceCheck,
};
use drift::fileops::reader::CHUNK_SIZE;
use drift::fileops::writer::part_path_for;

#[test]
fn should_compress_by_extension() {
    assert!(should_compress("notes.txt"));
    assert!(should_compress("dir/source.rs"));
    assert!(should_compress("Makefile"));
    assert!(should_compress(".gz"));
    assert!(should_compress(".hidden"));
    assert!(should_compress("trailing."));
    assert!(should_compress("a.gz.txt"));
    assert!(!should_compress("a.ZIP"));
    assert!(!should_compress("photo.JpEg"));
    assert!(!should_compress("x/archive.tar.gz"));
    assert!(!should_compress("movie.mkv"));
    assert!(!should_compress("pkg.whl"));
    assert!(!should_compress("dir/.x.rpm"));
    assert!(should_compress("dir.zip/inner"));
}

fn files(list: &[(&str, u64)]) -> Vec<(String, u64)> {
    list.iter().map(|(p, s)| (p.to_string(), *s)).collect()
}

#[test]
fn gzip_skipped_when_mostly_compressed() {
    assert!(directory_needs_gzip(&[]));
    assert!(directory_needs_gzip(&files(&[("a.txt", 0)])));
    assert!(directory_needs_gzip(&files(&[("a.txt", 100)])));
    // Exactly 80% incompressible still compresses.
    assert!(directory_needs_gzip(&files(&[("a.zip", 80), ("b.txt", 20)])));
    assert!(!directory_needs_gzip(&files(&[("a.zip", 81), ("b.txt", 19)])));
    assert!(!directory_needs_gzip(&files(&[("a.png", 1)])));
    assert!(directory_needs_gzip(&files(&[
        ("a.mp4", 4),
        ("b.mp3", 4),
        ("c.md", 2),
    ])));
    assert!(!directory_needs_gzip(&files(&[
        ("a.mp4", u64::MAX),
        ("b.mp3", u64::MAX),
        ("c.md", 1),
    ])));
}

#[test]
fn compression_hint_parsing() {
    assert_eq!(gzip_choice(&Some("none".to_string())), Some(false));
    assert_eq!(gzip_choice(&Some("gzip".to_string())), Some(true));
    assert_eq!(gzip_choice(&Some("GZIP".to_string())), None);
    assert_eq!(gzip_choice(&Some("".to_string())), None);
    assert_eq!(gzip_choice(&None), None);
}

#[test]
fn archive_names() {
    assert_eq!(archive_name("photos/2024", true), "photos_2024.tar.gz");
    assert_eq!(archive_name("photos/2024", false), "photos_2024.tar");
    assert_eq!(archive_name("a", true), "a.tar.gz");
    assert_eq!(archive_name("", false), ".tar");
}

#[test]
fn compress_directory_plans() {
    let media = files(&[("v.mp4", 90), ("n.txt", 10)]);
    let text = files(&[("n.txt", 10)]);

    let auto_media = compress_directory("m/dir", &SourceCheck::Directory, &None, &media).unwrap();
    assert!(!auto_media.use_gzip);
    assert_eq!(auto_media.file_name, "m_dir.tar");

    let auto_text = compress_directory("docs", &SourceCheck::Directory, &None, &text).unwrap();
    assert!(auto_text.use_gzip);
    assert_eq!(auto_text.file_name, "docs.tar.gz");

    let forced = compress_directory(
        "m/dir",
        &SourceCheck::Directory,
        &Some("gzip".to_string()),
        &media,
    )
    .unwrap();
    assert!(forced.use_gzip);
    assert_eq!(forced.file_name, "m_dir.tar.gz");

    let tar_only = compress_directory(
        "docs",
        &SourceCheck::Directory,
        &Some("none".to_string()),
        &text,
    )
    .unwrap();
    assert!(!tar_only.use_gzip);
    assert_eq!(tar_only.file_name, "docs.tar");

    match compress_directory("f", &SourceCheck::NotADirectory, &None, &[]) {
        Err(e) => {
            assert!(matches!(e, CompressError::NotADirectory));
            assert_eq!(e.message(), "not a directory");
        }
        Ok(p) => panic!("unexpected plan {p:?}"),
    }
    match compress_directory(
        "gone",
        &SourceCheck::Unresolved("No such file or directory (os error 2)".to_string()),
        &None,
        &[],
    ) {
        Err(e) => assert_eq!(
            e.message(),
            "IO error: Failed to resolve path: No such file or directory (os error 2)"
        ),
        Ok(p) => panic!("unexpected plan {p:?}"),
    }
}

#[test]
fn staging_paths_and_chunks() {
    assert_eq!(part_path_for("foo.tar.gz"), "foo.tar.gz.part");
    assert_eq!(part_path_for("bar"), "bar.part");
    assert_eq!(part_path_for("/srv/dir/x.bin"), "/srv/dir/x.bin.part");
    assert_eq!(CHUNK_SIZE, 512 * 1024);
}

#[test]
fn extensions_and_incompressible_formats() {
    assert_eq!(extension_text("dir/a.tar.GZ"), "GZ");
    assert_eq!(extension_text(".bashrc"), "");
    assert_eq!(extension_text("noext"), "");
    assert_eq!(extension_text("dir.d/file"), "");
    assert_eq!(extension_text("x."), "");
    assert!(is_incompressible(&"zst".to_string()));
    assert!(!is_incompressible(&"ZST".to_string()));
    assert!(!is_incompressible(&"txt".to_string()));
}
