use fellini::{Container, FelliniWriter, Profile};

#[test]
fn container_is_told_by_the_extension() {
    assert_eq!(Container::of_path("out.mkv"), Some(Container::Mkv));
    assert_eq!(Container::of_path("out.mp4"), Some(Container::Mp4));
    assert_eq!(Container::of_path("out.webm"), Some(Container::Webm));
    assert_eq!(Container::of_path("out.mov"), Some(Container::Mov));
    assert_eq!(Container::of_path("/tmp/movies/take.1.mp4"), Some(Container::Mp4));
    assert_eq!(Container::of_path("user://recordings/final cut.webm"), Some(Container::Webm));
}

#[test]
fn container_of_other_extensions_is_none() {
    assert_eq!(Container::of_path("out.avi"), None);
    assert_eq!(Container::of_path("out.MKV"), None);
    assert_eq!(Container::of_path("out.mkv "), None);
    assert_eq!(Container::of_path("out.mkvx"), None);
    assert_eq!(Container::of_path("out.mk"), None);
    assert_eq!(Container::of_path("out."), None);
    assert_eq!(Container::of_path("out"), None);
    assert_eq!(Container::of_path(""), None);
}

#[test]
fn container_is_read_from_the_file_name_only() {
    assert_eq!(Container::of_path("dir.mkv/out"), None);
    assert_eq!(Container::of_path("dir.mkv/out.mp4"), Some(Container::Mp4));
}

#[test]
fn trailing_separators_and_dots_are_skipped() {
    assert_eq!(Container::of_path("clip.mkv/"), Some(Container::Mkv));
    assert_eq!(Container::of_path("clip.mkv//"), Some(Container::Mkv));
    assert_eq!(Container::of_path("clip.mkv/."), Some(Container::Mkv));
    assert_eq!(Container::of_path("clip.mkv/./"), Some(Container::Mkv));
    assert_eq!(Container::of_path("clip.mkv/././/"), Some(Container::Mkv));
    assert_eq!(Container::of_path("dir/clip.mp4/"), Some(Container::Mp4));
    assert_eq!(Container::of_path("/clip.webm/"), Some(Container::Webm));
    // a parent component is no file name
    assert_eq!(Container::of_path("clip.mkv/.."), None);
    assert_eq!(Container::of_path("clip.mkv/../"), None);
    // nor is the current directory, nor the root
    assert_eq!(Container::of_path("."), None);
    assert_eq!(Container::of_path("./"), None);
    assert_eq!(Container::of_path("/"), None);
    assert_eq!(Container::of_path("/."), None);
    assert_eq!(Container::of_path("//"), None);
    // a dot that ends a name is part of the name
    assert_eq!(Container::of_path("clip.mkv."), None);
    assert_eq!(Container::of_path("dir/clip.mkv./"), None);
}

#[test]
fn container_agrees_with_the_extension_of_the_path() {
    let named = |ext: &str| match ext {
        "mkv" => Some(Container::Mkv),
        "mp4" => Some(Container::Mp4),
        "webm" => Some(Container::Webm),
        "mov" => Some(Container::Mov),
        _ => None,
    };
    let paths = [
        "", "/", "//", ".", "..", "...", "./", "../", "/.", "/..", "a", "a/", "a/.", "a/..",
        "a.mkv", "a.mkv/", "a.mkv//", "a.mkv/.", "a.mkv/./", "a.mkv/..", "a.mkv/../", "a.mkv/b",
        ".mkv", "..mkv", "...mkv", "a..mkv", "a.mkv.", "a.mkv..", "a.b.mp4", ".a.mp4", "./a.mp4",
        "./.mp4", "../a.webm", "/a/b/c.mov", "/a/b/c.mov/.", "a/./b.mkv", "a/../b.mkv", "a./b",
        "a/.b/c.mkv", "a/b.c/.mkv", "mkv", "/mkv", ".mkv/", "x.mkv/./.", "x.mkv/.//./", "x.MKV",
        "x.mkv ", " .mkv", "x./", "x../", "x.mkv/...", "x.mkv/.mkv",
    ];
    for path in paths {
        let expected = std::path::Path::new(path)
            .extension()
            .and_then(|ext| ext.to_str())
            .and_then(named);
        assert_eq!(Container::of_path(path), expected, "{:?}", path);
    }
}

#[test]
fn a_leading_dot_starts_no_extension() {
    assert_eq!(Container::of_path(".mkv"), None);
    assert_eq!(Container::of_path("dir/.mp4"), None);
    assert_eq!(Container::of_path("dir/.hidden.mp4"), Some(Container::Mp4));
    assert_eq!(Container::of_path(".."), None);
}

#[test]
fn container_of_paths_with_wide_characters() {
    assert_eq!(Container::of_path("прогон/кадр.mkv"), Some(Container::Mkv));
    assert_eq!(Container::of_path("映画.webm"), Some(Container::Webm));
    assert_eq!(Container::of_path("映画.mkv映"), None);
}

#[test]
fn container_extensions() {
    assert_eq!(Container::Mkv.extension(), "mkv");
    assert_eq!(Container::Mp4.extension(), "mp4");
    assert_eq!(Container::Webm.extension(), "webm");
    assert_eq!(Container::Mov.extension(), "mov");
}

#[test]
fn profiles_support_their_containers() {
    assert_eq!(
        Profile::Av1.supported_containers(),
        vec![Container::Mkv, Container::Mp4, Container::Webm]
    );
    assert_eq!(Profile::H264.supported_containers(), vec![Container::Mp4]);
    for c in [Container::Mkv, Container::Mp4, Container::Webm, Container::Mov] {
        assert_eq!(Profile::Av1.supports(c), Profile::Av1.supported_containers().contains(&c));
        assert_eq!(Profile::H264.supports(c), Profile::H264.supported_containers().contains(&c));
    }
    assert!(!Profile::Av1.supports(Container::Mov));
    assert!(!Profile::H264.supports(Container::Mkv));
}

#[test]
fn writer_handles_the_four_extensions() {
    let writer = FelliniWriter::init(true);
    assert!(writer.handles_file("movie.mp4"));
    assert!(writer.handles_file("movie.webm"));
    assert!(writer.handles_file("movie.mov"));
    assert!(writer.handles_file("movie.mkv"));
    assert!(!writer.handles_file("movie.avi"));
    assert!(!writer.handles_file("movie.png"));
    assert!(!writer.handles_file("movie"));
}
