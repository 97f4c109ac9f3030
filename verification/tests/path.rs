use cit_item::path::{extension, file_name, file_stem};
use std::path::Path;

const SAMPLES: [&str; 40] = [
    "",
    "/",
    "//",
    ".",
    "./",
    "./.",
    "..",
    "../",
    "...",
    "a",
    "a/",
    "a//",
    "a/.",
    "a/./",
    "a/..",
    "a/../",
    "a/../b",
    "a/b",
    "/a/b.png",
    "foo/bar.png",
    "foo/bar.bbmodel",
    "skin.png",
    "foo.bar/baz",
    "foo.bar/baz.",
    "foo/.hidden",
    "foo/.hidden.png",
    "foo/..png",
    "foo/a.b.c",
    "foo/a..",
    "archive.tar.gz",
    "dir.png/",
    "dir.png/.",
    "dir.png//./",
    "caf\u{e9}/\u{e9}t\u{e9}.png",
    "a/b/c/d/e.f",
    ".png",
    "x.",
    "./x.png",
    "a b/c d.png",
    "a/./b/./c.bbmodel",
];

#[test]
fn file_name_agrees_with_std_on_samples() {
    for sample in SAMPLES {
        let expected = Path::new(sample).file_name().map(|n| n.to_str().unwrap());
        assert_eq!(file_name(sample), expected, "file name of {:?}", sample);
    }
}

#[test]
fn extension_agrees_with_std_on_samples() {
    for sample in SAMPLES {
        let expected = Path::new(sample).extension().map(|n| n.to_str().unwrap());
        assert_eq!(extension(sample), expected, "extension of {:?}", sample);
    }
}

#[test]
fn file_stem_agrees_with_std_on_samples() {
    for sample in SAMPLES {
        let expected = Path::new(sample).file_stem().map(|n| n.to_str().unwrap());
        assert_eq!(file_stem(sample), expected, "stem of {:?}", sample);
    }
}

#[test]
fn file_name_is_the_final_component() {
    assert_eq!(file_name("foo/bar.png"), Some("bar.png"));
    assert_eq!(file_name("bar.png"), Some("bar.png"));
    assert_eq!(file_name("/abs/dir/model.bbmodel"), Some("model.bbmodel"));
}

#[test]
fn file_name_skips_empty_and_dot_pieces_at_the_end() {
    assert_eq!(file_name("a//b/./"), Some("b"));
    assert_eq!(file_name("a/b/."), Some("b"));
    assert_eq!(file_name("a/b//"), Some("b"));
}

#[test]
fn file_name_is_absent_without_a_naming_piece() {
    assert_eq!(file_name(""), None);
    assert_eq!(file_name("/"), None);
    assert_eq!(file_name("."), None);
    assert_eq!(file_name("./."), None);
}

#[test]
fn file_name_is_absent_when_the_path_ends_in_dot_dot() {
    assert_eq!(file_name(".."), None);
    assert_eq!(file_name("a/.."), None);
    assert_eq!(file_name("a/../"), None);
}

#[test]
fn extension_is_what_follows_the_last_dot() {
    assert_eq!(extension("foo/bar.png"), Some("png"));
    assert_eq!(extension("archive.tar.gz"), Some("gz"));
    assert_eq!(extension("x."), Some(""));
    assert_eq!(extension("foo/..png"), Some("png"));
}

#[test]
fn extension_is_absent_without_a_dot_or_with_only_a_leading_dot() {
    assert_eq!(extension("foo/bar"), None);
    assert_eq!(extension(".png"), None);
    assert_eq!(extension("foo.d/bar"), None);
    assert_eq!(extension(""), None);
}

#[test]
fn file_stem_drops_directory_and_extension() {
    assert_eq!(file_stem("foo/bar.png"), Some("bar"));
    assert_eq!(file_stem("archive.tar.gz"), Some("archive.tar"));
    assert_eq!(file_stem(".hidden"), Some(".hidden"));
    assert_eq!(file_stem("plain"), Some("plain"));
    assert_eq!(file_stem("a/.."), None);
}

#[test]
fn parts_are_slices_counted_in_characters_not_bytes() {
    assert_eq!(file_name("caf\u{e9}/\u{e9}t\u{e9}.png"), Some("\u{e9}t\u{e9}.png"));
    assert_eq!(file_stem("caf\u{e9}/\u{e9}t\u{e9}.png"), Some("\u{e9}t\u{e9}"));
    assert_eq!(extension("\u{4e16}\u{754c}.\u{56fe}"), Some("\u{56fe}"));
}

fn all_texts(alphabet: &[char], longest: usize) -> Vec<String> {
    let mut texts = vec![String::new()];
    let mut from = 0;
    for _ in 0..longest {
        let until = texts.len();
        for i in from..until {
            for c in alphabet {
                let mut longer = texts[i].clone();
                longer.push(*c);
                texts.push(longer);
            }
        }
        from = until;
    }
    texts
}

#[test]
fn parts_agree_with_std_on_every_short_path() {
    let paths = all_texts(&['a', '.', '/'], 8);
    assert_eq!(paths.len(), 9841);
    for path in &paths {
        let std_path = Path::new(path);
        assert_eq!(
            file_name(path),
            std_path.file_name().map(|n| n.to_str().unwrap()),
            "file name of {:?}",
            path
        );
        assert_eq!(
            extension(path),
            std_path.extension().map(|n| n.to_str().unwrap()),
            "extension of {:?}",
            path
        );
        assert_eq!(
            file_stem(path),
            std_path.file_stem().map(|n| n.to_str().unwrap()),
            "stem of {:?}",
            path
        );
    }
}
