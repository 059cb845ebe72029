use std::path::{Path, PathBuf};

use brush::export::{checkpoint_name, checkpoint_path, resolve_export_dir};
use brush::paths::{extension, file_name, join_path, normalize, parent, stem, PathStyle};
use brush::text::{
    chars_of, decimal_len, join, push_decimal, push_zero_padded, replace_all, same_text,
    starts_with, text_of,
};

const SLASH: PathStyle = PathStyle::Slash;
const WIN: PathStyle = PathStyle::Windows;

const PATHS: [&str; 24] = [
    "",
    "/",
    "//",
    ".",
    "..",
    "a",
    "/a",
    "a/",
    "a/b",
    "a//b",
    "./a",
    "a/.",
    "a/./b",
    "a/..",
    "../a",
    "///a",
    "/a/b.ply",
    "a/b.tar.gz",
    "a/.hidden",
    "a/.hidden.ply",
    "a/b.",
    "dir.d/file",
    "/x//y/./z.png/",
    "ä/ö.ply",
];

#[test]
fn file_names_are_those_of_std() {
    for p in PATHS {
        let want = Path::new(p).file_name().map(|s| s.to_str().unwrap().to_string());
        assert_eq!(file_name(SLASH, p), want, "{}", p);
    }
}

#[test]
fn extensions_and_stems_are_those_of_std() {
    for p in PATHS {
        let ext = Path::new(p).extension().map(|s| s.to_str().unwrap().to_string());
        let st = Path::new(p).file_stem().map(|s| s.to_str().unwrap().to_string());
        assert_eq!(extension(SLASH, p), ext, "{}", p);
        assert_eq!(stem(SLASH, p), st, "{}", p);
    }
}

#[test]
fn parents_are_those_of_std() {
    for p in PATHS {
        let want = Path::new(p).parent().map(|s| s.to_str().unwrap().to_string());
        assert_eq!(parent(SLASH, p), want, "{}", p);
    }
}

#[test]
fn joining_is_that_of_std() {
    for a in PATHS {
        for b in PATHS {
            let want = Path::new(a).join(b);
            assert_eq!(join_path(SLASH, a, b), want.to_str().unwrap(), "{} {}", a, b);
        }
    }
}

#[test]
fn normalizing_is_collecting_components() {
    for p in PATHS {
        let want: PathBuf = Path::new(p).components().collect();
        assert_eq!(normalize(SLASH, p), want.to_str().unwrap(), "{}", p);
    }
}

#[test]
fn numbers_in_decimal() {
    let mut s = String::from("n=");
    push_decimal(&mut s, 0);
    push_decimal(&mut s, 18446744073709551615);
    assert_eq!(s, "n=018446744073709551615");
    let mut p = String::new();
    push_zero_padded(&mut p, 42, 5);
    push_zero_padded(&mut p, 123456, 5);
    assert_eq!(p, "00042123456");
    assert_eq!(decimal_len(0), 1);
    assert_eq!(decimal_len(9), 1);
    assert_eq!(decimal_len(10), 2);
    assert_eq!(decimal_len(u64::MAX), 20);
}

#[test]
fn replacing_and_joining() {
    assert_eq!(replace_all("a{x}b{x}", "{x}", "--"), "a--b--");
    assert_eq!(replace_all("aaa", "aa", "b"), "ba");
    assert_eq!(replace_all("none", "{x}", "y"), "none");
    let parts = vec!["a".to_string(), "b".to_string(), "c".to_string()];
    assert_eq!(join(&parts, ", "), "a, b, c");
    assert_eq!(join(&Vec::new(), ", "), "");
    assert!(starts_with("audio/wav", "audio/"));
    assert!(!starts_with("audi", "audio/"));
    assert!(same_text("ä", "ä") && !same_text("a", "b"));
    let chars = chars_of("añb");
    assert_eq!(text_of(&chars, 1, 3), "ñb");
}

#[test]
fn checkpoints_are_numbered_evenly() {
    assert_eq!(checkpoint_name("export_{iter}.ply", 500, 30000), "export_00500.ply");
    assert_eq!(checkpoint_name("export_{iter}.ply", 30000, 30000), "export_30000.ply");
    assert_eq!(checkpoint_name("x", 1, 10), "x");
    assert_eq!(checkpoint_name("{iter}", 7, 0), "7");
    assert_eq!(checkpoint_name("{iter}{iter}", 7, 10), "0707");
    assert_eq!(checkpoint_path(SLASH, "out", "e_{iter}.ply", 5, 100), "out/e_005.ply");
}

#[test]
fn every_number_of_a_run_has_the_same_width() {
    let mut seen: Vec<String> = Vec::new();
    for iter in 0..=100 {
        let name = checkpoint_name("{iter}", iter, 100);
        assert_eq!(name.len(), 3);
        assert!(!seen.contains(&name));
        seen.push(name);
    }
}

#[test]
fn exports_go_next_to_the_dataset() {
    assert_eq!(resolve_export_dir(SLASH, Some("/data/bike"), "exports/{dataset}"), "/data/exports/bike");
    assert_eq!(resolve_export_dir(SLASH, Some("/data/bike"), "/abs//x/"), "/abs/x");
    assert_eq!(resolve_export_dir(SLASH, Some("bike"), "./out"), "./out");
    assert_eq!(resolve_export_dir(SLASH, None, "{dataset}_out"), "./dataset_out");
    assert_eq!(resolve_export_dir(SLASH, Some("/"), "{dataset}"), "./dataset");
    assert_eq!(resolve_export_dir(SLASH, Some("a/.."), "{dataset}"), "a/dataset");
}

#[test]
fn normalized_paths_stay() {
    for p in ["./a//b/./c/", "/a/./b//", "..//a", ".", "/", "", "a/.", "//x"] {
        let once = normalize(SLASH, p);
        assert_eq!(normalize(SLASH, &once), once);
    }
    assert_eq!(normalize(SLASH, "./a//b/./c/"), "./a/b/c");
    assert_eq!(normalize(SLASH, "/a/./b//"), "/a/b");
}

#[test]
fn files_have_their_name_in_any_directory() {
    for dir in ["", "out", "out/", "/", "./out//"] {
        let path = join_path(SLASH, dir, "export_100.ply");
        assert_eq!(file_name(SLASH, &path), Some("export_100.ply".to_string()), "{}", dir);
    }
    for dir in ["", "C:", "C:\\", "C:out", "D:/out", "\\\\s\\h", "\\\\?\\C:", "\\\\?\\C:\\x\\"] {
        let path = join_path(WIN, dir, "export_100.ply");
        assert_eq!(file_name(WIN, &path), Some("export_100.ply".to_string()), "{}", dir);
    }
    assert_eq!(file_name(WIN, &join_path(WIN, "\\\\server", "x")), None);
}

#[test]
fn windows_joins_by_drive_and_root() {
    for (base, child, want) in [
        ("", "foo", "foo"),
        ("foo", "bar", "foo\\bar"),
        ("foo\\", "bar", "foo\\bar"),
        ("foo/", "bar", "foo/bar"),
        ("foo", "", "foo\\"),
        ("c:\\", "windows", "c:\\windows"),
        ("c:", "windows", "c:windows"),
        ("C:/data", "D:/out", "D:/out"),
        ("C:\\data", "D:\\out", "D:\\out"),
        ("a\\b", "c:e", "c:e"),
        ("C:\\a\\b", "\\c\\d", "C:\\c\\d"),
        ("a\\b", "\\c\\d", "\\c\\d"),
        ("a\\b", "..\\c", "a\\b\\..\\c"),
        ("\\\\server\\share\\foo", "bar", "\\\\server\\share\\foo\\bar"),
        ("\\\\server\\share\\foo", "\\bar", "\\\\server\\share\\bar"),
        ("\\\\server\\share\\foo", "C:baz", "C:baz"),
        ("\\\\.\\foo", "..\\bar", "\\\\.\\foo\\..\\bar"),
    ] {
        assert_eq!(join_path(WIN, base, child), want, "{} {}", base, child);
    }
}

#[test]
fn verbatim_paths_are_joined_without_dots() {
    for (base, child, want) in [
        ("\\\\?\\C:\\bar", "../foo", "\\\\?\\C:\\foo"),
        ("\\\\?\\C:\\bar", "../../foo", "\\\\?\\C:\\foo"),
        ("\\\\?\\C:", "D:\\foo/./", "D:\\foo/./"),
        ("\\\\?\\A:\\x\\y", "/foo", "\\\\?\\A:\\foo"),
        ("\\\\?\\A:", "..\\foo\\.", "\\\\?\\A:\\foo"),
        ("\\\\?\\A:\\x\\y", ".\\foo\\.", "\\\\?\\A:\\x\\y\\foo"),
        ("\\\\?\\A:\\x\\y", "", "\\\\?\\A:\\x\\y\\"),
        ("\\\\?\\UNC\\server\\share\\foo", "bar", "\\\\?\\UNC\\server\\share\\foo\\bar"),
    ] {
        assert_eq!(join_path(WIN, base, child), want, "{} {}", base, child);
    }
}

#[test]
fn windows_paths_are_taken_apart() {
    for (path, holder, name) in [
        ("C:\\data\\full.ply", Some("C:\\data"), Some("full.ply")),
        ("C:/data\\full.ply", Some("C:/data"), Some("full.ply")),
        ("C:\\full.ply", Some("C:\\"), Some("full.ply")),
        ("C:full.ply", Some("C:"), Some("full.ply")),
        ("C:\\", None, None),
        ("C:", None, None),
        ("a\\b\\", Some("a"), Some("b")),
        ("\\\\server\\share", None, None),
        ("\\\\server\\share\\x", Some("\\\\server\\share\\"), Some("x")),
        ("\\\\server", Some("\\"), Some("server")),
        ("\\\\?\\C:\\a/b", Some("\\\\?\\C:\\"), Some("a/b")),
        ("..\\a", Some(".."), Some("a")),
        ("a\\..", Some("a"), None),
    ] {
        assert_eq!(parent(WIN, path).as_deref(), holder, "{}", path);
        assert_eq!(file_name(WIN, path).as_deref(), name, "{}", path);
    }
    assert_eq!(extension(WIN, "C:\\a.b\\lens.tar.ply").as_deref(), Some("ply"));
    assert_eq!(extension(WIN, "C:\\a.b\\lens"), None);
    assert_eq!(stem(WIN, "C:\\a.b\\lens.tar.ply").as_deref(), Some("lens.tar"));
    assert_eq!(file_name(SLASH, "C:\\a\\b").as_deref(), Some("C:\\a\\b"));
}

#[test]
fn windows_paths_without_anything_that_names_nothing() {
    assert_eq!(normalize(WIN, "C:/data/./x//y\\"), "C:\\data\\x\\y");
    assert_eq!(normalize(WIN, "C:x\\.\\y"), "C:x\\y");
    assert_eq!(normalize(WIN, "\\\\server\\share"), "\\\\server\\share\\");
    assert_eq!(normalize(WIN, ".\\a\\.\\b"), ".\\a\\b");
    assert_eq!(normalize(WIN, "\\\\?\\C:\\a\\..\\b"), "\\\\?\\C:\\b");
}

#[test]
fn exports_can_go_to_another_drive() {
    assert_eq!(
        resolve_export_dir(WIN, Some("C:\\data\\bike"), "exports/{dataset}"),
        "C:\\data\\exports\\bike"
    );
    assert_eq!(resolve_export_dir(WIN, Some("C:\\data\\bike"), "D:/out"), "D:\\out");
    assert_eq!(resolve_export_dir(WIN, None, "{dataset}"), ".\\dataset");
    assert_eq!(checkpoint_path(WIN, "D:\\out", "e_{iter}.ply", 5, 10), "D:\\out\\e_05.ply");
}
