use gitizen::code_view::language_from_path;
use gitizen::paths::{extension, file_name};
use gitizen::project_selector::{folder_from_dialog_output, project_initials, project_label};
use gitizen::text::{
    chars_less, concat2, contains_chars, is_blank, replace_char, trim_end_char,
    trim_string,
};

fn chars(s: &str) -> Vec<char> {
    s.chars().collect()
}

#[test]
fn trim_removes_unicode_white_space() {
    assert_eq!(trim_string("  \t main \n"), "main");
    assert_eq!(trim_string("\u{3000}x\u{a0}"), "x");
    assert_eq!(trim_string("   "), "");
    assert_eq!(trim_string(""), "");
    assert_eq!(trim_string("a b"), "a b");
}

#[test]
fn blank_detection() {
    assert!(is_blank(" \n\t"));
    assert!(is_blank(""));
    assert!(!is_blank(" x "));
}

#[test]
fn built_strings_keep_character_order() {
    assert_eq!(trim_string(" aéz "), "aéz");
    assert_eq!(concat2("ab", "cd"), "abcd");
}

#[test]
fn replace_backslashes() {
    assert_eq!(replace_char("a\\b\\c", '\\', '/'), "a/b/c");
    assert_eq!(replace_char("plain", '\\', '/'), "plain");
}

#[test]
fn trim_trailing_slashes() {
    assert_eq!(trim_end_char("src/ui//", '/'), "src/ui");
    assert_eq!(trim_end_char("///", '/'), "");
}

#[test]
fn substring_search() {
    assert!(contains_chars(&chars("feature/login"), &chars("login")));
    assert!(contains_chars(&chars("abc"), &chars("")));
    assert!(!contains_chars(&chars("abc"), &chars("abcd")));
    assert!(!contains_chars(&chars("abc"), &chars("ac")));
}

#[test]
fn string_order_matches_std() {
    let words = ["", "a", "ab", "b", "B", "é", "z", "a/b", "a.b", "a0"];
    for x in words.iter() {
        for y in words.iter() {
            assert_eq!(chars_less(&chars(x), &chars(y)), x < y, "{x:?} < {y:?}");
        }
    }
}

#[test]
fn file_names_follow_std_path() {
    let cases = [
        "src/main.rs", "/usr/bin/", "foo.txt/.", "foo.txt/.//", "foo/..", "/", ".", "./", "",
        "a//b", "./a", ".bashrc", "dir/.config/", "..", "x/./.", "/.",
    ];
    for case in cases.iter() {
        let expected = std::path::Path::new(case)
            .file_name()
            .map(|n| n.to_str().unwrap().to_string());
        let got = file_name(case).map(|v| v.into_iter().collect::<String>());
        assert_eq!(got, expected, "file_name of {case:?}");
    }
}

#[test]
fn extensions_follow_std_path() {
    let cases = [
        "src/main.rs", "archive.tar.gz", ".bashrc", ".a.b", "name.", "noext", "dir.d/file",
        "dir/file.TXT", "..", "a/b.c/", "x.y/..",
    ];
    for case in cases.iter() {
        let expected = std::path::Path::new(case)
            .extension()
            .map(|n| n.to_str().unwrap().to_string());
        let got = extension(case).map(|v| v.into_iter().collect::<String>());
        assert_eq!(got, expected, "extension of {case:?}");
    }
}

#[test]
fn languages_by_extension() {
    assert_eq!(language_from_path(None), "");
    assert_eq!(language_from_path(Some("src/main.rs")), "rust");
    assert_eq!(language_from_path(Some("Cargo.toml")), "toml");
    assert_eq!(language_from_path(Some("x/y.PY")), "python");
    assert_eq!(language_from_path(Some("a.hpp")), "cpp");
    assert_eq!(language_from_path(Some("a.cxx")), "cpp");
    assert_eq!(language_from_path(Some("app.js")), "javascript");
    assert_eq!(language_from_path(Some("app.ts")), "typescript");
    assert_eq!(language_from_path(Some("data.json")), "json");
    assert_eq!(language_from_path(Some("ci.yml")), "yaml");
    assert_eq!(language_from_path(Some("README.markdown")), "markdown");
    assert_eq!(language_from_path(Some("run.zsh")), "bash");
    assert_eq!(language_from_path(Some("Makefile")), "");
    assert_eq!(language_from_path(Some(".rs")), "");
    assert_eq!(language_from_path(Some("image.png")), "");
}

#[test]
fn project_labels() {
    assert_eq!(project_label("/home/me/gitizen"), "gitizen");
    assert_eq!(project_label("/home/me/gitizen/"), "gitizen");
    assert_eq!(project_label("/"), "/");
    assert_eq!(project_label(".."), "..");
}

#[test]
fn project_initials_cases() {
    assert_eq!(project_initials("/work/my-cool_project"), "MC");
    assert_eq!(project_initials("/work/gitizen"), "G");
    assert_eq!(project_initials("/work/9lives app"), "9A");
    assert_eq!(project_initials("/work/---"), "P");
    assert_eq!(project_initials("/work/été-x"), "TX");
}

#[test]
fn folder_dialog_output() {
    assert_eq!(folder_from_dialog_output(false, "/tmp/x\n"), None);
    assert_eq!(folder_from_dialog_output(true, "  \n"), None);
    assert_eq!(folder_from_dialog_output(true, "/tmp/x/\n"), Some("/tmp/x/".to_string()));
}
