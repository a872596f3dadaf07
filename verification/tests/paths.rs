//! Paths of outputs, and what the interpreter is started with.
use std::path::Path;

use tradingflow_agents::paths::{
    Style, file_stem, summary_path, summary_path_in, weights_path, weights_path_in,
};
use tradingflow_agents::python::{path_code, wide};

const PATHS: [&str; 26] = [
    "score.csv",
    "runs/candidate.csv",
    "/abs/dir/nav.tar.gz",
    "/nav",
    "nav",
    "",
    "/",
    ".",
    "..",
    "a/..",
    "a/.",
    "a/./b.csv",
    "a//b.csv",
    "a/b/",
    "a/b//",
    "a/b/.",
    "a/b.csv/./",
    ".hidden",
    "dir/.hidden",
    "dir/.hidden.csv",
    "trailing.",
    "dots...csv",
    "...",
    "./x.csv",
    "../x.csv",
    "dir.with.dots/file",
];

#[test]
fn stems_are_those_of_the_file_name() {
    for path in PATHS {
        let expected = Path::new(path).file_stem().map(|s| s.to_str().unwrap().to_string());
        assert_eq!(file_stem(Style::Unix, path), expected, "{path}");
    }
}

#[test]
fn weights_go_beside_the_output() {
    assert_eq!(weights_path("runs/strategy.csv"), "runs/strategy_weights.csv");
    assert_eq!(weights_path("strategy"), "strategy_weights.csv");
    for path in PATHS {
        let p = Path::new(path);
        let stem = p.file_stem().and_then(|s| s.to_str()).unwrap_or("output");
        let ext = p.extension().and_then(|s| s.to_str()).unwrap_or("csv");
        let expected = p.with_file_name(format!("{stem}_weights.{ext}"));
        assert_eq!(weights_path(path), expected.to_str().unwrap(), "{path}");
        assert_eq!(weights_path_in(Style::Unix, path), expected.to_str().unwrap(), "{path}");
    }
}

#[test]
fn summaries_go_beside_the_output() {
    assert_eq!(summary_path("runs/candidate.csv"), "runs/candidate_summary.json");
    for path in PATHS {
        let p = Path::new(path);
        let stem = p.file_stem().and_then(|s| s.to_str()).unwrap_or("output");
        let expected = p.with_file_name(format!("{stem}_summary.json"));
        assert_eq!(summary_path(path), expected.to_str().unwrap(), "{path}");
        assert_eq!(summary_path_in(Style::Unix, path), expected.to_str().unwrap(), "{path}");
    }
}

#[test]
fn a_backslash_separates_on_windows_alone() {
    let path = "books\\candidate.csv";
    assert_eq!(file_stem(Style::Windows, path), Some("candidate".to_string()));
    assert_eq!(file_stem(Style::Unix, path), Some("books\\candidate".to_string()));
    assert_eq!(weights_path_in(Style::Windows, "v1.2\\nav"), "v1.2\\nav_weights.csv");
    assert_eq!(weights_path_in(Style::Unix, "v1.2\\nav"), "v1_weights.2\\nav");
    assert_eq!(summary_path_in(Style::Windows, "v1.2\\nav"), "v1.2\\nav_summary.json");
}

#[test]
fn windows_paths_have_drives_and_shares() {
    let weights = |path: &str| weights_path_in(Style::Windows, path);
    assert_eq!(weights("runs/nav.csv"), "runs\\nav_weights.csv");
    assert_eq!(weights("C:\\runs\\nav.csv"), "C:\\runs\\nav_weights.csv");
    assert_eq!(weights("C:\\nav.csv"), "C:\\nav_weights.csv");
    assert_eq!(weights("C:nav.csv"), "C:nav_weights.csv");
    assert_eq!(weights("c:"), "c:output_weights.csv");
    assert_eq!(weights("\\nav.csv"), "\\nav_weights.csv");
    assert_eq!(weights("runs\\.\\nav.csv\\"), "runs\\nav_weights.csv");
    assert_eq!(weights("\\\\host\\data\\nav.csv"), "\\\\host\\data\\nav_weights.csv");
    assert_eq!(weights("\\\\host\\data"), "\\\\host\\data\\output_weights.csv");
    assert_eq!(weights("\\\\?\\C:\\runs\\nav.csv"), "\\\\?\\C:\\runs\\nav_weights.csv");
    assert_eq!(weights("runs\\C:nav.csv"), "C:nav_weights.csv");
    assert_eq!(weights("nav"), "nav_weights.csv");
    assert_eq!(weights(""), "output_weights.csv");
    assert_eq!(file_stem(Style::Windows, "\\\\host\\data"), None);
    assert_eq!(file_stem(Style::Windows, "C:\\"), None);
    assert_eq!(file_stem(Style::Windows, "runs\\.."), None);
    assert_eq!(file_stem(Style::Windows, "1:nav.csv"), Some("1:nav".to_string()));
}

#[test]
fn bare_names_are_read_alike() {
    for name in ["nav.csv", ".hidden", "nav.tar.gz", "trailing."] {
        assert_eq!(file_stem(Style::Unix, name), file_stem(Style::Windows, name));
        assert_eq!(weights_path(name), weights_path_in(Style::Windows, name));
        assert_eq!(summary_path(name), summary_path_in(Style::Windows, name));
    }
}

#[test]
fn the_search_path_is_extended_by_a_quoted_directory() {
    assert_eq!(path_code("/opt/ops"), "import sys; sys.path.append(\"/opt/ops\")");
    assert_eq!(
        path_code("C:\\ops \"x\"\n"),
        "import sys; sys.path.append(\"C:\\\\ops \\\"x\\\"\\n\")"
    );
}

#[test]
fn wide_paths_are_code_points_and_a_zero() {
    assert_eq!(wide("ab"), vec![97, 98, 0]);
    assert_eq!(wide(""), vec![0]);
    assert_eq!(wide("\u{4e2d}\u{1f600}"), vec![0x4e2d, 0x1f600, 0]);
    let code = wide("/usr/bin/python3");
    assert_eq!(code.iter().position(|&c| c == 0), Some(code.len() - 1));
}
