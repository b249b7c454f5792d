use std::path::Path;
use transcode_watch::paths::{extension, is_below, mirror_path, relative_path, Directories};

fn ext(path: &str) -> Option<String> {
    extension(path)
}

fn std_ext(path: &str) -> Option<String> {
    Path::new(path).extension().and_then(|e| e.to_str()).map(String::from)
}

/// Every string over `alphabet` of at most `longest` characters.
fn all_strings(alphabet: &[char], longest: usize) -> Vec<String> {
    let mut all = vec![String::new()];
    let mut last = vec![String::new()];
    for _ in 0..longest {
        let mut next = Vec::new();
        for text in &last {
            for c in alphabet {
                let mut longer = text.clone();
                longer.push(*c);
                next.push(longer);
            }
        }
        all.extend(next.iter().cloned());
        last = next;
    }
    all
}

fn dirs(watch: &str, staging: &str, completion: &str) -> Directories {
    Directories {
        watch: watch.to_string(),
        staging: staging.to_string(),
        completion: completion.to_string(),
    }
}

#[test]
fn extension_is_what_follows_the_last_dot() {
    assert_eq!(ext("/w/x.mkv"), Some("mkv".to_string()));
    assert_eq!(ext("/w/a/b.tar.gz"), Some("gz".to_string()));
    assert_eq!(ext("movie.MP4"), Some("MP4".to_string()));
    assert_eq!(ext("/w/a.b/c.d.e"), Some("e".to_string()));
}

#[test]
fn extension_is_missing_without_a_dot_in_the_file_name() {
    assert_eq!(ext("/w/x"), None);
    assert_eq!(ext("/w/a.b/c"), None);
    assert_eq!(ext(""), None);
    assert_eq!(ext("/"), None);
}

#[test]
fn extension_is_missing_when_the_only_dot_comes_first() {
    assert_eq!(ext("/w/.mkv"), None);
    assert_eq!(ext(".hidden"), None);
    assert_eq!(ext("/w/.hidden.mkv"), Some("mkv".to_string()));
    assert_eq!(ext("/w/..mkv"), Some("mkv".to_string()));
}

#[test]
fn extension_is_empty_after_a_trailing_dot() {
    assert_eq!(ext("/w/x."), Some(String::new()));
    assert_eq!(ext("..."), Some(String::new()));
}

#[test]
fn extension_skips_trailing_separators_and_dot_components() {
    assert_eq!(ext("/w/x.mkv/"), Some("mkv".to_string()));
    assert_eq!(ext("/w/x.mkv/."), Some("mkv".to_string()));
    assert_eq!(ext("/w/x.mkv/.//"), Some("mkv".to_string()));
    assert_eq!(ext("/w/x.mkv/.."), None);
    assert_eq!(ext("."), None);
    assert_eq!(ext(".."), None);
    assert_eq!(ext("./"), None);
}

#[test]
fn extension_handles_characters_outside_ascii() {
    assert_eq!(ext("/w/películas/año.mkv"), Some("mkv".to_string()));
    assert_eq!(ext("/w/映画.日本"), Some("日本".to_string()));
}

#[test]
fn extension_agrees_with_the_standard_library() {
    let paths = [
        "", "/", ".", "..", "...", "./", "../", "/.", "/..", "a", "a.", ".a", "a.b", "a.b.c",
        "..a", "a..", "a..b", ".a.b", "/w/x.mkv", "/w/x.mkv/", "/w/x.mkv/.", "/w/x.mkv/..",
        "/w/x.mkv/./", "/w/x.mkv/.//", "/w.d/x", "/w.d/x/", "/w.d/.x", "/w.d/x.", "w.d/", "//a.b//",
        "a/./b.c", "a/../b.c", "./a.b", "../a.b", "a.b/.", "a.b/./.", "/w/año.mkv", "/w/a b.mp4",
        "/w/.../x", "/w/x/...", "x.mkv.", "/.mkv/", "/a/.mkv/.", "/a/b.c/..", ".a.", "a/.b.",
    ];
    for path in paths {
        assert_eq!(ext(path), std_ext(path), "extension of {:?}", path);
    }
}

#[test]
fn extension_agrees_with_the_standard_library_on_every_short_path() {
    let paths = all_strings(&['/', '.', 'a', 'é'], 7);
    assert_eq!(paths.len(), 21845);
    for path in &paths {
        assert_eq!(ext(path), std_ext(path), "extension of {:?}", path);
    }
}

#[test]
fn relative_path_strips_the_root_and_its_separator() {
    assert_eq!(relative_path("/w", "/w/a/b.mkv"), "a/b.mkv");
    assert_eq!(relative_path("/w/", "/w/a/b.mkv"), "a/b.mkv");
    assert_eq!(relative_path("/w", "/w//a.mkv"), "a.mkv");
    assert_eq!(relative_path("/data/watch", "/data/watch/x.mkv"), "x.mkv");
    assert_eq!(relative_path("", "/x.mkv"), "x.mkv");
}

#[test]
fn relative_path_of_the_root_itself_is_empty() {
    assert_eq!(relative_path("/w", "/w"), "");
    assert_eq!(relative_path("/w", "/w/"), "");
}

#[test]
fn relative_path_falls_back_to_the_full_path() {
    assert_eq!(relative_path("/w", "/other/a.mkv"), "/other/a.mkv");
    assert_eq!(relative_path("/watch", "/w/a.mkv"), "/w/a.mkv");
    assert_eq!(relative_path("/w/long/root", "/w"), "/w");
    assert_eq!(relative_path("/w", "relative/a.mkv"), "relative/a.mkv");
}

#[test]
fn relative_path_keeps_a_path_that_only_shares_the_roots_characters() {
    assert_eq!(relative_path("/w", "/wx/a.mkv"), "/wx/a.mkv");
    assert_eq!(relative_path("/w", "/w.mkv"), "/w.mkv");
    assert_eq!(relative_path("/data/watch", "/data/watching/a.mkv"), "/data/watching/a.mkv");
    assert_eq!(relative_path("/w/", "/wx/a.mkv"), "/wx/a.mkv");
}

#[test]
fn is_below_asks_for_a_component_boundary() {
    assert!(is_below("/w", "/w/a.mkv"));
    assert!(is_below("/w/", "/w/a.mkv"));
    assert!(is_below("/w", "/w"));
    assert!(is_below("/w", "/w/"));
    assert!(is_below("/w", "/w//a"));
    assert!(is_below("/", "/a"));
    assert!(is_below("", "/a"));
    assert!(is_below("", ""));
    assert!(!is_below("/w/", "/w"));
    assert!(!is_below("/w", "/wx/a.mkv"));
    assert!(!is_below("/w", "/wx"));
    assert!(!is_below("/w", "/"));
    assert!(!is_below("/w", "/other/w/a"));
    assert!(!is_below("/w/a", "/w"));
    assert!(!is_below("", "a"));
    assert!(!is_below("w", "/w/a"));
}

#[test]
fn is_below_agrees_with_the_standard_library_on_tidy_paths() {
    let roots = ["/w", "/data/watch", "/", "/w/a"];
    let paths = [
        "/w", "/w/", "/w/a", "/w/a/b.mkv", "/wx", "/wx/a.mkv", "/w.mkv", "/data/watch/x.mkv",
        "/data/watching/x.mkv", "/data", "/", "/other/w/a", "/w/ab", "/w/a.b",
    ];
    for root in roots {
        for path in paths {
            assert_eq!(
                is_below(root, path),
                Path::new(path).starts_with(root),
                "{:?} below {:?}",
                path,
                root
            );
        }
    }
}

#[test]
fn relative_path_handles_characters_outside_ascii() {
    assert_eq!(relative_path("/vidéos", "/vidéos/año/x.mkv"), "año/x.mkv");
}

#[test]
fn relative_path_is_the_rest_without_leading_separators() {
    let roots = all_strings(&['/', 'w'], 3);
    let paths = all_strings(&['/', 'w', 'a'], 6);
    for root in &roots {
        for path in &paths {
            let rest = path.strip_prefix(root.as_str()).filter(|rest| {
                rest.is_empty() || rest.starts_with('/') || root.ends_with('/')
            });
            assert_eq!(is_below(root, path), rest.is_some(), "{:?} below {:?}", path, root);
            let expected = match rest {
                Some(rest) => rest.trim_start_matches('/'),
                None => path.as_str(),
            };
            assert_eq!(relative_path(root, path), expected, "{:?} below {:?}", path, root);
        }
    }
}

#[test]
fn mirror_path_joins_target_separator_and_relative_path() {
    assert_eq!(mirror_path("/w", "/s", "/w/a/b.mkv"), "/s/a/b.mkv");
    assert_eq!(mirror_path("/w", "/s/", "/w/a.mkv"), "/s//a.mkv");
    assert_eq!(mirror_path("/w", "/s", "/elsewhere/a.mkv"), "/s//elsewhere/a.mkv");
    assert_eq!(mirror_path("/w", "/s", "/wx/y.mkv"), "/s//wx/y.mkv");
    assert_eq!(mirror_path("/w", "", "/w/a.mkv"), "/a.mkv");
}

#[test]
fn path_mapping_mirrors_the_watch_tree() {
    let d = dirs("/w", "/s", "/c");
    assert_eq!(d.staging_path("/w/a/b.mkv"), "/s/a/b.mkv");
    assert_eq!(d.completion_path("/w/a/b.mkv"), "/c/a/b.mkv");
}

#[test]
fn path_mapping_keeps_the_directory_structure() {
    let d = dirs("/data/watch", "/data/transcoding", "/data/complete");
    let rels = ["x.mkv", "a/x.mkv", "a/b/c/x.mkv", "season 1/e01.mp4", ""];
    for rel in rels {
        let input = format!("/data/watch/{}", rel);
        assert_eq!(d.staging_path(&input), format!("/data/transcoding/{}", rel));
        assert_eq!(d.completion_path(&input), format!("/data/complete/{}", rel));
    }
}

#[test]
fn path_mapping_is_a_function_of_the_input() {
    let d = dirs("/w", "/s", "/c");
    assert_eq!(d.staging_path("/w/k.mkv"), d.staging_path("/w/k.mkv"));
    assert_ne!(d.staging_path("/w/k.mkv"), d.staging_path("/w/l.mkv"));
    assert_ne!(d.staging_path("/w/k.mkv"), d.completion_path("/w/k.mkv"));
}
