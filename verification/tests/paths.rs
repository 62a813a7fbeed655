use pitchfork::paths::{
    file_name, is_dot_config_pitchfork, join_path, parent, resolve_config_base_dir, same_path,
    Locations,
};
use std::path::{Path, PathBuf};

const PATHS: [&str; 34] = [
    "", "/", "//", "///", ".", "./", "..", "../", "a", "a/", "a//", "/a", "//a", "/a/", "a/b",
    "a//b", "a/./b", "a/.", "./a", "././a", "/.", "/./a", "a/..", "a/../b", "..a", ".a", "a.b/.c",
    "/projects/myapp/pitchfork.toml", "/projects/myapp/.config/pitchfork.toml", "日本/語", "a/./.",
    "./.", "/./.", "a b/c d",
];

#[test]
fn parents_match_the_standard_library() {
    for p in PATHS {
        let expected = Path::new(p).parent().map(|q| q.to_str().unwrap().to_string());
        assert_eq!(parent(p), expected, "{p:?}");
    }
}

#[test]
fn file_names_match_the_standard_library() {
    for p in PATHS {
        let expected = Path::new(p).file_name().map(|n| n.to_str().unwrap().to_string());
        assert_eq!(file_name(p), expected, "{p:?}");
    }
}

#[test]
fn joining_matches_the_standard_library() {
    for base in PATHS {
        for d in PATHS {
            let expected = Path::new(base).join(d);
            assert_eq!(join_path(base, d), expected.to_str().unwrap(), "{base:?} {d:?}");
        }
    }
}

#[test]
fn equality_matches_the_standard_library() {
    for a in PATHS {
        for b in PATHS {
            assert_eq!(same_path(a, b), Path::new(a) == Path::new(b), "{a:?} {b:?}");
        }
    }
}

#[test]
fn project_files_in_dot_config_are_recognised() {
    for p in [
        "/p/.config/pitchfork.toml", "/p/.config/pitchfork.local.toml",
        ".config/pitchfork.toml", "/p/.config//./pitchfork.toml",
    ] {
        assert!(is_dot_config_pitchfork(p), "{p}");
        assert!(
            Path::new(p).ends_with(".config/pitchfork.toml")
                || Path::new(p).ends_with(".config/pitchfork.local.toml")
        );
    }
    for p in ["/p/pitchfork.toml", "/p/.config/other.toml", "/p/config/pitchfork.toml", "", "/"] {
        assert!(!is_dot_config_pitchfork(p), "{p}");
    }
}

#[test]
fn a_path_without_a_parent_falls_back_to_the_current_directory() {
    let at = Locations {
        cwd: "/here".to_string(),
        global_user: "/u/config.toml".to_string(),
        global_system: "/s/config.toml".to_string(),
    };
    assert_eq!(resolve_config_base_dir(None, &at), "/here");
    assert_eq!(resolve_config_base_dir(Some("/"), &at), "/here");
    assert_eq!(resolve_config_base_dir(Some(""), &at), "/here");
    assert_eq!(resolve_config_base_dir(Some("pitchfork.toml"), &at), "");
    assert_eq!(resolve_config_base_dir(Some(".config/pitchfork.toml"), &at), "");
    assert_eq!(
        PathBuf::from(resolve_config_base_dir(Some("/s/config.toml"), &at)),
        PathBuf::from("/s")
    );
    assert!(at.is_global_config("/u//config.toml"));
    assert!(!at.is_global_config("/u/other.toml"));
}
