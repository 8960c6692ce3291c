//! Configuration directories and relative paths.

use fluxframe::paths::{join, resolve_config_home, ConfigBase, ResolvedPath};

#[test]
fn config_base_joins_relative_paths_onto_the_config_directory() {
    let base = ConfigBase::for_config(Some("/etc/ff/fluxframe.toml"));
    assert_eq!(base.resolve("models/m.onnx").as_str(), "/etc/ff/models/m.onnx");
}

#[test]
fn config_base_leaves_absolute_paths_alone() {
    let base = ConfigBase::for_config(Some("/etc/ff/fluxframe.toml"));
    assert!(matches!(
        base.resolve("/srv/m.onnx"),
        ResolvedPath::Borrowed(p) if p == "/srv/m.onnx"
    ));
}

#[test]
fn config_base_without_a_file_keeps_paths_relative() {
    assert_eq!(ConfigBase::for_config(None), ConfigBase::default());
    assert_eq!(ConfigBase::default().resolve("m.onnx").as_str(), "m.onnx");
}

#[test]
fn config_base_of_a_relative_config_path_is_absolute() {
    let base = ConfigBase::for_config(Some("fluxframe.toml"));
    let resolved = base.resolve("m.onnx");
    let path = std::path::Path::new(resolved.as_str());
    assert!(path.is_absolute(), "got {}", path.display());
    assert!(path.ends_with("m.onnx"));
}

#[test]
fn config_base_of_a_relative_config_path_lies_below_the_working_directory() {
    let here = std::path::absolute(".").expect("a working directory");
    let base = ConfigBase::for_config(Some("fluxframe.toml"));
    assert_eq!(std::path::Path::new(base.resolve("m").as_str()), here.join("m"));
    let deeper = ConfigBase::for_config(Some("conf.d/fluxframe.toml"));
    assert_eq!(
        std::path::Path::new(deeper.resolve("m").as_str()),
        here.join("conf.d").join("m")
    );
}

#[test]
fn config_base_beside_an_absolute_file() {
    let base = ConfigBase::beside(Some("/a/b/c.toml".to_string()));
    assert_eq!(base.resolve("x/y").as_str(), "/a/b/x/y");
    let root = ConfigBase::beside(Some("/c.toml".to_string()));
    assert_eq!(root.resolve("x").as_str(), "/x");
}

#[test]
fn joining_agrees_with_std() {
    for base in ["/", "/a", "/a/", "a", "a/b", ""] {
        for path in ["x", "x/y", "/z", ""] {
            let expected = std::path::Path::new(base).join(path);
            assert_eq!(join(base, path), expected.to_str().expect("utf-8"), "{base} + {path}");
        }
    }
}

#[test]
fn empty_xdg_falls_back_to_home_config() {
    assert_eq!(
        resolve_config_home(Some(""), Some("/home/u")),
        Some("/home/u/.config".to_string())
    );
}

#[test]
fn non_empty_xdg_wins() {
    assert_eq!(
        resolve_config_home(Some("/xdg"), Some("/home/u")),
        Some("/xdg".to_string())
    );
}

#[test]
fn both_absent_is_none() {
    assert_eq!(resolve_config_home(None, None), None);
}

#[test]
fn empty_home_without_xdg_is_none() {
    assert_eq!(resolve_config_home(None, Some("")), None);
}
