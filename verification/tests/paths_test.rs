//! Path cleaning, parent directories, extensions, and handler dispatch.

use module_graph::module::SourceKind;
use module_graph::paths::{
    extension_of, handler_kind_for_path, media_kind_for_path, parent_dir_of, path_is_absolute,
    str_eq, str_has_segment, HandlerKind,
};

#[test]
fn absoluteness() {
    assert!(path_is_absolute("/a"));
    assert!(!path_is_absolute("a/b"));
    assert!(!path_is_absolute(""));
}

#[test]
fn parent_directories() {
    assert_eq!(parent_dir_of("/a/b/c.ts"), "/a/b");
    assert_eq!(parent_dir_of("/a"), "/");
}

#[test]
fn extensions() {
    assert_eq!(extension_of("/a/b.ts").as_deref(), Some("ts"));
    assert_eq!(extension_of("/a/b.tar.gz").as_deref(), Some("gz"));
    assert_eq!(extension_of("/a/.profile"), None);
    assert_eq!(extension_of("/a/plain"), None);
    assert_eq!(extension_of("/a.dir/plain"), None);
}

#[test]
fn handler_dispatch() {
    assert_eq!(handler_kind_for_path("/p/a.css"), HandlerKind::Css);
    for ext in ["js", "jsx", "ts", "tsx", "mts", "cts", "mjs", "cjs"] {
        let path = format!("/p/a.{ext}");
        assert_eq!(handler_kind_for_path(&path), HandlerKind::JavaScript);
    }
    for ext in ["json", "jsonc", "json5"] {
        let path = format!("/p/a.{ext}");
        assert_eq!(handler_kind_for_path(&path), HandlerKind::Json);
    }
    assert_eq!(handler_kind_for_path("/p/a.yaml"), HandlerKind::Yaml);
    assert_eq!(handler_kind_for_path("/p/a.yml"), HandlerKind::Yaml);
    for ext in ["gql", "graphql", "html", "less", "map", "sass", "scss", "styl", "svg"] {
        let path = format!("/p/a.{ext}");
        assert_eq!(handler_kind_for_path(&path), HandlerKind::Text);
    }
    assert_eq!(handler_kind_for_path("/p/a.png"), HandlerKind::Media);
    assert_eq!(handler_kind_for_path("/p/noext"), HandlerKind::Media);
    // dispatch is case-sensitive
    assert_eq!(handler_kind_for_path("/p/a.JSON"), HandlerKind::Media);
}

#[test]
fn media_classification() {
    assert_eq!(media_kind_for_path("/p/a.mp3"), SourceKind::Audio);
    assert_eq!(media_kind_for_path("/p/a.png"), SourceKind::Image);
    assert_eq!(media_kind_for_path("/p/a.mp4"), SourceKind::Video);
    assert_eq!(media_kind_for_path("/p/a.bin"), SourceKind::Unknown);
}

#[test]
fn segments() {
    assert!(str_has_segment("/p/node_modules/x/i.js", "node_modules"));
    assert!(!str_has_segment("/p/node_modules_fake/i.js", "node_modules"));
    assert!(!str_has_segment("/p/src/i.js", "node_modules"));
    assert!(str_has_segment("/node_modules", "node_modules"));
}

#[test]
fn string_equality() {
    assert!(str_eq("abc", "abc"));
    assert!(!str_eq("abc", "abd"));
    assert!(!str_eq("abc", "ab"));
}
