use gear_microkit::codegen::select_proto_files;
use gear_microkit::codegen::is_proto_file;
use gear_microkit::server::{server_address, tokio_metrics_enabled};
use std::path::Path;

#[test]
fn server_address_defaults() {
    assert_eq!(server_address(None), "0.0.0.0:8080");
    assert_eq!(server_address(Some("127.0.0.1:9000".to_string())), "127.0.0.1:9000");
}

#[test]
fn tokio_metrics_need_exactly_one() {
    assert!(tokio_metrics_enabled(Some("1")));
    assert!(!tokio_metrics_enabled(Some("true")));
    assert!(!tokio_metrics_enabled(Some("11")));
    assert!(!tokio_metrics_enabled(Some("")));
    assert!(!tokio_metrics_enabled(None));
}

#[test]
fn proto_files_are_chosen_by_extension() {
    for name in ["a.proto", "a.b.proto", "..proto", ".proto", "proto", "a.protos", "a.PROTO", "..", ".", "a.", "", "x.proto.bak"] {
        let expected = Path::new(name).extension().and_then(|e| e.to_str()) == Some("proto");
        assert_eq!(is_proto_file(name), expected, "{name:?}");
    }
    assert!(is_proto_file("hello.proto"));
    assert!(!is_proto_file(".proto"));
}

#[test]
fn proto_files_are_selected_in_listing_order() {
    let listing = vec![
        (1, "a.proto".to_string(), true),
        (2, "dir.proto".to_string(), false),
        (3, "b.txt".to_string(), true),
        (4, ".proto".to_string(), true),
        (5, "c.proto".to_string(), true),
    ];
    assert_eq!(select_proto_files(listing), vec![1, 5]);
}

#[test]
fn added_directories_and_other_files_change_nothing() {
    let base = vec![("a", "a.proto".to_string(), true), ("b", "b.proto".to_string(), true)];
    let mut more = base.clone();
    more.insert(0, ("d", "d.proto".to_string(), false));
    more.insert(2, ("x", "x.rs".to_string(), true));
    more.push(("y", "y.PROTO".to_string(), true));
    assert_eq!(select_proto_files(more), select_proto_files(base));
    assert_eq!(select_proto_files(Vec::<((), String, bool)>::new()), vec![]);
}
