use grok_core::text::split_lines;
use grok_core::proto_build::{
    check_protos_relative, include_search_path, parse_dependency_output,
    protoc_dependency_args, protoc_include_candidate, reject_absolute_protos,
    rerun_if_changed_line, DepfileError, DescriptorSetPlan, XaiProtoBuilder,
};

#[test]
fn builder_flags_and_descriptor_plan() {
    let b = XaiProtoBuilder::new();
    assert_eq!(b.descriptor_set_plan(), DescriptorSetPlan::NotNeeded);
    let b = b.gen_pbjson();
    assert!(b.gen_pbjson);
    assert_eq!(b.descriptor_set_plan(), DescriptorSetPlan::Temporary);
    let b = b
        .pbjson_ignore_unknown_fields()
        .pbjson_preserve_proto_field_names()
        .file_descriptor_set_path("out/fds.bin");
    assert!(b.pbjson_ignore_unknown_fields);
    assert!(b.pbjson_preserve_proto_field_names);
    assert_eq!(
        b.descriptor_set_plan(),
        DescriptorSetPlan::Given("out/fds.bin".to_string())
    );
}

#[test]
fn protoc_arguments_in_order() {
    let includes = vec!["proto".to_string(), "third_party".to_string()];
    let args = protoc_dependency_args(
        "/tmp/x/protoc-deps.d",
        "/tmp/x/protoc-descriptor.pb",
        Some("/opt/protoc/include"),
        &includes,
        "proto/a.proto",
    );
    assert_eq!(
        args,
        vec![
            "--dependency_out=/tmp/x/protoc-deps.d",
            "--descriptor_set_out=/tmp/x/protoc-descriptor.pb",
            "-I/opt/protoc/include",
            "-Iproto",
            "-Ithird_party",
            "proto/a.proto",
        ]
    );
    let args = protoc_dependency_args("d", "o", None, &vec![], "a.proto");
    assert_eq!(args, vec!["--dependency_out=d", "--descriptor_set_out=o", "a.proto"]);
}

#[test]
fn include_search_path_puts_well_known_first() {
    let includes = vec!["proto".to_string()];
    assert_eq!(
        include_search_path(Some("/opt/protoc/include"), &includes),
        vec!["/opt/protoc/include", "proto"]
    );
    assert_eq!(include_search_path(None, &includes), vec!["proto"]);
}

#[test]
fn rerun_line() {
    assert_eq!(
        rerun_if_changed_line("proto/a.proto"),
        "cargo:rerun-if-changed=proto/a.proto"
    );
}

#[test]
fn lines_follow_str_lines() {
    for text in ["", "a", "a\n", "a\nb", "a\r\nb\r\n", "a\n\nb", "a\r", "\n", "x\r\ry\n"] {
        let expected: Vec<String> = text.lines().map(|l| l.to_string()).collect();
        assert_eq!(split_lines(text), expected, "{text:?}");
    }
}

#[test]
fn dependency_file_is_read() {
    let output = "/tmp/x/desc.pb: proto/a.proto \\\n  proto/b.proto \\\n  /usr/include/google/protobuf/timestamp.proto\n";
    let deps = parse_dependency_output(output, "/tmp/x/desc.pb").unwrap();
    // Each line is trimmed before its continuation backslash is removed, so the
    // space in front of the backslash stays.
    assert_eq!(deps, vec!["proto/a.proto ", "proto/b.proto "]);
    let output = "/tmp/x/desc.pb: proto/a.proto\\\n  proto/b.proto\n";
    let deps = parse_dependency_output(output, "/tmp/x/desc.pb").unwrap();
    assert_eq!(deps, vec!["proto/a.proto", "proto/b.proto"]);
}

#[test]
fn dependency_file_single_line() {
    let deps = parse_dependency_output("d.pb: include/sample.proto\n", "d.pb").unwrap();
    assert_eq!(deps, vec!["include/sample.proto"]);
}

#[test]
fn dependency_file_keeps_empty_lines() {
    let deps = parse_dependency_output("d.pb: a.proto\n\nb.proto", "d.pb").unwrap();
    assert_eq!(deps, vec!["a.proto", "", "b.proto"]);
}

#[test]
fn dependency_file_errors() {
    assert_eq!(parse_dependency_output("", "d.pb"), Err(DepfileError::Empty));
    assert_eq!(
        parse_dependency_output("other.pb: a.proto\n", "d.pb"),
        Err(DepfileError::MissingPrefix {
            prefix: "d.pb:".to_string()
        })
    );
}

#[test]
fn absolute_protos_are_rejected() {
    let protos = vec!["a.proto".to_string(), "/abs/b.proto".to_string(), "/c.proto".to_string()];
    assert_eq!(
        reject_absolute_protos(&protos, &vec![false, true, true]),
        Err("Absolute paths are not allowed: /abs/b.proto".to_string())
    );
    assert_eq!(reject_absolute_protos(&protos, &vec![false, false, false]), Ok(()));
    assert_eq!(check_protos_relative(&vec!["a.proto".to_string()]), Ok(()));
    let unix_absolute = check_protos_relative(&protos);
    assert!(std::path::Path::new("/abs/b.proto").is_absolute() == unix_absolute.is_err());
}

#[test]
fn protoc_include_candidate_is_beside_bin() {
    let candidate = protoc_include_candidate("/opt/protoc/bin/protoc").unwrap();
    assert_eq!(
        std::path::PathBuf::from(candidate),
        std::path::Path::new("/opt/protoc").join("include")
    );
    assert_eq!(protoc_include_candidate("protoc"), None);
}
