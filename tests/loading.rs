use stardust::loader::{
    redirect_target, ExtendedModuleLoader, LoadError, ModuleKind, RequestedKind, SourceKind,
};
use stardust::specifier::Specifier;
use stardust::tarball::strip_top_segment;

fn url(s: &str) -> Specifier {
    Specifier::parse(s).unwrap()
}

#[test]
fn schemes_pick_handlers() {
    let l = ExtendedModuleLoader;
    assert_eq!(l.source_kind(&url("https://e.com/a.js")), Ok(SourceKind::Network));
    assert_eq!(l.source_kind(&url("http://e.com/a.js")), Ok(SourceKind::Network));
    assert_eq!(l.source_kind(&url("data:text/plain,x")), Ok(SourceKind::Data));
    assert_eq!(l.source_kind(&url("file:///tmp/a.js")), Ok(SourceKind::File));
}

#[test]
fn unsupported_scheme_is_refused() {
    let l = ExtendedModuleLoader;
    assert_eq!(
        l.source_kind(&url("ftp://example.com/file.js")),
        Err(LoadError::UnsupportedScheme("ftp".to_string()))
    );
}

#[test]
fn json_file_without_attribute_is_refused() {
    let l = ExtendedModuleLoader;
    assert_eq!(
        l.module_kind(SourceKind::File, Some("json"), &RequestedKind::Unset),
        Err(LoadError::JsonWithoutAttribute)
    );
    assert_eq!(
        l.module_kind(SourceKind::File, Some("JSON"), &RequestedKind::Text),
        Err(LoadError::JsonWithoutAttribute)
    );
}

#[test]
fn json_file_with_attribute_loads_as_json() {
    let l = ExtendedModuleLoader;
    let m = l
        .finish(SourceKind::File, b"{}".to_vec(), None, Some("json"), &RequestedKind::Json)
        .unwrap();
    assert_eq!(m.kind, ModuleKind::Json);
    assert_eq!(m.bytes, b"{}".to_vec());
    assert_eq!(m.redirect, None);
}

#[test]
fn file_kinds_by_extension_and_request() {
    let l = ExtendedModuleLoader;
    assert_eq!(l.module_kind(SourceKind::File, Some("wasm"), &RequestedKind::Unset), Ok(ModuleKind::Wasm));
    assert_eq!(l.module_kind(SourceKind::File, Some("js"), &RequestedKind::Unset), Ok(ModuleKind::JavaScript));
    assert_eq!(l.module_kind(SourceKind::File, Some("txt"), &RequestedKind::Text), Ok(ModuleKind::Text));
    assert_eq!(l.module_kind(SourceKind::File, Some("bin"), &RequestedKind::Bytes), Ok(ModuleKind::Bytes));
    assert_eq!(
        l.module_kind(SourceKind::File, Some("css"), &RequestedKind::Other("css".to_string())),
        Ok(ModuleKind::Other("css".to_string()))
    );
    assert_eq!(l.module_kind(SourceKind::File, None, &RequestedKind::Text), Ok(ModuleKind::Text));
    assert_eq!(l.module_kind(SourceKind::File, None, &RequestedKind::Unset), Ok(ModuleKind::JavaScript));
}

#[test]
fn network_kinds_follow_request() {
    let l = ExtendedModuleLoader;
    assert_eq!(l.module_kind(SourceKind::Network, None, &RequestedKind::Unset), Ok(ModuleKind::JavaScript));
    assert_eq!(l.module_kind(SourceKind::Network, Some("json"), &RequestedKind::Unset), Ok(ModuleKind::JavaScript));
    assert_eq!(l.module_kind(SourceKind::Data, None, &RequestedKind::Json), Ok(ModuleKind::Json));
    assert_eq!(
        l.module_kind(SourceKind::Network, None, &RequestedKind::Other("css".to_string())),
        Err(LoadError::UnsupportedKind)
    );
    assert_eq!(l.module_kind(SourceKind::Network, None, &RequestedKind::Text), Err(LoadError::UnsupportedKind));
    assert_eq!(l.module_kind(SourceKind::Data, None, &RequestedKind::Bytes), Err(LoadError::UnsupportedKind));
}

#[test]
fn finish_keeps_redirect() {
    let l = ExtendedModuleLoader;
    let m = l
        .finish(
            SourceKind::Network,
            vec![1, 2, 3],
            Some("https://cdn.e.com/a.js".to_string()),
            None,
            &RequestedKind::Unset,
        )
        .unwrap();
    assert_eq!(m.kind, ModuleKind::JavaScript);
    assert_eq!(m.redirect.as_deref(), Some("https://cdn.e.com/a.js"));
}

#[test]
fn data_url_decodes_inline_payload() {
    let l = ExtendedModuleLoader;
    assert_eq!(l.decode_data(&url("data:text/plain,hello")), Ok(b"hello".to_vec()));
    assert_eq!(l.decode_data(&url("data:text/plain;base64,aGk=")), Ok(b"hi".to_vec()));
}

#[test]
fn data_url_errors() {
    let l = ExtendedModuleLoader;
    assert_eq!(l.decode_data(&url("data:text/plain")), Err(LoadError::InvalidDataUrl));
    assert_eq!(l.decode_data(&url("data:;base64,@@@")), Err(LoadError::UndecodableDataUrl));
}

#[test]
fn redirect_only_when_served_elsewhere() {
    assert_eq!(redirect_target("https://a/x", "https://a/x"), None);
    assert_eq!(redirect_target("https://a/x", "https://b/x"), Some("https://b/x".to_string()));
}

#[test]
fn archive_root_is_stripped() {
    assert_eq!(strip_top_segment("package/index.js"), "index.js");
    assert_eq!(strip_top_segment("package/lib/a.js"), "lib/a.js");
    assert_eq!(strip_top_segment("package//x.js"), "x.js");
    assert_eq!(strip_top_segment("package"), "");
    assert_eq!(strip_top_segment("lib/index.js"), "index.js");
    assert_eq!(strip_top_segment("node/bin/tool"), "bin/tool");
    assert_eq!(strip_top_segment("package/"), "");
    assert_eq!(strip_top_segment(""), "");
}
