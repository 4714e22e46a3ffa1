use plugin_memory::ffm::{
    datafusion_allocate_buffer, datafusion_get_version, datafusion_init_runtime,
    parquet_allocate_buffer, parquet_get_filtered_bytes_used,
};
use plugin_memory::ffm_safe::{expand, ffm_safe, settle_expansion, FfmSafeAttr};
use plugin_memory::syntax::{AttrToken, BridgeFn, Lexer, TokenKind};

const FUNCTION: &str = "#[no_mangle] pub fn f(x: i64) -> i64 { Ok(x) }";

fn token(kind: TokenKind, text: &str) -> AttrToken {
    AttrToken { kind, text: text.to_string(), joint: false }
}

fn parse(attr: &str) -> Result<Option<String>, String> {
    FfmSafeAttr::parse(&mut Lexer::new(), attr).map(|attr| attr.plugin_path)
}

fn item() -> BridgeFn {
    BridgeFn {
        attrs: vec!["#[no_mangle]".to_string(), "#[inline]".to_string()],
        vis: "pub".to_string(),
        sig: "fn f(x: i64) -> i64".to_string(),
        name: "f".to_string(),
        body: "{ Ok(x) }".to_string(),
    }
}

#[test]
fn buffers_tell_who_made_them() {
    assert_eq!(parquet_allocate_buffer(4), vec![0xAA; 4]);
    assert_eq!(datafusion_allocate_buffer(3), vec![0xDF; 3]);
    assert_eq!(parquet_allocate_buffer(0).len(), 0);
    assert_eq!(parquet_allocate_buffer(1048576).len(), 1048576);
}

#[test]
fn the_engine_says_its_version() {
    assert_eq!(
        datafusion_get_version(),
        "{\"version\": \"52.4.0\", \"codecs\": [\"CsvDataSourceCodec\"]}\0"
    );
    assert_eq!(datafusion_init_runtime(4), 0);
    assert_eq!(datafusion_init_runtime(0), -1);
    assert_eq!(datafusion_init_runtime(-3), -1);
    assert_eq!(parquet_get_filtered_bytes_used("/data/indices"), 0);
}

#[test]
fn an_attribute_may_name_a_plugin() {
    assert_eq!(parse(""), Ok(None));
    assert_eq!(parse("plugin = crate::PLUGIN_ID"), Ok(Some("crate :: PLUGIN_ID".to_string())));
    assert_eq!(parse("plugin=P"), Ok(Some("P".to_string())));
}

#[test]
fn an_attribute_that_cannot_be_used_is_named() {
    let refused = |attr: &str| parse(attr).unwrap_err();
    assert_eq!(refused("= P"), "expected identifier");
    assert_eq!(refused("1"), "expected identifier");
    assert_eq!(refused("fn = P"), "expected identifier, found keyword `fn`");
    assert_eq!(refused("plug = P"), "expected `plugin`");
    assert_eq!(refused("plugin"), "expected `=`");
    assert_eq!(refused("plugin + P"), "expected `=`");
    assert!(parse("plugin = 1").is_err());
    assert!(parse("plugin =").is_err());
    assert!(parse("plugin = P, x").is_err());
    assert!(parse("plugin = )").is_err());
}

#[test]
fn an_attribute_is_settled_by_what_was_read() {
    let tokens = vec![
        token(TokenKind::Word, "plugin"),
        token(TokenKind::Punct, "="),
        token(TokenKind::Word, "a"),
    ];
    let settle = |ident: Result<(), String>, path: Result<(), String>| {
        FfmSafeAttr::settle(&tokens, &ident, &path).map(|attr| attr.plugin_path)
    };
    assert_eq!(settle(Ok(()), Ok(())), Ok(Some("a".to_string())));
    assert_eq!(settle(Ok(()), Err("why".to_string())), Err("why".to_string()));
    let first = Err("first".to_string());
    assert_eq!(settle(first.clone(), Err("second".to_string())).unwrap_err(), "first");
}

#[test]
fn functions_are_wrapped() {
    assert_eq!(
        expand(&FfmSafeAttr { plugin_path: None }, &item()),
        "#[no_mangle] #[inline] pub fn f(x: i64) -> i64 { \
         native_bridge_common::error::ffm_wrap(\"f\", \
         ::std::panic::AssertUnwindSafe(|| -> ::std::result::Result<i64, ::std::string::String> \
         { Ok(x) }),) }"
    );
    let attr = FfmSafeAttr { plugin_path: Some("P".to_string()) };
    assert_eq!(
        settle_expansion(attr, Ok(item())).unwrap(),
        "#[no_mangle] #[inline] pub fn f(x: i64) -> i64 { \
         native_bridge_common::allocator::bind_thread(P.get().expect(\"plugin not registered: \
         ensure init is called first\")); native_bridge_common::error::ffm_wrap(\"f\", \
         ::std::panic::AssertUnwindSafe(|| -> ::std::result::Result<i64, ::std::string::String> \
         { Ok(x) }),) }"
    );
}

#[test]
fn functions_are_read_and_wrapped() {
    let expanded = ffm_safe(&mut Lexer::new(), "plugin = P", FUNCTION).unwrap();
    assert_eq!(
        expanded,
        "# [no_mangle] pub fn f (x : i64) -> i64 { \
         native_bridge_common::allocator::bind_thread(P.get().expect(\"plugin not registered: \
         ensure init is called first\")); native_bridge_common::error::ffm_wrap(\"f\", \
         ::std::panic::AssertUnwindSafe(|| -> ::std::result::Result<i64, ::std::string::String> \
         { Ok (x) }),) }"
    );
    let wrapped = syn::parse_str::<syn::ItemFn>(&expanded).unwrap();
    assert_eq!(wrapped.sig.ident.to_string(), "f");
    assert_eq!(wrapped.attrs.len(), 1);
    assert_eq!(wrapped.block.stmts.len(), 2);
}

#[test]
fn the_attribute_is_refused_before_the_function() {
    let expand = |attr: &str, item: &str| ffm_safe(&mut Lexer::new(), attr, item);
    assert_eq!(expand("x", "struct S;").unwrap_err(), "expected `plugin`");
    assert!(expand("", "struct S;").is_err());
    assert!(expand("", FUNCTION).is_ok());
}
