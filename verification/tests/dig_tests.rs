use auto_span::dig::{find_source_path, is_contain_target_func, strip_attrs, Attr, FnItem, SourceFile};
use quote::ToTokens;

fn attr_of(a: &syn::Attribute) -> Attr {
    let path = a
        .path()
        .segments
        .iter()
        .map(|s| s.ident.to_string())
        .collect();
    let is_name_value = matches!(a.meta, syn::Meta::NameValue(_));
    let text = a.to_token_stream().to_string();
    Attr {
        path,
        is_name_value,
        text,
    }
}

fn fn_item_of(f: &syn::ItemFn) -> FnItem {
    let name = f.sig.ident.to_string();
    let attrs = f.attrs.iter().map(attr_of).collect();
    let mut bare = f.clone();
    bare.attrs = Vec::new();
    let rest = bare.to_token_stream().to_string();
    FnItem { name, attrs, rest }
}

fn file_of(f: &syn::File) -> SourceFile {
    let fns = f
        .items
        .iter()
        .filter_map(|item| match item {
            syn::Item::Fn(func) => Some(fn_item_of(func)),
            _ => None,
        })
        .collect();
    SourceFile {
        path: String::new(),
        fns,
    }
}

#[test]
fn test_is_contain_target_func() {
    let target_func = r#"#[get("/")] pub fn a() -> &'static str { "hello" }"#;
    let func_item = syn::parse_str::<syn::ItemFn>(target_func).unwrap();
    let target = fn_item_of(&func_item);

    let target_file = r#"
use actix_web::get;

fn b() -> i32 { 1 }

/// do a
/// this is comment
#[auto_span]
#[get("/")]
pub fn a() -> &'static str {
    "hello"
}
"#;
    let file = file_of(&syn::parse_file(target_file).unwrap());
    assert!(is_contain_target_func(
        &file,
        &func_item.sig.ident.to_string(),
        &target
    ));
}

#[test]
fn strip_attrs_no_option() {
    let target_func = r#"
/// document
#[auto_span]
pub fn a() -> &'static str {
    "hello"
}"#;
    let func_item = syn::parse_str::<syn::ItemFn>(target_func).unwrap();
    let attrs: Vec<Attr> = func_item.attrs.iter().map(attr_of).collect();
    assert!(strip_attrs(&attrs).unwrap().is_empty());
}

#[test]
fn strip_attrs_with_option() {
    let target_func = r#"#[auto_span(debug)] pub fn a() -> &'static str { "hello" }"#;
    let func_item = syn::parse_str::<syn::ItemFn>(target_func).unwrap();
    let attrs: Vec<Attr> = func_item.attrs.iter().map(attr_of).collect();
    assert!(strip_attrs(&attrs).unwrap().is_empty());
}

#[test]
fn strip_attrs_without_annotation_is_none() {
    let target_func = r#"#[get("/")] pub fn a() -> i32 { 1 }"#;
    let func_item = syn::parse_str::<syn::ItemFn>(target_func).unwrap();
    let attrs: Vec<Attr> = func_item.attrs.iter().map(attr_of).collect();
    assert!(strip_attrs(&attrs).is_none());
}

#[test]
fn find_source_path_takes_first_match() {
    let target_func = r#"#[auto_span] fn a() -> i32 { 1 }"#;
    let func_item = syn::parse_str::<syn::ItemFn>(target_func).unwrap();
    let mut target = fn_item_of(&func_item);
    // the macro input has its own annotation already consumed
    target.attrs.clear();

    let with_fn = r#"
#[auto_span]
fn a() -> i32 { 1 }
"#;
    let without_fn = "fn b() -> i32 { 2 }\n";
    let mut f1 = file_of(&syn::parse_file(without_fn).unwrap());
    f1.path = String::from("src/other.rs");
    let mut f2 = file_of(&syn::parse_file(with_fn).unwrap());
    f2.path = String::from("src/main.rs");
    let mut f3 = file_of(&syn::parse_file(with_fn).unwrap());
    f3.path = String::from("src/later.rs");

    let files = vec![f1, f2, f3];
    let name = String::from("a");
    assert_eq!(
        find_source_path(&files, &name, &target),
        Some(String::from("src/main.rs"))
    );
    let missing = String::from("zz");
    assert_eq!(find_source_path(&files, &missing, &target), None);
}
