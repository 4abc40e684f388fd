use auto_span::attr_options::{AttrVisitor, ConfigError, Meta, MetaLit, TracerName};

fn flag(name: &str) -> Meta {
    Meta::Path {
        path: vec![name.to_string()],
    }
}

fn kv(name: &str, value: &str) -> Meta {
    Meta::NameValue {
        path: vec![name.to_string()],
        lit: MetaLit::Str {
            value: value.to_string(),
        },
    }
}

#[test]
fn options_default() {
    let v = AttrVisitor::new();
    assert!(v.opt.func_span);
    assert!(!v.opt.all_await);
    assert!(!v.opt.debug);
    assert!(v.opt.name_def.is_none());
}

#[test]
fn options_flags() {
    let mut v = AttrVisitor::new();
    assert!(v.visit_metas(&vec![flag("debug"), flag("no_func_span"), flag("all_await")]).is_ok());
    assert!(v.opt.debug);
    assert!(!v.opt.func_span);
    assert!(v.opt.all_await);
}

#[test]
fn options_name_literal() {
    let mut v = AttrVisitor::new();
    assert!(v.visit_meta(&kv("name", "my-service")).is_ok());
    assert_eq!(
        v.opt.name_def,
        Some(TracerName::LitStr {
            source: String::from("my-service")
        })
    );
}

#[test]
fn options_name_def_source() {
    let mut v = AttrVisitor::new();
    assert!(v.visit_meta(&kv("name_def", "TRACE_NAME")).is_ok());
    assert_eq!(
        v.opt.name_def,
        Some(TracerName::Source {
            source: String::from("TRACE_NAME")
        })
    );
}

#[test]
fn options_unknown_flag_is_error() {
    let mut v = AttrVisitor::new();
    let r = v.visit_meta(&flag("debgu"));
    assert_eq!(
        r,
        Err(ConfigError::UnknownOption {
            path: vec![String::from("debgu")]
        })
    );
}

#[test]
fn options_unknown_key_value_is_error() {
    let mut v = AttrVisitor::new();
    let r = v.visit_meta(&kv("tracer", "x"));
    assert_eq!(
        r,
        Err(ConfigError::UnknownOption {
            path: vec![String::from("tracer")]
        })
    );
}

#[test]
fn options_conflicting_names_is_error() {
    let mut v = AttrVisitor::new();
    assert!(v.visit_meta(&kv("name", "a")).is_ok());
    let r = v.visit_meta(&kv("name_def", "b"));
    assert_eq!(
        r,
        Err(ConfigError::ConflictingName {
            path: vec![String::from("name_def")]
        })
    );
}

#[test]
fn options_non_string_value_is_error() {
    let mut v = AttrVisitor::new();
    let r = v.visit_meta(&Meta::NameValue {
        path: vec![String::from("name")],
        lit: MetaLit::Other,
    });
    assert_eq!(
        r,
        Err(ConfigError::UnexpectedLiteral {
            path: vec![String::from("name")]
        })
    );
}

#[test]
fn options_stop_at_first_error() {
    let mut v = AttrVisitor::new();
    let r = v.visit_metas(&vec![flag("debug"), flag("nope"), flag("all_await")]);
    assert_eq!(
        r,
        Err(ConfigError::UnknownOption {
            path: vec![String::from("nope")]
        })
    );
    assert!(v.opt.debug);
    assert!(!v.opt.all_await);
}

#[test]
fn options_nested_list() {
    let mut v = AttrVisitor::new();
    let m = Meta::List {
        path: vec![String::from("auto_span")],
        items: vec![flag("debug"), flag("all_await")],
    };
    assert!(v.visit_meta(&m).is_ok());
    assert!(v.opt.debug);
    assert!(v.opt.all_await);
}
