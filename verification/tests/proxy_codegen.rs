use riversd::proxy_codegen::{
    build_broker_proxy_script, build_proxy_script, default_literal, OperationDescriptor, Param,
    ParamType,
};

#[test]
fn br2_t_proxy_script_emits_publish_with_destination_check() {
    let s = build_broker_proxy_script("kafka");
    assert!(s.starts_with("(function(){"));
    assert!(s.ends_with(")()"));
    assert!(s.contains("proxy.publish=function(msg)"));
    assert!(s.contains("'destination' is required"));
    assert!(s.contains("'payload' is required"));
    assert!(s.contains("Rivers.__brokerPublish(\"kafka\""));
}

#[test]
fn br2_t_proxy_script_escapes_datasource_name() {
    let s = build_broker_proxy_script(r#"weird"name"#);
    assert!(s.contains(r#"\""#), "escaping: {s}");
}

fn read_file() -> OperationDescriptor {
    OperationDescriptor {
        name: "readFile".into(),
        params: vec![
            Param::required("path", ParamType::String),
            Param::optional("encoding", ParamType::String, "utf-8"),
        ],
    }
}

fn find() -> OperationDescriptor {
    OperationDescriptor {
        name: "find".into(),
        params: vec![
            Param::required("pattern", ParamType::String),
            Param::optional("max_results", ParamType::Integer, "1000"),
        ],
    }
}

#[test]
fn script_starts_and_ends_with_iife_wrapper() {
    let script = build_proxy_script("fs", &[read_file()]);
    assert!(script.starts_with("(function(){"));
    assert!(script.ends_with(")()"));
    assert!(script.contains("return proxy;"));
}

#[test]
fn required_string_param_emits_undefined_and_typeof_guards() {
    let script = build_proxy_script("fs", &[read_file()]);
    assert!(script.contains("path===undefined"));
    assert!(script.contains("'path' is required"));
    assert!(script.contains("typeof path!==\"string\""));
    assert!(script.contains("'path' must be a string"));
}

#[test]
fn optional_string_param_injects_string_default() {
    let script = build_proxy_script("fs", &[read_file()]);
    assert!(script.contains("encoding===undefined){encoding=\"utf-8\";"));
}

#[test]
fn optional_integer_param_injects_numeric_default_without_quotes() {
    let script = build_proxy_script("fs", &[find()]);
    assert!(script.contains("max_results===undefined){max_results=1000;"));
    assert!(script.contains("Number.isInteger"));
}

#[test]
fn dispatch_call_passes_datasource_and_operation_names() {
    let script = build_proxy_script("fs", &[read_file()]);
    assert!(script.contains("Rivers.__directDispatch(\"fs\",\"readFile\""));
}

#[test]
fn multiple_ops_all_attached_to_proxy() {
    let script = build_proxy_script("fs", &[read_file(), find()]);
    assert!(script.contains("proxy.readFile"));
    assert!(script.contains("proxy.find"));
}

#[test]
fn datasource_name_with_quote_is_escaped() {
    let script = build_proxy_script(r#"weird"name"#, &[read_file()]);
    assert!(script.contains(r#"\""#));
}

#[test]
fn method_text_exact() {
    let op = OperationDescriptor {
        name: "stat".into(),
        params: vec![
            Param { name: "p".into(), param_type: ParamType::Boolean, required: false, default_value: None },
            Param::required("q", ParamType::Any),
        ],
    };
    let script = build_proxy_script("d", &[op]);
    assert_eq!(
        script,
        "(function(){const proxy={};proxy.stat=function(p,q){\
if(p!==undefined&&typeof p!==\"boolean\"){throw new TypeError(\"stat: 'p' must be a boolean\");}\
if(q===undefined){throw new TypeError(\"stat: 'q' is required\");}\
return Rivers.__directDispatch(\"d\",\"stat\",{p:p,q:q});};return proxy;})()"
    );
}

#[test]
fn default_literals_by_type() {
    assert_eq!(default_literal(ParamType::String, "a\"b\\c\nd"), "\"a\\\"b\\\\c\\nd\"");
    assert_eq!(default_literal(ParamType::Float, "1.5"), "1.5");
    assert_eq!(default_literal(ParamType::Any, "{}"), "{}");
}
