//! The `jit_export` attribute's decisions: which functions it accepts and
//! the helper module it plans for them.

use lower_ir_utils::export::{
    plan_jit_export, AbiSyntax, ExportError, FnArgSyntax, FnSignature, OutputSyntax, ReturnShape,
};

fn sig(name: &str, params: &[&str], output: OutputSyntax) -> FnSignature {
    FnSignature {
        name: name.to_string(),
        is_async: false,
        abi: AbiSyntax::Unspecified,
        inputs: params.iter().map(|t| FnArgSyntax::Typed(t.to_string())).collect(),
        output,
    }
}

// `pub fn add(a: i64, b: i64) -> i64`, `pub fn lookup_len(_data: *const u8,
// len: usize) -> i64`, `pub fn record(_x: i64)`.
#[test]
fn name_constants_are_reachable() {
    let add = plan_jit_export(&sig("add", &["i64", "i64"], OutputSyntax::Other("i64".into()))).unwrap();
    let lookup_len =
        plan_jit_export(&sig("lookup_len", &["*const u8", "usize"], OutputSyntax::Other("i64".into())))
            .unwrap();
    let record = plan_jit_export(&sig("record", &["i64"], OutputSyntax::Default)).unwrap();
    assert_eq!(add.name_const, "add");
    assert_eq!(lookup_len.name_const, "lookup_len");
    assert_eq!(record.name_const, "record");
}

// `async fn fetch(a: i64) -> i64 { a }` is refused with an error about
// `async fn`.
#[test]
fn rejects_async_fn() {
    let mut s = sig("fetch", &["i64"], OutputSyntax::Other("i64".into()));
    s.is_async = true;
    let out = plan_jit_export(&s);
    assert!(matches!(out, Err(ExportError::AsyncFn)), "expected an error, got: {out:?}");
    let msg = out.unwrap_err().message();
    assert!(msg.contains("async fn"), "error should mention `async fn`: {msg}");
}

// `fn add(a: i64, b: i64) -> i64 { a + b }` is accepted and gets the
// helper module `add_jit`.
#[test]
fn expands_plain_fn() {
    let out = plan_jit_export(&sig("add", &["i64", "i64"], OutputSyntax::Other("i64".into())));
    assert!(out.is_ok(), "should not reject a plain fn: {out:?}");
    let plan = out.unwrap();
    assert_eq!(plan.helper_mod, "add_jit", "expected the helper module: {plan:?}");
}

#[test]
fn plan_names_call_arguments_and_injects_c_abi() {
    let plan = plan_jit_export(&sig("add", &["i64", "i64"], OutputSyntax::Other("i64".into()))).unwrap();
    assert!(plan.inject_extern_c);
    assert_eq!(plan.param_types, vec!["i64".to_string(), "i64".to_string()]);
    assert_eq!(plan.arg_idents, vec!["p0".to_string(), "p1".to_string()]);
    assert_eq!(plan.arg_generics, vec!["A0".to_string(), "A1".to_string()]);
    assert!(matches!(plan.return_shape, ReturnShape::Single(ref t) if t == "i64"));
    assert_eq!(plan.fn_name, "add");
}

#[test]
fn receivers_are_skipped_and_unit_returns_the_inst() {
    let mut s = sig("m", &["u8"], OutputSyntax::EmptyTuple);
    s.inputs.insert(0, FnArgSyntax::Receiver);
    let plan = plan_jit_export(&s).unwrap();
    assert_eq!(plan.param_types, vec!["u8".to_string()]);
    assert_eq!(plan.arg_idents, vec!["p0".to_string()]);
    assert!(matches!(plan.return_shape, ReturnShape::Inst));
}

#[test]
fn tuple_return_is_multi() {
    let plan = plan_jit_export(&sig("divmod", &["i64", "i64"], OutputSyntax::Tuple("(i64, i64)".into())))
        .unwrap();
    assert!(matches!(plan.return_shape, ReturnShape::Multi(ref t) if t == "(i64, i64)"));
}

#[test]
fn explicit_c_abi_is_kept_and_other_abis_are_refused() {
    let mut s = sig("f", &[], OutputSyntax::Default);
    s.abi = AbiSyntax::Extern(Some("C".into()));
    let plan = plan_jit_export(&s).unwrap();
    assert!(!plan.inject_extern_c);

    s.abi = AbiSyntax::Extern(None);
    assert!(!plan_jit_export(&s).unwrap().inject_extern_c);

    s.abi = AbiSyntax::Extern(Some("system".into()));
    let err = plan_jit_export(&s).unwrap_err();
    assert!(matches!(err, ExportError::NonCAbi(ref n) if n == "system"));
    assert_eq!(err.message(), "#[jit_export] requires the C ABI, found extern \"system\"");
}

#[test]
fn async_is_refused_before_the_abi_is_looked_at() {
    let mut s = sig("f", &[], OutputSyntax::Default);
    s.is_async = true;
    s.abi = AbiSyntax::Extern(Some("system".into()));
    assert!(matches!(plan_jit_export(&s), Err(ExportError::AsyncFn)));
}

// `fn named_thing(_: i64) -> i64`
#[test]
fn name_constant_matches_fn_name() {
    let plan =
        plan_jit_export(&sig("named_thing", &["i64"], OutputSyntax::Other("i64".into()))).unwrap();
    assert_eq!(plan.name_const, "named_thing");
}
