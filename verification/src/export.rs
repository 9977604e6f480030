//! The decisions behind the `jit_export` attribute: which functions it
//! accepts, and the names, ABI and call shape of the helper module it
//! generates next to an accepted function.
//!
//! For `fn foo(p1: T1, p2: T2) -> R` the generated module is `foo_jit`,
//! its `NAME` constant is `"foo"`, its `call` helper takes one argument
//! `pI: AI` per parameter, and the function itself gets `extern "C"` when
//! it names no ABI.

use vstd::prelude::*;

use crate::sim::dump::strings_view;
use crate::text::{dec_nat, push_dec_u64, push_str};

verus! {

/// A parameter of the annotated function as written: `self` in some form,
/// or a typed pattern (its type's source text).
#[derive(Clone, Debug)]
pub enum FnArgSyntax {
    Receiver,
    Typed(String),
}

/// The ABI written on the annotated function: none at all, or `extern`
/// with an optional name (`extern fn` alone means `"C"`).
#[derive(Clone, Debug)]
pub enum AbiSyntax {
    Unspecified,
    Extern(Option<String>),
}

/// The return type as written: absent, `()`, another tuple type, or any
/// other type (source text).
#[derive(Clone, Debug)]
pub enum OutputSyntax {
    Default,
    EmptyTuple,
    Tuple(String),
    Other(String),
}

/// The parts of the annotated function's signature the attribute reads.
#[derive(Clone, Debug)]
pub struct FnSignature {
    pub name: String,
    pub is_async: bool,
    pub abi: AbiSyntax,
    pub inputs: Vec<FnArgSyntax>,
    pub output: OutputSyntax,
}

/// What the generated `call` helper hands back: the call instruction when
/// there is no result (`Inst`) or a tuple result whose real result count
/// only the ABI mapping knows (`Multi`), or the single result value
/// (`Single`).
#[derive(Clone, Debug)]
pub enum ReturnShape {
    Inst,
    Single(String),
    Multi(String),
}

/// Everything the generated helper module is built from.
#[derive(Clone, Debug)]
pub struct ExportPlan {
    /// The annotated function's name.
    pub fn_name: String,
    /// `<name>_jit`, the helper module.
    pub helper_mod: String,
    /// The value of the module's `NAME` constant.
    pub name_const: String,
    /// Whether `extern "C"` is added to the function.
    pub inject_extern_c: bool,
    /// The typed parameters' types, in order (receivers skipped).
    pub param_types: Vec<String>,
    /// `p0, p1, ...`, the `call` helper's argument names.
    pub arg_idents: Vec<String>,
    /// `A0, A1, ...`, the `call` helper's argument type parameters.
    pub arg_generics: Vec<String>,
    /// What `call` returns.
    pub return_shape: ReturnShape,
}

/// Why the attribute refuses a function.
#[derive(Clone, Debug)]
pub enum ExportError {
    /// The function is `async`.
    AsyncFn,
    /// The function names an ABI other than `"C"`; carries that name.
    NonCAbi(String),
}

/// The text of the error the attribute reports for an `async fn`.
pub open spec fn async_message() -> Seq<char> {
    "#[jit_export] cannot be applied to an `async fn`: JIT call sites are synchronous machine code with no executor, and the generated signature would describe the future's output type rather than the opaque future the function actually returns. Wrap the async work in a synchronous shim (e.g. `tokio::runtime::Handle::block_on`) and annotate that shim instead."@
}

/// The explicitly written ABI name other than `"C"`, if any.
pub open spec fn foreign_abi(abi: AbiSyntax) -> Option<Seq<char>> {
    match abi {
        AbiSyntax::Extern(Some(n)) => if n@ == "C"@ {
            None
        } else {
            Some(n@)
        },
        _ => None,
    }
}

/// The typed parameters' types, in order.
pub open spec fn typed_params(inputs: Seq<FnArgSyntax>) -> Seq<Seq<char>>
    decreases inputs.len(),
{
    if inputs.len() == 0 {
        seq![]
    } else {
        let rest = typed_params(inputs.drop_last());
        match inputs.last() {
            FnArgSyntax::Typed(t) => rest.push(t@),
            FnArgSyntax::Receiver => rest,
        }
    }
}

/// `<prefix>0, <prefix>1, ...`, `n` names.
pub open spec fn numbered(prefix: Seq<char>, n: nat) -> Seq<Seq<char>> {
    Seq::new(n, |i: int| prefix + dec_nat(i as nat))
}

/// The mathematical content of a [`ReturnShape`].
pub enum ReturnShapeV {
    Inst,
    Single(Seq<char>),
    Multi(Seq<char>),
}

pub open spec fn shape_view(s: ReturnShape) -> ReturnShapeV {
    match s {
        ReturnShape::Inst => ReturnShapeV::Inst,
        ReturnShape::Single(t) => ReturnShapeV::Single(t@),
        ReturnShape::Multi(t) => ReturnShapeV::Multi(t@),
    }
}

/// The return shape of a written return type: none for no type or `()`,
/// `Multi` for any other tuple, `Single` otherwise.
pub open spec fn shape_of(out: OutputSyntax) -> ReturnShapeV {
    match out {
        OutputSyntax::Default => ReturnShapeV::Inst,
        OutputSyntax::EmptyTuple => ReturnShapeV::Inst,
        OutputSyntax::Tuple(t) => ReturnShapeV::Multi(t@),
        OutputSyntax::Other(t) => ReturnShapeV::Single(t@),
    }
}

/// The plan describes the helper module of `sig`.
pub open spec fn plan_for(sig: FnSignature, p: ExportPlan) -> bool {
    let n = typed_params(sig.inputs@).len();
    &&& p.fn_name@ == sig.name@
    &&& p.helper_mod@ == sig.name@ + "_jit"@
    &&& p.name_const@ == sig.name@
    &&& p.inject_extern_c == (sig.abi is Unspecified)
    &&& strings_view(p.param_types@) == typed_params(sig.inputs@)
    &&& strings_view(p.arg_idents@) == numbered("p"@, n)
    &&& strings_view(p.arg_generics@) == numbered("A"@, n)
    &&& shape_view(p.return_shape) == shape_of(sig.output)
}

fn same_text(a: &str, b: &str) -> (r: bool)
    ensures
        r == (a@ == b@),
{
    let n = a.unicode_len();
    if n != b.unicode_len() {
        return false;
    }
    let mut i: usize = 0;
    while i < n
        invariant
            n == a@.len(),
            n == b@.len(),
            i <= n,
            forall|j: int| 0 <= j < i ==> a@[j] == b@[j],
        decreases n - i,
    {
        if a.get_char(i) != b.get_char(i) {
            return false;
        }
        i = i + 1;
    }
    assert(a@ =~= b@);
    true
}

fn numbered_names(prefix: &str, n: usize) -> (r: Vec<String>)
    ensures
        strings_view(r@) == numbered(prefix@, n as nat),
{
    let mut out: Vec<String> = Vec::new();
    let mut i: usize = 0;
    while i < n
        invariant
            i <= n,
            strings_view(out@) =~= numbered(prefix@, i as nat),
        decreases n - i,
    {
        let mut s = String::from_str(prefix);
        push_dec_u64(&mut s, i as u64);
        let ghost before = out@;
        out.push(s);
        assert(out@ == before.push(s));
        assert(strings_view(out@) =~= strings_view(before).push(s@));
        assert(strings_view(out@) =~= numbered(prefix@, (i + 1) as nat));
        i = i + 1;
    }
    out
}

impl ExportError {
    /// The message the attribute reports.
    pub fn message(&self) -> (r: String)
        ensures
            match self {
                ExportError::AsyncFn => r@ == async_message(),
                ExportError::NonCAbi(n) => r@ == "#[jit_export] requires the C ABI, found extern \""@
                    + n@ + "\""@,
            },
    {
        match self {
            ExportError::AsyncFn => String::from_str(
                "#[jit_export] cannot be applied to an `async fn`: JIT call sites are synchronous machine code with no executor, and the generated signature would describe the future's output type rather than the opaque future the function actually returns. Wrap the async work in a synchronous shim (e.g. `tokio::runtime::Handle::block_on`) and annotate that shim instead.",
            ),
            ExportError::NonCAbi(n) => {
                let mut s = String::from_str("#[jit_export] requires the C ABI, found extern \"");
                push_str(&mut s, n.as_str());
                push_str(&mut s, "\"");
                s
            },
        }
    }
}

/// Decides whether the attribute accepts `sig` and, if so, plans the
/// helper module: an `async fn` is refused, then a function that names an
/// ABI other than `"C"`; any other function is accepted.
pub fn plan_jit_export(sig: &FnSignature) -> (r: Result<ExportPlan, ExportError>)
    ensures
        sig.is_async ==> r matches Err(ExportError::AsyncFn),
        !sig.is_async && foreign_abi(sig.abi) is Some ==> (r matches Err(ExportError::NonCAbi(n))
            && Some(n@) == foreign_abi(sig.abi)),
        !sig.is_async && foreign_abi(sig.abi) is None ==> (r matches Ok(p) && plan_for(*sig, p)),
{
    if sig.is_async {
        return Err(ExportError::AsyncFn);
    }
    let inject_extern_c = match &sig.abi {
        AbiSyntax::Unspecified => true,
        AbiSyntax::Extern(None) => false,
        AbiSyntax::Extern(Some(n)) => {
            proof {
                reveal_strlit("C");
            }
            if !same_text(n.as_str(), "C") {
                return Err(ExportError::NonCAbi(n.clone()));
            }
            false
        },
    };
    let mut params: Vec<String> = Vec::new();
    let mut i: usize = 0;
    while i < sig.inputs.len()
        invariant
            i <= sig.inputs@.len(),
            strings_view(params@) == typed_params(sig.inputs@.take(i as int)),
        decreases sig.inputs@.len() - i,
    {
        assert(sig.inputs@.take(i + 1).drop_last() =~= sig.inputs@.take(i as int));
        match &sig.inputs[i] {
            FnArgSyntax::Typed(t) => {
                params.push(t.clone());
                assert(strings_view(params@) =~= typed_params(sig.inputs@.take(i + 1)));
            },
            FnArgSyntax::Receiver => {},
        }
        i = i + 1;
    }
    assert(sig.inputs@.take(i as int) =~= sig.inputs@);
    let n = params.len();
    let return_shape = match &sig.output {
        OutputSyntax::Default => ReturnShape::Inst,
        OutputSyntax::EmptyTuple => ReturnShape::Inst,
        OutputSyntax::Tuple(t) => ReturnShape::Multi(t.clone()),
        OutputSyntax::Other(t) => ReturnShape::Single(t.clone()),
    };
    let mut helper_mod = sig.name.clone();
    push_str(&mut helper_mod, "_jit");
    Ok(
        ExportPlan {
            fn_name: sig.name.clone(),
            helper_mod,
            name_const: sig.name.clone(),
            inject_extern_c,
            param_types: params,
            arg_idents: numbered_names("p", n),
            arg_generics: numbered_names("A", n),
            return_shape,
        },
    )
}

/// The helper module's `NAME` is the function's own name, and the module
/// is that name followed by `_jit`, for every function the attribute
/// accepts.
pub proof fn law_name_constant_is_fn_name(sig: FnSignature, p: ExportPlan)
    requires
        plan_for(sig, p),
    ensures
        p.name_const@ == sig.name@,
        p.helper_mod@ == p.name_const@ + "_jit"@,
        p.arg_idents@.len() == p.param_types@.len(),
        p.arg_generics@.len() == p.param_types@.len(),
{
    assert(strings_view(p.arg_idents@).len() == p.arg_idents@.len());
    assert(strings_view(p.arg_generics@).len() == p.arg_generics@.len());
    assert(strings_view(p.param_types@).len() == p.param_types@.len());
}

} // verus!
