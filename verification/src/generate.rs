//! Declaration generation: turns the symbol whitelist into the generated
//! symbol module and its text.
//!
//! Generation is a pure function of the whitelist, so repeated builds
//! produce byte-identical module text, and the module's surface is exactly
//! the whitelisted names — nothing else from the vendor headers leaks
//! through.

use vstd::prelude::*;
use vstd::string::StringExecFns;
use crate::whitelist::Whitelist;
use crate::whitelist::is_ident;
use crate::whitelist::check_ident;

verus! {

/// What kind of foreign declaration a generated entry is.
#[derive(Clone, Copy, Debug, PartialEq, Eq, Structural)]
pub enum DeclKind {
    /// An opaque foreign type, exposed by name only.
    OpaqueType,
    /// A foreign function, exposed by name only.
    Function,
}

/// One declaration of the generated symbol module.
#[derive(Debug)]
pub struct Decl {
    pub kind: DeclKind,
    pub name: String,
}

/// The mathematical image of one generated declaration.
pub struct DeclView {
    pub kind: DeclKind,
    pub name: Seq<char>,
}

impl View for Decl {
    type V = DeclView;

    open spec fn view(&self) -> DeclView {
        DeclView { kind: self.kind, name: self.name@ }
    }
}

impl DeepView for Decl {
    type V = DeclView;

    open spec fn deep_view(&self) -> DeclView {
        self@
    }
}

/// One opaque-type declaration per whitelisted type name, in order.
pub open spec fn type_decls(types: Seq<Seq<char>>) -> Seq<DeclView> {
    types.map(|i: int, n: Seq<char>| DeclView { kind: DeclKind::OpaqueType, name: n })
}

/// One function declaration per whitelisted function name, in order.
pub open spec fn fn_decls(fns: Seq<Seq<char>>) -> Seq<DeclView> {
    fns.map(|i: int, n: Seq<char>| DeclView { kind: DeclKind::Function, name: n })
}

/// The full declaration list of the generated module: the whitelisted
/// types, then the whitelisted functions, nothing else.
pub open spec fn decls_of(types: Seq<Seq<char>>, fns: Seq<Seq<char>>) -> Seq<DeclView> {
    type_decls(types) + fn_decls(fns)
}

/// The names a declaration list exposes.
pub open spec fn decl_names(ds: Seq<DeclView>) -> Seq<Seq<char>> {
    ds.map(|i: int, d: DeclView| d.name)
}

/// Whitelist completeness and minimality: the generated module declares
/// exactly the whitelisted names — every whitelisted type and function
/// name appears, and no name outside the whitelist does.
pub proof fn lemma_module_surface(types: Seq<Seq<char>>, fns: Seq<Seq<char>>)
    ensures
        decl_names(decls_of(types, fns)) == types + fns,
        decl_names(decls_of(types, fns)).to_set() == types.to_set().union(fns.to_set()),
{
    assert(decl_names(decls_of(types, fns)) =~= types + fns);
    let names = types + fns;
    assert forall|n: Seq<char>|
        names.to_set().contains(n) == types.to_set().union(fns.to_set()).contains(n) by {
        if names.contains(n) {
            let k = choose|k: int| 0 <= k < names.len() && names[k] == n;
            if k < types.len() {
                assert(types[k] == n);
            } else {
                assert(fns[k - types.len()] == n);
            }
        }
        if types.contains(n) {
            let k = choose|k: int| 0 <= k < types.len() && types[k] == n;
            assert(names[k] == n);
        }
        if fns.contains(n) {
            let k = choose|k: int| 0 <= k < fns.len() && fns[k] == n;
            assert(names[types.len() + k] == n);
        }
    }
    assert(names.to_set() =~= types.to_set().union(fns.to_set()));
}

/// Fatal generation failure: a whitelisted name that cannot stand in a
/// declaration. Carries the offending name.
#[derive(Debug)]
pub struct CodegenError {
    pub name: String,
}

/// Builds the declaration list for a whitelist.
///
/// Succeeds exactly when every whitelisted name is a well-formed symbol
/// name, and then yields one declaration per whitelisted name: the types,
/// then the functions, in whitelist order. A failure carries one
/// malformed whitelisted name.
pub fn generate_decls(wl: &Whitelist) -> (r: Result<Vec<Decl>, CodegenError>)
    ensures
        r is Ok <==> wl.wf(),
        r matches Ok(d) ==> d.deep_view() == decls_of(wl.types.deep_view(), wl.functions.deep_view()),
        r matches Err(e) ==> !is_ident(e.name@) && (wl.types.deep_view().contains(e.name@)
            || wl.functions.deep_view().contains(e.name@)),
{
    let ghost tdv = wl.types.deep_view();
    let ghost fdv = wl.functions.deep_view();
    let mut out: Vec<Decl> = Vec::new();
    let mut i: usize = 0;
    while i < wl.types.len()
        invariant
            tdv == wl.types.deep_view(),
            i <= wl.types@.len(),
            out@.len() == i,
            forall|j: int| 0 <= j < i ==> is_ident(#[trigger] tdv[j]),
            forall|j: int|
                0 <= j < i ==> #[trigger] out@[j]@ == (DeclView {
                    kind: DeclKind::OpaqueType,
                    name: tdv[j],
                }),
        decreases wl.types@.len() - i,
    {
        let name = &wl.types[i];
        if !check_ident(name.as_str()) {
            proof {
                assert(tdv[i as int] == wl.types@[i as int]@);
                assert(tdv.contains(name@));
            }
            return Err(CodegenError { name: name.clone() });
        }
        out.push(Decl { kind: DeclKind::OpaqueType, name: name.clone() });
        i = i + 1;
    }
    let mut k: usize = 0;
    while k < wl.functions.len()
        invariant
            tdv == wl.types.deep_view(),
            fdv == wl.functions.deep_view(),
            k <= wl.functions@.len(),
            out@.len() == tdv.len() + k,
            forall|j: int| 0 <= j < tdv.len() ==> is_ident(#[trigger] tdv[j]),
            forall|j: int| 0 <= j < k ==> is_ident(#[trigger] fdv[j]),
            forall|j: int|
                0 <= j < tdv.len() ==> #[trigger] out@[j]@ == (DeclView {
                    kind: DeclKind::OpaqueType,
                    name: tdv[j],
                }),
            forall|j: int|
                0 <= j < k ==> #[trigger] out@[tdv.len() + j]@ == (DeclView {
                    kind: DeclKind::Function,
                    name: fdv[j],
                }),
        decreases wl.functions@.len() - k,
    {
        let name = &wl.functions[k];
        if !check_ident(name.as_str()) {
            proof {
                assert(fdv[k as int] == wl.functions@[k as int]@);
                assert(fdv.contains(name@));
            }
            return Err(CodegenError { name: name.clone() });
        }
        out.push(Decl { kind: DeclKind::Function, name: name.clone() });
        k = k + 1;
    }
    proof {
        assert forall|j: int| 0 <= j < out@.len() implies #[trigger] out.deep_view()[j]
            == decls_of(tdv, fdv)[j] by {
            assert(out.deep_view()[j] == out@[j]@);
            if j < tdv.len() {
                assert(decls_of(tdv, fdv)[j] == type_decls(tdv)[j]);
                assert(type_decls(tdv)[j] == (DeclView {
                    kind: DeclKind::OpaqueType,
                    name: tdv[j],
                }));
            } else {
                assert(decls_of(tdv, fdv)[j] == fn_decls(fdv)[j - tdv.len()]);
                assert(fn_decls(fdv)[j - tdv.len()] == (DeclView {
                    kind: DeclKind::Function,
                    name: fdv[j - tdv.len()],
                }));
                let jj = j - tdv.len();
                assert(out@[tdv.len() + jj]@ == (DeclView {
                    kind: DeclKind::Function,
                    name: fdv[jj],
                }));
                assert(tdv.len() + jj == j);
            }
        }
        assert(out.deep_view() =~= decls_of(tdv, fdv));
        assert forall|j: int| 0 <= j < wl.types@.len() implies is_ident(
            #[trigger] wl.types@[j]@,
        ) by {
            assert(tdv[j] == wl.types@[j]@);
        }
        assert forall|j: int| 0 <= j < wl.functions@.len() implies is_ident(
            #[trigger] wl.functions@[j]@,
        ) by {
            assert(fdv[j] == wl.functions@[j]@);
        }
        assert(wl.wf());
    }
    Ok(out)
}

/// The text of one declaration.
pub open spec fn render_decl(d: DeclView) -> Seq<char> {
    match d.kind {
        DeclKind::OpaqueType => "type "@ + d.name + ";\n"@,
        DeclKind::Function => "fn "@ + d.name + "();\n"@,
    }
}

/// The text of a declaration list: each declaration's line, in order.
pub open spec fn render_module(ds: Seq<DeclView>) -> Seq<char>
    decreases ds.len(),
{
    if ds.len() == 0 {
        Seq::empty()
    } else {
        render_decl(ds[0]) + render_module(ds.skip(1))
    }
}

/// Rendering distributes over concatenation of declaration lists.
pub proof fn lemma_render_append(a: Seq<DeclView>, b: Seq<DeclView>)
    ensures
        render_module(a + b) == render_module(a) + render_module(b),
    decreases a.len(),
{
    if a.len() == 0 {
        assert(a + b =~= b);
        assert(render_module(a) + render_module(b) =~= render_module(b));
    } else {
        lemma_render_append(a.skip(1), b);
        assert((a + b).skip(1) =~= a.skip(1) + b);
        assert((a + b)[0] == a[0]);
        assert(render_decl(a[0]) + (render_module(a.skip(1)) + render_module(b)) =~= (render_decl(
            a[0],
        ) + render_module(a.skip(1))) + render_module(b));
    }
}

/// Renders the generated module's text from its declaration list.
pub fn render_module_text(decls: &Vec<Decl>) -> (r: String)
    ensures
        r@ == render_module(decls.deep_view()),
{
    let ghost dv = decls.deep_view();
    let mut out = String::new();
    let mut i: usize = 0;
    while i < decls.len()
        invariant
            dv == decls.deep_view(),
            i <= decls@.len(),
            out@ == render_module(dv.take(i as int)),
        decreases decls@.len() - i,
    {
        let d = &decls[i];
        let ghost prefix = out@;
        match d.kind {
            DeclKind::OpaqueType => {
                out.append("type ");
                out.append(d.name.as_str());
                out.append(";\n");
            },
            DeclKind::Function => {
                out.append("fn ");
                out.append(d.name.as_str());
                out.append("();\n");
            },
        }
        proof {
            assert(dv[i as int] == decls@[i as int]@);
            assert(out@ =~= prefix + render_decl(dv[i as int]));
            lemma_render_append(dv.take(i as int), seq![dv[i as int]]);
            assert(seq![dv[i as int]].skip(1) =~= Seq::<DeclView>::empty());
            assert(render_module(Seq::<DeclView>::empty()) =~= Seq::<char>::empty());
            assert(seq![dv[i as int]].len() == 1 && seq![dv[i as int]][0] == dv[i as int]);
            assert(render_module(seq![dv[i as int]]) == render_decl(dv[i as int]) + render_module(
                seq![dv[i as int]].skip(1),
            ));
            assert(render_module(seq![dv[i as int]]) =~= render_decl(dv[i as int]));
            assert(dv.take(i + 1) =~= dv.take(i as int) + seq![dv[i as int]]);
            assert(out@ =~= render_module(dv.take(i + 1)));
        }
        i = i + 1;
    }
    proof {
        assert(dv.take(decls@.len() as int) =~= dv);
    }
    out
}

} // verus!
