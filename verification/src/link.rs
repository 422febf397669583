//! Include and link planning: from the discovered installations to the
//! compiler and linker directives of one build, and the whole build plan.

use vstd::prelude::*;
use vstd::string::StringExecFns;
use crate::whitelist::Whitelist;
use crate::whitelist::is_ident;
use crate::sdk::SdkInstall;
use crate::sdk::InstallView;
use crate::sdk::SelectError;
use crate::sdk::select_install;
use crate::sdk::unique_max_at;
use crate::sdk::lemma_unique_max_unique;
use crate::sdk::lemma_selection_deterministic;
use crate::sdk::lemma_unique_max_transfers;
use crate::generate::decls_of;
use crate::generate::render_module;
use crate::generate::render_module_text;
use crate::generate::generate_decls;
use crate::generate::CodegenError;

verus! {

/// The directives one build registers: the header include argument for the
/// selected installation, the library search argument for its static-library
/// directory, and the static-link argument naming the vendor library.
#[derive(Debug)]
pub struct LinkPlan {
    pub include_arg: String,
    pub search_arg: String,
    pub lib_arg: String,
}

/// The include argument for an installation: its header directory lies at a
/// fixed place beneath the installation root.
pub open spec fn include_arg_of(inst: InstallView) -> Seq<char> {
    "-I"@ + inst.root + "/include/ilcplex"@
}

/// The library search argument for a static-library directory.
pub open spec fn search_arg_of(lib_dir: Seq<char>) -> Seq<char> {
    "cargo:rustc-link-search=native="@ + lib_dir
}

/// The static-link argument; one vendor library, registered unconditionally.
pub open spec fn lib_arg_text() -> Seq<char> {
    "cargo:rustc-link-lib=static=cplex"@
}

/// Why no link plan could be made.
#[derive(Clone, Copy, Debug, PartialEq, Eq, Structural)]
pub enum LinkError {
    /// Discovery produced no candidate installation; the link step cannot
    /// resolve the vendor library.
    NoInstallation,
    /// Two candidates share the highest version; selection refuses to pick
    /// by enumeration order.
    AmbiguousInstallation,
    /// The selected installation has no static-library directory.
    MissingLibraryDir,
}

/// Exact outcome of link planning over the discovered candidates `dv`:
/// a plan exists precisely when a unique highest-version candidate with a
/// library directory exists, the plan's directives are those of that
/// candidate, and each failure names its cause — no candidates, an
/// ambiguous highest version, or a missing library directory.
pub open spec fn link_outcome_ok(dv: Seq<InstallView>, r: Result<LinkPlan, LinkError>) -> bool {
    &&& (r is Ok <==> exists|i: int| #[trigger] unique_max_at(dv, i) && dv[i].lib_dir is Some)
    &&& (r matches Ok(p) ==> forall|i: int|
        #[trigger] unique_max_at(dv, i) ==> dv[i].lib_dir is Some && p.include_arg@
            == include_arg_of(dv[i]) && p.search_arg@ == search_arg_of(dv[i].lib_dir->0)
            && p.lib_arg@ == lib_arg_text())
    &&& (r == Err::<LinkPlan, LinkError>(LinkError::NoInstallation) <==> dv.len() == 0)
    &&& (r == Err::<LinkPlan, LinkError>(LinkError::AmbiguousInstallation) <==> dv.len() > 0 && !(
    exists|i: int| #[trigger] unique_max_at(dv, i)))
    &&& (r == Err::<LinkPlan, LinkError>(LinkError::MissingLibraryDir) <==> exists|i: int|
        #[trigger] unique_max_at(dv, i) && dv[i].lib_dir is None)
}

/// Plans the include and link directives of one build.
///
/// Selects the unique highest-version installation and derives its
/// directives; fails loudly when there is no candidate, when the highest
/// version is ambiguous, or when the selected candidate lacks a
/// static-library directory.
pub fn plan_link(installs: &Vec<SdkInstall>) -> (r: Result<LinkPlan, LinkError>)
    ensures
        link_outcome_ok(installs.deep_view(), r),
{
    let ghost dv = installs.deep_view();
    proof {
        assert(dv.len() == installs@.len());
    }
    match select_install(installs) {
        Err(SelectError::NoInstallation) => {
            proof {
                assert(dv.len() == 0);
                assert(forall|i: int| !unique_max_at(dv, i));
            }
            Err(LinkError::NoInstallation)
        },
        Err(SelectError::Ambiguous) => Err(LinkError::AmbiguousInstallation),
        Ok(i) => {
            let inst = &installs[i];
            proof {
                assert(dv[i as int] == installs@[i as int]@);
                assert(unique_max_at(dv, i as int));
                assert forall|k: int| #[trigger] unique_max_at(dv, k) implies k == i as int by {
                    lemma_unique_max_unique(dv, k, i as int);
                }
            }
            match &inst.lib_dir {
                None => {
                    proof {
                        assert(dv[i as int].lib_dir is None);
                    }
                    Err(LinkError::MissingLibraryDir)
                },
                Some(ld) => {
                    proof {
                        assert(dv[i as int].lib_dir == Some(ld@));
                    }
                    let mut include_arg = String::from_str("-I");
                    include_arg.append(inst.root.as_str());
                    include_arg.append("/include/ilcplex");
                    let mut search_arg = String::from_str("cargo:rustc-link-search=native=");
                    search_arg.append(ld.as_str());
                    let lib_arg = String::from_str("cargo:rustc-link-lib=static=cplex");
                    proof {
                        assert(include_arg@ =~= include_arg_of(dv[i as int]));
                        assert(search_arg@ =~= search_arg_of(dv[i as int].lib_dir->0));
                    }
                    Ok(LinkPlan { include_arg, search_arg, lib_arg })
                },
            }
        },
    }
}

/// With zero discovered installations the link step fails with the
/// unresolved-library error — never a silently broken plan.
pub proof fn lemma_no_installation_no_link(dv: Seq<InstallView>, r: Result<LinkPlan, LinkError>)
    requires
        dv.len() == 0,
        link_outcome_ok(dv, r),
    ensures
        r == Err::<LinkPlan, LinkError>(LinkError::NoInstallation),
{
}

/// Build determinism: over the same discovered candidates — in whatever
/// order discovery enumerated them — two runs of link planning come out
/// alike: both succeed or both fail, a failure has the same cause, and two
/// successes carry byte-identical directives.
pub proof fn lemma_link_deterministic(
    s1: Seq<InstallView>,
    s2: Seq<InstallView>,
    r1: Result<LinkPlan, LinkError>,
    r2: Result<LinkPlan, LinkError>,
)
    requires
        s1.to_multiset() == s2.to_multiset(),
        link_outcome_ok(s1, r1),
        link_outcome_ok(s2, r2),
    ensures
        r1 is Ok <==> r2 is Ok,
        r1 == Err::<LinkPlan, LinkError>(LinkError::NoInstallation) <==> r2 == Err::<
            LinkPlan,
            LinkError,
        >(LinkError::NoInstallation),
        r1 == Err::<LinkPlan, LinkError>(LinkError::AmbiguousInstallation) <==> r2 == Err::<
            LinkPlan,
            LinkError,
        >(LinkError::AmbiguousInstallation),
        r1 == Err::<LinkPlan, LinkError>(LinkError::MissingLibraryDir) <==> r2 == Err::<
            LinkPlan,
            LinkError,
        >(LinkError::MissingLibraryDir),
        r1 is Ok && r2 is Ok ==> r1->Ok_0.include_arg@ == r2->Ok_0.include_arg@
            && r1->Ok_0.search_arg@ == r2->Ok_0.search_arg@ && r1->Ok_0.lib_arg@
            == r2->Ok_0.lib_arg@,
{
    broadcast use vstd::seq_lib::group_to_multiset_ensures;

    s1.to_multiset_ensures();
    s2.to_multiset_ensures();
    assert(s1.len() == s2.len());
    if r1 is Ok {
        let i1 = choose|i: int| #[trigger] unique_max_at(s1, i) && s1[i].lib_dir is Some;
        lemma_unique_max_transfers(s1, s2, i1);
        let i2 = choose|i: int| #[trigger] unique_max_at(s2, i) && s2[i] == s1[i1];
        assert(unique_max_at(s2, i2) && s2[i2].lib_dir is Some);
        assert(r2 is Ok);
    }
    if r2 is Ok {
        let i2 = choose|i: int| #[trigger] unique_max_at(s2, i) && s2[i].lib_dir is Some;
        lemma_unique_max_transfers(s2, s1, i2);
        let i1 = choose|i: int| #[trigger] unique_max_at(s1, i) && s1[i] == s2[i2];
        assert(unique_max_at(s1, i1) && s1[i1].lib_dir is Some);
        assert(r1 is Ok);
    }
    if r1 is Ok && r2 is Ok {
        let i1 = choose|i: int| #[trigger] unique_max_at(s1, i) && s1[i].lib_dir is Some;
        let i2 = choose|i: int| #[trigger] unique_max_at(s2, i) && s2[i].lib_dir is Some;
        lemma_selection_deterministic(s1, s2, i1, i2);
        assert(s1[i1] == s2[i2]);
    }
    if r1 == Err::<LinkPlan, LinkError>(LinkError::MissingLibraryDir) {
        let i1 = choose|i: int| #[trigger] unique_max_at(s1, i) && s1[i].lib_dir is None;
        lemma_unique_max_transfers(s1, s2, i1);
        let i2 = choose|i: int| #[trigger] unique_max_at(s2, i) && s2[i] == s1[i1];
        assert(unique_max_at(s2, i2) && s2[i2].lib_dir is None);
    }
    if r2 == Err::<LinkPlan, LinkError>(LinkError::MissingLibraryDir) {
        let i2 = choose|i: int| #[trigger] unique_max_at(s2, i) && s2[i].lib_dir is None;
        lemma_unique_max_transfers(s2, s1, i2);
        let i1 = choose|i: int| #[trigger] unique_max_at(s1, i) && s1[i] == s2[i2];
        assert(unique_max_at(s1, i1) && s1[i1].lib_dir is None);
    }
    if r1 == Err::<LinkPlan, LinkError>(LinkError::AmbiguousInstallation) {
        if exists|i: int| #[trigger] unique_max_at(s2, i) {
            let i2 = choose|i: int| #[trigger] unique_max_at(s2, i);
            lemma_unique_max_transfers(s2, s1, i2);
        }
    }
    if r2 == Err::<LinkPlan, LinkError>(LinkError::AmbiguousInstallation) {
        if exists|i: int| #[trigger] unique_max_at(s1, i) {
            let i1 = choose|i: int| #[trigger] unique_max_at(s1, i);
            lemma_unique_max_transfers(s1, s2, i1);
        }
    }
}

/// Everything one build emits: the generated module's text and the include
/// and link directives, when link planning found a usable installation.
#[derive(Debug)]
pub struct BuildOutcome {
    pub module_text: String,
    pub link: Result<LinkPlan, LinkError>,
}

/// The generated module's text for a whitelist.
pub open spec fn module_text_of(types: Seq<Seq<char>>, fns: Seq<Seq<char>>) -> Seq<char> {
    render_module(decls_of(types, fns))
}

/// Runs one whole build over the discovered installations and the
/// whitelist.
///
/// Code generation succeeds exactly when the whitelist is well formed, and
/// completes whether or not any installation was discovered; its text is a
/// function of the whitelist alone. Link planning is reported beside it,
/// so a missing installation surfaces as a failing link step, not as a
/// silently broken module.
pub fn plan_build(installs: &Vec<SdkInstall>, wl: &Whitelist) -> (r: Result<
    BuildOutcome,
    CodegenError,
>)
    ensures
        r is Ok <==> wl.wf(),
        r matches Ok(o) ==> o.module_text@ == module_text_of(
            wl.types.deep_view(),
            wl.functions.deep_view(),
        ) && link_outcome_ok(installs.deep_view(), o.link),
        r matches Err(e) ==> !is_ident(e.name@) && (wl.types.deep_view().contains(e.name@)
            || wl.functions.deep_view().contains(e.name@)),
{
    let decls = match generate_decls(wl) {
        Err(e) => {
            return Err(e);
        },
        Ok(d) => d,
    };
    let module_text = render_module_text(&decls);
    let link = plan_link(installs);
    Ok(BuildOutcome { module_text, link })
}

} // verus!
