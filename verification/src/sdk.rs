//! SDK installations and the deterministic selection policy.
//!
//! Discovery enumerates candidate vendor installations on the host
//! filesystem; that enumeration is I/O and lives outside this library. Here
//! a candidate is plain data: its root path, the version segment of that
//! path, and the static-library directory resolved beneath it, when one was
//! found. Among the candidates, selection picks the one with the strictly
//! highest version in lexicographic order, and fails loudly when there is
//! none or when the highest version is ambiguous — never a silent,
//! enumeration-order-dependent pick.

use vstd::prelude::*;
use crate::text::lex_lt;
use crate::text::str_lex_lt;
use crate::text::str_eq;
use crate::text::lemma_lex_lt_irrefl;
use crate::text::lemma_lex_lt_connected;
use crate::text::lemma_lex_lt_trans;
use crate::text::lemma_lex_lt_asym;

verus! {

/// One candidate SDK installation, as discovery hands it over: the
/// installation's root path, the version segment that distinguishes it,
/// and the platform-specific static-library directory found beneath the
/// root, when the lookup succeeded.
#[derive(Debug)]
pub struct SdkInstall {
    pub root: String,
    pub version: String,
    pub lib_dir: Option<String>,
}

/// The mathematical image of one candidate installation.
pub struct InstallView {
    pub root: Seq<char>,
    pub version: Seq<char>,
    pub lib_dir: Option<Seq<char>>,
}

impl View for SdkInstall {
    type V = InstallView;

    open spec fn view(&self) -> InstallView {
        InstallView {
            root: self.root@,
            version: self.version@,
            lib_dir: self.lib_dir.deep_view(),
        }
    }
}

impl DeepView for SdkInstall {
    type V = InstallView;

    open spec fn deep_view(&self) -> InstallView {
        self@
    }
}

/// The candidate at `i` has the strictly highest version of the whole list:
/// every other position holds a lexicographically smaller version.
pub open spec fn unique_max_at(s: Seq<InstallView>, i: int) -> bool {
    &&& 0 <= i < s.len()
    &&& forall|j: int| 0 <= j < s.len() && j != i ==> lex_lt(#[trigger] s[j].version, s[i].version)
}

/// Why selection found no usable candidate.
#[derive(Clone, Copy, Debug, PartialEq, Eq, Structural)]
pub enum SelectError {
    /// Discovery produced no candidate at all.
    NoInstallation,
    /// Two candidates share the highest version; no deterministic pick
    /// exists, so selection refuses rather than choosing by enumeration
    /// order.
    Ambiguous,
}

/// At most one position carries the strictly highest version.
pub proof fn lemma_unique_max_unique(s: Seq<InstallView>, i: int, j: int)
    requires
        unique_max_at(s, i),
        unique_max_at(s, j),
    ensures
        i == j,
{
    if i != j {
        lemma_lex_lt_asym(s[i].version, s[j].version);
    }
}

/// Selects the candidate with the strictly highest version.
///
/// Returns the index of the unique maximum when one exists; reports an
/// empty candidate list or an ambiguous highest version otherwise.
pub fn select_install(installs: &Vec<SdkInstall>) -> (r: Result<usize, SelectError>)
    ensures
        r == Err::<usize, SelectError>(SelectError::NoInstallation) <==> installs@.len() == 0,
        r matches Ok(i) ==> unique_max_at(installs.deep_view(), i as int),
        r == Err::<usize, SelectError>(SelectError::Ambiguous) <==> installs@.len() > 0
            && !(exists|i: int| unique_max_at(installs.deep_view(), i)),
{
    let ghost dv = installs.deep_view();
    proof {
        assert(dv.len() == installs@.len());
    }
    if installs.len() == 0 {
        return Err(SelectError::NoInstallation);
    }
    let mut best: usize = 0;
    let mut tie: bool = false;
    let mut i: usize = 1;
    while i < installs.len()
        invariant
            dv == installs.deep_view(),
            dv.len() == installs@.len(),
            installs@.len() > 0,
            (best as int) < i <= installs@.len(),
            forall|j: int|
                0 <= j < i && j != best as int ==> lex_lt(#[trigger] dv[j].version, dv[best as int].version)
                    || dv[j].version == dv[best as int].version,
            tie <==> exists|j: int|
                0 <= j < i && j != best as int && (#[trigger] dv[j].version)
                    == dv[best as int].version,
        decreases installs@.len() - i,
    {
        let cur = &installs[i];
        let b = &installs[best];
        proof {
            assert(dv[i as int] == installs@[i as int]@);
            assert(dv[best as int] == installs@[best as int]@);
        }
        if str_lex_lt(cur.version.as_str(), b.version.as_str()) {
            proof {
                // strictly below the current best: no new tie can arise
                if dv[i as int].version == dv[best as int].version {
                    lemma_lex_lt_irrefl(dv[best as int].version);
                }
                if tie {
                    let j = choose|j: int|
                        0 <= j < i && j != best as int && (#[trigger] dv[j].version)
                            == dv[best as int].version;
                    assert(0 <= j < i + 1 && j != best as int && dv[j].version
                        == dv[best as int].version);
                }
            }
        } else if str_eq(cur.version.as_str(), b.version.as_str()) {
            proof {
                assert(0 <= (i as int) && (i as int) < i + 1 && i as int != best as int
                    && dv[i as int].version == dv[best as int].version);
            }
            tie = true;
        } else {
            proof {
                if !lex_lt(dv[best as int].version, dv[i as int].version) {
                    lemma_lex_lt_connected(dv[i as int].version, dv[best as int].version);
                }
                assert(lex_lt(dv[best as int].version, dv[i as int].version));
                assert forall|j: int| 0 <= j < i + 1 && j != i as int implies lex_lt(
                    #[trigger] dv[j].version,
                    dv[i as int].version,
                ) && dv[j].version != dv[i as int].version by {
                    if j != best as int && lex_lt(dv[j].version, dv[best as int].version) {
                        lemma_lex_lt_trans(
                            dv[j].version,
                            dv[best as int].version,
                            dv[i as int].version,
                        );
                    }
                    assert(lex_lt(dv[j].version, dv[i as int].version));
                    if dv[j].version == dv[i as int].version {
                        lemma_lex_lt_irrefl(dv[i as int].version);
                    }
                }
            }
            best = i;
            tie = false;
        }
        i = i + 1;
    }
    if tie {
        proof {
            let j = choose|j: int|
                0 <= j < dv.len() && j != best as int && (#[trigger] dv[j].version)
                    == dv[best as int].version;
            assert forall|k: int| !unique_max_at(dv, k) by {
                if unique_max_at(dv, k) {
                    if k == best as int {
                        assert(lex_lt(dv[j].version, dv[k].version));
                        lemma_lex_lt_irrefl(dv[k].version);
                    } else {
                        assert(lex_lt(dv[best as int].version, dv[k].version));
                        if lex_lt(dv[k].version, dv[best as int].version) {
                            lemma_lex_lt_asym(dv[k].version, dv[best as int].version);
                        } else {
                            assert(dv[k].version == dv[best as int].version);
                            lemma_lex_lt_irrefl(dv[k].version);
                        }
                    }
                }
            }
        }
        Err(SelectError::Ambiguous)
    } else {
        proof {
            assert(unique_max_at(dv, best as int));
        }
        Ok(best)
    }
}

/// Two distinct positions holding the same value put it in the multiset at
/// least twice.
proof fn lemma_two_indices_count_ge_2(s: Seq<InstallView>, a: int, b: int)
    requires
        0 <= a < s.len(),
        0 <= b < s.len(),
        a != b,
        s[a] == s[b],
    ensures
        s.to_multiset().count(s[a]) >= 2,
{
    broadcast use vstd::seq_lib::group_to_multiset_ensures;
    broadcast use vstd::multiset::group_multiset_axioms;

    let lo = if a < b {
        a
    } else {
        b
    };
    let hi = if a < b {
        b
    } else {
        a
    };
    let s0 = s.subrange(0, hi);
    let s1 = s.subrange(hi, s.len() as int);
    assert(s =~= s0 + s1);
    vstd::seq_lib::lemma_multiset_commutative(s0, s1);
    assert(s0[lo] == s[a]);
    assert(s0.contains(s[a]));
    assert(s1[0] == s[a]);
    assert(s1.contains(s[a]));
}

/// A unique highest-version candidate carries over to any reordering of
/// the discovered set: the same candidate is the unique maximum there too.
pub proof fn lemma_unique_max_transfers(s1: Seq<InstallView>, s2: Seq<InstallView>, i1: int)
    requires
        s1.to_multiset() == s2.to_multiset(),
        unique_max_at(s1, i1),
    ensures
        exists|i2: int| #[trigger] unique_max_at(s2, i2) && s2[i2] == s1[i1],
{
    broadcast use vstd::seq_lib::group_to_multiset_ensures;
    broadcast use vstd::multiset::group_multiset_axioms;

    let x = s1[i1];
    assert(s1.contains(x));
    assert(s2.to_multiset().count(x) > 0);
    assert(s2.contains(x));
    let j = choose|j: int| 0 <= j < s2.len() && s2[j] == x;
    assert forall|k: int| 0 <= k < s2.len() && k != j implies lex_lt(
        #[trigger] s2[k].version,
        s2[j].version,
    ) by {
        let y = s2[k];
        if y == x {
            // a second occurrence of the maximum would have to be strictly
            // below itself back in the first enumeration
            lemma_two_indices_count_ge_2(s2, j, k);
            assert(s1.to_multiset().count(x) >= 2);
            assert(s1.remove(i1).to_multiset() =~= s1.to_multiset().remove(x));
            assert(s1.to_multiset().remove(x).count(x) >= 1);
            assert(s1.remove(i1).contains(x));
            let m = choose|m: int| 0 <= m < s1.remove(i1).len() && s1.remove(i1)[m] == x;
            s1.remove_ensures(i1);
            let m1 = if m < i1 {
                m
            } else {
                m + 1
            };
            assert(s1[m1] == x);
            assert(lex_lt(s1[m1].version, s1[i1].version));
            lemma_lex_lt_irrefl(x.version);
        } else {
            assert(s2.contains(y));
            assert(s1.to_multiset().count(y) > 0);
            assert(s1.contains(y));
            let m = choose|m: int| 0 <= m < s1.len() && s1[m] == y;
            assert(m != i1);
            assert(lex_lt(s1[m].version, s1[i1].version));
        }
    }
    assert(unique_max_at(s2, j) && s2[j] == s1[i1]);
}

/// Selection is a function of the discovered set alone: however discovery
/// enumerates the same candidates, two runs that each find a unique highest
/// version select the same candidate — root, version and library directory
/// all equal.
pub proof fn lemma_selection_deterministic(
    s1: Seq<InstallView>,
    s2: Seq<InstallView>,
    i1: int,
    i2: int,
)
    requires
        s1.to_multiset() == s2.to_multiset(),
        unique_max_at(s1, i1),
        unique_max_at(s2, i2),
    ensures
        s1[i1] == s2[i2],
{
    broadcast use vstd::seq_lib::group_to_multiset_ensures;

    assert(s1.contains(s1[i1]));
    assert(s2.to_multiset().count(s1[i1]) > 0);
    assert(s2.contains(s1[i1]));
    let j = choose|j: int| 0 <= j < s2.len() && s2[j] == s1[i1];
    if j != i2 {
        assert(lex_lt(s1[i1].version, s2[i2].version));
        assert(s1.contains(s2[i2])) by {
            assert(s2.contains(s2[i2]));
            assert(s1.to_multiset().count(s2[i2]) > 0);
        }
        let k = choose|k: int| 0 <= k < s1.len() && s1[k] == s2[i2];
        if k == i1 {
            lemma_lex_lt_irrefl(s1[i1].version);
        } else {
            assert(lex_lt(s2[i2].version, s1[i1].version));
            lemma_lex_lt_asym(s1[i1].version, s2[i2].version);
        }
    }
}

} // verus!
