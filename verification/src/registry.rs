use vstd::prelude::*;
use crate::errors::LaunchError;
use crate::errors::SpecErr;
use crate::strmap::StrMap;
use crate::util::pairs_view;

verus! {

// ---------------------------------------------------------------------------
// Package manifests, modeled as plain values, and the duplicate-name check
// the registry runs after discovering a workspace's manifests.
// ---------------------------------------------------------------------------

/// A package manifest.
#[derive(Debug, Clone, PartialEq, Eq)]
pub struct Package {
    pub format: u32,
    pub name: Name,
    pub version: Version,
    pub description: Description,
    pub license: License,
    pub maintainer: Vec<Maintainer>,
    pub depend: Vec<Depend>,
    pub buildtool_depend: Vec<BuildToolDepend>,
    pub exec_depend: Vec<ExecDepend>,
    pub test_depend: Vec<TestDepend>,
    pub export: Export,
}

/// The package's name.
#[derive(Debug, Clone, PartialEq, Eq)]
pub struct Name(pub String);

/// The package's version string.
#[derive(Debug, Clone, PartialEq, Eq)]
pub struct Version(pub String);

/// The package's description text.
#[derive(Debug, Clone, PartialEq, Eq)]
pub struct Description(pub String);

/// The package's license identifier.
#[derive(Debug, Clone, PartialEq, Eq)]
pub struct License(pub String);

/// One maintainer entry.
#[derive(Debug, Clone, PartialEq, Eq)]
pub struct Maintainer {
    pub email: String,
    pub name: String,
}

/// A general dependency.
#[derive(Debug, Clone, PartialEq, Eq)]
pub struct Depend(pub String);

/// A build-tool dependency.
#[derive(Debug, Clone, PartialEq, Eq)]
pub struct BuildToolDepend(pub String);

/// A runtime dependency.
#[derive(Debug, Clone, PartialEq, Eq)]
pub struct ExecDepend(pub String);

/// A test-only dependency.
#[derive(Debug, Clone, PartialEq, Eq)]
pub struct TestDepend(pub String);

/// The manifest's export section.
#[derive(Debug, Clone, PartialEq, Eq)]
pub struct Export {
    pub build_type: BuildType,
}

/// The build system named by the export section.
#[derive(Debug, Clone, PartialEq, Eq)]
pub struct BuildType(pub String);

/// First index at or after `k` whose entry carries the package name `nm`,
/// or `-1`. An entry is a `(path, name)` pair.
pub open spec fn sp_first_with(s: Seq<(Seq<char>, Seq<char>)>, nm: Seq<char>, k: int) -> int
    decreases s.len() - k,
{
    if k < 0 || k >= s.len() {
        -1
    } else if s[k].1 == nm {
        k
    } else {
        sp_first_with(s, nm, k + 1)
    }
}

/// Walk the entries in order; the first whose name was already seen yields
/// `DuplicatePackageName` naming both paths, in walk order.
pub open spec fn sp_dup_check(s: Seq<(Seq<char>, Seq<char>)>, j: int) -> Result<(), SpecErr>
    decreases s.len() - j,
{
    if j < 0 || j >= s.len() {
        Ok(())
    } else {
        let f = sp_first_with(s, s[j].1, 0);
        if 0 <= f < j {
            Err(SpecErr::DuplicatePackageName { name: s[j].1, first: s[f].0, second: s[j].0 })
        } else {
            sp_dup_check(s, j + 1)
        }
    }
}

proof fn lemma_first_with_found(s: Seq<(Seq<char>, Seq<char>)>, nm: Seq<char>, k: int, j: int)
    requires
        0 <= k <= j < s.len(),
        forall|i: int| k <= i < j ==> s[i].1 != nm,
        s[j].1 == nm,
    ensures
        sp_first_with(s, nm, k) == j,
    decreases j - k,
{
    if k < j {
        lemma_first_with_found(s, nm, k + 1, j);
    }
}

proof fn lemma_first_with_min(s: Seq<(Seq<char>, Seq<char>)>, nm: Seq<char>, k: int, i: int)
    requires
        0 <= k <= i < s.len(),
        s[i].1 == nm,
    ensures
        0 <= sp_first_with(s, nm, k) <= i,
    decreases i - k,
{
    if k < i && s[k].1 != nm {
        lemma_first_with_min(s, nm, k + 1, i);
    }
}

proof fn lemma_first_with_hit(s: Seq<(Seq<char>, Seq<char>)>, nm: Seq<char>, k: int)
    requires
        0 <= k <= s.len(),
    ensures
        sp_first_with(s, nm, k) >= 0 ==> k <= sp_first_with(s, nm, k) < s.len() && s[sp_first_with(
            s,
            nm,
            k,
        )].1 == nm,
        sp_first_with(s, nm, k) < 0 ==> forall|i: int| k <= i < s.len() ==> s[i].1 != nm,
    decreases s.len() - k,
{
    if k < s.len() && s[k].1 != nm {
        lemma_first_with_hit(s, nm, k + 1);
    }
}

/// Check a workspace's `(manifest path, package name)` pairs, in the
/// deterministic order the caller fixed, for a repeated package name.
///
/// Success means every package name occurs once. The error names the
/// repeated package name, the path of its first manifest, and the path of
/// the first later manifest that repeats it.
pub fn check_duplicate_package_names(entries: &Vec<(String, String)>) -> (r: Result<
    (),
    LaunchError,
>)
    ensures
        match r {
            Result::Ok(()) => sp_dup_check(pairs_view(entries@), 0) == Ok::<(), SpecErr>(()),
            Result::Err(e) => sp_dup_check(pairs_view(entries@), 0) == Err::<(), SpecErr>(e@),
        },
        r is Ok ==> forall|i: int, j: int|
            0 <= i < j < entries@.len() ==> entries@[i].1@ != entries@[j].1@,
{
    let ghost sv = pairs_view(entries@);
    let mut names = StrMap::new();
    let mut j: usize = 0;
    while j < entries.len()
        invariant
            j <= entries@.len(),
            sv == pairs_view(entries@),
            forall|nm: Seq<char>|
                #[trigger] names@.contains_key(nm) <==> 0 <= sp_first_with(sv, nm, 0) < j,
            forall|nm: Seq<char>|
                names@.contains_key(nm) ==> names@[nm] == sv[sp_first_with(sv, nm, 0)].0,
            sp_dup_check(sv, 0) == sp_dup_check(sv, j as int),
            forall|a: int, b: int| 0 <= a < b < j ==> sv[a].1 != sv[b].1,
        decreases entries@.len() - j,
    {
        let entry = &entries[j];
        let ghost nm = entry.1@;
        proof {
            lemma_first_with_hit(sv, nm, 0);
        }
        match names.get(&entry.1) {
            Option::Some(first) => {
                return Result::Err(LaunchError::DuplicatePackageName {
                    name: entry.1.clone(),
                    first,
                    second: entry.0.clone(),
                });
            },
            Option::None => {
                proof {
                    assert forall|i: int| 0 <= i < j implies sv[i].1 != nm by {
                        if sv[i].1 == nm {
                            lemma_first_with_min(sv, nm, 0, i);
                        }
                    }
                    lemma_first_with_found(sv, nm, 0, j as int);
                }
                names.insert(entry.1.clone(), entry.0.clone());
                proof {
                    assert forall|nm2: Seq<char>| #[trigger]
                        names@.contains_key(nm2) implies 0 <= sp_first_with(sv, nm2, 0) < j + 1 by {
                        if nm2 != nm {
                            assert(names@.contains_key(nm2) == (0 <= sp_first_with(sv, nm2, 0) < j));
                        }
                    }
                    assert forall|nm2: Seq<char>|
                        0 <= sp_first_with(sv, nm2, 0) < j + 1 implies #[trigger] names@
                        .contains_key(nm2) by {
                        lemma_first_with_hit(sv, nm2, 0);
                        if sp_first_with(sv, nm2, 0) == j {
                            assert(nm2 == nm);
                        }
                    }
                }
            },
        }
        j = j + 1;
    }
    proof {
        assert forall|a: int, b: int|
            0 <= a < b < entries@.len() implies entries@[a].1@ != entries@[b].1@ by {
            assert(sv[a].1 != sv[b].1);
        }
    }
    Result::Ok(())
}

} // verus!
