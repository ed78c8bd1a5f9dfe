use vstd::prelude::*;

use crate::errors::DefragError;
use crate::ini::{
    ini_get, parse_ini, spec_ini_get, spec_parse_ini, spec_secs_model, IniSection, SpecSection,
};
use crate::registry::{Config, Database, Profile};
use crate::scan::{find_sqlite3_files, spec_db_files, FileCandidate};
use crate::text::{
    eq_ignore_case, join_path, lemma_prefixed_dec_injective, spec_dec, spec_eq_ci,
    spec_join_path, u64_to_dec,
};

verus! {

// ---------------------------------------------------------------------------
// Boolean coercion of a manifest value
// ---------------------------------------------------------------------------

/// How a manifest value is read as a boolean: a handful of words, matched
/// without regard to ASCII case; anything else does not coerce.
pub open spec fn spec_coerce_bool(v: Seq<char>) -> Option<bool> {
    if spec_eq_ci(v, "true"@) || spec_eq_ci(v, "yes"@) || spec_eq_ci(v, "t"@) || spec_eq_ci(
        v,
        "y"@,
    ) || spec_eq_ci(v, "1"@) || spec_eq_ci(v, "on"@) {
        Some(true)
    } else if spec_eq_ci(v, "false"@) || spec_eq_ci(v, "no"@) || spec_eq_ci(v, "f"@)
        || spec_eq_ci(v, "n"@) || spec_eq_ci(v, "0"@) || spec_eq_ci(v, "off"@) {
        Some(false)
    } else {
        None
    }
}

/// Coerce a manifest value to a boolean.
pub fn coerce_bool(v: &str) -> (r: Option<bool>)
    ensures
        r == spec_coerce_bool(v@),
{
    if eq_ignore_case(v, "true") || eq_ignore_case(v, "yes") || eq_ignore_case(v, "t")
        || eq_ignore_case(v, "y") || eq_ignore_case(v, "1") || eq_ignore_case(v, "on") {
        Some(true)
    } else if eq_ignore_case(v, "false") || eq_ignore_case(v, "no") || eq_ignore_case(v, "f")
        || eq_ignore_case(v, "n") || eq_ignore_case(v, "0") || eq_ignore_case(v, "off") {
        Some(false)
    } else {
        None
    }
}

// ---------------------------------------------------------------------------
// The manifest's profile sections
// ---------------------------------------------------------------------------

/// The name of the manifest section carrying profile number `n`.
pub open spec fn spec_profile_section(n: nat) -> Seq<char> {
    "Profile"@ + spec_dec(n)
}

/// Whether some section carries this name (without regard to ASCII case).
pub open spec fn spec_has_section(secs: Seq<SpecSection>, name: Seq<char>) -> bool {
    exists|i: int| 0 <= i < secs.len() && spec_eq_ci(#[trigger] secs[i].name, name)
}

fn has_section(secs: &Vec<IniSection>, name: &str) -> (r: bool)
    ensures
        r == spec_has_section(spec_secs_model(secs@), name@),
{
    let ghost model = spec_secs_model(secs@);
    let mut i: usize = 0;
    while i < secs.len()
        invariant
            i <= secs.len(),
            model == spec_secs_model(secs@),
            forall|j: int| 0 <= j < i ==> !spec_eq_ci(#[trigger] model[j].name, name@),
        decreases secs.len() - i,
    {
        if eq_ignore_case(secs[i].name.as_str(), name) {
            proof {
                assert(spec_eq_ci(model[i as int].name, name@));
            }
            return true;
        }
        i += 1;
    }
    false
}

/// What one `Profile<n>` section resolves to: its `Name` together with its
/// `Path`, the latter joined onto `root` when `IsRelative` coerces to true
/// and taken alone when it coerces to false. A section missing any of the
/// three keys, or whose `IsRelative` does not coerce, resolves to nothing.
pub open spec fn spec_resolve_section(
    secs: Seq<SpecSection>,
    root: Seq<char>,
    sect: Seq<char>,
) -> Option<(Seq<char>, Seq<char>)> {
    let name = spec_ini_get(secs, sect, "Name"@);
    let isrel = spec_ini_get(secs, sect, "IsRelative"@);
    let path = spec_ini_get(secs, sect, "Path"@);
    if name is Some && isrel is Some && path is Some && spec_coerce_bool(isrel.unwrap()) is Some {
        if spec_coerce_bool(isrel.unwrap()).unwrap() {
            Some((name.unwrap(), spec_join_path(root, path.unwrap())))
        } else {
            Some((name.unwrap(), path.unwrap()))
        }
    } else {
        None
    }
}

/// The profiles named by sections `Profile<n>`, `Profile<n+1>`, ..., up to
/// the first index with no section of that name. A present section that
/// resolves to nothing is skipped, and the scan goes on with the next
/// index. `fuel` only bounds the recursion; a run of more than
/// `secs.len()` present indices would need that many distinct section
/// names, so a fuel of `secs.len() + 1` is never exhausted —
/// `lemma_profiles_fuel_irrelevant` proves the bound immaterial.
pub open spec fn spec_profiles_from(
    secs: Seq<SpecSection>,
    root: Seq<char>,
    n: nat,
    fuel: nat,
) -> Seq<(Seq<char>, Seq<char>)>
    decreases fuel,
{
    if fuel == 0 {
        Seq::empty()
    } else if !spec_has_section(secs, spec_profile_section(n)) {
        Seq::empty()
    } else {
        let rest = spec_profiles_from(secs, root, n + 1, (fuel - 1) as nat);
        match spec_resolve_section(secs, root, spec_profile_section(n)) {
            Some(p) => seq![p] + rest,
            None => rest,
        }
    }
}

/// Distinct profile indices have distinct section names, even without
/// regard to case.
proof fn lemma_section_name_injective(n1: nat, n2: nat)
    requires
        spec_eq_ci(spec_profile_section(n1), spec_profile_section(n2)),
    ensures
        n1 == n2,
{
    lemma_prefixed_dec_injective("Profile"@, n1, n2);
}

/// An injection of `0 .. k` into `0 .. hi` forces `k <= hi`.
proof fn lemma_injection_bounds(f: spec_fn(int) -> int, k: nat, hi: int)
    requires
        hi >= 0,
        forall|n: int| 0 <= n < k ==> 0 <= #[trigger] f(n) < hi,
        forall|n1: int, n2: int| 0 <= n1 < n2 < k ==> #[trigger] f(n1) != #[trigger] f(n2),
    ensures
        k <= hi,
    decreases hi,
{
    broadcast use vstd::set::group_set_axioms;

    let s = Set::new(|i: int| exists|n: int| 0 <= n < k && #[trigger] f(n) == i);
    lemma_image_card(f, k);
    assert(s.subset_of(vstd::set_lib::set_int_range(0, hi)));
    vstd::set_lib::lemma_int_range(0, hi);
    vstd::set_lib::lemma_len_subset(s, vstd::set_lib::set_int_range(0, hi));
}

/// The image of an injection on `0 .. k` has exactly `k` elements.
proof fn lemma_image_card(f: spec_fn(int) -> int, k: nat)
    requires
        forall|n1: int, n2: int| 0 <= n1 < n2 < k ==> #[trigger] f(n1) != #[trigger] f(n2),
    ensures
        ({
            let s = Set::new(|i: int| exists|n: int| 0 <= n < k && #[trigger] f(n) == i);
            s.finite() && s.len() == k
        }),
    decreases k,
{
    broadcast use vstd::set::group_set_axioms;

    let s = Set::new(|i: int| exists|n: int| 0 <= n < k && #[trigger] f(n) == i);
    if k == 0 {
        assert(s =~= Set::<int>::empty());
    } else {
        lemma_image_card(f, (k - 1) as nat);
        let sp = Set::new(|i: int| exists|n: int| 0 <= n < k - 1 && #[trigger] f(n) == i);
        assert(!sp.contains(f(k - 1)));
        assert(s =~= sp.insert(f(k - 1)));
    }
}

/// Among the indices `0` to the number of sections, at least one has no
/// section of its name: a longer run of present indices would need more
/// distinct section names than there are sections.
proof fn lemma_missing_index_exists(secs: Seq<SpecSection>)
    ensures
        exists|m: nat|
            m <= secs.len() && !#[trigger] spec_has_section(secs, spec_profile_section(m)),
{
    if !(exists|m: nat|
        m <= secs.len() && !#[trigger] spec_has_section(secs, spec_profile_section(m))) {
        let f = |n: int|
            choose|i: int|
                0 <= i < secs.len() && spec_eq_ci(
                    #[trigger] secs[i].name,
                    spec_profile_section(n as nat),
                );
        assert forall|n: int| 0 <= n < secs.len() + 1 implies 0 <= #[trigger] f(n)
            < secs.len() by {
            assert(spec_has_section(secs, spec_profile_section(n as nat)));
        }
        assert forall|n1: int, n2: int|
            0 <= n1 < n2 < secs.len() + 1 implies #[trigger] f(n1) != #[trigger] f(n2) by {
            assert(spec_has_section(secs, spec_profile_section(n1 as nat)));
            assert(spec_has_section(secs, spec_profile_section(n2 as nat)));
            if f(n1) == f(n2) {
                let i = f(n1);
                assert(spec_eq_ci(secs[i].name, spec_profile_section(n1 as nat)));
                assert(spec_eq_ci(secs[i].name, spec_profile_section(n2 as nat)));
                lemma_section_name_injective(n1 as nat, n2 as nat);
            }
        }
        lemma_injection_bounds(f, (secs.len() + 1) as nat, secs.len() as int);
    }
}

/// Stepping from `n` with either recursion bound gives the same profiles,
/// as long as both bounds reach the first missing index.
proof fn lemma_profiles_from_stable(
    secs: Seq<SpecSection>,
    root: Seq<char>,
    n: nat,
    m: nat,
    f1: nat,
    f2: nat,
)
    requires
        n <= m,
        !spec_has_section(secs, spec_profile_section(m)),
        f1 >= m + 1 - n,
        f2 >= m + 1 - n,
    ensures
        spec_profiles_from(secs, root, n, f1) == spec_profiles_from(secs, root, n, f2),
    decreases m - n,
{
    if spec_has_section(secs, spec_profile_section(n)) {
        assert(n < m);
        lemma_profiles_from_stable(secs, root, n + 1, m, (f1 - 1) as nat, (f2 - 1) as nat);
    }
}

/// The recursion bound in `spec_profiles_from` never cuts the scan short:
/// every bound of at least one more than the section count yields the same
/// profiles, since the scan always meets a missing index first.
pub proof fn lemma_profiles_fuel_irrelevant(secs: Seq<SpecSection>, root: Seq<char>, fuel: nat)
    requires
        fuel >= secs.len() + 1,
    ensures
        spec_profiles_from(secs, root, 0, fuel) == spec_profiles_from(
            secs,
            root,
            0,
            (secs.len() + 1) as nat,
        ),
{
    lemma_missing_index_exists(secs);
    let m = choose|m: nat|
        m <= secs.len() && !#[trigger] spec_has_section(secs, spec_profile_section(m));
    lemma_profiles_from_stable(secs, root, 0, m, fuel, (secs.len() + 1) as nat);
}

/// The (name, resolved path) pairs a manifest text yields.
pub open spec fn spec_load_profiles(text: Seq<char>, root: Seq<char>) -> Seq<
    (Seq<char>, Seq<char>),
> {
    let secs = spec_parse_ini(text);
    spec_profiles_from(secs, root, 0, secs.len() + 1)
}

/// Load the profiles of a manifest text, resolving each relative path
/// against `profile_root` (the directory holding the manifest). Sections
/// are read in index order from `Profile0` to the first missing index;
/// malformed sections are skipped. The profiles come back with no
/// databases attached.
pub fn load_profiles(manifest: &str, profile_root: &str) -> (r: Vec<Profile>)
    ensures
        r@.map_values(|p: Profile| (p.name@, p.path@)) == spec_load_profiles(
            manifest@,
            profile_root@,
        ),
        forall|i: int| 0 <= i < r@.len() ==> (#[trigger] r@[i]).databases is None,
{
    let secs = parse_ini(manifest);
    let ghost model = spec_secs_model(secs@);
    let ghost target = spec_load_profiles(manifest@, profile_root@);
    let mut out: Vec<Profile> = Vec::new();
    let mut n: usize = 0;
    proof {
        assert(Seq::<(Seq<char>, Seq<char>)>::empty() + spec_profiles_from(
            model,
            profile_root@,
            0,
            (model.len() + 1) as nat,
        ) =~~= spec_profiles_from(model, profile_root@, 0, (model.len() + 1) as nat));
        assert(out@.map_values(|p: Profile| (p.name@, p.path@)) =~~= Seq::<
            (Seq<char>, Seq<char>),
        >::empty());
    }
    loop
        invariant_except_break
            target == out@.map_values(|p: Profile| (p.name@, p.path@)) + spec_profiles_from(
                model,
                profile_root@,
                n as nat,
                (model.len() + 1 - n) as nat,
            ),
        invariant
            n <= secs.len(),
            model == spec_secs_model(secs@),
            model.len() == secs@.len(),
            target == spec_load_profiles(manifest@, profile_root@),
            forall|i: int| 0 <= i < out@.len() ==> (#[trigger] out@[i]).databases is None,
        ensures
            target == out@.map_values(|p: Profile| (p.name@, p.path@)),
            forall|i: int| 0 <= i < out@.len() ==> (#[trigger] out@[i]).databases is None,
        decreases secs.len() - n,
    {
        let ghost fuel = (model.len() + 1 - n) as nat;
        let ghost prev_map = out@.map_values(|p: Profile| (p.name@, p.path@));
        let mut sect = "Profile".to_owned();
        let num = u64_to_dec(n as u64);
        sect.append(num.as_str());
        proof {
            assert(sect@ == spec_profile_section(n as nat));
        }
        if !has_section(&secs, sect.as_str()) {
            proof {
                assert(spec_profiles_from(model, profile_root@, n as nat, fuel)
                    =~~= Seq::<(Seq<char>, Seq<char>)>::empty());
                assert(prev_map + Seq::<(Seq<char>, Seq<char>)>::empty() =~~= prev_map);
            }
            break;
        }
        let ghost rest = spec_profiles_from(
            model,
            profile_root@,
            (n + 1) as nat,
            (fuel - 1) as nat,
        );
        let name_opt = ini_get(&secs, sect.as_str(), "Name");
        let isrel_opt = ini_get(&secs, sect.as_str(), "IsRelative");
        let path_opt = ini_get(&secs, sect.as_str(), "Path");
        match (name_opt, isrel_opt, path_opt) {
            (Some(name), Some(isrel), Some(path)) => {
                match coerce_bool(isrel.as_str()) {
                    Some(is_relative) => {
                        let resolved = if is_relative {
                            join_path(profile_root, path.as_str())
                        } else {
                            path.clone()
                        };
                        let ghost p = (name@, resolved@);
                        out.push(Profile { name: name.clone(), path: resolved, databases: None });
                        proof {
                            assert(spec_resolve_section(model, profile_root@, sect@) == Some(p));
                            assert(spec_profiles_from(model, profile_root@, n as nat, fuel)
                                == seq![p] + rest);
                            assert(out@.map_values(|q: Profile| (q.name@, q.path@))
                                =~~= prev_map.push(p));
                            assert(prev_map + (seq![p] + rest) =~~= prev_map.push(p) + rest);
                        }
                    },
                    None => {
                        proof {
                            assert(spec_resolve_section(model, profile_root@, sect@) is None);
                            assert(spec_profiles_from(model, profile_root@, n as nat, fuel)
                                == rest);
                        }
                    },
                }
            },
            _ => {
                proof {
                    assert(spec_resolve_section(model, profile_root@, sect@) is None);
                    assert(spec_profiles_from(model, profile_root@, n as nat, fuel) == rest);
                }
            },
        }
        if n == secs.len() {
            proof {
                assert(rest =~~= Seq::<(Seq<char>, Seq<char>)>::empty());
                assert(out@.map_values(|q: Profile| (q.name@, q.path@)) + rest
                    =~~= out@.map_values(|q: Profile| (q.name@, q.path@)));
            }
            break;
        }
        n += 1;
    }
    out
}

// ---------------------------------------------------------------------------
// Attaching scanned databases to profiles
// ---------------------------------------------------------------------------

/// Freshly discovered database records for exactly the candidate paths that
/// pass the scanner's filter, in order, none measured or defragmented yet.
pub open spec fn spec_fresh_databases(
    dbs: Seq<Database>,
    cands: Seq<FileCandidate>,
    max_depth: int,
) -> bool {
    &&& dbs.len() == spec_db_files(cands, max_depth).len()
    &&& forall|i: int|
        0 <= i < dbs.len() ==> (#[trigger] dbs[i]).path@ == spec_db_files(cands, max_depth)[i]
            && dbs[i].size_before is None && dbs[i].size_after is None && !dbs[i].defrag
}

/// Turn the candidates that pass the scanner's filter into fresh database
/// records.
pub fn profile_databases(candidates: &Vec<FileCandidate>, max_depth: usize) -> (r: Vec<Database>)
    ensures
        spec_fresh_databases(r@, candidates@, max_depth as int),
{
    let files = find_sqlite3_files(candidates, max_depth);
    let mut out: Vec<Database> = Vec::new();
    let mut i: usize = 0;
    while i < files.len()
        invariant
            i <= files.len(),
            files@.map_values(|p: String| p@) == spec_db_files(candidates@, max_depth as int),
            out@.len() == i,
            forall|j: int|
                0 <= j < i ==> (#[trigger] out@[j]).path@ == spec_db_files(
                    candidates@,
                    max_depth as int,
                )[j] && out@[j].size_before is None && out@[j].size_after is None && !out@[j].defrag,
        decreases files.len() - i,
    {
        out.push(Database::new(files[i].as_str()));
        i += 1;
    }
    out
}

/// Populate a profile's databases from the candidates read under its path;
/// the profile's name and path stay as they are.
pub fn attach_databases(profile: &mut Profile, candidates: &Vec<FileCandidate>, max_depth: usize)
    ensures
        final(profile).name == old(profile).name,
        final(profile).path == old(profile).path,
        final(profile).databases matches Some(dbs) && spec_fresh_databases(
            dbs@,
            candidates@,
            max_depth as int,
        ),
{
    profile.databases = Some(profile_databases(candidates, max_depth));
}

/// One unnamed profile at `path`, its databases drawn from the candidates.
/// This is the shape shared by the fixed-root browser and the browser with
/// an explicitly supplied profile path.
pub fn single_profile(path: &str, candidates: &Vec<FileCandidate>, max_depth: usize) -> (p:
    Profile)
    ensures
        p.name@ == Seq::<char>::empty(),
        p.path@ == path@,
        p.databases matches Some(dbs) && spec_fresh_databases(dbs@, candidates@, max_depth as int),
{
    let mut p = Profile { name: String::new(), path: path.to_owned(), databases: None };
    attach_databases(&mut p, candidates, max_depth);
    p
}

/// Database listing for the browser whose profile location is not known:
/// the path must come from the configuration, and the one profile it names
/// is scanned like any other. Fails exactly when no path was supplied.
pub fn list_db(config: Config, candidates: &Vec<FileCandidate>) -> (r: Result<
    Vec<Profile>,
    DefragError,
>)
    ensures
        r is Err <==> config.profile_path is None,
        r matches Err(e) ==> e is Resolution,
        r matches Ok(ps) ==> {
            &&& ps@.len() == 1
            &&& ps@[0].name@ == Seq::<char>::empty()
            &&& Some(ps@[0].path) == config.profile_path
            &&& ps@[0].databases matches Some(dbs) && spec_fresh_databases(
                dbs@,
                candidates@,
                config.max_depth as int,
            )
        },
{
    match config.profile_path {
        Some(path) => {
            let p = single_profile(path.as_str(), candidates, config.max_depth);
            let mut ps: Vec<Profile> = Vec::new();
            ps.push(Profile { name: p.name, path, databases: p.databases });
            Ok(ps)
        },
        None => Err(
            DefragError::Resolution("no profile path was supplied for this browser".to_owned()),
        ),
    }
}

// ---------------------------------------------------------------------------
// Profile roots of the known browsers
// ---------------------------------------------------------------------------

/// The manifest-based browser's profile root under the home directory.
pub fn firefox_profile_root(home: &str) -> (r: String)
    ensures
        r@ == spec_join_path(spec_join_path(home@, ".mozilla"@), "firefox"@),
{
    let base = join_path(home, ".mozilla");
    join_path(base.as_str(), "firefox")
}

/// The fixed-root browser's profile root: under the configuration
/// directory when one is set, else under `.config` in the home directory.
pub fn chromium_profile_root(xdg_config_home: &Option<String>, home: &str) -> (r: String)
    ensures
        match xdg_config_home {
            Some(x) => r@ == spec_join_path(x@, "chromium"@),
            None => r@ == spec_join_path(spec_join_path(home@, ".config"@), "chromium"@),
        },
{
    match xdg_config_home {
        Some(x) => join_path(x.as_str(), "chromium"),
        None => {
            let base = join_path(home, ".config");
            join_path(base.as_str(), "chromium")
        },
    }
}

} // verus!
