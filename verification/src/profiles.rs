//! The Java builds that the launcher's published game versions use.

use vstd::prelude::*;
use crate::java_name::{parse_java_name, spec_parse_java_name};
use crate::json::{spec_get, spec_get_str, JsonValue};
use crate::mods::ids_view;
use crate::release_info::spec_kind_name;
use crate::releases::spec_items;
use crate::sort::{
    hits, is_stable_sort_of, lemma_text_lt_asymmetric, lemma_text_lt_total,
    lemma_text_lt_transitive, stable_sort, text_less, text_lt, SortKey,
};
use crate::text::{chars_of, owned, str_eq};

verus! {

/// A Java build that some game version of the launcher uses.
#[derive(Clone, Debug)]
pub struct JavaProfile {
    pub java_name: String,
    pub major: u32,
    pub version: String,
    pub build: u32,
    pub kind: String,
    pub is_jre: bool,
    pub usage_count: u32,
}

/// The mathematical value of a [`JavaProfile`].
pub struct JavaProfileModel {
    pub java_name: Seq<char>,
    pub major: u32,
    pub version: Seq<char>,
    pub build: u32,
    pub kind: Seq<char>,
    pub is_jre: bool,
    pub usage_count: nat,
}

impl View for JavaProfile {
    type V = JavaProfileModel;

    open spec fn view(&self) -> JavaProfileModel {
        JavaProfileModel {
            java_name: self.java_name@,
            major: self.major,
            version: self.version@,
            build: self.build,
            kind: self.kind@,
            is_jre: self.is_jre,
            usage_count: self.usage_count as nat,
        }
    }
}

/// The launcher's answer: where it came from and the builds in use.
#[derive(Clone, Debug)]
pub struct LauncherProfilesResponse {
    pub source: String,
    pub profiles: Vec<JavaProfile>,
}

/// Where the launcher publishes its game versions.
pub open spec fn launcher_url() -> Seq<char> {
    "https://ogulniega.com/files/launcher.json"@
}

/// The address of the launcher's published game versions.
pub fn launcher_json_url() -> (r: &'static str)
    ensures
        r@ == launcher_url(),
{
    "https://ogulniega.com/files/launcher.json"
}

/// Whether a list of launcher profiles fetched `age_millis` milliseconds ago is
/// reused rather than fetched again: it is while it is younger than five minutes.
pub fn launcher_cache_fresh(age_millis: u64) -> (r: bool)
    ensures
        r == (age_millis < 300000),
{
    age_millis < 300000
}

/// The entries of the launcher document: its `versions` array.
pub open spec fn launcher_entries(value: JsonValue) -> Seq<JsonValue> {
    spec_items(spec_get(value, "versions"@))
}

/// The build name that an entry uses, when it names one that parses.
pub open spec fn entry_java_name(e: JsonValue) -> Option<Seq<char>> {
    match spec_get_str(e, "java_name"@) {
        Some(n) => if n.len() > 0 && spec_parse_java_name(n) is Ok {
            Some(n)
        } else {
            None
        },
        None => None,
    }
}

/// How many entries use the build name `name`.
pub open spec fn usage_count(entries: Seq<JsonValue>, name: Seq<char>) -> nat
    decreases entries.len(),
{
    if entries.len() == 0 {
        0
    } else {
        usage_count(entries.drop_last(), name) + if entry_java_name(entries.last()) == Some(name) {
            1nat
        } else {
            0nat
        }
    }
}

proof fn lemma_usage_count_le(entries: Seq<JsonValue>, name: Seq<char>)
    ensures
        usage_count(entries, name) <= entries.len(),
    decreases entries.len(),
{
    if entries.len() > 0 {
        lemma_usage_count_le(entries.drop_last(), name);
    }
}

proof fn lemma_usage_count_pos(entries: Seq<JsonValue>, name: Seq<char>)
    requires
        usage_count(entries, name) > 0,
    ensures
        entry_java_name(entries[choose|k: int| 0 <= k < entries.len() && entry_java_name(entries[k]) == Some(name)]) == Some(name),
        exists|k: int| 0 <= k < entries.len() && entry_java_name(entries[k]) == Some(name),
    decreases entries.len(),
{
    if entry_java_name(entries.last()) != Some(name) {
        lemma_usage_count_pos(entries.drop_last(), name);
        let k = choose|k: int| 0 <= k < entries.drop_last().len() && entry_java_name(entries.drop_last()[k]) == Some(name);
        assert(entries[k] == entries.drop_last()[k]);
    } else {
        assert(entry_java_name(entries[entries.len() - 1]) == Some(name));
    }
}

/// The profile of a build name used `count` times.
pub open spec fn profile_for(name: Seq<char>, count: nat) -> JavaProfileModel {
    let p = spec_parse_java_name(name)->Ok_0;
    JavaProfileModel {
        java_name: name,
        major: p.major,
        version: p.version,
        build: p.build,
        kind: spec_kind_name(p.is_jre),
        is_jre: p.is_jre,
        usage_count: count,
    }
}

/// Some profile of `ps` is the one of the build name `x`.
pub open spec fn lists_profile(ps: Seq<JavaProfile>, x: Seq<char>) -> bool {
    exists|k: int| 0 <= k < ps.len() && (#[trigger] ps[k]).java_name@ == x
}

/// Profiles are ordered by major version, then by build name.
pub open spec fn profile_before(a: JavaProfileModel, b: JavaProfileModel) -> bool {
    a.major < b.major || (a.major == b.major && text_lt(a.java_name, b.java_name))
}

impl SortKey for JavaProfile {
    open spec fn key_le(&self, other: &Self) -> bool {
        self.major < other.major || (self.major == other.major && !text_lt(
            other.java_name@,
            self.java_name@,
        ))
    }

    fn le(&self, other: &Self) -> (r: bool) {
        if self.major != other.major {
            return self.major < other.major;
        }
        let a = chars_of(self.java_name.as_str());
        let b = chars_of(other.java_name.as_str());
        !text_less(b.as_slice(), a.as_slice())
    }

    proof fn lemma_total(a: &Self, b: &Self) {
        lemma_text_lt_asymmetric(a.java_name@, b.java_name@);
    }

    proof fn lemma_transitive(a: &Self, b: &Self, c: &Self) {
        lemma_text_lt_total(a.java_name@, b.java_name@);
        lemma_text_lt_total(b.java_name@, c.java_name@);
        if text_lt(c.java_name@, a.java_name@) && text_lt(a.java_name@, b.java_name@) {
            lemma_text_lt_transitive(c.java_name@, a.java_name@, b.java_name@);
        }
    }
}

proof fn lemma_usage_step(entries: Seq<JsonValue>, i: int, x: Seq<char>)
    requires
        0 <= i < entries.len(),
    ensures
        usage_count(entries.take(i + 1), x) == usage_count(entries.take(i), x) + if entry_java_name(
            entries[i],
        ) == Some(x) {
            1nat
        } else {
            0nat
        },
{
    assert(entries.take(i + 1).drop_last() =~= entries.take(i));
    assert(entries.take(i + 1).last() == entries[i]);
}

/// The place of the first text of `v` equal to `s`, or `v.len()`.
fn find_text(v: &Vec<String>, s: &str) -> (r: usize)
    ensures
        r <= v@.len(),
        r < v@.len() ==> v@[r as int]@ == s@,
        forall|u: int| 0 <= u < r ==> (#[trigger] v@[u])@ != s@,
{
    let mut t: usize = 0;
    while t < v.len()
        invariant
            t <= v@.len(),
            forall|u: int| 0 <= u < t ==> (#[trigger] v@[u])@ != s@,
        decreases v@.len() - t,
    {
        if str_eq(v[t].as_str(), s) {
            return t;
        }
        t += 1;
    }
    t
}

/// The build names in use, each once, in the order they first occur, with how
/// often each occurs so far.
fn tally(entries: &Vec<JsonValue>) -> (r: (Vec<String>, Vec<u32>))
    requires
        entries@.len() <= u32::MAX,
    ensures
        r.0@.len() == r.1@.len(),
        ids_view(r.0@).no_duplicates(),
        forall|x: Seq<char>| #[trigger] ids_view(r.0@).contains(x) <==> usage_count(entries@, x) > 0,
        forall|t: int| 0 <= t < r.1@.len() ==> #[trigger] r.1@[t] as nat == usage_count(entries@, r.0@[t]@),
{
    let mut names: Vec<String> = Vec::new();
    let mut counts: Vec<u32> = Vec::new();
    let mut i: usize = 0;
    while i < entries.len()
        invariant
            entries@.len() <= u32::MAX,
            i <= entries@.len(),
            names@.len() == counts@.len(),
            ids_view(names@).no_duplicates(),
            forall|x: Seq<char>| #[trigger] ids_view(names@).contains(x) <==> usage_count(entries@.take(i as int), x) > 0,
            forall|t: int| 0 <= t < counts@.len() ==> #[trigger] counts@[t] as nat == usage_count(entries@.take(i as int), names@[t]@),
        decreases entries@.len() - i,
    {
        let ghost prefix = entries@.take(i + 1);
        assert(prefix.drop_last() =~= entries@.take(i as int));
        assert(prefix.last() == entries@[i as int]);
        let ghost nv = ids_view(names@);
        let e = &entries[i];
        let valid: Option<&str> = match e.get_str("java_name") {
            Some(n) => if !n.is_empty() && parse_java_name(n).is_ok() {
                Some(n)
            } else {
                None
            },
            None => None,
        };
        assert(valid matches Some(n) ==> entry_java_name(entries@[i as int]) == Some(n@));
        assert(valid is None ==> entry_java_name(entries@[i as int]) is None);
        if let Some(n) = valid {
            let t = find_text(&names, n);
            if t < names.len() {
                proof {
                    lemma_usage_count_le(entries@.take(i as int), n@);
                }
                let c = counts[t];
                counts.set(t, c + 1);
                proof {
                    assert(nv[t as int] == n@);
                    assert forall|x: Seq<char>| #[trigger] ids_view(names@).contains(x) <==> usage_count(prefix, x) > 0 by {
                        lemma_usage_step(entries@, i as int, x);
                        if x == n@ {
                            assert(nv.contains(x));
                        }
                    }
                    assert forall|u: int| 0 <= u < counts@.len() implies #[trigger] counts@[u] as nat == usage_count(prefix, names@[u]@) by {
                        lemma_usage_step(entries@, i as int, names@[u]@);
                        assert(nv[u] == names@[u]@);
                        if u != t {
                            assert(nv[u] != nv[t as int]);
                        }
                    }
                }
            } else {
                proof {
                    assert(!nv.contains(n@)) by {
                        if nv.contains(n@) {
                            let u = choose|u: int| 0 <= u < nv.len() && nv[u] == n@;
                            assert(names@[u]@ != n@);
                        }
                    }
                }
                names.push(owned(n));
                counts.push(1);
                proof {
                    let nv2 = ids_view(names@);
                    assert(nv2 =~= nv.push(n@));
                    assert forall|x: Seq<char>| #[trigger] nv2.contains(x) <==> usage_count(prefix, x) > 0 by {
                        lemma_usage_step(entries@, i as int, x);
                        if nv2.contains(x) && x != n@ {
                            let u = choose|u: int| 0 <= u < nv2.len() && nv2[u] == x;
                            assert(nv[u] == x);
                        }
                        if nv.contains(x) {
                            let u = choose|u: int| 0 <= u < nv.len() && nv[u] == x;
                            assert(nv2[u] == x);
                        }
                        if x == n@ {
                            assert(nv2[nv2.len() - 1] == x);
                        }
                    }
                    assert forall|a: int, b: int| 0 <= a < nv2.len() && 0 <= b < nv2.len() && a != b implies nv2[a] != nv2[b] by {
                        if a == nv2.len() - 1 {
                            assert(nv.contains(nv2[b]));
                        } else if b == nv2.len() - 1 {
                            assert(nv.contains(nv2[a]));
                        }
                    }
                    assert forall|u: int| 0 <= u < counts@.len() implies #[trigger] counts@[u] as nat == usage_count(prefix, names@[u]@) by {
                        lemma_usage_step(entries@, i as int, names@[u]@);
                        if u < counts@.len() - 1 {
                            assert(nv[u] == names@[u]@);
                            assert(nv.contains(nv[u]));
                            assert(nv[u] != n@);
                        } else {
                            assert(usage_count(entries@.take(i as int), n@) == 0) by {
                                if usage_count(entries@.take(i as int), n@) > 0 {
                                    assert(nv.contains(n@));
                                }
                            }
                        }
                    }
                }
            }
        } else {
            proof {
                assert forall|x: Seq<char>| #[trigger] ids_view(names@).contains(x) <==> usage_count(prefix, x) > 0 by {
                    lemma_usage_step(entries@, i as int, x);
                }
                assert forall|u: int| 0 <= u < counts@.len() implies #[trigger] counts@[u] as nat == usage_count(prefix, names@[u]@) by {
                    lemma_usage_step(entries@, i as int, names@[u]@);
                }
            }
        }
        i += 1;
    }
    assert(entries@.take(entries@.len() as int) =~= entries@);
    (names, counts)
}

/// The builds that the launcher document's entries use: each build name that
/// parses, once, with how many entries use it, ordered by major version and
/// then by name; an error when there is none.
pub fn launcher_profiles(value: &JsonValue) -> (r: Result<LauncherProfilesResponse, String>)
    requires
        launcher_entries(*value).len() <= u32::MAX,
    ensures
        r is Ok <==> exists|x: Seq<char>| usage_count(launcher_entries(*value), x) > 0,
        r matches Err(e) ==> e@ == "Launcher JSON did not contain any usable java_name entries"@,
        r matches Ok(resp) ==> {
            &&& resp.source@ == launcher_url()
            &&& forall|k: int, l: int|
                0 <= k < l < resp.profiles@.len() ==> profile_before(
                    (#[trigger] resp.profiles@[k])@,
                    (#[trigger] resp.profiles@[l])@,
                )
            &&& forall|k: int|
                0 <= k < resp.profiles@.len() ==> (#[trigger] resp.profiles@[k])@ == profile_for(
                    resp.profiles@[k].java_name@,
                    usage_count(launcher_entries(*value), resp.profiles@[k].java_name@),
                )
            &&& forall|x: Seq<char>|
                #[trigger] usage_count(launcher_entries(*value), x) > 0 ==> lists_profile(resp.profiles@, x)
            &&& forall|k: int|
                0 <= k < resp.profiles@.len() ==> usage_count(
                    launcher_entries(*value),
                    (#[trigger] resp.profiles@[k]).java_name@,
                ) > 0
        },
{
    let empty: Vec<JsonValue> = Vec::new();
    let entries: &Vec<JsonValue> = match value.get("versions") {
        Some(v) => match v.as_array() {
            Some(a) => a,
            None => &empty,
        },
        None => &empty,
    };
    assert(entries@ == launcher_entries(*value));
    let (names, counts) = tally(entries);
    let ghost nv = ids_view(names@);
    let mut profiles: Vec<JavaProfile> = Vec::new();
    let mut t: usize = 0;
    while t < names.len()
        invariant
            t <= names@.len(),
            names@.len() == counts@.len(),
            nv == ids_view(names@),
            forall|x: Seq<char>| #[trigger] nv.contains(x) <==> usage_count(entries@, x) > 0,
            forall|u: int| 0 <= u < counts@.len() ==> #[trigger] counts@[u] as nat == usage_count(entries@, names@[u]@),
            profiles@.len() == t,
            forall|u: int| 0 <= u < t ==> (#[trigger] profiles@[u])@ == profile_for(names@[u]@, usage_count(entries@, names@[u]@)),
        decreases names@.len() - t,
    {
        proof {
            assert(nv[t as int] == names@[t as int]@);
            assert(nv.contains(names@[t as int]@));
            lemma_usage_count_pos(entries@, names@[t as int]@);
        }
        let parsed = match parse_java_name(names[t].as_str()) {
            Ok(p) => p,
            Err(_) => {
                assert(false);
                return Err(owned("Launcher JSON did not contain any usable java_name entries"));
            },
        };
        let kind = if parsed.is_jre {
            owned("jre")
        } else {
            owned("jdk")
        };
        profiles.push(
            JavaProfile {
                java_name: names[t].clone(),
                major: parsed.major,
                version: parsed.version,
                build: parsed.build,
                kind,
                is_jre: parsed.is_jre,
                usage_count: counts[t],
            },
        );
        t += 1;
    }
    if profiles.len() == 0 {
        proof {
            assert forall|x: Seq<char>| usage_count(launcher_entries(*value), x) == 0 by {
                if usage_count(entries@, x) > 0 {
                    assert(nv.contains(x));
                    let u = choose|u: int| 0 <= u < nv.len() && nv[u] == x;
                }
            }
        }
        return Err(owned("Launcher JSON did not contain any usable java_name entries"));
    }
    let ghost unsorted = profiles@;
    let sorted = stable_sort(profiles);
    proof {
        let p = choose|p: Seq<int>| is_stable_sort_of(sorted@, unsorted, p);
        assert(usage_count(entries@, names@[0]@) > 0) by {
            assert(nv.contains(names@[0]@)) by {
                assert(nv[0] == names@[0]@);
            }
        }
        assert forall|k: int, l: int| 0 <= k < l < sorted@.len() implies profile_before(
            (#[trigger] sorted@[k])@,
            (#[trigger] sorted@[l])@,
        ) by {
            assert(0 <= p[k] < unsorted.len());
            assert(0 <= p[l] < unsorted.len());
            assert(sorted@[k] == unsorted[p[k]]);
            assert(sorted@[l] == unsorted[p[l]]);
            assert(nv[p[k]] != nv[p[l]]);
            assert(sorted@[k].key_le(&sorted@[l]));
            lemma_text_lt_total(sorted@[k].java_name@, sorted@[l].java_name@);
        }
        assert forall|k: int| 0 <= k < sorted@.len() implies (#[trigger] sorted@[k])@ == profile_for(
            sorted@[k].java_name@,
            usage_count(launcher_entries(*value), sorted@[k].java_name@),
        ) by {
            assert(sorted@[k] == unsorted[p[k]]);
        }
        assert forall|x: Seq<char>| #[trigger] usage_count(launcher_entries(*value), x) > 0 implies lists_profile(sorted@, x) by {
            assert(nv.contains(x));
            let m = choose|m: int| 0 <= m < nv.len() && nv[m] == x;
            assert(hits(p, m));
            let k = choose|k: int| 0 <= k < p.len() && p[k] == m;
            assert(sorted@[k] == unsorted[m]);
        }
        assert forall|k: int| 0 <= k < sorted@.len() implies usage_count(
            launcher_entries(*value),
            (#[trigger] sorted@[k]).java_name@,
        ) > 0 by {
            assert(sorted@[k] == unsorted[p[k]]);
            assert(nv[p[k]] == names@[p[k]]@);
            assert(nv.contains(names@[p[k]]@));
        }
    }
    let resp = LauncherProfilesResponse { source: owned(launcher_json_url()), profiles: sorted };
    Ok(resp)
}

} // verus!
