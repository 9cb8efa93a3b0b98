//! Java build names of the form `jdk-VERSION+BUILD[-KIND]`.

use vstd::prelude::*;
use crate::text::{
    after_first, before_first, chars_eq_ignore_ascii_case, chars_of, concat2, concat3, decimal,
    eq_ignore_ascii_case, find_char, has_prefix, is_digit, lemma_decimal, lemma_first_index,
    lemma_parse_decimal_roundtrip, owned, parse_u32, spec_parse_u32, splits_in_two, starts_with,
    string_from_range,
};

verus! {

/// The parts of a Java build name.
#[derive(Clone, Debug)]
pub struct ParsedJavaName {
    pub java_name: String,
    pub major: u32,
    pub version: String,
    pub build: u32,
    pub is_jre: bool,
}

/// The mathematical value of a [`ParsedJavaName`].
pub struct ParsedJavaNameModel {
    pub java_name: Seq<char>,
    pub major: u32,
    pub version: Seq<char>,
    pub build: u32,
    pub is_jre: bool,
}

impl View for ParsedJavaName {
    type V = ParsedJavaNameModel;

    open spec fn view(&self) -> ParsedJavaNameModel {
        ParsedJavaNameModel {
            java_name: self.java_name@,
            major: self.major,
            version: self.version@,
            build: self.build,
            is_jre: self.is_jre,
        }
    }
}

/// The prefix every Java build name starts with.
pub open spec fn jdk_prefix() -> Seq<char> {
    seq!['j', 'd', 'k', '-']
}

/// The kind name that marks a runtime-only build.
pub open spec fn jre_word() -> Seq<char> {
    seq!['j', 'r', 'e']
}

/// `name` without its `jdk-` prefix.
pub open spec fn name_body(name: Seq<char>) -> Seq<char> {
    name.skip(4)
}

/// The version part: what stands between `jdk-` and `+`.
pub open spec fn name_version(name: Seq<char>) -> Seq<char> {
    before_first(name_body(name), '+')
}

/// The build-and-kind part: what follows `+`.
pub open spec fn name_build_kind(name: Seq<char>) -> Seq<char> {
    after_first(name_body(name), '+')
}

/// The build number text: the build-and-kind part up to its first `-`.
pub open spec fn name_build_text(name: Seq<char>) -> Seq<char> {
    before_first(name_build_kind(name), '-')
}

/// The major version text: the version up to its first `.`.
pub open spec fn name_major_text(name: Seq<char>) -> Seq<char> {
    before_first(name_version(name), '.')
}

/// The build is a runtime-only one: the kind (everything after the first `-` of the
/// build-and-kind part, `jdk` when there is no `-`) is `jre` in any ASCII case.
pub open spec fn name_is_jre(name: Seq<char>) -> bool {
    name_build_kind(name).contains('-') && eq_ignore_ascii_case(
        after_first(name_build_kind(name), '-'),
        jre_word(),
    )
}

/// What parsing a Java build name gives: its parts, or the message of the first
/// check that fails.
pub open spec fn spec_parse_java_name(name: Seq<char>) -> Result<ParsedJavaNameModel, Seq<char>> {
    if !starts_with(name, jdk_prefix()) {
        Err("Invalid java_name (missing 'jdk-' prefix): "@ + name)
    } else if !splits_in_two(name_body(name), '+') {
        Err("Invalid java_name (expected 'jdk-VERSION+BUILD-KIND'): "@ + name)
    } else if spec_parse_u32(name_build_text(name)) is None {
        Err("Invalid build number in "@ + name + ": "@ + name_build_text(name))
    } else if spec_parse_u32(name_major_text(name)) is None {
        Err("Invalid version in "@ + name + ": "@ + name_version(name))
    } else {
        Ok(
            ParsedJavaNameModel {
                java_name: name,
                major: spec_parse_u32(name_major_text(name))->0,
                version: name_version(name),
                build: spec_parse_u32(name_build_text(name))->0,
                is_jre: name_is_jre(name),
            },
        )
    }
}

/// Finds the `+` of a name that starts with `jdk-`: `Some` of its index exactly
/// when the part after `jdk-` holds exactly one `+`.
fn locate_plus(cs: &Vec<char>) -> (r: Option<usize>)
    requires
        starts_with(cs@, jdk_prefix()),
    ensures
        r is Some <==> splits_in_two(name_body(cs@), '+'),
        r matches Some(p) ==> {
            &&& 4 <= p < cs@.len()
            &&& name_version(cs@) == cs@.subrange(4, p as int)
            &&& name_build_kind(cs@) == cs@.subrange(p + 1, cs@.len() as int)
        },
{
    let n = cs.len();
    let ghost body = name_body(cs@);
    assert(body =~= cs@.subrange(4, n as int));
    let plus = find_char(cs.as_slice(), '+', 4);
    proof {
        lemma_first_index(body, '+', plus - 4);
    }
    if plus == n {
        assert(!body.contains('+')) by {
            if body.contains('+') {
                let k = choose|k: int| 0 <= k < body.len() && body[k] == '+';
                assert(cs@[k + 4] == '+');
            }
        }
        return None;
    }
    let plus2 = find_char(cs.as_slice(), '+', plus + 1);
    let ghost rest = after_first(body, '+');
    assert(rest =~= cs@.subrange(plus + 1, n as int));
    assert(body.contains('+')) by {
        assert(body[plus - 4] == '+');
    }
    if plus2 < n {
        assert(rest[plus2 - plus - 1] == '+');
        return None;
    }
    assert(!rest.contains('+')) by {
        if rest.contains('+') {
            let k = choose|k: int| 0 <= k < rest.len() && rest[k] == '+';
            assert(cs@[plus + 1 + k] == '+');
        }
    }
    assert(name_version(cs@) =~= cs@.subrange(4, plus as int));
    Some(plus)
}

/// The build number text, its value, and whether the kind after it is `jre`.
fn read_build_and_kind(cs: &Vec<char>, plus: usize) -> (r: (String, Option<u32>, bool))
    requires
        plus < cs@.len(),
        name_build_kind(cs@) == cs@.subrange(plus + 1, cs@.len() as int),
    ensures
        r.0@ == name_build_text(cs@),
        r.1 == spec_parse_u32(name_build_text(cs@)),
        r.2 == name_is_jre(cs@),
{
    let n = cs.len();
    let ghost build_kind = name_build_kind(cs@);
    let dash = find_char(cs.as_slice(), '-', plus + 1);
    proof {
        lemma_first_index(build_kind, '-', dash - plus - 1);
    }
    let build_text = string_from_range(cs.as_slice(), plus + 1, dash);
    assert(build_text@ =~= name_build_text(cs@));
    let build_cs = chars_of(build_text.as_str());
    let build = parse_u32(build_cs.as_slice());
    let is_jre = if dash < n {
        assert(build_kind.contains('-')) by {
            assert(build_kind[dash - plus - 1] == '-');
        }
        let kind = string_from_range(cs.as_slice(), dash + 1, n);
        let kind_cs = chars_of(kind.as_str());
        assert(kind_cs@ =~= after_first(build_kind, '-'));
        let jre = ['j', 'r', 'e'];
        assert(jre@ =~= jre_word());
        chars_eq_ignore_ascii_case(kind_cs.as_slice(), jre.as_slice())
    } else {
        assert(!build_kind.contains('-')) by {
            if build_kind.contains('-') {
                let k = choose|k: int| 0 <= k < build_kind.len() && build_kind[k] == '-';
                assert(cs@[plus + 1 + k] == '-');
            }
        }
        false
    };
    (build_text, build, is_jre)
}

/// The version text and the value of its major part.
fn read_version(cs: &Vec<char>, plus: usize) -> (r: (String, Option<u32>))
    requires
        4 <= plus < cs@.len(),
        name_version(cs@) == cs@.subrange(4, plus as int),
    ensures
        r.0@ == name_version(cs@),
        r.1 == spec_parse_u32(name_major_text(cs@)),
{
    let ghost version = name_version(cs@);
    let version_text = string_from_range(cs.as_slice(), 4, plus);
    let dot = find_char(cs.as_slice(), '.', 4);
    let major_end = if dot < plus { dot } else { plus };
    proof {
        lemma_first_index(version, '.', major_end - 4);
    }
    let major_text = string_from_range(cs.as_slice(), 4, major_end);
    let major_cs = chars_of(major_text.as_str());
    assert(major_cs@ =~= name_major_text(cs@));
    (version_text, parse_u32(major_cs.as_slice()))
}

/// Splits a Java build name such as `jdk-21.0.5+11-jre` into its major version,
/// version, build number and kind.
pub fn parse_java_name(java_name: &str) -> (r: Result<ParsedJavaName, String>)
    ensures
        r matches Ok(p) ==> spec_parse_java_name(java_name@) == Ok::<ParsedJavaNameModel, Seq<char>>(p@),
        r matches Err(e) ==> spec_parse_java_name(java_name@) == Err::<ParsedJavaNameModel, Seq<char>>(e@),
{
    let cs = chars_of(java_name);
    let prefix = ['j', 'd', 'k', '-'];
    assert(prefix@ =~= jdk_prefix());
    if !has_prefix(cs.as_slice(), prefix.as_slice()) {
        return Err(concat2("Invalid java_name (missing 'jdk-' prefix): ", java_name));
    }
    let plus = match locate_plus(&cs) {
        Some(p) => p,
        None => {
            return Err(
                concat2("Invalid java_name (expected 'jdk-VERSION+BUILD-KIND'): ", java_name),
            );
        },
    };
    let (build_text, build, is_jre) = read_build_and_kind(&cs, plus);
    let build = match build {
        Some(b) => b,
        None => {
            let mut msg = concat3("Invalid build number in ", java_name, ": ");
            msg.append(build_text.as_str());
            return Err(msg);
        },
    };
    let (version, major) = read_version(&cs, plus);
    let major = match major {
        Some(m) => m,
        None => {
            let mut msg = concat3("Invalid version in ", java_name, ": ");
            msg.append(version.as_str());
            return Err(msg);
        },
    };
    Ok(ParsedJavaName { java_name: owned(java_name), major, version, build, is_jre })
}

/// The build name for a version, a build number and a kind:
/// `jdk-VERSION+BUILD`, followed by `-jre` for a runtime-only build.
pub open spec fn compose_java_name(version: Seq<char>, build: u32, jre: bool) -> Seq<char> {
    jdk_prefix() + version + seq!['+'] + decimal(build as nat) + if jre {
        seq!['-', 'j', 'r', 'e']
    } else {
        Seq::empty()
    }
}

/// Law: a build name composed from a version (without `+`, whose part before
/// the first `.` is a number), a build number and a kind parses back into
/// those parts.
pub proof fn lemma_java_name_roundtrip(version: Seq<char>, build: u32, jre: bool)
    requires
        !version.contains('+'),
        spec_parse_u32(before_first(version, '.')) is Some,
    ensures
        spec_parse_java_name(compose_java_name(version, build, jre)) == Ok::<ParsedJavaNameModel, Seq<char>>(
            ParsedJavaNameModel {
                java_name: compose_java_name(version, build, jre),
                major: spec_parse_u32(before_first(version, '.'))->0,
                version,
                build,
                is_jre: jre,
            },
        ),
{
    let name = compose_java_name(version, build, jre);
    let d = decimal(build as nat);
    let suffix: Seq<char> = if jre {
        seq!['-', 'j', 'r', 'e']
    } else {
        Seq::empty()
    };
    lemma_decimal(build as nat);
    lemma_parse_decimal_roundtrip(build);
    assert(name.take(4) =~= jdk_prefix());
    let body = name_body(name);
    assert(body =~= version + seq!['+'] + d + suffix);
    // The version ends at the only `+`.
    assert forall|j: int| 0 <= j < version.len() implies body[j] != '+' by {
        assert(body[j] == version[j]);
        if version[j] == '+' {
            assert(version.contains('+'));
        }
    }
    lemma_first_index(body, '+', version.len() as int);
    let bk = after_first(body, '+');
    assert(bk =~= d + suffix);
    assert(before_first(body, '+') =~= version);
    assert forall|j: int| 0 <= j < d.len() implies d[j] != '+' && d[j] != '-' by {
        assert(is_digit(d[j]));
    }
    assert(!bk.contains('+')) by {
        if bk.contains('+') {
            let k = choose|k: int| 0 <= k < bk.len() && bk[k] == '+';
            if k < d.len() {
                assert(bk[k] == d[k]);
            } else {
                assert(bk[k] == suffix[k - d.len()]);
            }
        }
    }
    assert(splits_in_two(body, '+')) by {
        assert(body[version.len() as int] == '+');
    }
    // The build number ends at the first `-`, if any.
    assert forall|j: int| 0 <= j < d.len() implies bk[j] != '-' by {
        assert(bk[j] == d[j]);
    }
    lemma_first_index(bk, '-', d.len() as int);
    assert(before_first(bk, '-') =~= d);
    if jre {
        assert(bk.contains('-')) by {
            assert(bk[d.len() as int] == '-');
        }
        assert(after_first(bk, '-') =~= seq!['j', 'r', 'e']);
        assert(eq_ignore_ascii_case(after_first(bk, '-'), jre_word()));
    } else {
        assert(!bk.contains('-')) by {
            if bk.contains('-') {
                let k = choose|k: int| 0 <= k < bk.len() && bk[k] == '-';
                assert(bk[k] == d[k]);
            }
        }
    }
}

} // verus!
