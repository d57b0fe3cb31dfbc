//! Which released toolchain to install.

use vstd::prelude::*;

use crate::text::{
    cat2, chars_of, lemma_trim_back_of, same, string_of, text_of, trim, trim_back, trim_front, trimmed, white,
};

verus! {

/// Which released toolchain to install.
#[derive(Debug, PartialEq, Eq)]
pub enum VersionSpec {
    /// The latest non-prerelease GitHub release.
    Latest,
    /// The rolling `nightly` pre-release.
    Nightly,
    /// The rolling `edge` pre-release, republished on every merge.
    Edge,
    /// An explicit semver, stored without a leading `v` (e.g. `0.4.0`).
    Exact(String),
}

/// Which released toolchain is meant.
#[verifier::ext_equal]
pub enum SpecModel {
    Latest,
    Nightly,
    Edge,
    Exact(Seq<char>),
}

impl View for VersionSpec {
    type V = SpecModel;

    open spec fn view(&self) -> SpecModel {
        match *self {
            VersionSpec::Latest => SpecModel::Latest,
            VersionSpec::Nightly => SpecModel::Nightly,
            VersionSpec::Edge => SpecModel::Edge,
            VersionSpec::Exact(v) => SpecModel::Exact(v@),
        }
    }
}

/// `s` without the `v`s at its front.
pub open spec fn without_v(s: Seq<char>) -> Seq<char>
    decreases s.len(),
{
    if s.len() > 0 && s[0] == 'v' {
        without_v(s.drop_first())
    } else {
        s
    }
}

/// The toolchain that a spec string means.
pub open spec fn spec_of(s: Seq<char>) -> SpecModel {
    let t = trimmed(s);
    if t == ""@ || t == "latest"@ {
        SpecModel::Latest
    } else if t == "nightly"@ {
        SpecModel::Nightly
    } else if t == "edge"@ {
        SpecModel::Edge
    } else {
        SpecModel::Exact(without_v(t))
    }
}

/// The toolchain that an environment variable means, where it is set.
pub open spec fn env_spec(value: Option<Seq<char>>) -> SpecModel {
    match value {
        Some(s) => spec_of(s),
        None => SpecModel::Latest,
    }
}

/// The release tag of a toolchain; none for the latest release.
pub open spec fn tag_of(spec: SpecModel) -> Option<Seq<char>> {
    match spec {
        SpecModel::Latest => None,
        SpecModel::Nightly => Some("nightly"@),
        SpecModel::Edge => Some("edge"@),
        SpecModel::Exact(v) => Some("v"@ + v),
    }
}

/// The directory name of a toolchain in the install cache.
pub open spec fn cache_key_of(spec: SpecModel) -> Seq<char> {
    match spec {
        SpecModel::Latest => "latest"@,
        SpecModel::Nightly => "nightly"@,
        SpecModel::Edge => "edge"@,
        SpecModel::Exact(v) => "v"@ + v,
    }
}

/// The content of an optional string slice.
pub open spec fn slice_text(o: Option<&str>) -> Option<Seq<char>> {
    match o {
        Some(s) => Some(s@),
        None => None,
    }
}

impl Clone for VersionSpec {
    fn clone(&self) -> (r: Self)
        ensures
            r@ == self@,
    {
        match self {
            VersionSpec::Latest => VersionSpec::Latest,
            VersionSpec::Nightly => VersionSpec::Nightly,
            VersionSpec::Edge => VersionSpec::Edge,
            VersionSpec::Exact(v) => VersionSpec::Exact(v.clone()),
        }
    }
}

impl VersionSpec {
    /// Parse a spec string (`latest` / `nightly` / `edge` / `0.4.0` /
    /// `v0.4.0`).
    pub fn parse(s: &str) -> (r: Self)
        ensures
            r@ == spec_of(s@),
    {
        let t = trim(s);
        if same(t.as_str(), "") || same(t.as_str(), "latest") {
            return VersionSpec::Latest;
        }
        if same(t.as_str(), "nightly") {
            return VersionSpec::Nightly;
        }
        if same(t.as_str(), "edge") {
            return VersionSpec::Edge;
        }
        let v = chars_of(t.as_str());
        let mut i: usize = 0;
        assert(v@.skip(0) =~= v@);
        while i < v.len() && v[i] == 'v'
            invariant
                i <= v@.len(),
                without_v(v@.skip(i as int)) == without_v(v@),
            decreases v.len() - i,
        {
            assert(v@.skip(i as int).drop_first() =~= v@.skip(i + 1));
            i += 1;
        }
        let version = string_of(&v, i, v.len());
        assert(version@ =~= v@.skip(i as int));
        VersionSpec::Exact(version)
    }

    /// The spec that the value of `BEAMTALK_UAT_VERSION` means (default
    /// `latest`).
    pub fn from_env(value: Option<&str>) -> (r: Self)
        ensures
            r@ == env_spec(slice_text(value)),
    {
        match value {
            Some(s) => VersionSpec::parse(s),
            None => VersionSpec::Latest,
        }
    }

    /// The release tag to download, or `None` to let `gh` pick the latest.
    pub fn tag(&self) -> (r: Option<String>)
        ensures
            text_of(r) == tag_of(self@),
    {
        match self {
            VersionSpec::Latest => None,
            VersionSpec::Nightly => Some("nightly".to_owned()),
            VersionSpec::Edge => Some("edge".to_owned()),
            VersionSpec::Exact(v) => Some(cat2("v", v.as_str())),
        }
    }

    /// Stable directory name for the install cache.
    pub fn cache_key(&self) -> (r: String)
        ensures
            r@ == cache_key_of(self@),
    {
        match self {
            VersionSpec::Latest => "latest".to_owned(),
            VersionSpec::Nightly => "nightly".to_owned(),
            VersionSpec::Edge => "edge".to_owned(),
            VersionSpec::Exact(v) => cat2("v", v.as_str()),
        }
    }
}

/// If the value of `BEAMTALK_UAT_VERSION` asks for an explicit version, that
/// version without a leading `v`. The other releases give `None`, since the
/// resolved number is not known ahead.
pub fn requested_exact_version(value: Option<&str>) -> (r: Option<String>)
    ensures
        text_of(r) == match env_spec(slice_text(value)) {
            SpecModel::Exact(v) => Some(v),
            _ => None,
        },
{
    match VersionSpec::from_env(value) {
        VersionSpec::Exact(v) => Some(v),
        _ => None,
    }
}

// ── Laws ────────────────────────────────────────────────────────────────────

/// What is left of a text has no `v` in front, and is its end.
proof fn lemma_without_v(s: Seq<char>)
    ensures
        without_v(s).len() <= s.len(),
        without_v(s) == s.skip(s.len() - without_v(s).len()),
        without_v(s).len() > 0 ==> without_v(s)[0] != 'v',
    decreases s.len(),
{
    if s.len() > 0 && s[0] == 'v' {
        let rest = s.drop_first();
        lemma_without_v(rest);
        let k = without_v(s).len();
        assert(rest.skip(rest.len() - k) =~= s.skip(s.len() - k));
    } else {
        assert(s.skip(0) =~= s);
    }
}

/// A trimmed text does not end with whitespace.
proof fn lemma_trimmed_end(s: Seq<char>)
    ensures
        trimmed(s).len() > 0 ==> !white(trimmed(s).last()),
{
    lemma_trim_back_end(trim_front(s));
}

/// A text that is trimmed at its end does not end with whitespace.
proof fn lemma_trim_back_end(s: Seq<char>)
    ensures
        trim_back(s).len() > 0 ==> !white(trim_back(s).last()),
    decreases s.len(),
{
    if s.len() > 0 && white(s.last()) {
        lemma_trim_back_end(s.drop_last());
    }
}

/// An explicit version is stored without a leading `v`.
pub proof fn law_exact_has_no_v(s: Seq<char>)
    ensures
        spec_of(s) matches SpecModel::Exact(v) ==> (v.len() > 0 ==> v[0] != 'v'),
{
    lemma_without_v(trimmed(s));
}

/// A leading `v` makes no difference to an explicit version. (Behind leading
/// whitespace it would end up between the `v` and the version.)
pub proof fn law_v_is_optional(s: Seq<char>)
    requires
        spec_of(s) is Exact,
        !white(s[0]),
    ensures
        spec_of("v"@ + s) == spec_of(s),
{
    reveal_strlit("v");
    reveal_strlit("");
    reveal_strlit("latest");
    reveal_strlit("nightly");
    reveal_strlit("edge");
    let t = "v"@ + s;
    assert(t[0] == 'v');
    assert(trim_front(t) == t);
    if s.len() > 0 {
        assert(trim_front(s) == s);
    } else {
        assert(s =~= ""@);
        assert(trimmed(s) =~= ""@);
    }
    lemma_trim_back_of("v"@, s);
    let u = "v"@ + trimmed(s);
    assert(trimmed(t) == u);
    assert(u[0] == 'v');
    assert(u.drop_first() =~= trimmed(s));
}

/// The directory name of a toolchain, read as a spec, means that toolchain
/// again.
pub proof fn law_cache_key_parses_back(s: Seq<char>)
    ensures
        spec_of(cache_key_of(spec_of(s))) == spec_of(s),
{
    reveal_strlit("v");
    reveal_strlit("");
    reveal_strlit("latest");
    reveal_strlit("nightly");
    reveal_strlit("edge");
    match spec_of(s) {
        SpecModel::Latest => {
            assert(trim_front("latest"@) == "latest"@);
            assert(trim_back("latest"@) == "latest"@);
        },
        SpecModel::Nightly => {
            assert(trim_front("nightly"@) == "nightly"@);
            assert(trim_back("nightly"@) == "nightly"@);
        },
        SpecModel::Edge => {
            assert(trim_front("edge"@) == "edge"@);
            assert(trim_back("edge"@) == "edge"@);
        },
        SpecModel::Exact(v) => {
            let t = trimmed(s);
            lemma_without_v(t);
            lemma_trimmed_end(s);
            let key = "v"@ + v;
            assert(key[0] == 'v');
            if v.len() > 0 {
                assert(v.last() == t.last());
                assert(key.last() == v.last());
            } else {
                assert(key.last() == 'v');
            }
            assert(trim_front(key) == key);
            assert(trim_back(key) == key);
            assert(key.drop_first() =~= v);
            assert(without_v(key) == without_v(v));
            assert(without_v(v) == v);
        },
    }
}

/// Different toolchains have different directories: no install is taken for
/// another.
pub proof fn law_cache_key_injective(a: SpecModel, b: SpecModel)
    requires
        cache_key_of(a) == cache_key_of(b),
    ensures
        a == b,
{
    reveal_strlit("v");
    reveal_strlit("latest");
    reveal_strlit("nightly");
    reveal_strlit("edge");
    assert("latest"@[0] == 'l');
    assert("nightly"@[0] == 'n');
    assert("edge"@[0] == 'e');
    match (a, b) {
        (SpecModel::Exact(x), SpecModel::Exact(y)) => {
            assert(("v"@ + x).drop_first() =~= x);
            assert(("v"@ + y).drop_first() =~= y);
        },
        (SpecModel::Exact(x), _) => {
            assert(("v"@ + x)[0] == 'v');
        },
        (_, SpecModel::Exact(y)) => {
            assert(("v"@ + y)[0] == 'v');
        },
        _ => {},
    }
}

/// Only the latest release has no tag; the tag of any other is its directory
/// name.
pub proof fn law_tag_is_cache_key(spec: SpecModel)
    ensures
        tag_of(spec) is None <==> spec is Latest,
        tag_of(spec) is Some ==> tag_of(spec)->0 == cache_key_of(spec),
{
}

/// What a spec string means, once trimmed: nothing, and the names of the
/// releases, are those releases, and anything else is an exact version.
pub proof fn law_spec_strings(s: Seq<char>)
    ensures
        spec_of(s) is Latest <==> trimmed(s) == ""@ || trimmed(s) == "latest"@,
        spec_of(s) is Nightly <==> trimmed(s) == "nightly"@,
        spec_of(s) is Edge <==> trimmed(s) == "edge"@,
        env_spec(None) is Latest,
        env_spec(Some(s)) == spec_of(s),
{
    reveal_strlit("");
    reveal_strlit("latest");
    reveal_strlit("nightly");
    reveal_strlit("edge");
    assert(""@.len() == 0 && "latest"@.len() == 6 && "nightly"@.len() == 7 && "edge"@.len() == 4);
}

/// An exact version is what is left of the text without whitespace around it and
/// without the `v`s in front of it: all of the rest.
pub proof fn law_exact_version(s: Seq<char>, vs: Seq<char>, rest: Seq<char>)
    requires
        trimmed(s) == vs + rest,
        forall|i: int| 0 <= i < vs.len() ==> #[trigger] vs[i] == 'v',
        rest.len() > 0 ==> rest[0] != 'v',
        spec_of(s) is Exact,
    ensures
        spec_of(s) == SpecModel::Exact(rest),
{
    lemma_leading_vs(vs, rest);
}

/// The `v`s in front of a text go, all of them.
proof fn lemma_leading_vs(vs: Seq<char>, rest: Seq<char>)
    requires
        forall|i: int| 0 <= i < vs.len() ==> #[trigger] vs[i] == 'v',
        rest.len() > 0 ==> rest[0] != 'v',
    ensures
        without_v(vs + rest) == rest,
    decreases vs.len(),
{
    if vs.len() == 0 {
        assert(vs + rest =~= rest);
    } else {
        let fewer = vs.drop_first();
        assert((vs + rest)[0] == vs[0]);
        assert((vs + rest).drop_first() =~= fewer + rest);
        assert forall|i: int| 0 <= i < fewer.len() implies #[trigger] fewer[i] == 'v' by {
            assert(fewer[i] == vs[i + 1]);
        }
        lemma_leading_vs(fewer, rest);
    }
}

/// The tags and the directory names of the releases.
pub proof fn law_release_names(v: Seq<char>)
    ensures
        tag_of(SpecModel::Latest) is None,
        tag_of(SpecModel::Nightly) == Some("nightly"@),
        tag_of(SpecModel::Edge) == Some("edge"@),
        tag_of(SpecModel::Exact(v)) == Some("v"@ + v),
        cache_key_of(SpecModel::Latest) == "latest"@,
        cache_key_of(SpecModel::Nightly) == "nightly"@,
        cache_key_of(SpecModel::Edge) == "edge"@,
        cache_key_of(SpecModel::Exact(v)) == "v"@ + v,
{
}

} // verus!
