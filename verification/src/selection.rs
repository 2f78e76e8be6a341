//! Selection parameter groups: the three mutually exclusive query shapes
//! the tool accepts, each owning a fixed, documented token order.

use vstd::prelude::*;

use crate::args::{
    range_chars, All, ArgCollector, PopulateArgs, Prerelease, Products, Requires, RequiresAny,
    VersionRange,
};
use crate::version::Version;

verus! {

/// Selection parameters for modern (side-by-side installable) instances.
///
/// Encodes as: the `-all`, `-prerelease` and `-requiresAny` switches when
/// set, the product allowlist, the component allowlist, and the version
/// range, in that order.
#[derive(Clone, Debug)]
pub struct Modern {
    pub all: All,
    pub prerelease: Prerelease,
    pub products: Products,
    pub requires: Requires,
    pub requires_any: RequiresAny,
    pub version: VersionRange,
}

impl Modern {
    /// Creates a new invocation builder with default parameters: every
    /// switch off, both allowlists empty, no version constraint.
    pub fn new() -> (r: Self)
        ensures
            r.all.0 == false,
            r.prerelease.0 == false,
            r.products.0@.len() == 0,
            r.requires.0@.len() == 0,
            r.requires_any.0 == false,
            r.version.lower is None,
            r.version.upper is None,
    {
        Modern {
            all: All::new(),
            prerelease: Prerelease::new(),
            products: Products::new(),
            requires: Requires::new(),
            requires_any: RequiresAny::new(),
            version: VersionRange::new(),
        }
    }

    /// If `true`, the tool will include incomplete and/or non-functional
    /// instances in its results. The default value for this setting is
    /// `false`.
    pub fn all(self, value: bool) -> (r: Self)
        ensures
            r == (Modern { all: All(value), ..self }),
    {
        Modern { all: All(value), ..self }
    }

    /// If `true`, the tool will include prerelease instances in its
    /// results. The default value for this setting is `false`.
    pub fn prerelease(self, value: bool) -> (r: Self)
        ensures
            r == (Modern { prerelease: Prerelease(value), ..self }),
    {
        Modern { prerelease: Prerelease(value), ..self }
    }

    /// Specifies the product identifier allowlist the tool should use.
    ///
    /// To include all product identifiers, use a one-element list holding
    /// `"*"`. The default value is an empty list, in which case the tool
    /// uses its built-in default allowlist; an empty list is not an
    /// explicit universal wildcard.
    pub fn products(self, value: Vec<String>) -> (r: Self)
        ensures
            r == (Modern { products: Products(value), ..self }),
    {
        Modern { products: Products(value), ..self }
    }

    /// Specifies the component/workload identifier allowlist the tool
    /// should use. The default value is an empty list, in which case no
    /// component filter is applied.
    pub fn required(self, value: Vec<String>) -> (r: Self)
        ensures
            r == (Modern { requires: Requires(value), ..self }),
    {
        Modern { requires: Requires(value), ..self }
    }

    /// If `true`, and a component allowlist is present, the tool returns
    /// instances holding at least one listed component rather than all of
    /// them. The default value for this setting is `false`.
    pub fn requires_any(self, value: bool) -> (r: Self)
        ensures
            r == (Modern { requires_any: RequiresAny(value), ..self }),
    {
        Modern { requires_any: RequiresAny(value), ..self }
    }

    /// Specifies an inclusive range of versions to look for. An absent
    /// bound is no constraint in that direction; by default both bounds
    /// are absent.
    pub fn version(self, lower: Option<Version>, upper: Option<Version>) -> (r: Self)
        ensures
            r == (Modern { version: VersionRange { lower, upper }, ..self }),
    {
        Modern { version: VersionRange { lower, upper }, ..self }
    }
}

impl Default for Modern {
    fn default() -> (r: Self)
        ensures
            r.all.0 == false,
            r.prerelease.0 == false,
            r.products.0@.len() == 0,
            r.requires.0@.len() == 0,
            r.requires_any.0 == false,
            r.version.lower is None,
            r.version.upper is None,
    {
        Modern::new()
    }
}

impl PopulateArgs for Modern {
    open spec fn arg_tokens(&self) -> Seq<Seq<char>> {
        self.all.arg_tokens() + self.prerelease.arg_tokens() + self.requires_any.arg_tokens()
            + self.products.arg_tokens() + self.requires.arg_tokens() + self.version.arg_tokens()
    }

    fn populate_args(&self, cmd: &mut ArgCollector) {
        self.all.populate_args(cmd);
        self.prerelease.populate_args(cmd);
        self.requires_any.populate_args(cmd);
        self.products.populate_args(cmd);
        self.requires.populate_args(cmd);
        self.version.populate_args(cmd);
        proof {
            assert(cmd@ =~= old(cmd)@ + self.arg_tokens());
        }
    }
}

/// Selection parameters for legacy instances: always prefixed by the
/// legacy-mode token, then the `-all` and `-prerelease` switches when set,
/// then the version range.
#[derive(Clone, Copy, Debug)]
pub struct Legacy {
    pub all: All,
    pub prerelease: Prerelease,
    pub version: VersionRange,
}

impl Legacy {
    /// Creates a new invocation builder with default parameters: both
    /// switches off, no version constraint.
    pub fn new() -> (r: Self)
        ensures
            r.all.0 == false,
            r.prerelease.0 == false,
            r.version.lower is None,
            r.version.upper is None,
    {
        Legacy { all: All::new(), prerelease: Prerelease::new(), version: VersionRange::new() }
    }

    /// If `true`, the tool will include incomplete and/or non-functional
    /// instances in its results. The default value for this setting is
    /// `false`.
    pub fn all(self, value: bool) -> (r: Self)
        ensures
            r == (Legacy { all: All(value), ..self }),
    {
        Legacy { all: All(value), ..self }
    }

    /// If `true`, the tool will include prerelease instances in its
    /// results. The default value for this setting is `false`.
    pub fn prerelease(self, value: bool) -> (r: Self)
        ensures
            r == (Legacy { prerelease: Prerelease(value), ..self }),
    {
        Legacy { prerelease: Prerelease(value), ..self }
    }

    /// Specifies an inclusive range of versions to look for. An absent
    /// bound is no constraint in that direction; by default both bounds
    /// are absent.
    pub fn version(self, lower: Option<Version>, upper: Option<Version>) -> (r: Self)
        ensures
            r == (Legacy { version: VersionRange { lower, upper }, ..self }),
    {
        Legacy { version: VersionRange { lower, upper }, ..self }
    }
}

impl Default for Legacy {
    fn default() -> (r: Self)
        ensures
            r.all.0 == false,
            r.prerelease.0 == false,
            r.version.lower is None,
            r.version.upper is None,
    {
        Legacy::new()
    }
}

impl PopulateArgs for Legacy {
    open spec fn arg_tokens(&self) -> Seq<Seq<char>> {
        seq!["-legacy"@] + self.all.arg_tokens() + self.prerelease.arg_tokens()
            + self.version.arg_tokens()
    }

    fn populate_args(&self, cmd: &mut ArgCollector) {
        cmd.arg("-legacy");
        self.all.populate_args(cmd);
        self.prerelease.populate_args(cmd);
        self.version.populate_args(cmd);
        proof {
            assert(cmd@ =~= old(cmd)@ + self.arg_tokens());
        }
    }
}

/// A direct filesystem path to inspect, bypassing all other selection
/// semantics: encodes as exactly the path-search marker and the path.
///
/// The path is held as UTF-8 text, as every token is. A path that is not
/// valid Unicode cannot be addressed through this type; a host that meets
/// one must convert it (necessarily lossily) before building the
/// selection.
#[derive(Clone, Debug)]
pub struct PathOverride {
    pub path: String,
}

impl PathOverride {
    pub fn new(path: String) -> (r: Self)
        ensures
            r.path == path,
    {
        PathOverride { path }
    }
}

impl PopulateArgs for PathOverride {
    open spec fn arg_tokens(&self) -> Seq<Seq<char>> {
        seq!["-path"@, self.path@]
    }

    fn populate_args(&self, cmd: &mut ArgCollector) {
        cmd.arg("-path");
        let p = self.path.clone();
        cmd.arg_string(p);
        proof {
            assert(old(cmd)@ + seq!["-path"@] + seq![self.path@] =~= old(cmd)@ + seq![
                "-path"@,
                self.path@,
            ]);
        }
    }
}

/// The complete argument list for one invocation: the selection's tokens
/// followed by the three fixed trailing tokens selecting UTF-8 JSON output.
pub fn full_argv<S: PopulateArgs>(selection: &S) -> (r: ArgCollector)
    ensures
        r@ == selection.arg_tokens() + seq!["-utf8"@, "-format"@, "json"@],
{
    let mut cmd = ArgCollector::new();
    selection.populate_args(&mut cmd);
    cmd.arg("-utf8");
    cmd.arg("-format");
    cmd.arg("json");
    proof {
        assert(cmd@ =~= selection.arg_tokens() + seq!["-utf8"@, "-format"@, "json"@]);
    }
    cmd
}

/// With an empty product allowlist a modern selection's encoding collapses
/// to the other encoders' tokens: neither the product marker nor any
/// product identifier appears; with the one-element wildcard allowlist the
/// encoding holds the product marker followed immediately by exactly the
/// wildcard token.
pub proof fn lemma_modern_products_structure(m: Modern)
    ensures
        m.products.0@.len() == 0 ==> m.arg_tokens() =~= m.all.arg_tokens()
            + m.prerelease.arg_tokens() + m.requires_any.arg_tokens() + m.requires.arg_tokens()
            + m.version.arg_tokens(),
        m.products.0.deep_view() == seq!["*"@] ==> m.arg_tokens() =~= m.all.arg_tokens()
            + m.prerelease.arg_tokens() + m.requires_any.arg_tokens() + seq!["-products"@, "*"@]
            + m.requires.arg_tokens() + m.version.arg_tokens(),
{
    if m.products.0@.len() == 0 {
        assert(m.products.arg_tokens() =~= Seq::<Seq<char>>::empty());
    }
    if m.products.0.deep_view() == seq!["*"@] {
        assert(m.products.0.deep_view().len() == m.products.0@.len());
        assert(m.products.0@.len() == 1);
        assert(m.products.arg_tokens() =~= seq!["-products"@, "*"@]);
    }
}

/// With an empty product allowlist, no encoded token is the product
/// marker itself — stated for selections whose component identifiers do
/// not spell the marker, since an identifier is an arbitrary string.
pub proof fn lemma_modern_no_product_marker(m: Modern)
    requires
        m.products.0@.len() == 0,
        forall|i: int| 0 <= i < m.requires.0@.len() ==> m.requires.0@[i]@ != "-products"@,
    ensures
        forall|i: int| 0 <= i < m.arg_tokens().len() ==> m.arg_tokens()[i] != "-products"@,
{
    reveal_strlit("-products");
    reveal_strlit("-all");
    reveal_strlit("-prerelease");
    reveal_strlit("-requiresAny");
    reveal_strlit("-requires");
    reveal_strlit("-version");
    assert("-all"@.len() == 4 && "-products"@.len() == 9);
    assert("-prerelease"@.len() == 11);
    assert("-requiresAny"@.len() == 12);
    assert("-version"@.len() == 8);
    assert("-requires"@.len() == 9 && "-requires"@[1] == 'r' && "-products"@[1] == 'p');
    lemma_modern_products_structure(m);
    if m.version.lower is Some || m.version.upper is Some {
        lemma_range_first_char(m.version);
    }
    assert forall|i: int| 0 <= i < m.arg_tokens().len() implies m.arg_tokens()[i]
        != "-products"@ by {
        let toks = m.arg_tokens();
        let la = m.all.arg_tokens().len() as int;
        let lp = m.prerelease.arg_tokens().len() as int;
        let lq = m.requires_any.arg_tokens().len() as int;
        let lr = m.requires.arg_tokens().len() as int;
        if i < la + lp + lq {
        } else if i < la + lp + lq + lr {
            assert(toks[i] == m.requires.arg_tokens()[i - la - lp - lq]);
        } else {
            assert(toks[i] == m.version.arg_tokens()[i - la - lp - lq - lr]);
        }
    };
}

/// The compound range token never starts with a dash: it opens with a
/// digit when a lower bound is present, or the comma when only an upper
/// bound is.
proof fn lemma_range_first_char(r: VersionRange)
    requires
        r.lower is Some || r.upper is Some,
    ensures
        range_chars(r).len() > 0,
        range_chars(r)[0] != '-',
{
    match r.lower {
        Some(l) => {
            crate::text::lemma_dec_str_digits(l.major as nat);
            assert(range_chars(r)[0] == crate::text::dec_str(l.major as nat)[0]);
            assert(crate::text::is_digit(range_chars(r)[0]));
        },
        None => {
            assert(range_chars(r)[0] == ',');
        },
    }
}

} // verus!
