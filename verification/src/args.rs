//! The token collector and the per-parameter argument encoders.
//!
//! Each encoder owns one piece of selection state and appends its tokens to
//! a shared collector; the exact token sequence an encoder contributes is
//! given by its `arg_tokens` specification, so a whole invocation's argument
//! list is pinned down token by token.

use vstd::prelude::*;

use crate::version::{version_chars, Version};
use vstd::string::StringExecFns;

verus! {

/// An ordered collection of command-line tokens. Its view is the sequence
/// of token character sequences, in the order they were appended.
pub struct ArgCollector {
    tokens: Vec<String>,
}

impl View for ArgCollector {
    type V = Seq<Seq<char>>;

    closed spec fn view(&self) -> Seq<Seq<char>> {
        self.tokens.deep_view()
    }
}

impl ArgCollector {
    /// An empty collector.
    pub fn new() -> (r: Self)
        ensures
            r@ == Seq::<Seq<char>>::empty(),
    {
        let r = ArgCollector { tokens: Vec::new() };
        proof {
            assert(r.tokens.deep_view() =~= Seq::<Seq<char>>::empty());
        }
        r
    }

    /// Appends one token.
    pub fn arg(&mut self, token: &str)
        ensures
            final(self)@ == old(self)@ + seq![token@],
    {
        let owned = String::from_str(token);
        self.tokens.push(owned);
        proof {
            assert(self.tokens.deep_view() =~= old(self).tokens.deep_view() + seq![token@]);
        }
    }

    /// Appends one owned token.
    pub fn arg_string(&mut self, token: String)
        ensures
            final(self)@ == old(self)@ + seq![token@],
    {
        let ghost t = token@;
        self.tokens.push(token);
        proof {
            assert(self.tokens.deep_view() =~= old(self).tokens.deep_view() + seq![t]);
        }
    }

    /// Appends every element of `tokens`, in order.
    pub fn args(&mut self, tokens: &Vec<String>)
        ensures
            final(self)@ == old(self)@ + tokens.deep_view(),
    {
        let mut i: usize = 0;
        while i < tokens.len()
            invariant
                i <= tokens@.len(),
                self@ =~= old(self)@ + tokens.deep_view().take(i as int),
            decreases tokens@.len() - i,
        {
            self.arg(tokens[i].as_str());
            proof {
                assert(tokens.deep_view().take(i + 1) =~= tokens.deep_view().take(i as int) + seq![
                    tokens@[i as int]@,
                ]);
            }
            i = i + 1;
        }
        proof {
            assert(tokens.deep_view().take(tokens@.len() as int) =~= tokens.deep_view());
        }
    }

    /// The number of tokens collected so far.
    pub fn len(&self) -> (r: usize)
        ensures
            r == self@.len(),
    {
        self.tokens.len()
    }

    /// The token at position `i`.
    pub fn token_at(&self, i: usize) -> (r: &String)
        requires
            i < self@.len(),
        ensures
            r@ == self@[i as int],
    {
        &self.tokens[i]
    }

    /// Surrenders the collected tokens, ready to hand to a process spawner.
    pub fn into_tokens(self) -> (r: Vec<String>)
        ensures
            r.deep_view() == self@,
    {
        self.tokens
    }
}

/// Types that encode one piece of selection state as command-line tokens.
pub trait PopulateArgs {
    /// The exact token sequence this value contributes.
    spec fn arg_tokens(&self) -> Seq<Seq<char>>;

    /// Appends this value's tokens to `cmd`.
    fn populate_args(&self, cmd: &mut ArgCollector)
        ensures
            final(cmd)@ == old(cmd)@ + self.arg_tokens(),
    ;
}

/// The "include incomplete or non-functional instances" switch.
#[derive(Clone, Copy, Debug)]
pub struct All(pub bool);

impl All {
    pub fn new() -> (r: Self)
        ensures
            r.0 == false,
    {
        All(false)
    }
}

impl PopulateArgs for All {
    open spec fn arg_tokens(&self) -> Seq<Seq<char>> {
        if self.0 {
            seq!["-all"@]
        } else {
            Seq::<Seq<char>>::empty()
        }
    }

    fn populate_args(&self, cmd: &mut ArgCollector) {
        if self.0 {
            cmd.arg("-all");
        } else {
            proof {
                assert(old(cmd)@ + Seq::<Seq<char>>::empty() =~= old(cmd)@);
            }
        }
    }
}

/// The "include prerelease instances" switch.
#[derive(Clone, Copy, Debug)]
pub struct Prerelease(pub bool);

impl Prerelease {
    pub fn new() -> (r: Self)
        ensures
            r.0 == false,
    {
        Prerelease(false)
    }
}

impl PopulateArgs for Prerelease {
    open spec fn arg_tokens(&self) -> Seq<Seq<char>> {
        if self.0 {
            seq!["-prerelease"@]
        } else {
            Seq::<Seq<char>>::empty()
        }
    }

    fn populate_args(&self, cmd: &mut ArgCollector) {
        if self.0 {
            cmd.arg("-prerelease");
        } else {
            proof {
                assert(old(cmd)@ + Seq::<Seq<char>>::empty() =~= old(cmd)@);
            }
        }
    }
}

/// The product identifier allowlist. An empty list contributes nothing,
/// which leaves the tool's built-in default filter in force; a non-empty
/// list contributes its marker token followed by each identifier in order.
#[derive(Clone, Debug)]
pub struct Products(pub Vec<String>);

impl Products {
    pub fn new() -> (r: Self)
        ensures
            r.0@.len() == 0,
    {
        Products(Vec::new())
    }
}

impl PopulateArgs for Products {
    open spec fn arg_tokens(&self) -> Seq<Seq<char>> {
        if self.0@.len() == 0 {
            Seq::<Seq<char>>::empty()
        } else {
            seq!["-products"@] + self.0.deep_view()
        }
    }

    fn populate_args(&self, cmd: &mut ArgCollector) {
        if self.0.len() > 0 {
            cmd.arg("-products");
            cmd.args(&self.0);
            proof {
                assert(old(cmd)@ + seq!["-products"@] + self.0.deep_view() =~= old(cmd)@ + (seq![
                    "-products"@,
                ] + self.0.deep_view()));
            }
        } else {
            proof {
                assert(old(cmd)@ + Seq::<Seq<char>>::empty() =~= old(cmd)@);
            }
        }
    }
}

/// The component/workload identifier allowlist. An empty list contributes
/// nothing, which disables component filtering; a non-empty list contributes
/// its marker token followed by each identifier in order.
#[derive(Clone, Debug)]
pub struct Requires(pub Vec<String>);

impl Requires {
    pub fn new() -> (r: Self)
        ensures
            r.0@.len() == 0,
    {
        Requires(Vec::new())
    }
}

impl PopulateArgs for Requires {
    open spec fn arg_tokens(&self) -> Seq<Seq<char>> {
        if self.0@.len() == 0 {
            Seq::<Seq<char>>::empty()
        } else {
            seq!["-requires"@] + self.0.deep_view()
        }
    }

    fn populate_args(&self, cmd: &mut ArgCollector) {
        if self.0.len() > 0 {
            cmd.arg("-requires");
            cmd.args(&self.0);
            proof {
                assert(old(cmd)@ + seq!["-requires"@] + self.0.deep_view() =~= old(cmd)@ + (seq![
                    "-requires"@,
                ] + self.0.deep_view()));
            }
        } else {
            proof {
                assert(old(cmd)@ + Seq::<Seq<char>>::empty() =~= old(cmd)@);
            }
        }
    }
}

/// The "match instances holding any, rather than all, of the required
/// components" switch.
#[derive(Clone, Copy, Debug)]
pub struct RequiresAny(pub bool);

impl RequiresAny {
    pub fn new() -> (r: Self)
        ensures
            r.0 == false,
    {
        RequiresAny(false)
    }
}

impl PopulateArgs for RequiresAny {
    open spec fn arg_tokens(&self) -> Seq<Seq<char>> {
        if self.0 {
            seq!["-requiresAny"@]
        } else {
            Seq::<Seq<char>>::empty()
        }
    }

    fn populate_args(&self, cmd: &mut ArgCollector) {
        if self.0 {
            cmd.arg("-requiresAny");
        } else {
            proof {
                assert(old(cmd)@ + Seq::<Seq<char>>::empty() =~= old(cmd)@);
            }
        }
    }
}

/// An inclusive version range with independently optional bounds. An absent
/// bound is no constraint in that direction.
#[derive(Clone, Copy, Debug)]
pub struct VersionRange {
    pub lower: Option<Version>,
    pub upper: Option<Version>,
}

/// The compound range token: the bounds that are present, joined by a
/// comma, the lower bound first. Both bounds absent yield no characters.
pub open spec fn range_chars(r: VersionRange) -> Seq<char> {
    match (r.lower, r.upper) {
        (Some(l), Some(u)) => version_chars(l) + seq![','] + version_chars(u),
        (Some(l), None) => version_chars(l) + seq![','],
        (None, Some(u)) => seq![','] + version_chars(u),
        (None, None) => Seq::<char>::empty(),
    }
}

impl VersionRange {
    pub fn new() -> (r: Self)
        ensures
            r.lower is None,
            r.upper is None,
    {
        VersionRange { lower: None, upper: None }
    }

    /// The compound range token, present exactly when either bound is.
    ///
    /// The token is at most 47 characters (two canonical versions and the
    /// comma): the capacity a fixed stack buffer for it would need, proved
    /// here once rather than asserted at run time.
    pub fn token(&self) -> (r: Option<String>)
        ensures
            match r {
                Some(t) => (self.lower is Some || self.upper is Some) && t@ == range_chars(*self)
                    && t@.len() <= 47,
                None => self.lower is None && self.upper is None,
            },
    {
        proof {
            reveal_strlit(",");
            assert(","@ =~= seq![',']);
        }
        match (&self.lower, &self.upper) {
            (Some(l), Some(u)) => {
                let mut t = l.to_text();
                t.append(",");
                let up = u.to_text();
                t.append(up.as_str());
                Some(t)
            },
            (Some(l), None) => {
                let mut t = l.to_text();
                t.append(",");
                Some(t)
            },
            (None, Some(u)) => {
                let mut t = String::from_str(",");
                t.append(u.to_text().as_str());
                Some(t)
            },
            (None, None) => None,
        }
    }
}

impl PopulateArgs for VersionRange {
    open spec fn arg_tokens(&self) -> Seq<Seq<char>> {
        if self.lower is None && self.upper is None {
            Seq::<Seq<char>>::empty()
        } else {
            seq!["-version"@, range_chars(*self)]
        }
    }

    fn populate_args(&self, cmd: &mut ArgCollector) {
        match self.token() {
            Some(t) => {
                let ghost tv = t@;
                cmd.arg("-version");
                cmd.arg_string(t);
                proof {
                    assert(old(cmd)@ + seq!["-version"@] + seq![tv] =~= old(cmd)@ + seq![
                        "-version"@,
                        tv,
                    ]);
                }
            },
            None => {
                proof {
                    assert(old(cmd)@ + Seq::<Seq<char>>::empty() =~= old(cmd)@);
                }
            },
        }
    }
}

/// A version range encodes to no tokens exactly when both bounds are
/// absent; any present bound yields the marker token and the compound
/// range token.
pub proof fn lemma_range_tokens_empty_iff(r: VersionRange)
    ensures
        r.arg_tokens().len() == 0 <==> (r.lower is None && r.upper is None),
        r.lower is Some || r.upper is Some ==> r.arg_tokens() == seq![
            "-version"@,
            range_chars(r),
        ],
{
}

/// The comma-join rule loses nothing: two ranges that encode to the same
/// tokens have the same bounds, so the bounds can be recovered from the
/// compound token.
pub proof fn lemma_range_encoding_injective(a: VersionRange, b: VersionRange)
    requires
        a.arg_tokens() == b.arg_tokens(),
    ensures
        a.lower == b.lower,
        a.upper == b.upper,
{
    lemma_range_tokens_empty_iff(a);
    lemma_range_tokens_empty_iff(b);
    if a.lower is None && a.upper is None {
        assert(b.arg_tokens().len() == 0);
    } else {
        assert(b.lower is Some || b.upper is Some);
        assert(a.arg_tokens()[1] == b.arg_tokens()[1]);
        let t = range_chars(a);
        assert(range_chars(b) == t);
        match (a.lower, a.upper) {
            (Some(_), Some(_)) => {
                lemma_both_bounds_recoverable(a, b);
            },
            (Some(al), None) => {
                crate::version::lemma_version_chars_shape(al);
                assert(t.last() == ',');
                match (b.lower, b.upper) {
                    (Some(bl), Some(bu)) => {
                        crate::version::lemma_version_chars_shape(bu);
                        assert(t.last() == version_chars(bu).last());
                    },
                    (Some(bl), None) => {
                        assert(t.drop_last() =~= version_chars(al));
                        assert(t.drop_last() =~= version_chars(bl));
                        crate::version::lemma_version_chars_injective(al, bl);
                    },
                    (None, Some(bu)) => {
                        crate::version::lemma_version_chars_shape(al);
                        assert(t[0] == version_chars(al)[0]);
                        assert(t[0] == ',');
                    },
                    (None, None) => {},
                }
            },
            (None, Some(au)) => {
                assert(t[0] == ',');
                match (b.lower, b.upper) {
                    (Some(bl), _) => {
                        crate::version::lemma_version_chars_shape(bl);
                        assert(t[0] == version_chars(bl)[0]);
                    },
                    (None, Some(bu)) => {
                        assert(t.drop_first() =~= version_chars(au));
                        assert(t.drop_first() =~= version_chars(bu));
                        crate::version::lemma_version_chars_injective(au, bu);
                    },
                    (None, None) => {},
                }
            },
            (None, None) => {},
        }
    }
}

/// Helper for the both-bounds case: the single comma separates the two
/// canonical renderings, so both bounds are recoverable.
proof fn lemma_both_bounds_recoverable(a: VersionRange, b: VersionRange)
    requires
        a.lower is Some && a.upper is Some,
        range_chars(a) == range_chars(b),
    ensures
        a.lower == b.lower,
        a.upper == b.upper,
{
    let al = a.lower.unwrap();
    let au = a.upper.unwrap();
    let t = range_chars(a);
    crate::version::lemma_version_chars_shape(al);
    crate::version::lemma_version_chars_shape(au);
    let la = version_chars(al).len() as int;
    assert(t[la] == ',');
    assert(forall|j: int| 0 <= j < la ==> t[j] == version_chars(al)[j]);
    assert(forall|j: int| 0 <= j < la ==> t[j] != ',');
    match (b.lower, b.upper) {
        (Some(bl), Some(bu)) => {
            crate::version::lemma_version_chars_shape(bl);
            crate::version::lemma_version_chars_shape(bu);
            let lb = version_chars(bl).len() as int;
            assert(t[lb] == ',');
            assert(forall|j: int| 0 <= j < lb ==> t[j] == version_chars(bl)[j]);
            assert(forall|j: int| 0 <= j < lb ==> t[j] != ',');
            assert(la == lb) by {
                if la < lb {
                    assert(t[la] != ',');
                } else if lb < la {
                    assert(t[lb] != ',');
                }
            };
            assert(t.take(la) =~= version_chars(al));
            assert(t.take(la) =~= version_chars(bl));
            crate::version::lemma_version_chars_injective(al, bl);
            assert(t.skip(la + 1) =~= version_chars(au));
            assert(t.skip(la + 1) =~= version_chars(bu));
            crate::version::lemma_version_chars_injective(au, bu);
        },
        (Some(bl), None) => {
            crate::version::lemma_version_chars_shape(au);
            assert(t.last() == version_chars(au).last());
            assert(t.last() == ',');
        },
        (None, Some(bu)) => {
            assert(t[0] == version_chars(al)[0]);
            assert(t[0] == ',');
        },
        (None, None) => {
            assert(t.len() == 0);
        },
    }
}

} // verus!
