//! The four-component version type: construction, total ordering, canonical
//! formatting and lenient parsing of 1-4 segment dotted strings.

use vstd::prelude::*;

use crate::error::ParseError;
use crate::text::{
    dec_str, dec_val, digit_char, is_digit, lemma_dec_str_digits, lemma_dec_str_len,
    lemma_dec_val_of_dec_str, lemma_dec_val_prefix, lemma_split_sep_at, lemma_split_sep_none,
    pow10, split_sep,
};
use vstd::string::StrSliceExecFns;
use vstd::string::StringExecFns;

verus! {

/// A version number, in the format `[major].[minor].[revision].[build]`.
///
/// Ordering and equality are field-wise, most significant field first.
#[derive(Clone, Copy, Debug, PartialEq, Eq, Structural, Hash)]
pub struct Version {
    pub major: u16,
    pub minor: u16,
    pub revision: u16,
    pub build: u16,
}

/// Canonical textual form of a version: always all four fields, each in
/// shortest decimal form, joined by dots.
pub open spec fn version_chars(v: Version) -> Seq<char> {
    dec_str(v.major as nat) + seq!['.'] + dec_str(v.minor as nat) + seq!['.'] + dec_str(
        v.revision as nat,
    ) + seq!['.'] + dec_str(v.build as nat)
}

/// Lexicographic comparison over the four fields, most significant first.
pub open spec fn version_cmp(a: Version, b: Version) -> core::cmp::Ordering {
    if a.major != b.major {
        if a.major < b.major {
            core::cmp::Ordering::Less
        } else {
            core::cmp::Ordering::Greater
        }
    } else if a.minor != b.minor {
        if a.minor < b.minor {
            core::cmp::Ordering::Less
        } else {
            core::cmp::Ordering::Greater
        }
    } else if a.revision != b.revision {
        if a.revision < b.revision {
            core::cmp::Ordering::Less
        } else {
            core::cmp::Ordering::Greater
        }
    } else if a.build != b.build {
        if a.build < b.build {
            core::cmp::Ordering::Less
        } else {
            core::cmp::Ordering::Greater
        }
    } else {
        core::cmp::Ordering::Equal
    }
}

/// The comparison is a total order: it finds equality exactly at equal
/// values, flips under swapped arguments, and strict precedence chains.
pub proof fn lemma_version_cmp_total_order(a: Version, b: Version, c: Version)
    ensures
        version_cmp(a, b) == core::cmp::Ordering::Equal <==> a == b,
        version_cmp(a, b) == core::cmp::Ordering::Less <==> version_cmp(b, a)
            == core::cmp::Ordering::Greater,
        version_cmp(a, b) == core::cmp::Ordering::Less && version_cmp(b, c)
            == core::cmp::Ordering::Less ==> version_cmp(a, c) == core::cmp::Ordering::Less,
{
}

/// A parsable dotted-string segment: non-empty, all digits, value at most
/// 65535.
pub open spec fn valid_segment(s: Seq<char>) -> bool {
    &&& s.len() > 0
    &&& forall|i: int| 0 <= i < s.len() ==> is_digit(#[trigger] s[i])
    &&& dec_val(s) <= 65535
}

/// The value of segment `k`, or zero where fewer segments were given.
pub open spec fn segment_or_zero(segs: Seq<Seq<char>>, k: int) -> u16 {
    if k < segs.len() {
        dec_val(segs[k]) as u16
    } else {
        0
    }
}

/// What parsing a dotted version string yields: split on dots; reject when
/// any segment is empty, non-numeric or over 65535, or when more than four
/// segments are present; absent trailing segments default to zero.
pub open spec fn spec_parse(s: Seq<char>) -> Result<Version, ParseError> {
    let segs = split_sep(s, '.');
    if !(forall|i: int| 0 <= i < segs.len() ==> valid_segment(#[trigger] segs[i])) {
        Err(ParseError::InvalidSegment)
    } else if segs.len() > 4 {
        Err(ParseError::TooManySegments)
    } else {
        Ok(
            Version {
                major: segment_or_zero(segs, 0),
                minor: segment_or_zero(segs, 1),
                revision: segment_or_zero(segs, 2),
                build: segment_or_zero(segs, 3),
            },
        )
    }
}

impl Default for Version {
    /// The zero version, `0.0.0.0`.
    fn default() -> (r: Self)
        ensures
            r == (Version { major: 0, minor: 0, revision: 0, build: 0 }),
    {
        Version { major: 0, minor: 0, revision: 0, build: 0 }
    }
}

impl PartialOrd for Version {
    fn partial_cmp(&self, other: &Version) -> (r: Option<core::cmp::Ordering>) {
        if self.major != other.major {
            if self.major < other.major {
                Some(core::cmp::Ordering::Less)
            } else {
                Some(core::cmp::Ordering::Greater)
            }
        } else if self.minor != other.minor {
            if self.minor < other.minor {
                Some(core::cmp::Ordering::Less)
            } else {
                Some(core::cmp::Ordering::Greater)
            }
        } else if self.revision != other.revision {
            if self.revision < other.revision {
                Some(core::cmp::Ordering::Less)
            } else {
                Some(core::cmp::Ordering::Greater)
            }
        } else if self.build != other.build {
            if self.build < other.build {
                Some(core::cmp::Ordering::Less)
            } else {
                Some(core::cmp::Ordering::Greater)
            }
        } else {
            Some(core::cmp::Ordering::Equal)
        }
    }
}

impl vstd::std_specs::cmp::PartialOrdSpecImpl for Version {
    open spec fn obeys_partial_cmp_spec() -> bool {
        true
    }

    open spec fn partial_cmp_spec(&self, other: &Version) -> Option<core::cmp::Ordering> {
        Some(version_cmp(*self, *other))
    }
}

/// Appends the single digit `d` to `out`.
fn push_digit(out: &mut String, d: u8)
    requires
        d < 10,
    ensures
        final(out)@ == old(out)@ + seq![digit_char(d as nat)],
{
    match d {
        0 => {
            out.append("0");
            proof {
                reveal_strlit("0");
                assert(old(out)@ + "0"@ =~= old(out)@ + seq![digit_char(0)]);
            }
        },
        1 => {
            out.append("1");
            proof {
                reveal_strlit("1");
                assert(old(out)@ + "1"@ =~= old(out)@ + seq![digit_char(1)]);
            }
        },
        2 => {
            out.append("2");
            proof {
                reveal_strlit("2");
                assert(old(out)@ + "2"@ =~= old(out)@ + seq![digit_char(2)]);
            }
        },
        3 => {
            out.append("3");
            proof {
                reveal_strlit("3");
                assert(old(out)@ + "3"@ =~= old(out)@ + seq![digit_char(3)]);
            }
        },
        4 => {
            out.append("4");
            proof {
                reveal_strlit("4");
                assert(old(out)@ + "4"@ =~= old(out)@ + seq![digit_char(4)]);
            }
        },
        5 => {
            out.append("5");
            proof {
                reveal_strlit("5");
                assert(old(out)@ + "5"@ =~= old(out)@ + seq![digit_char(5)]);
            }
        },
        6 => {
            out.append("6");
            proof {
                reveal_strlit("6");
                assert(old(out)@ + "6"@ =~= old(out)@ + seq![digit_char(6)]);
            }
        },
        7 => {
            out.append("7");
            proof {
                reveal_strlit("7");
                assert(old(out)@ + "7"@ =~= old(out)@ + seq![digit_char(7)]);
            }
        },
        8 => {
            out.append("8");
            proof {
                reveal_strlit("8");
                assert(old(out)@ + "8"@ =~= old(out)@ + seq![digit_char(8)]);
            }
        },
        _ => {
            out.append("9");
            proof {
                reveal_strlit("9");
                assert(old(out)@ + "9"@ =~= old(out)@ + seq![digit_char(9)]);
            }
        },
    }
}

/// Appends the shortest decimal rendering of `n` to `out`.
fn push_dec(out: &mut String, n: u16)
    ensures
        final(out)@ == old(out)@ + dec_str(n as nat),
    decreases n,
{
    if n < 10 {
        push_digit(out, n as u8);
    } else {
        push_dec(out, n / 10);
        push_digit(out, (n % 10) as u8);
        proof {
            assert(out@ =~= old(out)@ + (dec_str((n / 10) as nat) + seq![
                digit_char((n % 10) as nat),
            ]));
        }
    }
}

impl Version {
    /// Renders the canonical four-segment form, e.g. `16.0.0.0`.
    ///
    /// The result is bounded by 23 characters (four five-digit fields and
    /// three dots), the capacity invariant that range-token formatting
    /// relies on.
    pub fn to_text(&self) -> (r: String)
        ensures
            r@ == version_chars(*self),
            r@.len() <= 23,
    {
        let mut out = String::new();
        push_dec(&mut out, self.major);
        out.append(".");
        push_dec(&mut out, self.minor);
        out.append(".");
        push_dec(&mut out, self.revision);
        out.append(".");
        push_dec(&mut out, self.build);
        proof {
            reveal_strlit(".");
            assert("."@ =~= seq!['.']);
            assert(out@ =~= version_chars(*self));
            lemma_version_chars_len(*self);
        }
        out
    }

    /// Parses a dotted version string: 1-4 dot-separated decimal segments,
    /// each at most 65535; absent trailing segments default to zero.
    /// Segments that are present but empty, non-numeric or overflowing are
    /// rejected, as is a fifth segment.
    pub fn parse(s: &str) -> (r: Result<Version, ParseError>)
        ensures
            r == spec_parse(s@),
    {
        let n = s.unicode_len();
        let ghost segs = split_sep(s@, '.');
        let mut vals: Vec<u16> = Vec::new();
        let mut pos: usize = 0;
        proof {
            assert(s@.skip(0) =~= s@);
            assert(segs.skip(0) =~= segs);
        }
        loop
            invariant_except_break
                split_sep(s@.skip(pos as int), '.') =~= segs.skip(vals@.len() as int),
            invariant
                n == s@.len(),
                pos <= n,
                segs == split_sep(s@, '.'),
                vals@.len() <= segs.len(),
                forall|i: int|
                    0 <= i < vals@.len() ==> valid_segment(#[trigger] segs[i]) && vals@[i] as nat
                        == dec_val(segs[i]),
            ensures
                vals@.len() == segs.len(),
            decreases n - pos,
        {
            let ghost k = vals@.len() as int;
            proof {
                assert(segs.skip(k + 1) =~= segs.skip(k).drop_first());
            }
            match crate::text::find_char(s, pos, n, '.') {
                Some(d) => {
                    proof {
                        let suffix = s@.skip(pos as int);
                        assert(suffix[d - pos] == '.');
                        assert(forall|j: int| 0 <= j < d - pos ==> suffix[j] != '.');
                        lemma_split_sep_at(suffix, '.', d - pos);
                        assert(suffix.take(d - pos) =~= s@.subrange(pos as int, d as int));
                        assert(suffix.skip(d - pos + 1) =~= s@.skip(d + 1));
                        assert(segs.skip(k) == seq![s@.subrange(pos as int, d as int)] + split_sep(
                            s@.skip(d + 1),
                            '.',
                        ));
                        assert(segs.skip(k)[0] == segs[k]);
                        assert(segs[k] == s@.subrange(pos as int, d as int));
                        assert(segs.skip(k + 1) =~= split_sep(s@.skip(d + 1), '.'));
                    }
                    match parse_segment(s, pos, d) {
                        Some(v) => {
                            vals.push(v);
                            pos = d + 1;
                        },
                        None => {
                            proof {
                                assert(!valid_segment(segs[k]));
                            }
                            return Err(ParseError::InvalidSegment);
                        },
                    }
                },
                None => {
                    proof {
                        let suffix = s@.skip(pos as int);
                        assert(forall|j: int| 0 <= j < suffix.len() ==> suffix[j] != '.');
                        lemma_split_sep_none(suffix, '.');
                        assert(segs.skip(k) == seq![suffix]);
                        assert(segs.skip(k)[0] == segs[k]);
                        assert(segs[k] == suffix);
                        assert(suffix =~= s@.subrange(pos as int, n as int));
                        assert(segs.len() == k + 1);
                    }
                    match parse_segment(s, pos, n) {
                        Some(v) => {
                            vals.push(v);
                        },
                        None => {
                            proof {
                                assert(!valid_segment(segs[k]));
                            }
                            return Err(ParseError::InvalidSegment);
                        },
                    }
                    break ;
                },
            }
        }
        proof {
            assert(forall|i: int| 0 <= i < segs.len() ==> valid_segment(#[trigger] segs[i]));
        }
        if vals.len() > 4 {
            return Err(ParseError::TooManySegments);
        }
        proof {
            crate::text::lemma_split_sep_nonempty(s@, '.');
        }
        let major = vals[0];
        let minor = if vals.len() > 1 {
            vals[1]
        } else {
            0
        };
        let revision = if vals.len() > 2 {
            vals[2]
        } else {
            0
        };
        let build = if vals.len() > 3 {
            vals[3]
        } else {
            0
        };
        Ok(Version { major, minor, revision, build })
    }
}

/// The canonical form is at most 23 characters.
pub proof fn lemma_version_chars_len(v: Version)
    ensures
        version_chars(v).len() <= 23,
{
    assert(pow10(5) == 100000) by {
        assert(pow10(0) == 1);
        assert(pow10(1) == 10);
        assert(pow10(2) == 100);
        assert(pow10(3) == 1000);
        assert(pow10(4) == 10000);
    };
    lemma_dec_str_len(v.major as nat, 5);
    lemma_dec_str_len(v.minor as nat, 5);
    lemma_dec_str_len(v.revision as nat, 5);
    lemma_dec_str_len(v.build as nat, 5);
}

/// Parses the characters of `s` between `from` and `to` as one decimal
/// segment, rejecting empty input, non-digits and values over 65535.
fn parse_segment(s: &str, from: usize, to: usize) -> (r: Option<u16>)
    requires
        from <= to <= s@.len(),
    ensures
        ({
            let seg = s@.subrange(from as int, to as int);
            match r {
                Some(v) => valid_segment(seg) && v as nat == dec_val(seg),
                None => !valid_segment(seg),
            }
        }),
{
    let ghost seg = s@.subrange(from as int, to as int);
    if from == to {
        return None;
    }
    let mut acc: u32 = 0;
    let mut i: usize = from;
    while i < to
        invariant
            from <= i <= to <= s@.len(),
            seg == s@.subrange(from as int, to as int),
            acc <= 65535,
            acc as nat == dec_val(seg.take(i - from)),
            forall|j: int| 0 <= j < i - from ==> is_digit(#[trigger] seg[j]),
        decreases to - i,
    {
        let c = s.get_char(i);
        let u = c as u32;
        proof {
            assert(seg[i - from] == s@[i as int]);
        }
        if u < 48 || u > 57 {
            return None;
        }
        let next = acc * 10 + (u - 48);
        proof {
            assert(seg.take(i - from + 1).drop_last() =~= seg.take(i - from));
            assert(seg.take(i - from + 1).last() == seg[i - from]);
            assert(next as nat == dec_val(seg.take(i - from + 1)));
        }
        if next > 65535 {
            proof {
                if forall|j: int| 0 <= j < seg.len() ==> is_digit(#[trigger] seg[j]) {
                    lemma_dec_val_prefix(seg, i - from + 1);
                }
            }
            return None;
        }
        acc = next;
        i = i + 1;
    }
    proof {
        assert(seg.take(to - from) =~= seg);
    }
    Some(acc as u16)
}

/// Parsing the canonical rendering of any version yields that version back:
/// together with the exact contracts of `parse` and `to_text` this states
/// the parse/format round trip, since every successfully parsed string
/// renders to its canonical four-segment form, which parses to the same
/// value.
pub proof fn lemma_canonical_roundtrip(v: Version)
    ensures
        spec_parse(version_chars(v)) == Ok::<Version, ParseError>(v),
{
    let a = dec_str(v.major as nat);
    let b = dec_str(v.minor as nat);
    let c = dec_str(v.revision as nat);
    let d = dec_str(v.build as nat);
    let s = version_chars(v);
    lemma_dec_str_digits(v.major as nat);
    lemma_dec_str_digits(v.minor as nat);
    lemma_dec_str_digits(v.revision as nat);
    lemma_dec_str_digits(v.build as nat);
    lemma_dec_val_of_dec_str(v.major as nat);
    lemma_dec_val_of_dec_str(v.minor as nat);
    lemma_dec_val_of_dec_str(v.revision as nat);
    lemma_dec_val_of_dec_str(v.build as nat);
    let r2 = c + seq!['.'] + d;
    let r1 = b + seq!['.'] + r2;
    lemma_split_sep_none(d, '.');
    crate::text::lemma_split_sep_prefix(c, d, '.');
    crate::text::lemma_split_sep_prefix(b, r2, '.');
    crate::text::lemma_split_sep_prefix(a, r1, '.');
    assert(s =~= a + seq!['.'] + r1);
    let segs = split_sep(s, '.');
    assert(segs =~= seq![a] + (seq![b] + (seq![c] + seq![d])));
    assert(segs =~= seq![a, b, c, d]);
    assert(valid_segment(a) && valid_segment(b) && valid_segment(c) && valid_segment(d));
    assert(forall|i: int| 0 <= i < segs.len() ==> valid_segment(#[trigger] segs[i])) by {
        assert(segs[0] == a && segs[1] == b && segs[2] == c && segs[3] == d);
    };
    assert(segment_or_zero(segs, 0) == v.major);
    assert(segment_or_zero(segs, 1) == v.minor);
    assert(segment_or_zero(segs, 2) == v.revision);
    assert(segment_or_zero(segs, 3) == v.build);
}

/// A successfully parsed dotted string, rendered canonically, parses back
/// to the same value: parse followed by format round-trips through the
/// canonical four-segment form, whatever 1-4 segment string was given.
pub proof fn lemma_parse_format_roundtrip(s: Seq<char>)
    requires
        spec_parse(s) is Ok,
    ensures
        spec_parse(version_chars(spec_parse(s).unwrap())) == spec_parse(s),
{
    lemma_canonical_roundtrip(spec_parse(s).unwrap());
}

/// The canonical form is non-empty, opens and closes with a digit, and
/// holds nothing but digits and dots.
pub proof fn lemma_version_chars_shape(v: Version)
    ensures
        version_chars(v).len() > 0,
        is_digit(version_chars(v)[0]),
        is_digit(version_chars(v).last()),
        forall|i: int|
            0 <= i < version_chars(v).len() ==> (is_digit(#[trigger] version_chars(v)[i])
                || version_chars(v)[i] == '.'),
{
    let s = version_chars(v);
    let a = dec_str(v.major as nat);
    let b = dec_str(v.minor as nat);
    let c = dec_str(v.revision as nat);
    let d = dec_str(v.build as nat);
    lemma_dec_str_digits(v.major as nat);
    lemma_dec_str_digits(v.minor as nat);
    lemma_dec_str_digits(v.revision as nat);
    lemma_dec_str_digits(v.build as nat);
    assert(s[0] == a[0]);
    assert(s.last() == d.last());
    assert forall|i: int|
        0 <= i < s.len() implies (is_digit(#[trigger] s[i]) || s[i] == '.') by {
        let la = a.len() as int;
        let lb = b.len() as int;
        let lc = c.len() as int;
        if i < la {
            assert(s[i] == a[i]);
        } else if i == la {
            assert(s[i] == '.');
        } else if i < la + 1 + lb {
            assert(s[i] == b[i - la - 1]);
        } else if i == la + 1 + lb {
            assert(s[i] == '.');
        } else if i < la + 1 + lb + 1 + lc {
            assert(s[i] == c[i - la - 1 - lb - 1]);
        } else if i == la + 1 + lb + 1 + lc {
            assert(s[i] == '.');
        } else {
            assert(s[i] == d[i - la - 1 - lb - 1 - lc - 1]);
        }
    };
}

/// The canonical form determines the version: equal renderings mean equal
/// values.
pub proof fn lemma_version_chars_injective(a: Version, b: Version)
    requires
        version_chars(a) == version_chars(b),
    ensures
        a == b,
{
    lemma_canonical_roundtrip(a);
    lemma_canonical_roundtrip(b);
}

} // verus!
