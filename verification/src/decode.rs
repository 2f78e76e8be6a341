//! Decoding of the tool's captured output into typed installation
//! records: exit-status validation, the field coercions the loosely typed
//! source schema needs, and all-or-nothing record assembly.

use vstd::prelude::*;

use crate::error::Error;
use crate::json::{
    classify_value, json_doc, json_wf, parse_json, value_as_array, value_at, value_elems,
    value_has, value_is_array, value_is_null, value_is_object, value_member, value_null,
    value_object, value_scalar,
};
use crate::text::{char_matches_ci, chars_eq_ci, is_digit, is_space, trim};
use crate::version::{spec_parse, Version};
use vstd::string::StrSliceExecFns;
use vstd::string::StringExecFns;

verus! {

/// A scalar field as it arrived in the source data, reduced to plain
/// values: absent, explicit null, text, a native boolean, or some other
/// shape (a number, array or object where a scalar was expected).
#[derive(Debug)]
pub enum FieldValue {
    Missing,
    Null,
    Text(String),
    Flag(bool),
    Other,
}

/// A nested sub-record field: absent, explicit null, an object whose own
/// fields were gathered, or some other shape.
#[derive(Debug)]
pub enum NestedField<T> {
    Missing,
    Null,
    Object(T),
    Other,
}

/// The raw shapes of one catalog sub-record's fields.
#[derive(Debug)]
pub struct CatalogFields {
    pub id: FieldValue,
    pub build_version: FieldValue,
    pub product_name: FieldValue,
    pub product_line_version: FieldValue,
    pub product_semantic_version: FieldValue,
}

/// The raw shapes of one properties sub-record's fields.
#[derive(Debug)]
pub struct PropertiesFields {
    pub campaign_id: FieldValue,
    pub channel_manifest_id: FieldValue,
    pub nickname: FieldValue,
    pub setup_engine_file_path: FieldValue,
}

/// The raw shapes of one record's fields, keyed as the tool emits them.
#[derive(Debug)]
pub struct RecordFields {
    pub instance_id: FieldValue,
    pub install_date: FieldValue,
    pub update_date: FieldValue,
    pub display_name: FieldValue,
    pub description: FieldValue,
    pub installation_path: FieldValue,
    pub product_path: FieldValue,
    pub installation_version: FieldValue,
    pub product_id: FieldValue,
    pub is_prerelease: FieldValue,
    pub channel_uri: FieldValue,
    pub release_notes: FieldValue,
    pub third_party_notices: FieldValue,
    pub catalog: NestedField<CatalogFields>,
    pub properties: NestedField<PropertiesFields>,
}

/// Catalog details of one discovered instance.
#[derive(Debug)]
pub struct CatalogInfo {
    pub id: Option<String>,
    pub build_version: Option<Version>,
    pub product_name: Option<String>,
    pub product_line_version: Option<String>,
    pub product_semantic_version: Option<String>,
}

/// Setup properties of one discovered instance.
#[derive(Debug)]
pub struct PropertiesInfo {
    pub campaign_id: Option<String>,
    pub channel_manifest_id: Option<String>,
    pub nickname: Option<String>,
    pub setup_engine_file_path: Option<String>,
}

/// One discovered installation. Optional fields record an explicit
/// "absent" state where the source data held nothing or a null; an empty
/// string is a present-but-empty value, never "absent".
#[derive(Debug)]
pub struct InstallationRecord {
    pub instance_id: String,
    pub install_date: Option<String>,
    pub update_date: Option<String>,
    pub display_name: Option<String>,
    pub description: Option<String>,
    pub installation_path: String,
    pub product_path: Option<String>,
    pub installation_version: Version,
    pub product_id: Option<String>,
    pub is_prerelease: bool,
    pub channel_uri: Option<String>,
    pub release_notes: Option<String>,
    pub third_party_notices: Option<String>,
    pub catalog: Option<CatalogInfo>,
    pub properties: Option<PropertiesInfo>,
}

/// What a loosely encoded boolean literal means: surrounding whitespace
/// is trimmed and the literals `true`/`false` match in any letter case;
/// any other text is meaningless.
pub open spec fn spec_loose_bool(s: Seq<char>) -> Option<bool> {
    if chars_eq_ci(trim(s), "true"@) {
        Some(true)
    } else if chars_eq_ci(trim(s), "false"@) {
        Some(false)
    } else {
        None
    }
}

/// Case-insensitive comparison of `s` between `from` and `to` against the
/// lower-case ASCII reference `target`.
fn matches_ci(s: &str, from: usize, to: usize, target: &str) -> (r: bool)
    requires
        from <= to <= s@.len(),
    ensures
        r == chars_eq_ci(s@.subrange(from as int, to as int), target@),
{
    let ghost sub = s@.subrange(from as int, to as int);
    let m = target.unicode_len();
    if to - from != m {
        return false;
    }
    let mut k: usize = 0;
    while k < m
        invariant
            from + m <= s@.len(),
            to - from == m,
            m == target@.len(),
            k <= m,
            sub == s@.subrange(from as int, to as int),
            forall|j: int| 0 <= j < k ==> char_matches_ci(sub[j], #[trigger] target@[j]),
        decreases m - k,
    {
        let c = s.get_char(from + k);
        let d = target.get_char(k);
        let cu = c as u32;
        let du = d as u32;
        proof {
            assert(sub[k as int] == s@[from + k]);
        }
        if !(cu == du || (65 <= cu && cu <= 90 && cu + 32 == du)) {
            proof {
                assert(!char_matches_ci(sub[k as int], target@[k as int]));
            }
            return false;
        }
        k = k + 1;
    }
    true
}

/// Decodes a case-insensitive literal-string boolean: whitespace around
/// the literal is ignored, `true` and `false` match in any letter case,
/// and anything else is rejected.
pub fn parse_loose_bool(s: &str) -> (r: Option<bool>)
    ensures
        r == spec_loose_bool(s@),
{
    let n = s.unicode_len();
    let mut lo: usize = 0;
    while lo < n && is_space_char(s.get_char(lo))
        invariant
            n == s@.len(),
            lo <= n,
            forall|j: int| 0 <= j < lo ==> is_space(#[trigger] s@[j]),
        decreases n - lo,
    {
        lo = lo + 1;
    }
    let mut hi: usize = n;
    while hi > lo && is_space_char(s.get_char(hi - 1))
        invariant
            n == s@.len(),
            lo <= hi <= n,
            forall|j: int| hi <= j < n ==> is_space(#[trigger] s@[j]),
        decreases hi,
    {
        hi = hi - 1;
    }
    proof {
        crate::text::lemma_trim_start_at(s@, lo as int);
        crate::text::lemma_trim_end_at(s@.skip(lo as int), hi - lo);
        assert(s@.skip(lo as int).take(hi - lo) =~= s@.subrange(lo as int, hi as int));
        assert(trim(s@) == s@.subrange(lo as int, hi as int));
    }
    if matches_ci(s, lo, hi, "true") {
        Some(true)
    } else if matches_ci(s, lo, hi, "false") {
        Some(false)
    } else {
        None
    }
}

/// Whether `c` is accepted as surrounding whitespace.
fn is_space_char(c: char) -> (r: bool)
    ensures
        r == is_space(c),
{
    c == ' ' || c == '\t' || c == '\r' || c == '\n'
}

/// An ASCII letter.
pub open spec fn is_alpha(c: char) -> bool {
    65 <= c as u32 <= 90 || 97 <= c as u32 <= 122
}

/// A character allowed in a URL scheme after its opening letter.
pub open spec fn is_scheme_char(c: char) -> bool {
    is_alpha(c) || is_digit(c) || c == '+' || c == '-' || c == '.'
}

/// The URL shape with the scheme ending at `i`: an ASCII letter, further
/// scheme characters up to `i`, then `://`, then at least one character.
pub open spec fn url_shape_at(s: Seq<char>, i: int) -> bool {
    &&& 1 <= i
    &&& i + 3 < s.len()
    &&& is_alpha(s[0])
    &&& forall|j: int| 1 <= j < i ==> is_scheme_char(#[trigger] s[j])
    &&& s[i] == ':'
    &&& s[i + 1] == '/'
    &&& s[i + 2] == '/'
}

/// An opaque validated URL: some scheme position gives it the URL shape.
pub open spec fn valid_url(s: Seq<char>) -> bool {
    exists|i: int| #[trigger] url_shape_at(s, i)
}

/// Checks the URL shape: a scheme, `://`, and a non-empty remainder.
pub fn check_url(s: &str) -> (r: bool)
    ensures
        r == valid_url(s@),
{
    let n = s.unicode_len();
    match crate::text::find_char(s, 0, n, ':') {
        None => {
            proof {
                assert forall|i2: int| !url_shape_at(s@, i2) by {
                    if url_shape_at(s@, i2) {
                        assert(s@[i2] == ':');
                    }
                }
            }
            false
        },
        Some(i) => {
            if i == 0 {
                proof {
                    assert forall|i2: int| !url_shape_at(s@, i2) by {
                        if url_shape_at(s@, i2) {
                            assert(is_alpha(s@[0]));
                        }
                    }
                }
                return false;
            }
            let c0 = s.get_char(0);
            let u0 = c0 as u32;
            if !((65 <= u0 && u0 <= 90) || (97 <= u0 && u0 <= 122)) {
                proof {
                    assert forall|i2: int| !url_shape_at(s@, i2) by {
                        if url_shape_at(s@, i2) {
                            assert(is_alpha(s@[0]));
                        }
                    }
                }
                return false;
            }
            let mut j: usize = 1;
            while j < i
                invariant
                    1 <= j <= i < n == s@.len(),
                    s@[i as int] == ':',
                    forall|k: int| 0 <= k < i ==> s@[k] != ':',
                    is_alpha(s@[0]),
                    forall|k: int| 1 <= k < j ==> is_scheme_char(#[trigger] s@[k]),
                decreases i - j,
            {
                if !is_scheme_char_exec(s.get_char(j)) {
                    proof {
                        let bad = j as int;
                        assert forall|i2: int| !url_shape_at(s@, i2) by {
                            if url_shape_at(s@, i2) {
                                assert(s@[i2] == ':');
                                assert(i2 >= i);
                                assert(bad < i2);
                                assert(is_scheme_char(s@[bad]));
                            }
                        }
                    }
                    return false;
                }
                j = j + 1;
            }
            if n - i > 3 && s.get_char(i + 1) == '/' && s.get_char(i + 2) == '/' {
                proof {
                    assert(url_shape_at(s@, i as int));
                }
                true
            } else {
                proof {
                    assert(!is_scheme_char(':'));
                    assert forall|i2: int| !url_shape_at(s@, i2) by {
                        if url_shape_at(s@, i2) {
                            assert(s@[i2] == ':');
                            assert(i2 >= i);
                            if i2 > i {
                                assert(is_scheme_char(s@[i as int]));
                            }
                        }
                    }
                }
                false
            }
        },
    }
}

/// Whether `c` may stand in a URL scheme after its opening letter.
fn is_scheme_char_exec(c: char) -> (r: bool)
    ensures
        r == is_scheme_char(c),
{
    let u = c as u32;
    (65 <= u && u <= 90) || (97 <= u && u <= 122) || (48 <= u && u <= 57) || c == '+' || c == '-'
        || c == '.'
}

/// The raw value a field arrived as, rendered for a diagnostic: the text
/// or boolean literal itself, or a word for the shape where no scalar
/// text exists.
pub open spec fn shape_chars(f: FieldValue) -> Seq<char> {
    match f {
        FieldValue::Missing => "missing"@,
        FieldValue::Null => "null"@,
        FieldValue::Text(s) => s@,
        FieldValue::Flag(b) => if b {
            "true"@
        } else {
            "false"@
        },
        FieldValue::Other => "non-scalar value"@,
    }
}

/// Renders the raw value of a field for a diagnostic.
fn shape_string(f: &FieldValue) -> (r: String)
    ensures
        r@ == shape_chars(*f),
{
    match f {
        FieldValue::Missing => String::from_str("missing"),
        FieldValue::Null => String::from_str("null"),
        FieldValue::Text(s) => s.clone(),
        FieldValue::Flag(b) => {
            if *b {
                String::from_str("true")
            } else {
                String::from_str("false")
            }
        },
        FieldValue::Other => String::from_str("non-scalar value"),
    }
}

/// A required text field: anything but present text is an error naming
/// the field and the raw value.
pub open spec fn spec_req_text(f: FieldValue, key: Seq<char>) -> Result<String, Seq<char>> {
    match f {
        FieldValue::Text(s) => Ok(s),
        _ => Err(key + ": expected a string: "@ + shape_chars(f)),
    }
}

/// An optional text field: absence and null are an explicit "absent".
pub open spec fn spec_opt_text(f: FieldValue, key: Seq<char>) -> Result<
    Option<String>,
    Seq<char>,
> {
    match f {
        FieldValue::Missing => Ok(None),
        FieldValue::Null => Ok(None),
        FieldValue::Text(s) => Ok(Some(s)),
        _ => Err(key + ": expected a string or null: "@ + shape_chars(f)),
    }
}

/// A boolean field: a native boolean, or a loosely encoded literal.
pub open spec fn spec_flag(f: FieldValue, key: Seq<char>) -> Result<bool, Seq<char>> {
    match f {
        FieldValue::Flag(b) => Ok(b),
        FieldValue::Text(s) => match spec_loose_bool(s@) {
            Some(b) => Ok(b),
            None => Err(key + ": not a boolean literal: "@ + s@),
        },
        _ => Err(key + ": expected a boolean: "@ + shape_chars(f)),
    }
}

/// A required version field: present text that parses as a version.
pub open spec fn spec_version_field(f: FieldValue, key: Seq<char>) -> Result<Version, Seq<char>> {
    match f {
        FieldValue::Text(s) => match spec_parse(s@) {
            Ok(v) => Ok(v),
            Err(_) => Err(key + ": not a version string: "@ + s@),
        },
        _ => Err(key + ": expected a version string: "@ + shape_chars(f)),
    }
}

/// An optional version field.
pub open spec fn spec_opt_version(f: FieldValue, key: Seq<char>) -> Result<
    Option<Version>,
    Seq<char>,
> {
    match f {
        FieldValue::Missing => Ok(None),
        FieldValue::Null => Ok(None),
        FieldValue::Text(s) => match spec_parse(s@) {
            Ok(v) => Ok(Some(v)),
            Err(_) => Err(key + ": not a version string: "@ + s@),
        },
        _ => Err(key + ": expected a version string or null: "@ + shape_chars(f)),
    }
}

/// An optional URL field: present text must have the URL shape.
pub open spec fn spec_opt_url(f: FieldValue, key: Seq<char>) -> Result<Option<String>, Seq<char>> {
    match f {
        FieldValue::Missing => Ok(None),
        FieldValue::Null => Ok(None),
        FieldValue::Text(s) => if valid_url(s@) {
            Ok(Some(s))
        } else {
            Err(key + ": not a URL: "@ + s@)
        },
        _ => Err(key + ": expected a URL or null: "@ + shape_chars(f)),
    }
}

fn req_text(f: FieldValue, key: &str) -> (r: Result<String, Error>)
    ensures
        match spec_req_text(f, key@) {
            Ok(s) => r == Ok::<String, Error>(s),
            Err(m) => r matches Err(Error::MalformedOutput(t)) && t@ == m,
        },
{
    match f {
        FieldValue::Text(s) => Ok(s),
        other => Err(
            Error::MalformedOutput(
                String::from_str(key).concat(": expected a string: ").concat(
                    shape_string(&other).as_str(),
                ),
            ),
        ),
    }
}

fn opt_text(f: FieldValue, key: &str) -> (r: Result<Option<String>, Error>)
    ensures
        match spec_opt_text(f, key@) {
            Ok(s) => r == Ok::<Option<String>, Error>(s),
            Err(m) => r matches Err(Error::MalformedOutput(t)) && t@ == m,
        },
{
    match f {
        FieldValue::Missing => Ok(None),
        FieldValue::Null => Ok(None),
        FieldValue::Text(s) => Ok(Some(s)),
        other => Err(
            Error::MalformedOutput(
                String::from_str(key).concat(": expected a string or null: ").concat(
                    shape_string(&other).as_str(),
                ),
            ),
        ),
    }
}

fn flag(f: FieldValue, key: &str) -> (r: Result<bool, Error>)
    ensures
        match spec_flag(f, key@) {
            Ok(b) => r == Ok::<bool, Error>(b),
            Err(m) => r matches Err(Error::MalformedOutput(t)) && t@ == m,
        },
{
    match f {
        FieldValue::Flag(b) => Ok(b),
        FieldValue::Text(s) => match parse_loose_bool(s.as_str()) {
            Some(b) => Ok(b),
            None => Err(
                Error::MalformedOutput(
                    String::from_str(key).concat(": not a boolean literal: ").concat(s.as_str()),
                ),
            ),
        },
        other => Err(
            Error::MalformedOutput(
                String::from_str(key).concat(": expected a boolean: ").concat(
                    shape_string(&other).as_str(),
                ),
            ),
        ),
    }
}

fn version_field(f: FieldValue, key: &str) -> (r: Result<Version, Error>)
    ensures
        match spec_version_field(f, key@) {
            Ok(v) => r == Ok::<Version, Error>(v),
            Err(m) => r matches Err(Error::MalformedOutput(t)) && t@ == m,
        },
{
    match f {
        FieldValue::Text(s) => match Version::parse(s.as_str()) {
            Ok(v) => Ok(v),
            Err(_) => Err(
                Error::MalformedOutput(
                    String::from_str(key).concat(": not a version string: ").concat(s.as_str()),
                ),
            ),
        },
        other => Err(
            Error::MalformedOutput(
                String::from_str(key).concat(": expected a version string: ").concat(
                    shape_string(&other).as_str(),
                ),
            ),
        ),
    }
}

fn opt_version(f: FieldValue, key: &str) -> (r: Result<Option<Version>, Error>)
    ensures
        match spec_opt_version(f, key@) {
            Ok(v) => r == Ok::<Option<Version>, Error>(v),
            Err(m) => r matches Err(Error::MalformedOutput(t)) && t@ == m,
        },
{
    match f {
        FieldValue::Missing => Ok(None),
        FieldValue::Null => Ok(None),
        FieldValue::Text(s) => match Version::parse(s.as_str()) {
            Ok(v) => Ok(Some(v)),
            Err(_) => Err(
                Error::MalformedOutput(
                    String::from_str(key).concat(": not a version string: ").concat(s.as_str()),
                ),
            ),
        },
        other => Err(
            Error::MalformedOutput(
                String::from_str(key).concat(": expected a version string or null: ").concat(
                    shape_string(&other).as_str(),
                ),
            ),
        ),
    }
}

fn opt_url(f: FieldValue, key: &str) -> (r: Result<Option<String>, Error>)
    ensures
        match spec_opt_url(f, key@) {
            Ok(s) => r == Ok::<Option<String>, Error>(s),
            Err(m) => r matches Err(Error::MalformedOutput(t)) && t@ == m,
        },
{
    match f {
        FieldValue::Missing => Ok(None),
        FieldValue::Null => Ok(None),
        FieldValue::Text(s) => {
            if check_url(s.as_str()) {
                Ok(Some(s))
            } else {
                Err(
                    Error::MalformedOutput(
                        String::from_str(key).concat(": not a URL: ").concat(s.as_str()),
                    ),
                )
            }
        },
        other => Err(
            Error::MalformedOutput(
                String::from_str(key).concat(": expected a URL or null: ").concat(
                    shape_string(&other).as_str(),
                ),
            ),
        ),
    }
}

/// What decoding a catalog sub-record yields: absence and null are an
/// explicit "absent" catalog; a present catalog must be an object, whose
/// known fields are each optional.
pub open spec fn spec_catalog(f: NestedField<CatalogFields>) -> Result<
    Option<CatalogInfo>,
    Seq<char>,
> {
    match f {
        NestedField::Missing => Ok(None),
        NestedField::Null => Ok(None),
        NestedField::Other => Err("catalog: expected an object or null"@),
        NestedField::Object(c) => match spec_opt_text(c.id, "catalog.id"@) {
            Err(m) => Err(m),
            Ok(id) => match spec_opt_version(c.build_version, "catalog.buildVersion"@) {
                Err(m) => Err(m),
                Ok(build_version) => match spec_opt_text(c.product_name, "catalog.productName"@) {
                    Err(m) => Err(m),
                    Ok(product_name) => match spec_opt_text(
                        c.product_line_version,
                        "catalog.productLineVersion"@,
                    ) {
                        Err(m) => Err(m),
                        Ok(product_line_version) => match spec_opt_text(
                            c.product_semantic_version,
                            "catalog.productSemanticVersion"@,
                        ) {
                            Err(m) => Err(m),
                            Ok(product_semantic_version) => Ok(
                                Some(
                                    CatalogInfo {
                                        id,
                                        build_version,
                                        product_name,
                                        product_line_version,
                                        product_semantic_version,
                                    },
                                ),
                            ),
                        },
                    },
                },
            },
        },
    }
}

/// What decoding a properties sub-record yields.
pub open spec fn spec_properties(f: NestedField<PropertiesFields>) -> Result<
    Option<PropertiesInfo>,
    Seq<char>,
> {
    match f {
        NestedField::Missing => Ok(None),
        NestedField::Null => Ok(None),
        NestedField::Other => Err("properties: expected an object or null"@),
        NestedField::Object(p) => match spec_opt_text(p.campaign_id, "properties.campaignId"@) {
            Err(m) => Err(m),
            Ok(campaign_id) => match spec_opt_text(
                p.channel_manifest_id,
                "properties.channelManifestId"@,
            ) {
                Err(m) => Err(m),
                Ok(channel_manifest_id) => match spec_opt_text(
                    p.nickname,
                    "properties.nickname"@,
                ) {
                    Err(m) => Err(m),
                    Ok(nickname) => match spec_opt_text(
                        p.setup_engine_file_path,
                        "properties.setupEngineFilePath"@,
                    ) {
                        Err(m) => Err(m),
                        Ok(setup_engine_file_path) => Ok(
                            Some(
                                PropertiesInfo {
                                    campaign_id,
                                    channel_manifest_id,
                                    nickname,
                                    setup_engine_file_path,
                                },
                            ),
                        ),
                    },
                },
            },
        },
    }
}

fn catalog_from_fields(f: NestedField<CatalogFields>) -> (r: Result<Option<CatalogInfo>, Error>)
    ensures
        match spec_catalog(f) {
            Ok(c) => r == Ok::<Option<CatalogInfo>, Error>(c),
            Err(m) => r matches Err(Error::MalformedOutput(t)) && t@ == m,
        },
{
    match f {
        NestedField::Missing => Ok(None),
        NestedField::Null => Ok(None),
        NestedField::Other => Err(
            Error::MalformedOutput(String::from_str("catalog: expected an object or null")),
        ),
        NestedField::Object(c) => {
            let id = match opt_text(c.id, "catalog.id") {
                Ok(x) => x,
                Err(e) => return Err(e),
            };
            let build_version = match opt_version(c.build_version, "catalog.buildVersion") {
                Ok(x) => x,
                Err(e) => return Err(e),
            };
            let product_name = match opt_text(c.product_name, "catalog.productName") {
                Ok(x) => x,
                Err(e) => return Err(e),
            };
            let product_line_version = match opt_text(
                c.product_line_version,
                "catalog.productLineVersion",
            ) {
                Ok(x) => x,
                Err(e) => return Err(e),
            };
            let product_semantic_version = match opt_text(
                c.product_semantic_version,
                "catalog.productSemanticVersion",
            ) {
                Ok(x) => x,
                Err(e) => return Err(e),
            };
            Ok(
                Some(
                    CatalogInfo {
                        id,
                        build_version,
                        product_name,
                        product_line_version,
                        product_semantic_version,
                    },
                ),
            )
        },
    }
}

fn properties_from_fields(f: NestedField<PropertiesFields>) -> (r: Result<
    Option<PropertiesInfo>,
    Error,
>)
    ensures
        match spec_properties(f) {
            Ok(p) => r == Ok::<Option<PropertiesInfo>, Error>(p),
            Err(m) => r matches Err(Error::MalformedOutput(t)) && t@ == m,
        },
{
    match f {
        NestedField::Missing => Ok(None),
        NestedField::Null => Ok(None),
        NestedField::Other => Err(
            Error::MalformedOutput(String::from_str("properties: expected an object or null")),
        ),
        NestedField::Object(p) => {
            let campaign_id = match opt_text(p.campaign_id, "properties.campaignId") {
                Ok(x) => x,
                Err(e) => return Err(e),
            };
            let channel_manifest_id = match opt_text(
                p.channel_manifest_id,
                "properties.channelManifestId",
            ) {
                Ok(x) => x,
                Err(e) => return Err(e),
            };
            let nickname = match opt_text(p.nickname, "properties.nickname") {
                Ok(x) => x,
                Err(e) => return Err(e),
            };
            let setup_engine_file_path = match opt_text(
                p.setup_engine_file_path,
                "properties.setupEngineFilePath",
            ) {
                Ok(x) => x,
                Err(e) => return Err(e),
            };
            Ok(
                Some(
                    PropertiesInfo {
                        campaign_id,
                        channel_manifest_id,
                        nickname,
                        setup_engine_file_path,
                    },
                ),
            )
        },
    }
}

/// What assembling one record from its raw fields yields: each field is
/// coerced by its own rule, the first violation aborts with its reason.
pub open spec fn spec_record(f: RecordFields) -> Result<InstallationRecord, Seq<char>> {
    match spec_req_text(f.instance_id, "instanceId"@) {
        Err(m) => Err(m),
        Ok(instance_id) => match spec_opt_text(f.install_date, "installDate"@) {
            Err(m) => Err(m),
            Ok(install_date) => match spec_opt_text(f.update_date, "updateDate"@) {
                Err(m) => Err(m),
                Ok(update_date) => match spec_opt_text(f.display_name, "displayName"@) {
                    Err(m) => Err(m),
                    Ok(display_name) => match spec_opt_text(f.description, "description"@) {
                        Err(m) => Err(m),
                        Ok(description) => match spec_req_text(
                            f.installation_path,
                            "installationPath"@,
                        ) {
                            Err(m) => Err(m),
                            Ok(installation_path) => match spec_opt_text(
                                f.product_path,
                                "productPath"@,
                            ) {
                                Err(m) => Err(m),
                                Ok(product_path) => match spec_version_field(
                                    f.installation_version,
                                    "installationVersion"@,
                                ) {
                                    Err(m) => Err(m),
                                    Ok(installation_version) => match spec_opt_text(
                                        f.product_id,
                                        "productId"@,
                                    ) {
                                        Err(m) => Err(m),
                                        Ok(product_id) => match spec_flag(
                                            f.is_prerelease,
                                            "isPrerelease"@,
                                        ) {
                                            Err(m) => Err(m),
                                            Ok(is_prerelease) => match spec_opt_url(
                                                f.channel_uri,
                                                "channelUri"@,
                                            ) {
                                                Err(m) => Err(m),
                                                Ok(channel_uri) => match spec_opt_url(
                                                    f.release_notes,
                                                    "releaseNotes"@,
                                                ) {
                                                    Err(m) => Err(m),
                                                    Ok(release_notes) => match spec_opt_url(
                                                        f.third_party_notices,
                                                        "thirdPartyNotices"@,
                                                    ) {
                                                        Err(m) => Err(m),
                                                        Ok(third_party_notices) => match spec_catalog(
                                                            f.catalog,
                                                        ) {
                                                            Err(m) => Err(m),
                                                            Ok(catalog) => match spec_properties(
                                                                f.properties,
                                                            ) {
                                                                Err(m) => Err(m),
                                                                Ok(properties) => Ok(
                                                                    InstallationRecord {
                                                                        instance_id,
                                                                        install_date,
                                                                        update_date,
                                                                        display_name,
                                                                        description,
                                                                        installation_path,
                                                                        product_path,
                                                                        installation_version,
                                                                        product_id,
                                                                        is_prerelease,
                                                                        channel_uri,
                                                                        release_notes,
                                                                        third_party_notices,
                                                                        catalog,
                                                                        properties,
                                                                    },
                                                                ),
                                                            },
                                                        },
                                                    },
                                                },
                                            },
                                        },
                                    },
                                },
                            },
                        },
                    },
                },
            },
        },
    }
}

/// Assembles one record from its raw field shapes, applying every
/// coercion rule; the first violated rule aborts the record with a
/// `MalformedOutput` naming the field.
pub fn record_from_fields(f: RecordFields) -> (r: Result<InstallationRecord, Error>)
    ensures
        match spec_record(f) {
            Ok(rec) => r == Ok::<InstallationRecord, Error>(rec),
            Err(m) => r matches Err(Error::MalformedOutput(t)) && t@ == m,
        },
{
    let instance_id = match req_text(f.instance_id, "instanceId") {
        Ok(x) => x,
        Err(e) => return Err(e),
    };
    let install_date = match opt_text(f.install_date, "installDate") {
        Ok(x) => x,
        Err(e) => return Err(e),
    };
    let update_date = match opt_text(f.update_date, "updateDate") {
        Ok(x) => x,
        Err(e) => return Err(e),
    };
    let display_name = match opt_text(f.display_name, "displayName") {
        Ok(x) => x,
        Err(e) => return Err(e),
    };
    let description = match opt_text(f.description, "description") {
        Ok(x) => x,
        Err(e) => return Err(e),
    };
    let installation_path = match req_text(f.installation_path, "installationPath") {
        Ok(x) => x,
        Err(e) => return Err(e),
    };
    let product_path = match opt_text(f.product_path, "productPath") {
        Ok(x) => x,
        Err(e) => return Err(e),
    };
    let installation_version = match version_field(f.installation_version, "installationVersion") {
        Ok(x) => x,
        Err(e) => return Err(e),
    };
    let product_id = match opt_text(f.product_id, "productId") {
        Ok(x) => x,
        Err(e) => return Err(e),
    };
    let is_prerelease = match flag(f.is_prerelease, "isPrerelease") {
        Ok(x) => x,
        Err(e) => return Err(e),
    };
    let channel_uri = match opt_url(f.channel_uri, "channelUri") {
        Ok(x) => x,
        Err(e) => return Err(e),
    };
    let release_notes = match opt_url(f.release_notes, "releaseNotes") {
        Ok(x) => x,
        Err(e) => return Err(e),
    };
    let third_party_notices = match opt_url(f.third_party_notices, "thirdPartyNotices") {
        Ok(x) => x,
        Err(e) => return Err(e),
    };
    let catalog = match catalog_from_fields(f.catalog) {
        Ok(x) => x,
        Err(e) => return Err(e),
    };
    let properties = match properties_from_fields(f.properties) {
        Ok(x) => x,
        Err(e) => return Err(e),
    };
    Ok(
        InstallationRecord {
            instance_id,
            install_date,
            update_date,
            display_name,
            description,
            installation_path,
            product_path,
            installation_version,
            product_id,
            is_prerelease,
            channel_uri,
            release_notes,
            third_party_notices,
            catalog,
            properties,
        },
    )
}

/// Well-formedness every decoded record enjoys: each URL-valued field, when
/// present, has the URL shape.
pub open spec fn record_wf(rec: InstallationRecord) -> bool {
    &&& (rec.channel_uri matches Some(u) ==> valid_url(u@))
    &&& (rec.release_notes matches Some(u) ==> valid_url(u@))
    &&& (rec.third_party_notices matches Some(u) ==> valid_url(u@))
}

/// Every successfully assembled record is well-formed.
pub proof fn lemma_record_wf(f: RecordFields)
    ensures
        spec_record(f) matches Ok(rec) ==> record_wf(rec),
{
}

/// The plain shape one scalar member of a JSON object arrives in,
/// expressed over the bridge's names: absent members are `Missing`.
pub open spec fn spec_scalar_member(v: serde_json::Value, key: Seq<char>) -> FieldValue {
    if value_has(v, key) {
        value_scalar(value_at(v, key))
    } else {
        FieldValue::Missing
    }
}

/// The raw shapes the catalog sub-object of `v` arrives in.
pub open spec fn spec_catalog_member(v: serde_json::Value) -> NestedField<CatalogFields> {
    if !value_has(v, "catalog"@) {
        NestedField::Missing
    } else {
        let c = value_at(v, "catalog"@);
        if value_null(c) {
            NestedField::Null
        } else if value_object(c) {
            NestedField::Object(
                CatalogFields {
                    id: spec_scalar_member(c, "id"@),
                    build_version: spec_scalar_member(c, "buildVersion"@),
                    product_name: spec_scalar_member(c, "productName"@),
                    product_line_version: spec_scalar_member(c, "productLineVersion"@),
                    product_semantic_version: spec_scalar_member(c, "productSemanticVersion"@),
                },
            )
        } else {
            NestedField::Other
        }
    }
}

/// The raw shapes the properties sub-object of `v` arrives in.
pub open spec fn spec_properties_member(v: serde_json::Value) -> NestedField<PropertiesFields> {
    if !value_has(v, "properties"@) {
        NestedField::Missing
    } else {
        let p = value_at(v, "properties"@);
        if value_null(p) {
            NestedField::Null
        } else if value_object(p) {
            NestedField::Object(
                PropertiesFields {
                    campaign_id: spec_scalar_member(p, "campaignId"@),
                    channel_manifest_id: spec_scalar_member(p, "channelManifestId"@),
                    nickname: spec_scalar_member(p, "nickname"@),
                    setup_engine_file_path: spec_scalar_member(p, "setupEngineFilePath"@),
                },
            )
        } else {
            NestedField::Other
        }
    }
}

/// The raw shapes of all of one record element's fields.
pub open spec fn spec_record_fields(v: serde_json::Value) -> RecordFields {
    RecordFields {
        instance_id: spec_scalar_member(v, "instanceId"@),
        install_date: spec_scalar_member(v, "installDate"@),
        update_date: spec_scalar_member(v, "updateDate"@),
        display_name: spec_scalar_member(v, "displayName"@),
        description: spec_scalar_member(v, "description"@),
        installation_path: spec_scalar_member(v, "installationPath"@),
        product_path: spec_scalar_member(v, "productPath"@),
        installation_version: spec_scalar_member(v, "installationVersion"@),
        product_id: spec_scalar_member(v, "productId"@),
        is_prerelease: spec_scalar_member(v, "isPrerelease"@),
        channel_uri: spec_scalar_member(v, "channelUri"@),
        release_notes: spec_scalar_member(v, "releaseNotes"@),
        third_party_notices: spec_scalar_member(v, "thirdPartyNotices"@),
        catalog: spec_catalog_member(v),
        properties: spec_properties_member(v),
    }
}

/// Gathers one scalar member of a JSON object into plain shape.
fn scalar_member(v: &serde_json::Value, key: &str) -> (r: FieldValue)
    ensures
        r == spec_scalar_member(*v, key@),
{
    match value_member(v, key) {
        None => FieldValue::Missing,
        Some(x) => classify_value(x),
    }
}

/// Gathers the catalog sub-object's fields.
fn catalog_member(v: &serde_json::Value) -> (r: NestedField<CatalogFields>)
    ensures
        r == spec_catalog_member(*v),
{
    match value_member(v, "catalog") {
        None => NestedField::Missing,
        Some(c) => {
            if value_is_null(c) {
                NestedField::Null
            } else if value_is_object(c) {
                NestedField::Object(
                    CatalogFields {
                        id: scalar_member(c, "id"),
                        build_version: scalar_member(c, "buildVersion"),
                        product_name: scalar_member(c, "productName"),
                        product_line_version: scalar_member(c, "productLineVersion"),
                        product_semantic_version: scalar_member(c, "productSemanticVersion"),
                    },
                )
            } else {
                NestedField::Other
            }
        },
    }
}

/// Gathers the properties sub-object's fields.
fn properties_member(v: &serde_json::Value) -> (r: NestedField<PropertiesFields>)
    ensures
        r == spec_properties_member(*v),
{
    match value_member(v, "properties") {
        None => NestedField::Missing,
        Some(p) => {
            if value_is_null(p) {
                NestedField::Null
            } else if value_is_object(p) {
                NestedField::Object(
                    PropertiesFields {
                        campaign_id: scalar_member(p, "campaignId"),
                        channel_manifest_id: scalar_member(p, "channelManifestId"),
                        nickname: scalar_member(p, "nickname"),
                        setup_engine_file_path: scalar_member(p, "setupEngineFilePath"),
                    },
                )
            } else {
                NestedField::Other
            }
        },
    }
}

/// Decodes one element of the output array into a record: exactly the
/// assembly `record_from_fields` performs, on the raw field shapes the
/// bridge's names give this element; so a decoded record is well-formed,
/// and a rejection is always a schema violation naming the field and raw
/// value.
pub fn decode_record(v: &serde_json::Value) -> (r: Result<InstallationRecord, Error>)
    ensures
        ({
            let fields = spec_record_fields(*v);
            match spec_record(fields) {
                Ok(rec) => r == Ok::<InstallationRecord, Error>(rec),
                Err(m) => r matches Err(Error::MalformedOutput(t)) && t@ == m,
            }
        }),
        r matches Ok(rec) ==> record_wf(rec),
        r matches Err(e) ==> e is MalformedOutput,
{
    let fields = RecordFields {
        instance_id: scalar_member(v, "instanceId"),
        install_date: scalar_member(v, "installDate"),
        update_date: scalar_member(v, "updateDate"),
        display_name: scalar_member(v, "displayName"),
        description: scalar_member(v, "description"),
        installation_path: scalar_member(v, "installationPath"),
        product_path: scalar_member(v, "productPath"),
        installation_version: scalar_member(v, "installationVersion"),
        product_id: scalar_member(v, "productId"),
        is_prerelease: scalar_member(v, "isPrerelease"),
        channel_uri: scalar_member(v, "channelUri"),
        release_notes: scalar_member(v, "releaseNotes"),
        third_party_notices: scalar_member(v, "thirdPartyNotices"),
        catalog: catalog_member(v),
        properties: properties_member(v),
    };
    proof {
        assert(fields == spec_record_fields(*v));
        lemma_record_wf(fields);
    }
    record_from_fields(fields)
}

/// What decoding every element of the output array yields: the records in
/// order, or the first element's violation, with nothing decoded past it.
pub open spec fn spec_records_of(elems: Seq<serde_json::Value>) -> Result<
    Seq<InstallationRecord>,
    Seq<char>,
>
    decreases elems.len(),
{
    if elems.len() == 0 {
        Ok(Seq::<InstallationRecord>::empty())
    } else {
        match spec_record(spec_record_fields(elems[0])) {
            Err(m) => Err(m),
            Ok(rec) => match spec_records_of(elems.drop_first()) {
                Err(m) => Err(m),
                Ok(rest) => Ok(seq![rec] + rest),
            },
        }
    }
}

/// Validates the tool's exit status and decodes its captured standard
/// output. A non-zero exit is reported as `NonZeroExit` with the code and
/// the output is not parsed at all. On a zero exit the output must be a
/// UTF-8 JSON array of record objects, and the result is owed: bytes the
/// parser accepts as an array whose elements all assemble decode to
/// exactly those records, anything else to the first violation as a
/// `MalformedOutput` — there are no partial results.
pub fn decode_records(exit_code: i32, stdout: &[u8]) -> (r: Result<Vec<InstallationRecord>, Error>)
    ensures
        exit_code != 0 ==> r == Err::<Vec<InstallationRecord>, Error>(
            Error::NonZeroExit(exit_code),
        ),
        exit_code == 0 && !json_wf(stdout@) ==> (r matches Err(e) && e is MalformedOutput),
        exit_code == 0 && json_wf(stdout@) && !value_is_array(json_doc(stdout@)) ==> (r matches Err(
            Error::MalformedOutput(t),
        ) && t@ == "expected a JSON array"@),
        exit_code == 0 && json_wf(stdout@) && value_is_array(json_doc(stdout@)) ==> match spec_records_of(
            value_elems(json_doc(stdout@)),
        ) {
            Ok(s) => r matches Ok(recs) && recs@ == s,
            Err(m) => r matches Err(Error::MalformedOutput(t)) && t@ == m,
        },
        exit_code == 0 ==> match r {
            Ok(recs) => forall|i: int| 0 <= i < recs@.len() ==> record_wf(#[trigger] recs@[i]),
            Err(e) => e is MalformedOutput,
        },
{
    if exit_code != 0 {
        return Err(Error::NonZeroExit(exit_code));
    }
    let value = match parse_json(stdout) {
        Ok(v) => v,
        Err(e) => return Err(Error::MalformedOutput(e)),
    };
    let arr = match value_as_array(&value) {
        Some(a) => a,
        None => return Err(Error::MalformedOutput(String::from_str("expected a JSON array"))),
    };
    let ghost elems = value_elems(json_doc(stdout@));
    let mut recs: Vec<InstallationRecord> = Vec::new();
    let mut i: usize = 0;
    proof {
        assert(elems.skip(0) =~= elems);
        if spec_records_of(elems) is Ok {
            assert(recs@ + spec_records_of(elems)->Ok_0 =~= spec_records_of(elems)->Ok_0);
        }
    }
    while i < arr.len()
        invariant
            exit_code == 0,
            json_wf(stdout@),
            value_is_array(json_doc(stdout@)),
            arr@ == elems,
            elems == value_elems(json_doc(stdout@)),
            i <= elems.len(),
            forall|k: int| 0 <= k < recs@.len() ==> record_wf(#[trigger] recs@[k]),
            spec_records_of(elems) == match spec_records_of(elems.skip(i as int)) {
                Ok(rest) => Ok::<Seq<InstallationRecord>, Seq<char>>(recs@ + rest),
                Err(m) => Err::<Seq<InstallationRecord>, Seq<char>>(m),
            },
        decreases arr@.len() - i,
    {
        let ghost remaining = elems.skip(i as int);
        proof {
            assert(remaining.len() > 0);
            assert(remaining[0] == elems[i as int]);
            assert(remaining.drop_first() =~= elems.skip(i + 1));
        }
        match decode_record(&arr[i]) {
            Ok(rec) => {
                proof {
                    assert(spec_record(spec_record_fields(elems[i as int])) == Ok::<
                        InstallationRecord,
                        Seq<char>,
                    >(rec));
                    assert(spec_records_of(remaining) == match spec_records_of(elems.skip(i + 1)) {
                        Ok(rest) => Ok::<Seq<InstallationRecord>, Seq<char>>(seq![rec] + rest),
                        Err(m) => Err::<Seq<InstallationRecord>, Seq<char>>(m),
                    });
                }
                let ghost recs_before = recs@;
                recs.push(rec);
                proof {
                    assert(recs@ =~= recs_before + seq![rec]);
                    if spec_records_of(elems.skip(i + 1)) is Ok {
                        assert(recs_before + (seq![rec] + spec_records_of(elems.skip(i + 1))->Ok_0)
                            =~= recs@ + spec_records_of(elems.skip(i + 1))->Ok_0);
                    }
                }
            },
            Err(e) => {
                proof {
                    assert(spec_record(spec_record_fields(elems[i as int])) is Err);
                    assert(spec_records_of(remaining) == Err::<Seq<InstallationRecord>, Seq<char>>(
                        spec_record(spec_record_fields(elems[i as int]))->Err_0,
                    ));
                }
                return Err(e);
            },
        }
        i = i + 1;
    }
    proof {
        assert(elems.skip(elems.len() as int) =~= Seq::<serde_json::Value>::empty());
        assert(recs@ + Seq::<InstallationRecord>::empty() =~= recs@);
    }
    Ok(recs)
}

/// Decodes one captured tool run, validating its exit status first; owed
/// the same result as `decode_records` on the captured bytes.
pub fn decode_output(out: &crate::discovery::ToolOutput) -> (r: Result<
    Vec<InstallationRecord>,
    Error,
>)
    ensures
        out.exit_code != 0 ==> r == Err::<Vec<InstallationRecord>, Error>(
            Error::NonZeroExit(out.exit_code),
        ),
        out.exit_code == 0 && !json_wf(out.stdout@) ==> (r matches Err(e)
            && e is MalformedOutput),
        out.exit_code == 0 && json_wf(out.stdout@) && !value_is_array(json_doc(out.stdout@))
            ==> (r matches Err(Error::MalformedOutput(t)) && t@ == "expected a JSON array"@),
        out.exit_code == 0 && json_wf(out.stdout@) && value_is_array(json_doc(out.stdout@))
            ==> match spec_records_of(value_elems(json_doc(out.stdout@))) {
            Ok(s) => r matches Ok(recs) && recs@ == s,
            Err(m) => r matches Err(Error::MalformedOutput(t)) && t@ == m,
        },
        out.exit_code == 0 ==> match r {
            Ok(recs) => forall|i: int| 0 <= i < recs@.len() ==> record_wf(#[trigger] recs@[i]),
            Err(e) => e is MalformedOutput,
        },
{
    decode_records(out.exit_code, out.stdout.as_slice())
}

} // verus!
