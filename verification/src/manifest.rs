use crate::decimal::{all_digits, digit_of, is_digit};
use crate::text::to_chars;
use vstd::prelude::*;

verus! {

/// A value of a TOML document, as the `toml` crate holds it.
#[verifier::external_type_specification]
#[verifier::external_body]
pub struct ExTomlValue(toml::Value);

/// The error with which the `toml` crate refuses a document.
#[verifier::external_type_specification]
#[verifier::external_body]
pub struct ExTomlError(toml::de::Error);

/// The strings that a TOML value holds, each under the keys that lead to it
/// from the value through its tables: a string lies under no key at all, a
/// table holds under a key and then a path what its member of that key holds
/// under the path, and any other value holds nothing.
pub uninterp spec fn toml_strings(value: toml::Value) -> Map<Seq<Seq<char>>, Seq<char>>;

/// What `toml::from_str` makes of a text: `None` where it refuses the text,
/// else the strings that the document holds.
pub uninterp spec fn toml_document(text: Seq<char>) -> Option<Map<Seq<Seq<char>>, Seq<char>>>;

/// What lies under the key `key`, with that key taken off each path.
pub open spec fn subtree(strings: Map<Seq<Seq<char>>, Seq<char>>, key: Seq<char>) -> Map<
    Seq<Seq<char>>,
    Seq<char>,
> {
    Map::new(
        |path: Seq<Seq<char>>| strings.contains_key(seq![key] + path),
        |path: Seq<Seq<char>>| strings[seq![key] + path],
    )
}

/// The string that lies under no key: what the value itself is, if it is a
/// string.
pub open spec fn text_at(strings: Map<Seq<Seq<char>>, Seq<char>>) -> Option<Seq<char>> {
    if strings.contains_key(Seq::empty()) {
        Some(strings[Seq::empty()])
    } else {
        None
    }
}

/// `toml::from_str` for a `toml::Value`. Believed: whether a text is taken
/// as a document, and what the document holds, depends on the text alone.
#[verifier::external_body]
pub(crate) fn parse_document(text: &str) -> (r: Result<toml::Value, toml::de::Error>)
    ensures
        match r {
            Ok(document) => toml_document(text@) == Some(toml_strings(document)),
            Err(_) => toml_document(text@) is None,
        },
{
    toml::from_str::<toml::Value>(text)
}

/// `toml::Value::get` with a string key. Believed: a table hands out its
/// member of that key, which holds what the table holds under the key; a
/// value that is no table, or a table without the key, gives `None` and
/// holds nothing under the key.
#[verifier::external_body]
pub(crate) fn member<'a>(value: &'a toml::Value, key: &str) -> (r: Option<&'a toml::Value>)
    ensures
        match r {
            Some(inner) => toml_strings(*inner) == subtree(toml_strings(*value), key@),
            None => subtree(toml_strings(*value), key@) == Map::<Seq<Seq<char>>, Seq<char>>::empty(),
        },
{
    value.get(key)
}

/// `toml::Value::as_str`. Believed: a string value hands out its text, and
/// no other value hands out any.
#[verifier::external_body]
pub(crate) fn text<'a>(value: &'a toml::Value) -> (r: Option<&'a str>)
    ensures
        match r {
            Some(s) => text_at(toml_strings(*value)) == Some(s@),
            None => text_at(toml_strings(*value)) is None,
        },
{
    value.as_str()
}

/// `s` is `major`, `minor` and `patch` with a dot between them, each a
/// number in decimal digits.
pub open spec fn is_version_of(
    s: Seq<char>,
    major: Seq<char>,
    minor: Seq<char>,
    patch: Seq<char>,
) -> bool {
    &&& major.len() > 0 && all_digits(major)
    &&& minor.len() > 0 && all_digits(minor)
    &&& patch.len() > 0 && all_digits(patch)
    &&& s == major + seq!['.'] + minor + seq!['.'] + patch
}

/// A semantic base version: three numbers with dots between them.
pub open spec fn is_semantic_version(s: Seq<char>) -> bool {
    exists|major: Seq<char>, minor: Seq<char>, patch: Seq<char>|
        is_version_of(s, major, minor, patch)
}

/// The base version where the manifest gives none that can be used.
pub open spec fn default_base_version() -> Seq<char> {
    "0.1.0"@
}

/// The base version that a manifest names: the string under `package` and
/// then `version` where that is a semantic version, else the default.
pub open spec fn base_version_in(strings: Map<Seq<Seq<char>>, Seq<char>>) -> Seq<char> {
    match text_at(subtree(subtree(strings, "package"@), "version"@)) {
        Some(version) => if is_semantic_version(version) {
            version
        } else {
            default_base_version()
        },
        None => default_base_version(),
    }
}

/// The base version for a manifest's text, or for no manifest at all: the
/// default where the manifest is absent or no TOML document.
pub open spec fn base_version_of(manifest: Option<Seq<char>>) -> Seq<char> {
    match manifest {
        Some(text) => match toml_document(text) {
            Some(strings) => base_version_in(strings),
            None => default_base_version(),
        },
        None => default_base_version(),
    }
}

/// Where the run of digits that starts at `from` ends.
fn digit_run_end(s: &Vec<char>, from: usize) -> (end: usize)
    requires
        from <= s.len(),
    ensures
        from <= end <= s.len(),
        forall|t: int| from <= t < end ==> is_digit(#[trigger] s@[t]),
        end < s.len() ==> !is_digit(s@[end as int]),
{
    let mut end: usize = from;
    while end < s.len() && digit_of(s[end]).is_some()
        invariant
            from <= end <= s.len(),
            forall|t: int| from <= t < end ==> is_digit(#[trigger] s@[t]),
        decreases s.len() - end,
    {
        end += 1;
    }
    end
}

/// Whether a text is a semantic base version.
pub fn is_semver(version: &str) -> (r: bool)
    ensures
        r == is_semantic_version(version@),
{
    let s = to_chars(version);
    let n: usize = s.len();
    let i: usize = digit_run_end(&s, 0);
    let j: usize = if i < n {
        digit_run_end(&s, i + 1)
    } else {
        n
    };
    let k: usize = if j < n {
        digit_run_end(&s, j + 1)
    } else {
        n
    };
    let r = 0 < i && i < n && s[i] == '.' && i + 1 < j && j < n && s[j] == '.' && j + 1 < k && k
        == n;
    proof {
        if r {
            let major = s@.subrange(0, i as int);
            let minor = s@.subrange(i + 1, j as int);
            let patch = s@.subrange(j + 1, n as int);
            assert(s@ =~= major + seq!['.'] + minor + seq!['.'] + patch);
            assert(is_version_of(s@, major, minor, patch));
        } else {
            assert forall|major: Seq<char>, minor: Seq<char>, patch: Seq<char>|
                !is_version_of(s@, major, minor, patch) by {
                if is_version_of(s@, major, minor, patch) {
                    let a = major.len() as int;
                    let b = a + 1 + minor.len();
                    assert(s@.len() == b + 1 + patch.len());
                    assert(s@[a] == '.');
                    assert(s@[b] == '.');
                    assert forall|t: int| 0 <= t < a implies is_digit(s@[t]) by {
                        assert(s@[t] == major[t]);
                    }
                    assert forall|t: int| a + 1 <= t < b implies is_digit(s@[t]) by {
                        assert(s@[t] == minor[t - a - 1]);
                    }
                    assert forall|t: int| b + 1 <= t < s@.len() implies is_digit(s@[t]) by {
                        assert(s@[t] == patch[t - b - 1]);
                    }
                    if i < a {
                        assert(is_digit(s@[i as int]));
                    }
                    if i > a {
                        assert(is_digit(s@[a]));
                    }
                    assert(i == a);
                    if j < b {
                        assert(is_digit(s@[j as int]));
                    }
                    if j > b {
                        assert(is_digit(s@[b]));
                    }
                    assert(j == b);
                    if k < n {
                        assert(is_digit(s@[k as int]));
                    }
                    assert(false);
                }
            }
        }
    }
    r
}

/// Reads the base version out of a parsed manifest.
pub fn extract_base_version<'a>(root_toml: &'a toml::Value) -> (r: &'a str)
    ensures
        r@ == base_version_in(toml_strings(*root_toml)),
{
    let found: Option<&'a str> = match member(root_toml, "package") {
        Some(package) => match member(package, "version") {
            Some(version) => text(version),
            None => None,
        },
        None => {
            assert(subtree(subtree(toml_strings(*root_toml), "package"@), "version"@)
                =~= Map::<Seq<Seq<char>>, Seq<char>>::empty());
            None
        },
    };
    match found {
        Some(version) => if is_semver(version) {
            version
        } else {
            "0.1.0"
        },
        None => "0.1.0",
    }
}

/// The base version for a manifest's text, or for no manifest at all.
pub fn base_version(manifest: Option<&str>) -> (r: String)
    ensures
        r@ == base_version_of(
            match manifest {
                Some(text) => Some(text@),
                None => None,
            },
        ),
{
    match manifest {
        Some(text) => match parse_document(text) {
            Ok(document) => extract_base_version(&document).to_owned(),
            Err(_) => "0.1.0".to_owned(),
        },
        None => "0.1.0".to_owned(),
    }
}

} // verus!
