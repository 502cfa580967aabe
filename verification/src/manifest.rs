use vstd::prelude::*;
use vstd::string::StringExecFns;

use crate::error::ConversionError;
use crate::json_value::{get, spec_get, JsonValue};

verus! {

/// The value tree that reading a text as TOML yields, in this crate's
/// model, or `None` where the text is rejected. This names the result of
/// `toml::de::from_str`, which depends on the text alone.
pub uninterp spec fn toml_json_of(s: Seq<char>) -> Option<JsonValue>;

/// Relies on `toml::de::from_str`: reads TOML text into a value tree,
/// deterministically in the text; it fails exactly on text it rejects,
/// which is what `toml_json_of` being `None` stands for.
#[verifier::external_body]
fn parse_toml_text(s: &str) -> (r: Result<JsonValue, ConversionError>)
    ensures
        r is Ok <==> toml_json_of(s@) is Some,
        r is Ok ==> toml_json_of(s@) == Some(r->Ok_0),
        r is Err ==> r->Err_0 is Toml,
{
    match toml::de::from_str::<serde_json::Value>(s) {
        Ok(v) => Ok(crate::generate_xml::value_to_model(&v)),
        Err(e) => Err(ConversionError::Toml(e.to_string())),
    }
}

/// The version string of the `json_to_xml` entry under `[dependencies]`:
/// the entry itself when it is a string, or its `version` field when the
/// entry is a table with a string `version`.
pub open spec fn spec_dep_version(doc: JsonValue) -> Option<Seq<char>> {
    match spec_get(doc, "dependencies"@) {
        Some(deps) => match spec_get(deps, "json_to_xml"@) {
            Some(dep) => if dep is Object {
                match spec_get(dep, "version"@) {
                    Some(v) => if v is String {
                        Some(v->String_0@)
                    } else {
                        None
                    },
                    None => None,
                }
            } else if dep is String {
                Some(dep->String_0@)
            } else {
                None
            },
            None => None,
        },
        None => None,
    }
}

/// The version string of the `[package]` table, when it is a string.
pub open spec fn spec_pkg_version(doc: JsonValue) -> Option<Seq<char>> {
    match spec_get(doc, "package"@) {
        Some(pkg) => match spec_get(pkg, "version"@) {
            Some(v) => if v is String {
                Some(v->String_0@)
            } else {
                None
            },
            None => None,
        },
        None => None,
    }
}

/// Where a version string is found in manifest data: the dependency entry
/// first, then the package's own version.
pub open spec fn spec_manifest_version(doc: JsonValue) -> Option<Seq<char>> {
    match spec_dep_version(doc) {
        Some(s) => Some(s),
        None => spec_pkg_version(doc),
    }
}

/// Extract a version string from manifest (TOML) text: the version of the
/// `json_to_xml` dependency if one is named, else the package's own
/// version. Resolving the text itself (reading a file) is the host's
/// business; a host that cannot resolve one falls back to a placeholder
/// comment instead of failing the conversion.
pub fn version_from_manifest(toml_text: &str) -> (r: Result<String, ConversionError>)
    ensures
        match toml_json_of(toml_text@) {
            Some(doc) => match spec_manifest_version(doc) {
                Some(s) => r is Ok && r->Ok_0@ == s,
                None => r is Err && r->Err_0 is Toml,
            },
            None => r is Err && r->Err_0 is Toml,
        },
{
    let doc = match parse_toml_text(toml_text) {
        Ok(d) => d,
        Err(e) => {
            return Err(e);
        },
    };
    if let Some(deps) = get(&doc, "dependencies") {
        if let Some(dep) = get(deps, "json_to_xml") {
            match dep {
                JsonValue::Object(_) => {
                    if let Some(vv) = get(dep, "version") {
                        if let JsonValue::String(s) = vv {
                            return Ok(s.clone());
                        }
                    }
                },
                JsonValue::String(s) => {
                    return Ok(s.clone());
                },
                _ => {},
            }
        }
    }
    if let Some(pkg) = get(&doc, "package") {
        if let Some(vv) = get(pkg, "version") {
            if let JsonValue::String(s) = vv {
                return Ok(s.clone());
            }
        }
    }
    Err(ConversionError::Toml("no version string in manifest".to_owned()))
}

} // verus!
