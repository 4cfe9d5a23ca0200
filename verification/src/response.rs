//! Subsonic API response formats, statuses and the OpenSubsonic extensions
//! that the server announces.
use vstd::prelude::*;
use crate::media::{str_eq, strip_prefix};

pub mod json;
pub mod xml;

verus! {

/// The Subsonic API version the server is compatible with.
pub const API_VERSION: &'static str = "1.16.1";

/// Server name reported in responses.
pub const SERVER_NAME: &'static str = "subsonic-rs";

/// Server version reported in responses.
pub const SERVER_VERSION: &'static str = "0.1.0";

/// XML namespace of the Subsonic responses.
pub const XMLNS: &'static str = "http://subsonic.org/restapi";

/// Response format requested by the client.
#[derive(PartialEq, Eq, Structural, Clone, Copy, Debug)]
pub enum Format {
    Xml,
    Json,
}

impl Default for Format {
    fn default() -> (r: Self)
        ensures
            r == Format::Xml,
    {
        Format::Xml
    }
}

/// The format that the `f` parameter selects: JSON for `json` and `jsonp`,
/// XML otherwise.
pub open spec fn spec_format(f: Option<Seq<char>>) -> Format {
    match f {
        Some(s) => if s == "json"@ || s == "jsonp"@ {
            Format::Json
        } else {
            Format::Xml
        },
        None => Format::Xml,
    }
}

impl Format {
    /// The format that the `f` parameter selects.
    pub fn from_param(f: Option<&str>) -> (r: Self)
        ensures
            r == spec_format(
                match f {
                    Some(s) => Some(s@),
                    None => None,
                },
            ),
    {
        match f {
            Some(s) => if str_eq(s, "json") || str_eq(s, "jsonp") {
                Format::Json
            } else {
                Format::Xml
            },
            None => Format::Xml,
        }
    }
}

/// Response status values.
#[derive(PartialEq, Eq, Structural, Clone, Copy, Debug)]
pub enum ResponseStatus {
    /// The request succeeded (`"ok"` on the wire).
    Success,
    /// The request failed (`"failed"` on the wire).
    Failed,
}

/// A supported OpenSubsonic API extension.
pub struct OpenSubsonicExtension {
    /// The name of the extension.
    pub name: String,
    /// The supported versions of this extension.
    pub versions: Vec<i32>,
}

impl OpenSubsonicExtension {
    /// An extension with the given name and versions.
    pub fn new(name: String, versions: Vec<i32>) -> (r: Self)
        ensures
            r.name@ == name@,
            r.versions@ == versions@,
    {
        OpenSubsonicExtension { name, versions }
    }
}

/// The OpenSubsonic extensions supported by this server: `formPost`,
/// `apiKeyAuthentication` and `songLyrics`, each in version 1.
pub fn supported_extensions() -> (r: Vec<OpenSubsonicExtension>)
    ensures
        r@.len() == 3,
        r@[0].name@ == "formPost"@,
        r@[1].name@ == "apiKeyAuthentication"@,
        r@[2].name@ == "songLyrics"@,
        forall|i: int| 0 <= i < 3 ==> (#[trigger] r@[i]).versions@ == seq![1i32],
{
    let mut r: Vec<OpenSubsonicExtension> = Vec::new();
    let mut v1: Vec<i32> = Vec::new();
    v1.push(1);
    r.push(OpenSubsonicExtension::new("formPost".to_string(), v1));
    let mut v2: Vec<i32> = Vec::new();
    v2.push(1);
    r.push(OpenSubsonicExtension::new("apiKeyAuthentication".to_string(), v2));
    let mut v3: Vec<i32> = Vec::new();
    v3.push(1);
    r.push(OpenSubsonicExtension::new("songLyrics".to_string(), v3));
    assert(r@[0].versions@ =~= seq![1i32]);
    assert(r@[1].versions@ =~= seq![1i32]);
    assert(r@[2].versions@ =~= seq![1i32]);
    r
}

/// The XML declaration that starts every XML response.
pub const XML_DECLARATION: &'static str = "<?xml version=\"1.0\" encoding=\"UTF-8\"?>";

/// The content type of XML responses.
pub const XML_CONTENT_TYPE: &'static str = "application/xml; charset=utf-8";

/// The content type of JSON responses.
pub const JSON_CONTENT_TYPE: &'static str = "application/json; charset=utf-8";

/// A serialized XML response body behind the XML declaration.
pub fn xml_document(body: &str) -> (r: String)
    ensures
        r@ == XML_DECLARATION@ + body@,
{
    let mut r = XML_DECLARATION.to_string();
    r.append(body);
    r
}

/// The name that a serialized key takes in JSON responses: attributes
/// (`@name`) lose the `@`, and element text (`$text`) is called `value`.
pub open spec fn spec_json_key(key: Seq<char>) -> Seq<char> {
    if "@"@.is_prefix_of(key) {
        key.skip(1)
    } else if key == "$text"@ {
        "value"@
    } else {
        key
    }
}

/// The name that a serialized key takes in JSON responses.
pub fn json_key(key: &str) -> (r: String)
    ensures
        r@ == spec_json_key(key@),
{
    proof {
        reveal_strlit("@");
    }
    match strip_prefix(key, "@") {
        Some(rest) => {
            assert(rest@ =~= key@.skip(1));
            rest.to_string()
        },
        None => if str_eq(key, "$text") {
            "value".to_string()
        } else {
            key.to_string()
        },
    }
}

} // verus!
