//! Decoding of the two JSON bodies a run receives: the catalog listing
//! envelope `{ data: { file_list: [...] } }` and the token endpoint's
//! credential response. The JSON values themselves are handled by
//! `serde_json` behind trusted declarations whose contracts speak over a
//! mathematical view of the parsed document; the envelope checks and the
//! field-by-field extraction are verified against that view.

use vstd::prelude::*;

use crate::data::{views_of, Credential, CredentialView, FileDetail, FileView, RunError};

verus! {

/// serde_json's dynamic JSON value, carried opaquely through the decoders.
#[verifier::external_type_specification]
#[verifier::external_body]
pub struct ExValue(serde_json::Value);

/// A JSON document, as `serde_json`'s default number representation reads it:
/// a number written as an integer that fits 64 bits (signed or unsigned) is
/// an `Int`; any other number is `OtherNumber`.
pub enum JsonView {
    Null,
    Bool(bool),
    Int(int),
    OtherNumber,
    Text(Seq<char>),
    Array(Seq<JsonView>),
    Object(Map<Seq<char>, JsonView>),
}

/// What `serde_json::from_str::<Value>` yields on a string: the parsed
/// document, or `None` where it does not accept the text. A function of the
/// characters alone.
pub uninterp spec fn json_doc_of(s: Seq<char>) -> Option<JsonView>;

/// The document a `serde_json::Value` holds.
pub uninterp spec fn value_view(v: serde_json::Value) -> JsonView;

/// Whether a string is text that `serde_json` accepts as a JSON document.
pub open spec fn json_parses(s: Seq<char>) -> bool {
    json_doc_of(s) is Some
}

/// Relies on `serde_json::from_str::<Value>`: whether a string parses depends
/// on its characters alone; a value comes back exactly when `serde_json`
/// accepts the text, and it holds the parsed document.
#[verifier::external_body]
fn parse_json(s: &str) -> (r: Option<serde_json::Value>)
    ensures
        r is Some <==> json_parses(s@),
        r is Some ==> value_view(r->0) == json_doc_of(s@)->0,
{
    serde_json::from_str(s).ok()
}

/// Relies on `serde_json::Value::get` with a string key: on an object, the
/// member under the key, or `None` where the key is absent; `None` on any
/// non-object.
#[verifier::external_body]
fn get_field<'a>(v: &'a serde_json::Value, key: &str) -> (r: Option<&'a serde_json::Value>)
    ensures
        match value_view(*v) {
            JsonView::Object(m) => {
                &&& r is Some <==> m.contains_key(key@)
                &&& r is Some ==> value_view(*r->0) == m[key@]
            },
            _ => r is None,
        },
{
    v.get(key)
}

/// Relies on `serde_json::Value::as_str`: the characters exactly when the
/// value is a JSON string.
#[verifier::external_body]
fn value_as_str(v: &serde_json::Value) -> (r: Option<&str>)
    ensures
        r is Some <==> value_view(*v) is Text,
        r is Some ==> r->0@ == value_view(*v)->Text_0,
{
    v.as_str()
}

/// Relies on `serde_json::Value::as_array`: the elements exactly when the
/// value is a JSON array.
#[verifier::external_body]
fn value_as_array(v: &serde_json::Value) -> (r: Option<&Vec<serde_json::Value>>)
    ensures
        r is Some <==> value_view(*v) is Array,
        r is Some ==> r->0@.len() == value_view(*v)->Array_0.len() && (forall|i: int|
            0 <= i < r->0@.len() ==> value_view(#[trigger] r->0@[i]) == value_view(
                *v,
            )->Array_0[i]),
{
    v.as_array()
}

/// Relies on `serde_json::Value::as_i64`: the value exactly when it is an
/// integer JSON number representable as an `i64`.
#[verifier::external_body]
fn value_as_i64(v: &serde_json::Value) -> (r: Option<i64>)
    ensures
        r is Some <==> (value_view(*v) is Int && -0x8000_0000_0000_0000 <= value_view(*v)->Int_0
            <= 0x7fff_ffff_ffff_ffff),
        r is Some ==> r->0 as int == value_view(*v)->Int_0,
{
    v.as_i64()
}

/// The object `v` holds a string under `key`.
pub open spec fn has_text_member(v: JsonView, key: Seq<char>) -> bool {
    &&& v is Object
    &&& v->Object_0.contains_key(key)
    &&& v->Object_0[key] is Text
}

/// The string the object `v` holds under `key`.
pub open spec fn text_member(v: JsonView, key: Seq<char>) -> Seq<char> {
    v->Object_0[key]->Text_0
}

/// The object `v` holds an integer fitting 32 signed bits under `key`.
pub open spec fn has_i32_member(v: JsonView, key: Seq<char>) -> bool {
    &&& v is Object
    &&& v->Object_0.contains_key(key)
    &&& v->Object_0[key] is Int
    &&& -0x8000_0000 <= v->Object_0[key]->Int_0 <= 0x7fff_ffff
}

/// The integer the object `v` holds under `key`.
pub open spec fn i32_member(v: JsonView, key: Seq<char>) -> int {
    v->Object_0[key]->Int_0
}

/// Extract a required string member of a JSON object.
fn required_str(v: &serde_json::Value, key: &str) -> (r: Option<String>)
    ensures
        r is Some <==> has_text_member(value_view(*v), key@),
        r is Some ==> r->0@ == text_member(value_view(*v), key@),
{
    match get_field(v, key) {
        Some(field) => match value_as_str(field) {
            Some(s) => Some(s.to_owned()),
            None => None,
        },
        None => None,
    }
}

/// Extract a required integer member of a JSON object, bounded to 32 bits.
fn required_i32(v: &serde_json::Value, key: &str) -> (r: Option<i32>)
    ensures
        r is Some <==> has_i32_member(value_view(*v), key@),
        r is Some ==> r->0 as int == i32_member(value_view(*v), key@),
{
    match get_field(v, key) {
        Some(field) => match value_as_i64(field) {
            Some(n) => {
                if n < -0x8000_0000i64 || n > 0x7fff_ffffi64 {
                    None
                } else {
                    Some(n as i32)
                }
            },
            None => None,
        },
        None => None,
    }
}

/// One listing entry is well-formed: an object with string members `ID`,
/// `Subject` and `LinkDownload`.
pub open spec fn entry_decodes(j: JsonView) -> bool {
    &&& has_text_member(j, "ID"@)
    &&& has_text_member(j, "Subject"@)
    &&& has_text_member(j, "LinkDownload"@)
}

/// The file entry a well-formed listing entry decodes to.
pub open spec fn entry_of(j: JsonView) -> FileView {
    FileView {
        id: text_member(j, "ID"@),
        subject: text_member(j, "Subject"@),
        link_download: text_member(j, "LinkDownload"@),
    }
}

/// The entry array inside a catalog envelope `{ data: { file_list: [...] } }`,
/// where the envelope has that shape.
pub open spec fn envelope_entries(doc: JsonView) -> Option<Seq<JsonView>> {
    if doc is Object && doc->Object_0.contains_key("data"@) {
        let data = doc->Object_0["data"@];
        if data is Object && data->Object_0.contains_key("file_list"@) {
            let fl = data->Object_0["file_list"@];
            if fl is Array {
                Some(fl->Array_0)
            } else {
                None
            }
        } else {
            None
        }
    } else {
        None
    }
}

/// The file entries a sequence of well-formed listing entries decodes to.
pub open spec fn entries_of(es: Seq<JsonView>) -> Seq<FileView> {
    es.map_values(|j: JsonView| entry_of(j))
}

/// A catalog body decodes: it parses as JSON, carries the envelope shape, and
/// every listed entry is well-formed.
pub open spec fn listing_decodes(s: Seq<char>) -> bool {
    &&& json_doc_of(s) is Some
    &&& envelope_entries(json_doc_of(s)->0) is Some
    &&& forall|i: int|
        0 <= i < envelope_entries(json_doc_of(s)->0)->0.len() ==> entry_decodes(
            #[trigger] envelope_entries(json_doc_of(s)->0)->0[i])
}

/// The file entries a decodable catalog body lists, in the remote's order.
pub open spec fn listing_of(s: Seq<char>) -> Seq<FileView> {
    entries_of(envelope_entries(json_doc_of(s)->0)->0)
}

/// Decode the catalog listing body.
///
/// Succeeds exactly when the body is a JSON document of shape
/// `{ "data": { "file_list": [ { "ID", "Subject", "LinkDownload" }, ... ] } }`
/// with every entry field a string, and then returns exactly the listed
/// entries in the remote's order. Any missing piece — a body that is not
/// JSON, an absent `data` or `file_list`, a non-array listing, or an entry
/// lacking one of its fields — is a malformed response, distinguished from a
/// transport failure so that the caller can decide whether a retry makes
/// sense.
pub fn parse_listing(body: &str) -> (r: Result<Vec<FileDetail>, RunError>)
    ensures
        r is Ok <==> listing_decodes(body@),
        r is Ok ==> views_of(r->Ok_0@) == listing_of(body@),
        r is Err ==> r->Err_0 == RunError::MalformedResponse,
{
    let doc = match parse_json(body) {
        Some(doc) => doc,
        None => {
            return Err(RunError::MalformedResponse);
        },
    };
    let ghost dv = json_doc_of(body@)->0;
    let data = match get_field(&doc, "data") {
        Some(data) => data,
        None => {
            assert(envelope_entries(dv) is None);
            return Err(RunError::MalformedResponse);
        },
    };
    let list = match get_field(data, "file_list") {
        Some(list) => list,
        None => {
            assert(envelope_entries(dv) is None);
            return Err(RunError::MalformedResponse);
        },
    };
    let entries = match value_as_array(list) {
        Some(entries) => entries,
        None => {
            assert(envelope_entries(dv) is None);
            return Err(RunError::MalformedResponse);
        },
    };
    let ghost es = envelope_entries(dv)->0;
    assert(entries@.len() == es.len());
    let mut out: Vec<FileDetail> = Vec::new();
    let mut i: usize = 0;
    proof {
        assert(es.take(0) =~= Seq::<JsonView>::empty());
        assert(views_of(out@) =~= entries_of(es.take(0)));
    }
    while i < entries.len()
        invariant
            0 <= i <= entries@.len(),
            json_doc_of(body@) is Some,
            dv == json_doc_of(body@)->0,
            envelope_entries(dv) == Some(es),
            es.len() == entries@.len(),
            forall|k: int| 0 <= k < es.len() ==> value_view(#[trigger] entries@[k]) == es[k],
            forall|k: int| 0 <= k < i ==> entry_decodes(#[trigger] es[k]),
            views_of(out@) == entries_of(es.take(i as int)),
        decreases entries@.len() - i,
    {
        let entry = &entries[i];
        assert(value_view(*entry) == es[i as int]);
        let id = match required_str(entry, "ID") {
            Some(id) => id,
            None => {
                assert(!entry_decodes(es[i as int]));
                assert(envelope_entries(json_doc_of(body@)->0)->0 == es);
                assert(!listing_decodes(body@));
                return Err(RunError::MalformedResponse);
            },
        };
        let subject = match required_str(entry, "Subject") {
            Some(subject) => subject,
            None => {
                assert(!entry_decodes(es[i as int]));
                assert(envelope_entries(json_doc_of(body@)->0)->0 == es);
                assert(!listing_decodes(body@));
                return Err(RunError::MalformedResponse);
            },
        };
        let link_download = match required_str(entry, "LinkDownload") {
            Some(link) => link,
            None => {
                assert(!entry_decodes(es[i as int]));
                assert(envelope_entries(json_doc_of(body@)->0)->0 == es);
                assert(!listing_decodes(body@));
                return Err(RunError::MalformedResponse);
            },
        };
        let file = FileDetail { id, subject, link_download };
        assert(file@ == entry_of(es[i as int]));
        out.push(file);
        proof {
            assert(es.take(i + 1) =~= es.take(i as int).push(es[i as int]));
            assert(entries_of(es.take(i + 1)) =~= entries_of(es.take(i as int)).push(
                entry_of(es[i as int])));
            assert(views_of(out@) =~= entries_of(es.take(i + 1)));
        }
        i = i + 1;
    }
    proof {
        assert(es.take(es.len() as int) =~= es);
        assert(listing_decodes(body@));
    }
    Ok(out)
}

/// A token-endpoint body decodes: it parses as a JSON object carrying the
/// seven credential fields, the five token fields as strings and the two
/// expiry fields as integers fitting 32 bits.
pub open spec fn credential_decodes(s: Seq<char>) -> bool {
    &&& json_doc_of(s) is Some
    &&& has_text_member(json_doc_of(s)->0, "token_type"@)
    &&& has_text_member(json_doc_of(s)->0, "scope"@)
    &&& has_i32_member(json_doc_of(s)->0, "expires_in"@)
    &&& has_i32_member(json_doc_of(s)->0, "ext_expires_in"@)
    &&& has_text_member(json_doc_of(s)->0, "access_token"@)
    &&& has_text_member(json_doc_of(s)->0, "refresh_token"@)
    &&& has_text_member(json_doc_of(s)->0, "id_token"@)
}

/// The credential a decodable token-endpoint body carries.
pub open spec fn credential_of(s: Seq<char>) -> CredentialView {
    CredentialView {
        token_type: text_member(json_doc_of(s)->0, "token_type"@),
        scope: text_member(json_doc_of(s)->0, "scope"@),
        expires_in: i32_member(json_doc_of(s)->0, "expires_in"@),
        ext_expires_in: i32_member(json_doc_of(s)->0, "ext_expires_in"@),
        access_token: text_member(json_doc_of(s)->0, "access_token"@),
        refresh_token: text_member(json_doc_of(s)->0, "refresh_token"@),
        id_token: text_member(json_doc_of(s)->0, "id_token"@),
    }
}

/// Decode the token endpoint's response body into a wholly new credential.
///
/// Succeeds exactly when the body carries the credential shape, and then
/// returns exactly the carried fields. Any missing piece is an
/// authentication failure: an error response from the identity provider does
/// not carry that shape.
pub fn parse_credential(body: &str) -> (r: Result<Credential, RunError>)
    ensures
        r is Ok <==> credential_decodes(body@),
        r is Ok ==> r->Ok_0@ == credential_of(body@),
        r is Err ==> r->Err_0 == RunError::Auth,
{
    let doc = match parse_json(body) {
        Some(doc) => doc,
        None => {
            return Err(RunError::Auth);
        },
    };
    let token_type = match required_str(&doc, "token_type") {
        Some(s) => s,
        None => {
            return Err(RunError::Auth);
        },
    };
    let scope = match required_str(&doc, "scope") {
        Some(s) => s,
        None => {
            return Err(RunError::Auth);
        },
    };
    let expires_in = match required_i32(&doc, "expires_in") {
        Some(n) => n,
        None => {
            return Err(RunError::Auth);
        },
    };
    let ext_expires_in = match required_i32(&doc, "ext_expires_in") {
        Some(n) => n,
        None => {
            return Err(RunError::Auth);
        },
    };
    let access_token = match required_str(&doc, "access_token") {
        Some(s) => s,
        None => {
            return Err(RunError::Auth);
        },
    };
    let refresh_token = match required_str(&doc, "refresh_token") {
        Some(s) => s,
        None => {
            return Err(RunError::Auth);
        },
    };
    let id_token = match required_str(&doc, "id_token") {
        Some(s) => s,
        None => {
            return Err(RunError::Auth);
        },
    };
    Ok(Credential {
        token_type,
        scope,
        expires_in,
        ext_expires_in,
        access_token,
        refresh_token,
        id_token,
    })
}

} // verus!
