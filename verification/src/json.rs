//! Trusted declarations for the JSON bodies that the configuration
//! document and the status/auth APIs arrive as. Each extractor reads
//! one response shape into plain library values and names its result,
//! so that every decision over those values — which error a malformed
//! body yields, which fields a state takes — is made by verified code
//! with an exact contract.

use vstd::prelude::*;

use crate::twitch::{entries_model, StreamEntry, StreamEntryModel};

verus! {

#[verifier::external_type_specification]
#[verifier::external_body]
pub struct ExValue(serde_json::Value);

/// The model of a list of expected strings: a non-string element is
/// absent.
pub open spec fn opt_strs_model(ss: Seq<Option<String>>) -> Seq<Option<Seq<char>>> {
    ss.map_values(
        |s: Option<String>|
            match s {
                Some(x) => Some(x@),
                None => None,
            },
    )
}

/// The `access_token` and `message` strings of an auth response body,
/// each absent when the body is not a JSON object, lacks the field, or
/// holds it as something other than a string.
pub struct AuthFields {
    pub access_token: Option<String>,
    pub message: Option<String>,
}

/// Mathematical model of [`AuthFields`].
#[verifier::ext_equal]
pub struct AuthFieldsModel {
    pub access_token: Option<Seq<char>>,
    pub message: Option<Seq<char>>,
}

impl View for AuthFields {
    type V = AuthFieldsModel;

    open spec fn view(&self) -> AuthFieldsModel {
        AuthFieldsModel {
            access_token: match self.access_token {
                Some(t) => Some(t@),
                None => None,
            },
            message: match self.message {
                Some(m) => Some(m@),
                None => None,
            },
        }
    }
}

/// What the auth extractor reads from a response body: a function of
/// the text alone.
pub uninterp spec fn auth_fields_of(body: Seq<char>) -> AuthFieldsModel;

/// Relies on serde_json (`from_str`, `Value::is_object`, `Value::get`,
/// `Value::as_str`): the string `access_token` and `message` fields of
/// the body when it is a JSON object; a field that is missing or not a
/// string is absent, and both are absent when the body is not valid
/// JSON or not an object.
#[verifier::external_body]
pub(crate) fn auth_fields(body: &str) -> (r: AuthFields)
    ensures
        r@ == auth_fields_of(body@),
{
    match serde_json::from_str::<serde_json::Value>(body) {
        Ok(v) if v.is_object() => AuthFields {
            access_token: v.get("access_token").and_then(|t| t.as_str()).map(str::to_owned),
            message: v.get("message").and_then(|m| m.as_str()).map(str::to_owned),
        },
        _ => AuthFields { access_token: None, message: None },
    }
}

/// The shape of a status response body: whether it is a JSON object,
/// whether that object carries an `error` key, and the elements of its
/// `data` array when it has one.
pub struct StatusBody {
    pub is_object: bool,
    pub has_error: bool,
    pub data: Option<Vec<StreamEntry>>,
}

/// Mathematical model of a [`StatusBody`].
#[verifier::ext_equal]
pub struct StatusBodyModel {
    pub is_object: bool,
    pub has_error: bool,
    pub data: Option<Seq<StreamEntryModel>>,
}

impl View for StatusBody {
    type V = StatusBodyModel;

    open spec fn view(&self) -> StatusBodyModel {
        StatusBodyModel {
            is_object: self.is_object,
            has_error: self.has_error,
            data: match &self.data {
                Some(d) => Some(entries_model(d@)),
                None => None,
            },
        }
    }
}

/// What the status extractor reads from a response body: a function of
/// the text alone.
pub uninterp spec fn status_body_of(body: Seq<char>) -> StatusBodyModel;

/// Relies on serde_json (`from_str`, `Value::is_object`, `Value::get`,
/// `Value::as_array`): whether the body is a JSON object, whether it
/// carries an `error` key, and its `data` array read element by
/// element through [`stream_entry_of`]; `data` is absent when missing
/// or not an array, and a non-object body has every part absent.
#[verifier::external_body]
pub(crate) fn status_body(body: &str) -> (r: StatusBody)
    ensures
        r@ == status_body_of(body@),
{
    match serde_json::from_str::<serde_json::Value>(body) {
        Ok(v) if v.is_object() => StatusBody {
            is_object: true,
            has_error: v.get("error").is_some(),
            data: v.get("data").and_then(|d| d.as_array()).map(
                |a| a.iter().map(stream_entry_of).collect(),
            ),
        },
        _ => StatusBody { is_object: false, has_error: false, data: None },
    }
}

/// Relies on serde_json (`Value::get`, `Value::as_str`,
/// `Value::as_u64`): one `data` element's fields — `user_login` and
/// `title` when strings, `viewer_count` when a number representable as
/// `u64`, each absent otherwise.
#[verifier::external_body]
fn stream_entry_of(e: &serde_json::Value) -> StreamEntry {
    StreamEntry {
        user_login: e.get("user_login").and_then(|x| x.as_str()).map(str::to_owned),
        title: e.get("title").and_then(|x| x.as_str()).map(str::to_owned),
        viewer_count: e.get("viewer_count").and_then(|x| x.as_u64()),
    }
}

/// A document field expected to be an array of strings: missing
/// entirely, present but no array, or its elements — with a
/// non-string element absent.
pub enum JsonStrings {
    Absent,
    NotArray,
    Items(Vec<Option<String>>),
}

/// Mathematical model of a [`JsonStrings`].
#[verifier::ext_equal]
pub enum JsonStringsModel {
    Absent,
    NotArray,
    Items(Seq<Option<Seq<char>>>),
}

impl View for JsonStrings {
    type V = JsonStringsModel;

    open spec fn view(&self) -> JsonStringsModel {
        match self {
            JsonStrings::Absent => JsonStringsModel::Absent,
            JsonStrings::NotArray => JsonStringsModel::NotArray,
            JsonStrings::Items(items) => JsonStringsModel::Items(opt_strs_model(items@)),
        }
    }
}

/// The fields of a configuration document: whether the body is a JSON
/// object, its three string fields, and its two string-array fields.
pub struct ConfigFields {
    pub is_object: bool,
    pub client: Option<String>,
    pub secret: Option<String>,
    pub player: Option<String>,
    pub channels: JsonStrings,
    pub notify_title_changed: JsonStrings,
}

/// Mathematical model of [`ConfigFields`].
#[verifier::ext_equal]
pub struct ConfigFieldsModel {
    pub is_object: bool,
    pub client: Option<Seq<char>>,
    pub secret: Option<Seq<char>>,
    pub player: Option<Seq<char>>,
    pub channels: JsonStringsModel,
    pub notify_title_changed: JsonStringsModel,
}

impl View for ConfigFields {
    type V = ConfigFieldsModel;

    open spec fn view(&self) -> ConfigFieldsModel {
        ConfigFieldsModel {
            is_object: self.is_object,
            client: match self.client {
                Some(c) => Some(c@),
                None => None,
            },
            secret: match self.secret {
                Some(s) => Some(s@),
                None => None,
            },
            player: match self.player {
                Some(p) => Some(p@),
                None => None,
            },
            channels: self.channels@,
            notify_title_changed: self.notify_title_changed@,
        }
    }
}

/// What the configuration extractor reads from a document body: a
/// function of the text alone.
pub uninterp spec fn config_fields_of(body: Seq<char>) -> ConfigFieldsModel;

/// Relies on serde_json (`from_str`, `Value::is_object`, `Value::get`,
/// `Value::as_str`): the `client`, `secret` and `player` fields of the
/// document when they are strings, and the `channels` and
/// `notify_title_changed` fields read through [`strings_field`]; a
/// field that is missing or of the wrong kind is absent, and a body
/// that is not a JSON object has every field absent.
#[verifier::external_body]
pub(crate) fn config_fields(body: &str) -> (r: ConfigFields)
    ensures
        r@ == config_fields_of(body@),
{
    match serde_json::from_str::<serde_json::Value>(body) {
        Ok(v) if v.is_object() => ConfigFields {
            is_object: true,
            client: v.get("client").and_then(|x| x.as_str()).map(str::to_owned),
            secret: v.get("secret").and_then(|x| x.as_str()).map(str::to_owned),
            player: v.get("player").and_then(|x| x.as_str()).map(str::to_owned),
            channels: strings_field(v.get("channels")),
            notify_title_changed: strings_field(v.get("notify_title_changed")),
        },
        _ => ConfigFields { is_object: false, client: None, secret: None, player: None, channels: JsonStrings::Absent, notify_title_changed: JsonStrings::Absent },
    }
}

/// Relies on serde_json (`Value::as_array`, `Value::as_str`): one
/// expected array-of-strings field, with each non-string element
/// absent.
#[verifier::external_body]
fn strings_field(field: Option<&serde_json::Value>) -> JsonStrings {
    match field {
        None => JsonStrings::Absent,
        Some(v) => match v.as_array() {
            Some(items) => JsonStrings::Items(
                items.iter().map(|x| x.as_str().map(str::to_owned)).collect(),
            ),
            None => JsonStrings::NotArray,
        },
    }
}

} // verus!
