//! The body of a Slack event delivery, as far as routing reads it.

use vstd::prelude::*;
use vstd::string::*;
use crate::json::{JsonModel, JsonValue};
use crate::text::str_eq;

verus! {

/// Who an event was delivered for.
#[derive(Debug)]
pub struct SlackAuthorization {
    pub enterprise_id: Option<String>,
    pub team_id: Option<String>,
    pub user_id: Option<String>,
    pub is_bot: bool,
    pub is_enterprise_install: bool,
}

/// The view of a `SlackAuthorization`.
pub struct SlackAuthorizationModel {
    pub enterprise_id: Option<Seq<char>>,
    pub team_id: Option<Seq<char>>,
    pub user_id: Option<Seq<char>>,
    pub is_bot: bool,
    pub is_enterprise_install: bool,
}

impl View for SlackAuthorization {
    type V = SlackAuthorizationModel;

    open spec fn view(&self) -> SlackAuthorizationModel {
        SlackAuthorizationModel {
            enterprise_id: self.enterprise_id.deep_view(),
            team_id: self.team_id.deep_view(),
            user_id: self.user_id.deep_view(),
            is_bot: self.is_bot,
            is_enterprise_install: self.is_enterprise_install,
        }
    }
}

impl DeepView for SlackAuthorization {
    type V = SlackAuthorizationModel;

    open spec fn deep_view(&self) -> SlackAuthorizationModel {
        self@
    }
}

/// The event inside an event delivery.
#[derive(Debug)]
pub struct SlackEvent {
    /// Slack's name of the event, such as `message` or `team_join`.
    pub event_type: String,
    /// The channel of the event; many events have none.
    pub channel: Option<String>,
    pub user: Option<String>,
    pub ts: Option<String>,
    pub text: Option<String>,
    pub reaction: Option<String>,
    /// The subtype of a message, such as `file_share`.
    pub subtype: Option<String>,
    pub file_id: Option<String>,
    pub channel_type: Option<String>,
    pub bot_id: Option<String>,
    /// An object of whatever else the event holds.
    pub extra: JsonValue,
}

/// The view of a `SlackEvent`.
pub struct SlackEventModel {
    pub event_type: Seq<char>,
    pub channel: Option<Seq<char>>,
    pub user: Option<Seq<char>>,
    pub ts: Option<Seq<char>>,
    pub text: Option<Seq<char>>,
    pub reaction: Option<Seq<char>>,
    pub subtype: Option<Seq<char>>,
    pub file_id: Option<Seq<char>>,
    pub channel_type: Option<Seq<char>>,
    pub bot_id: Option<Seq<char>>,
    pub extra: JsonModel,
}

impl View for SlackEvent {
    type V = SlackEventModel;

    open spec fn view(&self) -> SlackEventModel {
        SlackEventModel {
            event_type: self.event_type@,
            channel: self.channel.deep_view(),
            user: self.user.deep_view(),
            ts: self.ts.deep_view(),
            text: self.text.deep_view(),
            reaction: self.reaction.deep_view(),
            subtype: self.subtype.deep_view(),
            file_id: self.file_id.deep_view(),
            channel_type: self.channel_type.deep_view(),
            bot_id: self.bot_id.deep_view(),
            extra: self.extra@,
        }
    }
}

impl DeepView for SlackEvent {
    type V = SlackEventModel;

    open spec fn deep_view(&self) -> SlackEventModel {
        self@
    }
}

/// An event delivery.
#[derive(Debug)]
pub struct SlackEventCallback {
    pub team_id: String,
    pub api_app_id: String,
    /// The delivery's identifier, the same on every retry.
    pub event_id: String,
    /// When the event was dispatched, in seconds since 1970.
    pub event_time: u64,
    pub event: SlackEvent,
    pub authorizations: Vec<SlackAuthorization>,
}

/// The view of a `SlackEventCallback`.
pub struct SlackEventCallbackModel {
    pub team_id: Seq<char>,
    pub api_app_id: Seq<char>,
    pub event_id: Seq<char>,
    pub event_time: u64,
    pub event: SlackEventModel,
    pub authorizations: Seq<SlackAuthorizationModel>,
}

impl View for SlackEventCallback {
    type V = SlackEventCallbackModel;

    open spec fn view(&self) -> SlackEventCallbackModel {
        SlackEventCallbackModel {
            team_id: self.team_id@,
            api_app_id: self.api_app_id@,
            event_id: self.event_id@,
            event_time: self.event_time,
            event: self.event@,
            authorizations: self.authorizations.deep_view(),
        }
    }
}

impl DeepView for SlackEventCallback {
    type V = SlackEventCallbackModel;

    open spec fn deep_view(&self) -> SlackEventCallbackModel {
        self@
    }
}

/// What Slack posts to the events endpoint.
#[derive(Debug)]
pub enum SlackPayload {
    /// The challenge by which Slack checks the endpoint.
    UrlVerification { challenge: String },
    /// An event.
    EventCallback(SlackEventCallback),
}

/// The view of a `SlackPayload`.
pub enum SlackPayloadModel {
    UrlVerification { challenge: Seq<char> },
    EventCallback(SlackEventCallbackModel),
}

impl View for SlackPayload {
    type V = SlackPayloadModel;

    open spec fn view(&self) -> SlackPayloadModel {
        match self {
            SlackPayload::UrlVerification { challenge } => SlackPayloadModel::UrlVerification {
                challenge: challenge@,
            },
            SlackPayload::EventCallback(callback) => SlackPayloadModel::EventCallback(callback@),
        }
    }
}

impl DeepView for SlackPayload {
    type V = SlackPayloadModel;

    open spec fn deep_view(&self) -> SlackPayloadModel {
        self@
    }
}

/// The answer to a URL verification: the challenge, handed back.
#[derive(Debug)]
pub struct UrlVerificationResponse {
    pub challenge: String,
}

/// The engine's name for a Slack event: a message that shares a file is
/// `file_shared`, `team_join` is `user_created`, and every other event
/// keeps Slack's name.
pub open spec fn engine_event_type(event_type: Seq<char>, subtype: Option<Seq<char>>) -> Seq<char> {
    if event_type == "message"@ && subtype == Some("file_share"@) {
        "file_shared"@
    } else if event_type == "team_join"@ {
        "user_created"@
    } else {
        event_type
    }
}

/// The keys of an event that `SlackEvent` holds in fields of their own.
pub open spec fn event_field_keys() -> Seq<Seq<char>> {
    seq![
        "type"@,
        "channel"@,
        "user"@,
        "ts"@,
        "text"@,
        "reaction"@,
        "subtype"@,
        "file_id"@,
        "channel_type"@,
        "bot_id"@,
    ]
}

/// Whether every optional field of an event is a text, null or missing.
pub open spec fn event_fields_fit(doc: JsonModel) -> bool {
    &&& doc.optional_text_at("channel"@) is Some
    &&& doc.optional_text_at("user"@) is Some
    &&& doc.optional_text_at("ts"@) is Some
    &&& doc.optional_text_at("text"@) is Some
    &&& doc.optional_text_at("reaction"@) is Some
    &&& doc.optional_text_at("subtype"@) is Some
    &&& doc.optional_text_at("file_id"@) is Some
    &&& doc.optional_text_at("channel_type"@) is Some
    &&& doc.optional_text_at("bot_id"@) is Some
}

/// The event that a JSON document describes: none unless `type` is a text
/// and every optional field is a text, null or missing.
pub open spec fn event_of_json(doc: JsonModel) -> Option<SlackEventModel> {
    if doc.text_at("type"@) is Some && event_fields_fit(doc) {
        Some(
            SlackEventModel {
                event_type: doc.text_at("type"@)->0,
                channel: doc.optional_text_at("channel"@)->0,
                user: doc.optional_text_at("user"@)->0,
                ts: doc.optional_text_at("ts"@)->0,
                text: doc.optional_text_at("text"@)->0,
                reaction: doc.optional_text_at("reaction"@)->0,
                subtype: doc.optional_text_at("subtype"@)->0,
                file_id: doc.optional_text_at("file_id"@)->0,
                channel_type: doc.optional_text_at("channel_type"@)->0,
                bot_id: doc.optional_text_at("bot_id"@)->0,
                extra: doc.without(event_field_keys()),
            },
        )
    } else {
        None
    }
}

/// The authorization that a JSON document describes: none unless the two
/// flags are booleans and the three identifiers are texts, null or missing.
pub open spec fn authorization_of_json(doc: JsonModel) -> Option<SlackAuthorizationModel> {
    if doc.optional_text_at("enterprise_id"@) is Some && doc.optional_text_at("team_id"@) is Some
        && doc.optional_text_at("user_id"@) is Some && doc.get("is_bot"@) is Some && doc.get(
        "is_bot"@,
    )->0 is Bool && doc.get("is_enterprise_install"@) is Some && doc.get(
        "is_enterprise_install"@,
    )->0 is Bool {
        Some(
            SlackAuthorizationModel {
                enterprise_id: doc.optional_text_at("enterprise_id"@)->0,
                team_id: doc.optional_text_at("team_id"@)->0,
                user_id: doc.optional_text_at("user_id"@)->0,
                is_bot: doc.get("is_bot"@)->0->Bool_0,
                is_enterprise_install: doc.get("is_enterprise_install"@)->0->Bool_0,
            },
        )
    } else {
        None
    }
}

/// The authorizations that a delivery names: none where `authorizations` is
/// left out, those of the array where it is one, and a failure where it is
/// anything else or one of its items describes no authorization.
pub open spec fn authorizations_of_json(doc: JsonModel) -> Option<Seq<SlackAuthorizationModel>> {
    match doc.get("authorizations"@) {
        None => Some(Seq::empty()),
        Some(JsonModel::Array(items)) => if forall|i: int|
            0 <= i < items.len() ==> authorization_of_json(#[trigger] items[i]) is Some {
            Some(Seq::new(items.len(), |i: int| authorization_of_json(items[i])->0))
        } else {
            None
        },
        Some(_) => None,
    }
}

/// The event delivery that a JSON document describes: none unless
/// `team_id`, `api_app_id` and `event_id` are texts, `event_time` is a
/// number that fits 64 unsigned bits, `event` describes an event and
/// `authorizations` fits.
pub open spec fn callback_of_json(doc: JsonModel) -> Option<SlackEventCallbackModel> {
    if doc.text_at("team_id"@) is Some && doc.text_at("api_app_id"@) is Some && doc.text_at(
        "event_id"@,
    ) is Some && doc.get("event_time"@) is Some && doc.get("event_time"@)->0.as_u64() is Some
        && doc.get("event"@) is Some && event_of_json(doc.get("event"@)->0) is Some
        && authorizations_of_json(doc) is Some {
        Some(
            SlackEventCallbackModel {
                team_id: doc.text_at("team_id"@)->0,
                api_app_id: doc.text_at("api_app_id"@)->0,
                event_id: doc.text_at("event_id"@)->0,
                event_time: doc.get("event_time"@)->0.as_u64()->0,
                event: event_of_json(doc.get("event"@)->0)->0,
                authorizations: authorizations_of_json(doc)->0,
            },
        )
    } else {
        None
    }
}

/// What a posted JSON document is: a URL verification where `type` says so
/// and `challenge` is a text, an event delivery where `type` says so and
/// the document describes one, and nothing else.
pub open spec fn payload_of_json(doc: JsonModel) -> Option<SlackPayloadModel> {
    if doc.text_at("type"@) == Some("url_verification"@) {
        match doc.text_at("challenge"@) {
            Some(challenge) => Some(SlackPayloadModel::UrlVerification { challenge }),
            None => None,
        }
    } else if doc.text_at("type"@) == Some("event_callback"@) {
        match callback_of_json(doc) {
            Some(callback) => Some(SlackPayloadModel::EventCallback(callback)),
            None => None,
        }
    } else {
        None
    }
}

impl SlackAuthorization {
    /// Reads an authorization from its JSON object.
    pub fn from_json(doc: &JsonValue) -> (r: Option<SlackAuthorization>)
        ensures
            r.deep_view() == authorization_of_json(doc@),
    {
        let enterprise_id = match doc.optional_text_at("enterprise_id") {
            Some(v) => v,
            None => { return None; },
        };
        let team_id = match doc.optional_text_at("team_id") {
            Some(v) => v,
            None => { return None; },
        };
        let user_id = match doc.optional_text_at("user_id") {
            Some(v) => v,
            None => { return None; },
        };
        let is_bot = match doc.get("is_bot") {
            Some(JsonValue::Bool(b)) => *b,
            _ => { return None; },
        };
        let is_enterprise_install = match doc.get("is_enterprise_install") {
            Some(JsonValue::Bool(b)) => *b,
            _ => { return None; },
        };
        Some(SlackAuthorization { enterprise_id, team_id, user_id, is_bot, is_enterprise_install })
    }
}

impl SlackEvent {
    /// Reads an event from its JSON object.
    pub fn from_json(doc: &JsonValue) -> (r: Option<SlackEvent>)
        ensures
            r.deep_view() == event_of_json(doc@),
    {
        let event_type = match doc.text_at("type") {
            Some(t) => String::from_str(t),
            None => { return None; },
        };
        let channel = match doc.optional_text_at("channel") {
            Some(v) => v,
            None => { return None; },
        };
        let user = match doc.optional_text_at("user") {
            Some(v) => v,
            None => { return None; },
        };
        let ts = match doc.optional_text_at("ts") {
            Some(v) => v,
            None => { return None; },
        };
        let text = match doc.optional_text_at("text") {
            Some(v) => v,
            None => { return None; },
        };
        let reaction = match doc.optional_text_at("reaction") {
            Some(v) => v,
            None => { return None; },
        };
        let subtype = match doc.optional_text_at("subtype") {
            Some(v) => v,
            None => { return None; },
        };
        let file_id = match doc.optional_text_at("file_id") {
            Some(v) => v,
            None => { return None; },
        };
        let channel_type = match doc.optional_text_at("channel_type") {
            Some(v) => v,
            None => { return None; },
        };
        let bot_id = match doc.optional_text_at("bot_id") {
            Some(v) => v,
            None => { return None; },
        };
        let keys = [
            "type",
            "channel",
            "user",
            "ts",
            "text",
            "reaction",
            "subtype",
            "file_id",
            "channel_type",
            "bot_id",
        ];
        let known = keys.as_slice();
        assert(known.deep_view() =~= event_field_keys());
        let extra = doc.without(known);
        Some(
            SlackEvent {
                event_type,
                channel,
                user,
                ts,
                text,
                reaction,
                subtype,
                file_id,
                channel_type,
                bot_id,
                extra,
            },
        )
    }

    /// The engine's name for this event; see `engine_event_type`.
    pub fn to_n8n_event_type(&self) -> (r: &str)
        ensures
            r@ == engine_event_type(self@.event_type, self@.subtype),
    {
        let shares_file = match &self.subtype {
            Some(s) => str_eq(s.as_str(), "file_share"),
            None => false,
        };
        if str_eq(self.event_type.as_str(), "message") && shares_file {
            "file_shared"
        } else if str_eq(self.event_type.as_str(), "team_join") {
            "user_created"
        } else {
            self.event_type.as_str()
        }
    }
}

fn authorizations_from_json(doc: &JsonValue) -> (r: Option<Vec<SlackAuthorization>>)
    ensures
        r.deep_view() == authorizations_of_json(doc@),
{
    let mut out: Vec<SlackAuthorization> = Vec::new();
    match doc.get("authorizations") {
        None => {
            assert(out.deep_view() =~= Seq::<SlackAuthorizationModel>::empty());
            Some(out)
        },
        Some(JsonValue::Array(items)) => {
            proof {
                crate::json::lemma_view_array(*items);
            }
            let ghost models = JsonValue::Array(*items)@->Array_0;
            let mut i: usize = 0;
            while i < items.len()
                invariant
                    i <= items.len(),
                    out.len() == i,
                    doc@.get("authorizations"@) == Some(JsonModel::Array(models)),
                    models.len() == items@.len(),
                    forall|k: int| 0 <= k < items@.len() ==> #[trigger] models[k] == items@[k]@,
                    forall|k: int|
                        0 <= k < i ==> authorization_of_json(#[trigger] models[k]) == Some(
                            out@[k]@,
                        ),
                decreases items.len() - i,
            {
                assert(models[i as int] == items@[i as int]@);
                match SlackAuthorization::from_json(&items[i]) {
                    Some(a) => {
                        out.push(a);
                    },
                    None => {
                        return None;
                    },
                }
                i += 1;
            }
            assert(out.deep_view() =~= authorizations_of_json(doc@)->0);
            Some(out)
        },
        Some(_) => None,
    }
}

impl SlackEventCallback {
    /// Reads an event delivery from the JSON document of its body.
    pub fn from_json(doc: &JsonValue) -> (r: Option<SlackEventCallback>)
        ensures
            r.deep_view() == callback_of_json(doc@),
    {
        let team_id = match doc.text_at("team_id") {
            Some(t) => String::from_str(t),
            None => { return None; },
        };
        let api_app_id = match doc.text_at("api_app_id") {
            Some(t) => String::from_str(t),
            None => { return None; },
        };
        let event_id = match doc.text_at("event_id") {
            Some(t) => String::from_str(t),
            None => { return None; },
        };
        let event_time = match doc.get("event_time") {
            Some(v) => match v.as_u64() {
                Some(n) => n,
                None => { return None; },
            },
            None => { return None; },
        };
        let event = match doc.get("event") {
            Some(v) => match SlackEvent::from_json(v) {
                Some(e) => e,
                None => { return None; },
            },
            None => { return None; },
        };
        let authorizations = match authorizations_from_json(doc) {
            Some(a) => a,
            None => { return None; },
        };
        Some(SlackEventCallback { team_id, api_app_id, event_id, event_time, event, authorizations })
    }
}

impl SlackPayload {
    /// Reads what Slack posted from the JSON document of the body.
    pub fn from_json(doc: &JsonValue) -> (r: Option<SlackPayload>)
        ensures
            r.deep_view() == payload_of_json(doc@),
    {
        let kind = match doc.text_at("type") {
            Some(k) => k,
            None => { return None; },
        };
        if str_eq(kind, "url_verification") {
            match doc.text_at("challenge") {
                Some(challenge) => Some(
                    SlackPayload::UrlVerification { challenge: String::from_str(challenge) },
                ),
                None => None,
            }
        } else if str_eq(kind, "event_callback") {
            match SlackEventCallback::from_json(doc) {
                Some(callback) => Some(SlackPayload::EventCallback(callback)),
                None => None,
            }
        } else {
            None
        }
    }
}

} // verus!
