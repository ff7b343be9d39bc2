//! The configuration: sections of keys and values, of which `Default` names
//! the channel to send to.

use crate::error::{EmissaryError, ErrorView};
use crate::json::{
    decode, distinct_members, json_object, lemma_merge_members_at, lemma_merge_members_keeps,
    lemma_merge_members_names, members_view, merge_members, parse_data, JsonMember, MemberView,
};
use crate::payload::Payload;
use crate::value::{FieldValue, FieldView};
use ini::{Ini, ParseError, Properties};
use vstd::prelude::*;

verus! {

/// A parsed configuration; it is read through [`ini_sections`].
#[verifier::external_type_specification]
#[verifier::external_body]
pub struct ExIni(Ini);

/// The keys and values of one section; read through [`properties_values`].
#[verifier::external_type_specification]
#[verifier::external_body]
pub struct ExProperties(Properties);

/// The error of the configuration parser; nothing is read from it.
#[verifier::external_type_specification]
#[verifier::external_body]
pub struct ExParseError(ParseError);

/// What a configuration holds: for each section name the keys of the section
/// that `Ini::section` finds under it (the first, where several sections
/// share the name), each with the value that `Properties::get` finds.
pub uninterp spec fn ini_sections(conf: Ini) -> Map<Seq<char>, Map<Seq<char>, Seq<char>>>;

/// What a section holds: for each key the value that `Properties::get`
/// finds (the first, where the key is given several times).
pub uninterp spec fn properties_values(props: Properties) -> Map<Seq<char>, Seq<char>>;

/// What the configuration parser makes of a text: `None` where the text is
/// malformed, else what the configuration holds.
pub uninterp spec fn ini_document(text: Seq<char>) -> Option<
    Map<Seq<char>, Map<Seq<char>, Seq<char>>>,
>;

/// Calls `Ini::load_from_str`.
///
/// Believed without proof: the result depends on the text alone, and is an
/// error exactly where the parser rejects the text.
#[verifier::external_body]
fn load(text: &str) -> (r: Result<Ini, ParseError>)
    ensures
        match r {
            Ok(conf) => ini_document(text@) == Some(ini_sections(conf)),
            Err(_) => ini_document(text@) is None,
        },
{
    Ini::load_from_str(text)
}

/// Calls `Ini::section` with the name.
///
/// Believed without proof: a section is found exactly where the
/// configuration holds the name, and it is the one held under it.
#[verifier::external_body]
fn section<'a>(conf: &'a Ini, name: &str) -> (r: Option<&'a Properties>)
    ensures
        match r {
            Some(props) => ini_sections(*conf).contains_key(name@) && ini_sections(*conf)[name@]
                == properties_values(*props),
            None => !ini_sections(*conf).contains_key(name@),
        },
{
    conf.section(Some(name))
}

/// Calls `Properties::get` with the key.
///
/// Believed without proof: a value is found exactly where the section holds
/// the key, and it is the one held under it.
#[verifier::external_body]
fn property<'a>(props: &'a Properties, key: &str) -> (r: Option<&'a str>)
    ensures
        match r {
            Some(value) => properties_values(*props).contains_key(key@) && properties_values(
                *props,
            )[key@] == value@,
            None => !properties_values(*props).contains_key(key@),
        },
{
    props.get(key)
}

/// A channel: where to send, under which name the message goes, and the
/// extra fields as JSON text.
#[derive(Clone, Debug, PartialEq, Eq)]
pub struct Channel {
    pub webhook: String,
    pub text_field: Option<String>,
    pub data: Option<String>,
}

/// The mathematical value of a [`Channel`].
pub struct ChannelView {
    pub webhook: Seq<char>,
    pub text_field: Option<Seq<char>>,
    pub data: Option<Seq<char>>,
}

/// The characters of an optional string.
pub open spec fn option_view(s: Option<String>) -> Option<Seq<char>> {
    match s {
        Some(s) => Some(s@),
        None => None,
    }
}

impl View for Channel {
    type V = ChannelView;

    open spec fn view(&self) -> ChannelView {
        ChannelView {
            webhook: self.webhook@,
            text_field: option_view(self.text_field),
            data: option_view(self.data),
        }
    }
}

/// The value of a key of a section, if the section has the key.
pub open spec fn lookup(section: Map<Seq<char>, Seq<char>>, key: Seq<char>) -> Option<Seq<char>> {
    if section.contains_key(key) {
        Some(section[key])
    } else {
        None
    }
}

/// The channel that a configuration selects: section `Default` names it by
/// its key `channel`, and the section of that name holds `webhook`, and may
/// hold `textField` and `data`. Each failure is the first one met in this
/// order.
pub open spec fn selected_channel(sections: Map<Seq<char>, Map<Seq<char>, Seq<char>>>) -> Result<
    ChannelView,
    ErrorView,
> {
    if !sections.contains_key("Default"@) {
        Err(ErrorView::MissingSection("Default"@))
    } else if !sections["Default"@].contains_key("channel"@) {
        Err(ErrorView::MissingKey("channel"@))
    } else {
        let name = sections["Default"@]["channel"@];
        if !sections.contains_key(name) {
            Err(ErrorView::MissingSection(name))
        } else if !sections[name].contains_key("webhook"@) {
            Err(ErrorView::MissingKey("webhook"@))
        } else {
            Ok(
                ChannelView {
                    webhook: sections[name]["webhook"@],
                    text_field: lookup(sections[name], "textField"@),
                    data: lookup(sections[name], "data"@),
                },
            )
        }
    }
}

/// The name of the field that holds the message: the channel's `textField`,
/// or `message` where it has none.
pub open spec fn message_field(text_field: Option<Seq<char>>) -> Seq<char> {
    match text_field {
        Some(name) => name,
        None => "message"@,
    }
}

/// The payload before the extra fields: the message under its field name,
/// then the webhook under `webhook`.
pub open spec fn base_fields(message: Seq<char>, channel: ChannelView) -> Map<
    Seq<char>,
    FieldView,
> {
    Map::<Seq<char>, FieldView>::empty().insert(
        message_field(channel.text_field),
        FieldView::Str(message),
    ).insert("webhook"@, FieldView::Str(channel.webhook))
}

/// The payload for a message and a channel whose extra fields have been
/// read: the base fields, with the members merged in where there are any.
pub open spec fn composed(
    message: Seq<char>,
    channel: ChannelView,
    members: Option<Seq<MemberView>>,
) -> Map<Seq<char>, FieldView> {
    match members {
        Some(members) => merge_members(base_fields(message, channel), members),
        None => base_fields(message, channel),
    }
}

/// The payload for a message and a channel, or `DataParseError` where the
/// channel's `data` is not JSON.
pub open spec fn assembled(message: Seq<char>, channel: ChannelView) -> Result<
    Map<Seq<char>, FieldView>,
    ErrorView,
> {
    match channel.data {
        None => Ok(base_fields(message, channel)),
        Some(data) => match json_object(data) {
            None => Err(ErrorView::DataParseError),
            Some(members) => Ok(composed(message, channel, members)),
        },
    }
}

/// The payload for a message and what a configuration holds.
pub open spec fn resolved(
    message: Seq<char>,
    sections: Map<Seq<char>, Map<Seq<char>, Seq<char>>>,
) -> Result<Map<Seq<char>, FieldView>, ErrorView> {
    match selected_channel(sections) {
        Ok(channel) => assembled(message, channel),
        Err(e) => Err(e),
    }
}

/// The payload for a message and the text of the configuration file, where
/// `None` stands for a file that is missing or cannot be read.
pub open spec fn prepared(message: Seq<char>, config: Option<Seq<char>>) -> Result<
    Map<Seq<char>, FieldView>,
    ErrorView,
> {
    match config {
        None => Err(ErrorView::ConfigNotFound),
        Some(text) => match ini_document(text) {
            None => Err(ErrorView::ConfigParseError),
            Some(sections) => resolved(message, sections),
        },
    }
}

/// The mathematical value of a payload or the error in its place.
pub open spec fn outcome_view(r: Result<Payload, EmissaryError>) -> Result<
    Map<Seq<char>, FieldView>,
    ErrorView,
> {
    match r {
        Ok(payload) => Ok(payload@),
        Err(e) => Err(e@),
    }
}

/// The extra fields that a channel's `data` holds: the members of its JSON
/// object, and none where there is no `data` or it holds no object.
pub open spec fn extra_members(data: Option<Seq<char>>) -> Option<Seq<MemberView>> {
    match data {
        Some(text) => match json_object(text) {
            Some(members) => members,
            None => None,
        },
        None => None,
    }
}

/// Some member of this name is not skipped.
pub open spec fn supplies(members: Option<Seq<MemberView>>, name: Seq<char>) -> bool {
    members matches Some(ms) && exists|i: int|
        0 <= i < ms.len() && ms[i].name == name && decode(ms[i].value) is Some
}

/// A payload holds exactly the message field, the `webhook` field and the
/// extra fields that are not skipped.
pub proof fn lemma_composed_names(
    message: Seq<char>,
    channel: ChannelView,
    members: Option<Seq<MemberView>>,
    name: Seq<char>,
)
    ensures
        composed(message, channel, members).contains_key(name) <==> name == message_field(
            channel.text_field,
        ) || name == "webhook"@ || supplies(members, name),
{
    if let Some(ms) = members {
        lemma_merge_members_names(base_fields(message, channel), ms, name);
    }
}

/// A payload always has a `webhook` field, and it holds the channel's
/// webhook unless an extra field replaces it.
pub proof fn lemma_composed_webhook(
    message: Seq<char>,
    channel: ChannelView,
    members: Option<Seq<MemberView>>,
)
    ensures
        composed(message, channel, members).contains_key("webhook"@),
        !supplies(members, "webhook"@) ==> composed(message, channel, members)["webhook"@]
            == FieldView::Str(channel.webhook),
{
    lemma_composed_names(message, channel, members, "webhook"@);
    if let Some(ms) = members {
        if !supplies(members, "webhook"@) {
            lemma_merge_members_keeps(base_fields(message, channel), ms, "webhook"@);
        }
    }
}

/// The message stands under the channel's `textField`, or under `message`
/// where the channel has none, unless that name is `webhook` or an extra
/// field replaces it.
pub proof fn lemma_composed_message(
    message: Seq<char>,
    channel: ChannelView,
    members: Option<Seq<MemberView>>,
)
    requires
        message_field(channel.text_field) != "webhook"@,
        !supplies(members, message_field(channel.text_field)),
    ensures
        composed(message, channel, members).contains_key(message_field(channel.text_field)),
        composed(message, channel, members)[message_field(channel.text_field)] == FieldView::Str(
            message,
        ),
        channel.text_field is None ==> composed(message, channel, members)["message"@]
            == FieldView::Str(message),
{
    if let Some(ms) = members {
        lemma_merge_members_keeps(
            base_fields(message, channel),
            ms,
            message_field(channel.text_field),
        );
    }
}

/// Where each name occurs once among the extra fields, one that is not
/// skipped stands in the payload with its decoded value.
pub proof fn lemma_composed_member(
    message: Seq<char>,
    channel: ChannelView,
    members: Seq<MemberView>,
    i: int,
)
    requires
        distinct_members(members),
        0 <= i < members.len(),
        decode(members[i].value) is Some,
    ensures
        composed(message, channel, Some(members)).contains_key(members[i].name),
        Some(composed(message, channel, Some(members))[members[i].name]) == decode(
            members[i].value,
        ),
{
    lemma_merge_members_at(base_fields(message, channel), members, i);
}

/// Where each name occurs once among the extra fields, a skipped one is
/// absent from the payload, unless its name is that of the message field or
/// `webhook`, which then keep their values.
pub proof fn lemma_composed_skipped(
    message: Seq<char>,
    channel: ChannelView,
    members: Seq<MemberView>,
    i: int,
)
    requires
        distinct_members(members),
        0 <= i < members.len(),
        decode(members[i].value) is None,
    ensures
        composed(message, channel, Some(members)).contains_key(members[i].name) <==> members[i].name
            == message_field(channel.text_field) || members[i].name == "webhook"@,
        composed(message, channel, Some(members)).contains_key(members[i].name) ==> composed(
            message,
            channel,
            Some(members),
        )[members[i].name] == base_fields(message, channel)[members[i].name],
{
    lemma_merge_members_at(base_fields(message, channel), members, i);
}

/// A configuration gives a payload exactly where it selects a channel whose
/// `data`, if it has one, is JSON; the payload is then the one composed from
/// the channel and its extra fields.
pub proof fn lemma_resolved_payload(
    message: Seq<char>,
    sections: Map<Seq<char>, Map<Seq<char>, Seq<char>>>,
)
    ensures
        resolved(message, sections) is Ok <==> (selected_channel(sections) matches Ok(channel) && (
        channel.data matches Some(text) ==> json_object(text) is Some)),
        resolved(message, sections) matches Ok(payload) ==> selected_channel(sections) matches Ok(
            channel,
        ) && payload == composed(message, channel, extra_members(channel.data)),
{
}

/// Every payload that a configuration gives has a `webhook` field.
pub proof fn lemma_resolved_has_webhook(
    message: Seq<char>,
    sections: Map<Seq<char>, Map<Seq<char>, Seq<char>>>,
)
    ensures
        resolved(message, sections) matches Ok(payload) ==> payload.contains_key("webhook"@),
{
    lemma_resolved_payload(message, sections);
    if let Ok(channel) = selected_channel(sections) {
        lemma_composed_webhook(message, channel, extra_members(channel.data));
    }
}

/// Every payload that a configuration text gives has a `webhook` field.
pub proof fn lemma_prepared_has_webhook(message: Seq<char>, config: Option<Seq<char>>)
    ensures
        prepared(message, config) matches Ok(payload) ==> payload.contains_key("webhook"@),
{
    if let Some(text) = config {
        if let Some(sections) = ini_document(text) {
            lemma_resolved_has_webhook(message, sections);
        }
    }
}

/// A `Default` section without the key `channel` fails the resolving with
/// `MissingKey("channel")`.
pub proof fn lemma_missing_channel_key(
    message: Seq<char>,
    sections: Map<Seq<char>, Map<Seq<char>, Seq<char>>>,
)
    requires
        sections.contains_key("Default"@),
        !sections["Default"@].contains_key("channel"@),
    ensures
        resolved(message, sections) == Err::<Map<Seq<char>, FieldView>, ErrorView>(
            ErrorView::MissingKey("channel"@),
        ),
{
}

/// A channel section without the key `webhook` fails the resolving with
/// `MissingKey("webhook")`.
pub proof fn lemma_missing_webhook_key(
    message: Seq<char>,
    sections: Map<Seq<char>, Map<Seq<char>, Seq<char>>>,
)
    requires
        sections.contains_key("Default"@),
        sections["Default"@].contains_key("channel"@),
        sections.contains_key(sections["Default"@]["channel"@]),
        !sections[sections["Default"@]["channel"@]].contains_key("webhook"@),
    ensures
        resolved(message, sections) == Err::<Map<Seq<char>, FieldView>, ErrorView>(
            ErrorView::MissingKey("webhook"@),
        ),
{
}

fn owned(value: Option<&str>) -> (r: Option<String>)
    ensures
        match r {
            Some(s) => value matches Some(v) && s@ == v@,
            None => value is None,
        },
{
    match value {
        Some(v) => Some(v.to_owned()),
        None => None,
    }
}

/// Selects the channel of a configuration.
pub fn select_channel(conf: &Ini) -> (r: Result<Channel, EmissaryError>)
    ensures
        match r {
            Ok(channel) => selected_channel(ini_sections(*conf)) == Ok::<ChannelView, ErrorView>(
                channel@,
            ),
            Err(e) => selected_channel(ini_sections(*conf)) == Err::<ChannelView, ErrorView>(e@),
        },
{
    let default = match section(conf, "Default") {
        Some(props) => props,
        None => {
            return Err(EmissaryError::MissingSection("Default".to_owned()));
        },
    };
    let name = match property(default, "channel") {
        Some(name) => name,
        None => {
            return Err(EmissaryError::MissingKey("channel".to_owned()));
        },
    };
    let channel = match section(conf, name) {
        Some(props) => props,
        None => {
            return Err(EmissaryError::MissingSection(name.to_owned()));
        },
    };
    let webhook = match property(channel, "webhook") {
        Some(webhook) => webhook.to_owned(),
        None => {
            return Err(EmissaryError::MissingKey("webhook".to_owned()));
        },
    };
    let text_field = owned(property(channel, "textField"));
    let data = owned(property(channel, "data"));
    Ok(Channel { webhook, text_field, data })
}

/// Builds the payload for a message and a channel whose extra fields have
/// been read: the message under the channel's field name, the webhook under
/// `webhook`, then each scalar member under its own name. A later field
/// replaces an earlier one of the same name.
pub fn compose(message: &str, channel: &Channel, members: Option<&Vec<JsonMember>>) -> (r: Payload)
    ensures
        r@ == composed(
            message@,
            channel@,
            match members {
                Some(members) => Some(members_view(members@)),
                None => None,
            },
        ),
{
    let mut payload = Payload::new();
    let name = match &channel.text_field {
        Some(name) => name.clone(),
        None => "message".to_owned(),
    };
    payload.insert(name, FieldValue::Str(message.to_owned()));
    payload.insert("webhook".to_owned(), FieldValue::Str(channel.webhook.clone()));
    match members {
        Some(members) => {
            payload.merge(members);
        },
        None => {},
    }
    payload
}

/// Builds the payload for a message and a channel, reading the channel's
/// extra fields from its `data`.
pub fn assemble(message: &str, channel: &Channel) -> (r: Result<Payload, EmissaryError>)
    ensures
        outcome_view(r) == assembled(message@, channel@),
{
    match &channel.data {
        None => Ok(compose(message, channel, None)),
        Some(data) => match parse_data(data.as_str()) {
            Ok(Some(members)) => Ok(compose(message, channel, Some(&members))),
            Ok(None) => Ok(compose(message, channel, None)),
            Err(e) => Err(e),
        },
    }
}

/// Builds the payload for a message from a parsed configuration.
pub fn resolve(message: &str, conf: &Ini) -> (r: Result<Payload, EmissaryError>)
    ensures
        outcome_view(r) == resolved(message@, ini_sections(*conf)),
{
    match select_channel(conf) {
        Ok(channel) => assemble(message, &channel),
        Err(e) => Err(e),
    }
}

/// Builds the payload for a message from the text of the configuration
/// file; `None` stands for a file that is missing or cannot be read.
pub fn prepare(message: &str, config: Option<&str>) -> (r: Result<Payload, EmissaryError>)
    ensures
        outcome_view(r) == prepared(message@, option_str_view(config)),
{
    match config {
        None => Err(EmissaryError::ConfigNotFound),
        Some(text) => match load(text) {
            Ok(conf) => resolve(message, &conf),
            Err(_) => Err(EmissaryError::ConfigParseError),
        },
    }
}

/// The characters of an optional string slice.
pub open spec fn option_str_view(s: Option<&str>) -> Option<Seq<char>> {
    match s {
        Some(s) => Some(s@),
        None => None,
    }
}

} // verus!
