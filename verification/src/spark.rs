//! The Webex Teams (Spark) data model and the rules of the bot's webhook.

use vstd::prelude::*;

verus! {

/// Spark id of a person.
pub type PersonId = String;
/// Email of a person.
pub type Email = String;
/// Id of a message.
pub type MessageId = String;
/// Id of a room.
pub type RoomId = String;

#[derive(Copy, Clone, Debug, PartialEq, Eq, Structural)]
pub enum RoomType {
    Direct,
    Group,
}

#[derive(Copy, Clone, Debug, PartialEq, Eq, Structural)]
pub enum ResourceType {
    Memberships,
    Messages,
    Rooms,
}

#[derive(Copy, Clone, Debug, PartialEq, Eq, Structural)]
pub enum EventType {
    Created,
    Updated,
    Deleted,
}

/// A message sent to the bot.
#[derive(Clone, Debug)]
pub struct Message {
    /// Creation time, in RFC 3339 form.
    pub created: Option<String>,
    pub id: MessageId,
    pub person_email: Email,
    pub person_id: PersonId,
    pub room_id: RoomId,
    pub room_type: RoomType,
    /// A message contained in a webhook post does not have its text loaded.
    pub text: String,
    pub markdown: Option<String>,
    pub html: Option<String>,
    pub files: Option<Vec<String>>,
}

impl Message {
    /// A simple direct message, for use in tests.
    pub fn test_message(person_email: Email, person_id: PersonId, text: String) -> (m: Message)
        ensures
            m.person_email == person_email,
            m.person_id == person_id,
            m.text == text,
            m.created is None,
            m.id@ == Seq::<char>::empty(),
            m.room_id@ == Seq::<char>::empty(),
            m.room_type == RoomType::Direct,
            m.markdown is None,
            m.html is None,
            m.files is None,
    {
        Message {
            person_email,
            person_id,
            text,
            created: None,
            room_id: String::new(),
            room_type: RoomType::Direct,
            html: None,
            files: None,
            id: String::new(),
            markdown: None,
        }
    }
}

/// Whom a new message goes to.
#[derive(Clone, Debug)]
pub enum CreateMessageTarget {
    RoomId(RoomId),
    PersonId(PersonId),
    PersonEmail(Email),
}

/// The parameters of a new message.
#[derive(Clone, Debug)]
pub struct CreateMessageParameters {
    pub target: CreateMessageTarget,
    pub text: Option<String>,
    pub markdown: Option<String>,
}

impl CreateMessageParameters {
    /// A message in markdown to the given target, as the client sends it.
    pub fn markdown(target: CreateMessageTarget, markdown: String) -> (p: CreateMessageParameters)
        ensures
            p.target == target,
            p.text is None,
            p.markdown == Some(markdown),
    {
        CreateMessageParameters { target, markdown: Some(markdown), text: None }
    }
}

/// A webhook registered for the bot.
#[derive(Clone, Debug)]
pub struct Webhook {
    pub id: String,
    pub name: String,
    pub target_url: String,
    pub resource: ResourceType,
    pub event: EventType,
}

/// A webhook to register.
#[derive(Clone, Debug)]
pub struct WebhookRegistration {
    pub name: String,
    pub target_url: String,
    pub resource: ResourceType,
    pub event: EventType,
}

/// The webhook that tells the bot about new messages, posting them to `url`.
pub fn message_webhook(url: &str) -> (r: WebhookRegistration)
    ensures
        r.name@ == "gerritbot"@,
        r.target_url@ == url@,
        r.resource == ResourceType::Messages,
        r.event == EventType::Created,
{
    WebhookRegistration {
        name: crate::text::string_from("gerritbot"),
        target_url: crate::text::string_from(url),
        resource: ResourceType::Messages,
        event: EventType::Created,
    }
}

/// The webhook reports new messages, like the one the bot registers.
pub open spec fn reports_new_messages(w: Webhook) -> bool {
    w.resource == ResourceType::Messages && w.event == EventType::Created
}

/// The ids of the webhooks `hooks` that a new registration replaces: those
/// that report new messages, in order.
pub open spec fn replaced_webhooks(hooks: Seq<Webhook>) -> Seq<Seq<char>>
    decreases hooks.len(),
{
    if hooks.len() == 0 {
        seq![]
    } else {
        replaced_webhooks(hooks.drop_last()) + (if reports_new_messages(hooks.last()) {
            seq![hooks.last().id@]
        } else {
            seq![]
        })
    }
}

/// The ids of the webhooks to delete before registering the bot's own one.
pub fn webhooks_to_replace(hooks: &[Webhook]) -> (r: Vec<String>)
    ensures
        r@.map_values(|id: String| id@) == replaced_webhooks(hooks@),
{
    let mut r: Vec<String> = Vec::new();
    let mut i: usize = 0;
    while i < hooks.len()
        invariant
            i <= hooks@.len(),
            r@.map_values(|id: String| id@) == replaced_webhooks(hooks@.subrange(0, i as int)),
        decreases hooks@.len() - i,
    {
        let ghost pre = hooks@.subrange(0, i as int);
        let ghost post = hooks@.subrange(0, i + 1);
        proof {
            assert(post.drop_last() == pre);
        }
        let h = &hooks[i];
        if h.resource == ResourceType::Messages && h.event == EventType::Created {
            let ghost before = r@;
            r.push(h.id.clone());
            proof {
                assert(r@.map_values(|id: String| id@) =~= before.map_values(|id: String| id@).push(h.id@));
            }
        } else {
            assert(replaced_webhooks(post) =~= replaced_webhooks(pre));
        }
        i = i + 1;
    }
    assert(hooks@.subrange(0, hooks@.len() as int) == hooks@);
    r
}

/// A webhook post announces a message by the bot itself when its sender is
/// the bot; the bot skips those.
pub fn is_own_message(sender_id: &str, bot_id: &str) -> (r: bool)
    ensures
        r == (sender_id@ == bot_id@),
{
    crate::text::str_equal(sender_id, bot_id)
}

/// HTTP status `404 Not Found`.
pub const NOT_FOUND: u16 = 404;
/// HTTP status `405 Method Not Allowed`.
pub const METHOD_NOT_ALLOWED: u16 = 405;
/// HTTP status `415 Unsupported Media Type`.
pub const UNSUPPORTED_MEDIA_TYPE: u16 = 415;

/// The status a webhook request is refused with, if it is refused: only
/// `POST` requests to `/` with a JSON body are taken.
pub open spec fn webhook_rejection(uri: Seq<char>, method: Seq<char>, content_type: Option<Seq<u8>>) -> Option<u16> {
    if uri != "/"@ {
        Some(NOT_FOUND)
    } else if method != "POST"@ {
        Some(METHOD_NOT_ALLOWED)
    } else if !(content_type matches Some(ct) && ct.len() >= 16 && ct.subrange(0, 16) == "application/json"@.map_values(|c: char| c as u8)) {
        Some(UNSUPPORTED_MEDIA_TYPE)
    } else {
        None
    }
}

fn bytes_start_with(s: &[u8], p: &[u8]) -> (r: bool)
    ensures
        r == (p@.len() <= s@.len() && s@.subrange(0, p@.len() as int) == p@),
{
    if p.len() > s.len() {
        return false;
    }
    let mut i: usize = 0;
    while i < p.len()
        invariant
            p@.len() <= s@.len(),
            i <= p@.len(),
            forall|j: int| 0 <= j < i ==> s@[j] == p@[j],
        decreases p@.len() - i,
    {
        if s[i] != p[i] {
            assert(s@.subrange(0, p@.len() as int)[i as int] != p@[i as int]);
            return false;
        }
        i = i + 1;
    }
    assert(s@.subrange(0, p@.len() as int) =~= p@);
    true
}

/// Checks a webhook request by its path, method and content type, and
/// returns the status to refuse it with, or `None` to accept it.
pub fn reject_webhook_request(uri: &str, method: &str, content_type: Option<&[u8]>) -> (r: Option<u16>)
    ensures
        r == webhook_rejection(uri@, method@, match content_type {
            Some(ct) => Some(ct@),
            None => None,
        }),
{
    if !crate::text::str_equal(uri, "/") {
        Some(NOT_FOUND)
    } else if !crate::text::str_equal(method, "POST") {
        Some(METHOD_NOT_ALLOWED)
    } else {
        let json: [u8; 16] = [97, 112, 112, 108, 105, 99, 97, 116, 105, 111, 110, 47, 106, 115, 111, 110];
        proof {
            reveal_strlit("application/json");
            assert(json@ =~= "application/json"@.map_values(|c: char| c as u8));
        }
        let accepted = match content_type {
            Some(ct) => bytes_start_with(ct, &json),
            None => false,
        };
        if accepted {
            None
        } else {
            Some(UNSUPPORTED_MEDIA_TYPE)
        }
    }
}

} // verus!
