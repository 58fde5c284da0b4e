//! The message model: what a message is, where it goes, and how it is
//! requested and answered.
use vstd::prelude::*;

use crate::external::{new_uuid_text, unix_now, is_uuid_text};
use crate::text::{is_wildcard, wildcard};

verus! {

/// The kind of a message.
#[derive(Debug, Clone, Copy, PartialEq, Eq, Hash, Structural)]
pub enum MessageType {
    Notification,
    Message,
    Shell,
}

impl MessageType {
    /// The wire name of a message type.
    pub open spec fn spec_name(self) -> Seq<char> {
        match self {
            MessageType::Notification => "notification"@,
            MessageType::Message => "message"@,
            MessageType::Shell => "shell"@,
        }
    }

    /// The wire name: `notification`, `message` or `shell`.
    pub fn as_str(&self) -> (s: &str)
        ensures
            s@ == self.spec_name(),
    {
        match self {
            MessageType::Notification => "notification",
            MessageType::Message => "message",
            MessageType::Shell => "shell",
        }
    }

    /// The display form, which is the wire name.
    pub fn to_string(&self) -> (s: String)
        ensures
            s@ == self.spec_name(),
    {
        String::from_str(self.as_str())
    }
}

/// Where a message is routed to.
#[derive(Debug)]
pub struct Target {
    /// Target platform: ios/android/web/api/`*`...
    pub platform: String,
    /// Application package, e.g. com.example.app
    pub app_package: String,
    /// User id; `*` broadcasts.
    pub user_id: String,
    /// The message type filter.
    pub msg_type: MessageType,
}

impl Clone for Target {
    fn clone(&self) -> (r: Self)
        ensures
            r == *self,
    {
        Target {
            platform: self.platform.clone(),
            app_package: self.app_package.clone(),
            user_id: self.user_id.clone(),
            msg_type: self.msg_type,
        }
    }
}

/// A pattern field matches a value when it is the wildcard `*` or equal to it.
pub open spec fn field_matches(pattern: Seq<char>, value: Seq<char>) -> bool {
    pattern == wildcard() || pattern == value
}

impl Target {
    /// Wildcard matching of `self` (the pattern) against `other`.
    pub open spec fn spec_matches(self, other: Target) -> bool {
        &&& field_matches(self.platform@, other.platform@)
        &&& field_matches(self.app_package@, other.app_package@)
        &&& field_matches(self.user_id@, other.user_id@)
        &&& self.msg_type == other.msg_type
    }

    /// Wildcard matching: a field of `self` that is `*` matches any value;
    /// the message types must be equal.
    pub fn matches(&self, other: &Target) -> (r: bool)
        ensures
            r == self.spec_matches(*other),
    {
        field_match(self.platform.as_str(), other.platform.as_str())
            && field_match(self.app_package.as_str(), other.app_package.as_str())
            && field_match(self.user_id.as_str(), other.user_id.as_str())
            && self.msg_type == other.msg_type
    }
}

fn field_match(pattern: &str, value: &str) -> (r: bool)
    ensures
        r == field_matches(pattern@, value@),
{
    is_wildcard(pattern) || crate::text::str_eq(pattern, value)
}

/// A pattern matches a target exactly when each of its platform, app package
/// and user id is `*` or the target's own, and the message types agree: a
/// field that is neither rules the match out.
pub proof fn lemma_match_fields(p: Target, t: Target)
    ensures
        p.platform@ != wildcard() && p.platform@ != t.platform@ ==> !p.spec_matches(t),
        p.app_package@ != wildcard() && p.app_package@ != t.app_package@ ==> !p.spec_matches(t),
        p.user_id@ != wildcard() && p.user_id@ != t.user_id@ ==> !p.spec_matches(t),
        p.msg_type != t.msg_type ==> !p.spec_matches(t),
        (p.platform@ == wildcard() || p.platform@ == t.platform@) && (p.app_package@ == wildcard()
            || p.app_package@ == t.app_package@) && (p.user_id@ == wildcard() || p.user_id@
            == t.user_id@) && p.msg_type == t.msg_type ==> p.spec_matches(t),
{
}

/// Every target matches itself.
pub proof fn lemma_matches_reflexive(t: Target)
    ensures
        t.spec_matches(t),
{
}

/// Matching is transitive: a pattern that matches a second pattern matches
/// everything the second one matches.
pub proof fn lemma_matches_transitive(a: Target, b: Target, c: Target)
    requires
        a.spec_matches(b),
        b.spec_matches(c),
    ensures
        a.spec_matches(c),
{
}

/// A target whose platform, package and user are all `*` matches every target
/// of its message type.
pub proof fn lemma_all_wildcards_match(a: Target, b: Target)
    requires
        a.platform@ == wildcard(),
        a.app_package@ == wildcard(),
        a.user_id@ == wildcard(),
        a.msg_type == b.msg_type,
    ensures
        a.spec_matches(b),
{
}

/// A stored or routed message.
#[derive(Debug)]
pub struct Message {
    /// UUID
    pub id: String,
    /// Routing target
    pub target: Target,
    /// JSON content
    pub content: serde_json::Value,
    /// Message type
    pub msg_type: MessageType,
    /// Whether the message is stored
    pub persist: bool,
    /// Storage TTL in seconds; `None` keeps it for ever.
    pub ttl: Option<u64>,
    /// Creation time (seconds).
    pub created_at: i64,
    /// Expiry time (created_at + ttl).
    pub expires_at: Option<i64>,
}

/// `now + ttl` in the range of `i64`, wrapping past its maximum as
/// two's-complement addition does.
pub open spec fn expiry(now: i64, ttl: u64) -> i64 {
    if now + ttl > i64::MAX {
        (now + ttl - 0x1_0000_0000_0000_0000int) as i64
    } else {
        (now + ttl) as i64
    }
}

/// The expiry time of a message created at `now` with the given TTL.
pub open spec fn spec_expires_at(now: i64, ttl: Option<u64>) -> Option<i64> {
    match ttl {
        Some(t) => Some(expiry(now, t)),
        None => None,
    }
}

impl Message {
    /// Whether `m` is the message built from these parts.
    pub open spec fn built_from(
        m: Message,
        target: Target,
        content: serde_json::Value,
        persist: bool,
        ttl: Option<u64>,
        id: Seq<char>,
        now: i64,
    ) -> bool {
        &&& m.id@ == id
        &&& m.target == target
        &&& m.content == content
        &&& m.msg_type == target.msg_type
        &&& m.persist == persist
        &&& m.ttl == ttl
        &&& m.created_at == now
        &&& m.expires_at == spec_expires_at(now, ttl)
    }

    /// Builds a message with the given identifier and creation time; the
    /// message type is the target's and the expiry is `now + ttl`.
    pub fn new_at(
        target: Target,
        content: serde_json::Value,
        persist: bool,
        ttl: Option<u64>,
        id: String,
        now: i64,
    ) -> (m: Message)
        ensures
            Message::built_from(m, target, content, persist, ttl, id@, now),
    {
        let expires_at = match ttl {
            Some(t) => Some(now.wrapping_add_unsigned(t)),
            None => None,
        };
        let msg_type = target.msg_type;
        Message { id, target, content, msg_type, persist, ttl, created_at: now, expires_at }
    }

    /// Builds a new message with a fresh UUID, created now.
    pub fn new(target: Target, content: serde_json::Value, persist: bool, ttl: Option<u64>) -> (m:
        Message)
        ensures
            Message::built_from(m, target, content, persist, ttl, m.id@, m.created_at),
            is_uuid_text(m.id@),
    {
        let now = unix_now();
        let id = new_uuid_text();
        Message::new_at(target, content, persist, ttl, id, now)
    }
}

/// Filter for message queries.
#[derive(Debug)]
pub struct MessageFilter {
    pub platform: Option<String>,
    pub app_package: Option<String>,
    pub user_id: Option<String>,
    pub msg_type: Option<MessageType>,
    pub since: Option<i64>,
    pub until: Option<i64>,
}

impl Default for MessageFilter {
    fn default() -> (f: Self)
        ensures
            f.platform is None,
            f.app_package is None,
            f.user_id is None,
            f.msg_type is None,
            f.since is None,
            f.until is None,
    {
        MessageFilter {
            platform: None,
            app_package: None,
            user_id: None,
            msg_type: None,
            since: None,
            until: None,
        }
    }
}

/// An optional text condition: none, or equal to the value.
pub open spec fn text_admits(cond: Option<String>, value: Seq<char>) -> bool {
    match cond {
        Some(c) => c@ == value,
        None => true,
    }
}

fn text_cond_admits(cond: &Option<String>, value: &str) -> (r: bool)
    ensures
        r == text_admits(*cond, value@),
{
    match cond {
        Some(c) => crate::text::str_eq(c.as_str(), value),
        None => true,
    }
}

impl MessageFilter {
    /// Whether a message passes the filter: each given field equals the
    /// message's, and its creation time lies within `since..=until`.
    pub open spec fn spec_admits(self, m: Message) -> bool {
        &&& text_admits(self.platform, m.target.platform@)
        &&& text_admits(self.app_package, m.target.app_package@)
        &&& text_admits(self.user_id, m.target.user_id@)
        &&& (self.msg_type matches Some(t) ==> t == m.msg_type)
        &&& (self.since matches Some(t) ==> t <= m.created_at)
        &&& (self.until matches Some(t) ==> m.created_at <= t)
    }

    /// Whether a message passes the filter.
    pub fn admits(&self, m: &Message) -> (r: bool)
        ensures
            r == self.spec_admits(*m),
    {
        let type_ok = match self.msg_type {
            Some(t) => t == m.msg_type,
            None => true,
        };
        let since_ok = match self.since {
            Some(t) => t <= m.created_at,
            None => true,
        };
        let until_ok = match self.until {
            Some(t) => m.created_at <= t,
            None => true,
        };
        text_cond_admits(&self.platform, m.target.platform.as_str()) && text_cond_admits(
            &self.app_package,
            m.target.app_package.as_str(),
        ) && text_cond_admits(&self.user_id, m.target.user_id.as_str()) && type_ok && since_ok
            && until_ok
    }
}

/// The empty filter admits every message.
pub proof fn lemma_default_filter_admits_all(f: MessageFilter, m: Message)
    requires
        f.platform is None,
        f.app_package is None,
        f.user_id is None,
        f.msg_type is None,
        f.since is None,
        f.until is None,
    ensures
        f.spec_admits(m),
{
}

/// A request to send one message.
#[derive(Debug)]
pub struct SendMessageRequest {
    pub target: Target,
    pub content: serde_json::Value,
    pub persist: Option<bool>,
    pub ttl: Option<u64>,
}

/// Whether a send request stores its message: yes unless it says otherwise.
pub open spec fn spec_persist(persist: Option<bool>) -> bool {
    match persist {
        Some(p) => p,
        None => true,
    }
}

impl SendMessageRequest {
    /// Turns the request into a message with a fresh UUID, created now;
    /// `persist` defaults to `true`.
    pub fn into_message(self) -> (m: Message)
        ensures
            Message::built_from(
                m,
                self.target,
                self.content,
                spec_persist(self.persist),
                self.ttl,
                m.id@,
                m.created_at,
            ),
            is_uuid_text(m.id@),
    {
        let persist = match self.persist {
            Some(p) => p,
            None => true,
        };
        Message::new(self.target, self.content, persist, self.ttl)
    }
}

/// A request to send several messages.
#[derive(Debug)]
pub struct BatchSendMessageRequest {
    pub messages: Vec<SendMessageRequest>,
}

/// The uniform answer of the API.
#[derive(Debug)]
pub struct ApiResponse<T> {
    pub code: u16,
    pub message: String,
    pub data: Option<T>,
}

impl<T> ApiResponse<T> {
    /// A success answer: code 0, message `ok`, the data attached.
    pub fn success(data: T) -> (r: Self)
        ensures
            r.code == 0,
            r.message@ == "ok"@,
            r.data == Some(data),
    {
        ApiResponse { code: 0, message: String::from_str("ok"), data: Some(data) }
    }

    /// An error answer with the given code and message and no data.
    pub fn error(code: u16, message: String) -> (r: ApiResponse<()>)
        ensures
            r.code == code,
            r.message == message,
            r.data is None,
    {
        ApiResponse { code, message, data: None }
    }
}

} // verus!
