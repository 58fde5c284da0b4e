//! Stored messages: the rows of the `bmsg_messages` table and paging.
use vstd::prelude::*;

use crate::error::BmsgError;
use crate::external::{
    encode_json_value, json_accepts, json_error_text, json_text_of, json_value_of, parse_json_value,
};
use crate::message::{Message, MessageType, Target};
use crate::text::str_eq;

verus! {

/// The message type a stored type name stands for, if any.
pub open spec fn spec_type_from_name(name: Seq<char>) -> Option<MessageType> {
    if name == "notification"@ {
        Some(MessageType::Notification)
    } else if name == "message"@ {
        Some(MessageType::Message)
    } else if name == "shell"@ {
        Some(MessageType::Shell)
    } else {
        None
    }
}

/// Reads a stored message type name: `notification`, `message` or `shell`.
pub fn type_from_name(name: &str) -> (r: Option<MessageType>)
    ensures
        r == spec_type_from_name(name@),
{
    if str_eq(name, "notification") {
        Some(MessageType::Notification)
    } else if str_eq(name, "message") {
        Some(MessageType::Message)
    } else if str_eq(name, "shell") {
        Some(MessageType::Shell)
    } else {
        None
    }
}

/// Reading back the stored name of a message type gives the type.
pub proof fn lemma_type_name_roundtrip(t: MessageType)
    ensures
        spec_type_from_name(t.spec_name()) == Some(t),
{
    reveal_strlit("notification");
    reveal_strlit("message");
    reveal_strlit("shell");
    match t {
        MessageType::Notification => {},
        MessageType::Message => {
            assert("message"@.len() != "notification"@.len());
        },
        MessageType::Shell => {
            assert("shell"@.len() != "notification"@.len());
            assert("shell"@.len() != "message"@.len());
        },
    }
}

/// The stored column value of the persist flag: 1 or 0.
pub fn persist_column(persist: bool) -> (v: i32)
    ensures
        v == (if persist {
            1i32
        } else {
            0i32
        }),
{
    if persist {
        1
    } else {
        0
    }
}

/// The persist flag of a stored column value: anything but 0 is set.
pub fn persist_from_column(v: i32) -> (b: bool)
    ensures
        b == (v != 0),
{
    v != 0
}

/// The row offset of a page (pages count from 1; page 0 is the first page).
pub open spec fn spec_offset(page: u32, limit: u32) -> int {
    (if page == 0 {
        0
    } else {
        page - 1
    }) * limit
}

/// `(page - 1) * limit`, with page 0 read as page 1.
pub fn list_offset(page: u32, limit: u32) -> (r: u32)
    requires
        spec_offset(page, limit) <= u32::MAX,
    ensures
        r == spec_offset(page, limit),
{
    page.saturating_sub(1) * limit
}

/// A message as the `bmsg_messages` table stores it: its target flattened,
/// its type by name and its content as JSON text.
#[derive(Debug)]
pub struct MessageRow {
    pub id: String,
    pub platform: String,
    pub app_package: String,
    pub user_id: String,
    pub msg_type: String,
    pub content: String,
    pub persist: bool,
    pub ttl: Option<i64>,
    pub created_at: i64,
    pub expires_at: Option<i64>,
}

/// The TTL of a stored TTL column (reinterpreted as unsigned).
pub open spec fn spec_ttl(ttl: Option<i64>) -> Option<u64> {
    match ttl {
        Some(t) => Some(t as u64),
        None => None,
    }
}

/// The stored TTL column of a TTL (reinterpreted as signed).
pub open spec fn spec_ttl_column(ttl: Option<u64>) -> Option<i64> {
    match ttl {
        Some(t) => Some(t as i64),
        None => None,
    }
}

impl MessageRow {
    /// Whether `row` stores message `m`: its target flattened, its type by
    /// name, its TTL as a signed column. (The content column, serde_json's
    /// text of the content, is stated by `from_message`.)
    pub open spec fn stores(row: MessageRow, m: Message) -> bool {
        &&& row.id == m.id
        &&& row.platform == m.target.platform
        &&& row.app_package == m.target.app_package
        &&& row.user_id == m.target.user_id
        &&& row.msg_type@ == m.msg_type.spec_name()
        &&& row.persist == m.persist
        &&& row.ttl == spec_ttl_column(m.ttl)
        &&& row.created_at == m.created_at
        &&& row.expires_at == m.expires_at
    }

    /// The row that stores a message, its content written as JSON text.
    pub fn from_message(m: &Message) -> (r: Result<MessageRow, BmsgError>)
        ensures
            r matches Ok(row) && MessageRow::stores(row, *m) && row.content@ == json_text_of(
                m.content,
            ),
            r matches Ok(row) ==> row.id@ == m.id@ && row.platform@ == m.target.platform@
                && row.app_package@ == m.target.app_package@ && row.user_id@ == m.target.user_id@,
    {
        let content = match encode_json_value(&m.content) {
            Ok(text) => text,
            Err(e) => return Err(BmsgError::StorageError(json_error_text(&e))),
        };
        let ttl = match m.ttl {
            Some(t) => Some(t as i64),
            None => None,
        };
        Ok(
            MessageRow {
                id: m.id.clone(),
                platform: m.target.platform.clone(),
                app_package: m.target.app_package.clone(),
                user_id: m.target.user_id.clone(),
                msg_type: String::from_str(m.msg_type.as_str()),
                content,
                persist: m.persist,
                ttl,
                created_at: m.created_at,
                expires_at: m.expires_at,
            },
        )
    }

    /// Whether `m` is the message of `row`, with type `t` and content `content`.
    pub open spec fn holds(row: MessageRow, t: MessageType, content: serde_json::Value, m: Message) -> bool {
        &&& m.id == row.id
        &&& m.target.platform == row.platform
        &&& m.target.app_package == row.app_package
        &&& m.target.user_id == row.user_id
        &&& m.target.msg_type == t
        &&& m.msg_type == t
        &&& m.content == content
        &&& m.persist == row.persist
        &&& m.ttl == spec_ttl(row.ttl)
        &&& m.created_at == row.created_at
        &&& m.expires_at == row.expires_at
    }

    /// The message of a row, given its decoded type and content.
    pub fn with_parts(self, t: MessageType, content: serde_json::Value) -> (m: Message)
        ensures
            MessageRow::holds(self, t, content, m),
    {
        let ttl = match self.ttl {
            Some(v) => Some(v as u64),
            None => None,
        };
        Message {
            id: self.id,
            target: Target {
                platform: self.platform,
                app_package: self.app_package,
                user_id: self.user_id,
                msg_type: t,
            },
            content,
            msg_type: t,
            persist: self.persist,
            ttl,
            created_at: self.created_at,
            expires_at: self.expires_at,
        }
    }

    /// Decodes a stored row. An unknown type name fails with the storage
    /// error `invalid msg_type: <name>`; content that is not JSON fails with
    /// a storage error; otherwise the message is the row's.
    pub fn into_message(self) -> (r: Result<Message, BmsgError>)
        ensures
            spec_type_from_name(self.msg_type@) is None ==> (r matches Err(
                BmsgError::StorageError(text),
            ) && text@ == "invalid msg_type: "@ + self.msg_type@),
            spec_type_from_name(self.msg_type@) is Some && !json_accepts(self.content@) ==> (r matches Err(
                e,
            ) && e is StorageError),
            r is Ok <==> (spec_type_from_name(self.msg_type@) is Some && json_accepts(
                self.content@,
            )),
            r matches Ok(m) ==> MessageRow::holds(
                self,
                spec_type_from_name(self.msg_type@)->0,
                json_value_of(self.content@),
                m,
            ),
            r matches Ok(m) ==> m.id@ == self.id@ && m.target.platform@ == self.platform@
                && m.target.app_package@ == self.app_package@ && m.target.user_id@ == self.user_id@,
    {
        let t = match type_from_name(self.msg_type.as_str()) {
            Some(t) => t,
            None => {
                let text = String::from_str("invalid msg_type: ").concat(self.msg_type.as_str());
                return Err(BmsgError::StorageError(text));
            },
        };
        match parse_json_value(self.content.as_str()) {
            Ok(content) => Ok(self.with_parts(t, content)),
            Err(e) => Err(BmsgError::StorageError(json_error_text(&e))),
        }
    }
}

/// Reading back a stored message: the row that stores a message whose
/// target carries its type decodes, whenever its content text is accepted,
/// to that message again in every field but the content, and to the document
/// that serde_json reads from the text it wrote for the content.
pub proof fn lemma_row_reads_back(m: Message, row: MessageRow, m2: Message)
    requires
        MessageRow::stores(row, m),
        row.content@ == json_text_of(m.content),
        m.target.msg_type == m.msg_type,
        MessageRow::holds(row, spec_type_from_name(row.msg_type@)->0, json_value_of(row.content@), m2),
    ensures
        spec_type_from_name(row.msg_type@) == Some(m.msg_type),
        m2.id == m.id,
        m2.target == m.target,
        m2.msg_type == m.msg_type,
        m2.content == json_value_of(json_text_of(m.content)),
        m2.persist == m.persist,
        m2.ttl == m.ttl,
        m2.created_at == m.created_at,
        m2.expires_at == m.expires_at,
{
    lemma_type_name_roundtrip(m.msg_type);
    match m.ttl {
        Some(t) => {
            assert((t as i64) as u64 == t) by (bit_vector);
        },
        None => {},
    }
}

/// A stored row carries each of a message's texts in the column of the same
/// name, and decoding a row puts each column back into the field of the same
/// name.
pub proof fn lemma_row_columns(m: Message, row: MessageRow, t: MessageType, content: serde_json::Value, m2: Message)
    ensures
        MessageRow::stores(row, m) ==> {
            &&& row.id@ == m.id@
            &&& row.platform@ == m.target.platform@
            &&& row.app_package@ == m.target.app_package@
            &&& row.user_id@ == m.target.user_id@
            &&& row.created_at == m.created_at
            &&& row.expires_at == m.expires_at
        },
        MessageRow::holds(row, t, content, m2) ==> {
            &&& m2.id@ == row.id@
            &&& m2.target.platform@ == row.platform@
            &&& m2.target.app_package@ == row.app_package@
            &&& m2.target.user_id@ == row.user_id@
            &&& m2.created_at == row.created_at
            &&& m2.expires_at == row.expires_at
        },
{
}

} // verus!
