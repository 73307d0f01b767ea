use crate::wire;
use vstd::prelude::*;
use vstd::string::StringExecFns;

verus! {

/// One chat message as it is stored in a room's history and sent on the wire.
///
/// `admin` is `Some(true)` exactly when the author was the room's admin at
/// send time; it is `None` otherwise and is then left out of the wire form
/// entirely.
pub struct Message {
    pub username: String,
    pub text: String,
    pub room: String,
    pub admin: Option<bool>,
    pub timestamp: String,
}

/// Relies on chrono's `Utc::now` and `DateTime::to_rfc3339` for the wall-clock
/// timestamp; nothing is assumed of the value.
#[verifier::external_body]
fn now_rfc3339() -> String {
    chrono::Utc::now().to_rfc3339()
}

impl Message {
    /// Builds a message stamped with the current wall clock; every other
    /// field is pinned to the arguments and `admin` starts absent.
    pub fn new(username: &str, room: &str, text: &str) -> (m: Message)
        ensures
            m.username@ == username@,
            m.text@ == text@,
            m.room@ == room@,
            m.admin is None,
    {
        Message {
            username: String::from_str(username),
            text: String::from_str(text),
            room: String::from_str(room),
            admin: None,
            timestamp: now_rfc3339(),
        }
    }

    /// The message's wire form: one JSON document, with `admin` written only
    /// when present.
    pub open spec fn json_view(self) -> Seq<char> {
        wire::chat_json(self.username@, self.text@, self.room@, self.admin, self.timestamp@)
    }

    /// Serializes the message for the wire.
    pub fn to_json(&self) -> (r: String)
        ensures
            r@ == self.json_view(),
    {
        let mut out = String::from_str("{\"username\":\"");
        wire::append_escaped(&mut out, self.username.as_str());
        out.append("\",\"text\":\"");
        wire::append_escaped(&mut out, self.text.as_str());
        out.append("\",\"room\":\"");
        wire::append_escaped(&mut out, self.room.as_str());
        match self.admin {
            Some(true) => out.append("\",\"admin\":true,\"timestamp\":\""),
            Some(false) => out.append("\",\"admin\":false,\"timestamp\":\""),
            None => out.append("\",\"timestamp\":\""),
        }
        wire::append_escaped(&mut out, self.timestamp.as_str());
        out.append("\"}");
        proof {
            assert(out@ =~= self.json_view());
        }
        out
    }
}

} // verus!
