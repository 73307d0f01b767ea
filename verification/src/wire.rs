use vstd::prelude::*;
use vstd::string::StrSliceExecFns;
use vstd::string::StringExecFns;

verus! {

// ---------------------------------------------------------------------------
// JSON string escaping
//
// Chat payloads and roster updates go on the wire as JSON text. The escaping
// below mirrors the common JSON convention: quote and backslash get a
// backslash escape, the named control characters get their short escapes,
// every other control character below 0x20 becomes `\u00xx` with lowercase
// hex digits, and everything else is passed through unchanged.
// ---------------------------------------------------------------------------

/// The lowercase hex digit for a value below 16.
pub open spec fn hex_digit(n: int) -> char {
    if n == 0 {
        '0'
    } else if n == 1 {
        '1'
    } else if n == 2 {
        '2'
    } else if n == 3 {
        '3'
    } else if n == 4 {
        '4'
    } else if n == 5 {
        '5'
    } else if n == 6 {
        '6'
    } else if n == 7 {
        '7'
    } else if n == 8 {
        '8'
    } else if n == 9 {
        '9'
    } else if n == 10 {
        'a'
    } else if n == 11 {
        'b'
    } else if n == 12 {
        'c'
    } else if n == 13 {
        'd'
    } else if n == 14 {
        'e'
    } else {
        'f'
    }
}

/// How one character appears inside a JSON string literal.
pub open spec fn escape_char(c: char) -> Seq<char> {
    if c == '"' {
        seq!['\\', '"']
    } else if c == '\\' {
        seq!['\\', '\\']
    } else if c == '\u{8}' {
        seq!['\\', 'b']
    } else if c == '\t' {
        seq!['\\', 't']
    } else if c == '\n' {
        seq!['\\', 'n']
    } else if c == '\u{c}' {
        seq!['\\', 'f']
    } else if c == '\r' {
        seq!['\\', 'r']
    } else if (c as int) < 0x20 {
        seq!['\\', 'u', '0', '0', hex_digit(c as int / 16), hex_digit(c as int % 16)]
    } else {
        seq![c]
    }
}

/// How a whole string appears inside a JSON string literal (without the
/// surrounding quotes).
pub open spec fn escape(s: Seq<char>) -> Seq<char>
    decreases s.len(),
{
    if s.len() == 0 {
        Seq::<char>::empty()
    } else {
        escape_char(s[0]) + escape(s.drop_first())
    }
}

pub proof fn lemma_escape_concat(a: Seq<char>, b: Seq<char>)
    ensures
        escape(a + b) == escape(a) + escape(b),
    decreases a.len(),
{
    if a.len() == 0 {
        assert(a + b =~= b);
        assert(escape(a) + escape(b) =~= escape(b));
    } else {
        assert((a + b).drop_first() =~= a.drop_first() + b);
        lemma_escape_concat(a.drop_first(), b);
        assert((a + b)[0] == a[0]);
        assert(escape_char(a[0]) + (escape(a.drop_first()) + escape(b)) =~= (escape_char(a[0])
            + escape(a.drop_first())) + escape(b));
    }
}

pub proof fn lemma_escape_snoc(s: Seq<char>, i: int)
    requires
        0 <= i < s.len(),
    ensures
        escape(s.take(i + 1)) == escape(s.take(i)) + escape_char(s[i]),
{
    assert(s.take(i + 1) =~= s.take(i) + seq![s[i]]);
    lemma_escape_concat(s.take(i), seq![s[i]]);
    let single = seq![s[i]];
    assert(single.len() == 1 && single[0] == s[i]);
    assert(single.drop_first() =~= Seq::<char>::empty());
    assert(escape(single.drop_first()).len() == 0);
    assert(escape(single) == escape_char(s[i]) + escape(single.drop_first()));
    assert(escape(single) =~= escape_char(s[i]));
}

/// The lowercase hex digit for a value below 16, as a one-character slice.
fn hex_digit_str(n: u32) -> (r: &'static str)
    requires
        n < 16,
    ensures
        r@ == seq![hex_digit(n as int)],
{
    proof {
        reveal_strlit("0");
        reveal_strlit("1");
        reveal_strlit("2");
        reveal_strlit("3");
        reveal_strlit("4");
        reveal_strlit("5");
        reveal_strlit("6");
        reveal_strlit("7");
        reveal_strlit("8");
        reveal_strlit("9");
        reveal_strlit("a");
        reveal_strlit("b");
        reveal_strlit("c");
        reveal_strlit("d");
        reveal_strlit("e");
        reveal_strlit("f");
    }
    if n == 0 {
        "0"
    } else if n == 1 {
        "1"
    } else if n == 2 {
        "2"
    } else if n == 3 {
        "3"
    } else if n == 4 {
        "4"
    } else if n == 5 {
        "5"
    } else if n == 6 {
        "6"
    } else if n == 7 {
        "7"
    } else if n == 8 {
        "8"
    } else if n == 9 {
        "9"
    } else if n == 10 {
        "a"
    } else if n == 11 {
        "b"
    } else if n == 12 {
        "c"
    } else if n == 13 {
        "d"
    } else if n == 14 {
        "e"
    } else {
        "f"
    }
}

/// Appends the JSON-escaped form of `s` to `out`.
pub fn append_escaped(out: &mut String, s: &str)
    ensures
        final(out)@ == old(out)@ + escape(s@),
{
    let n = s.unicode_len();
    let ghost start = out@;
    let mut i: usize = 0;
    while i < n
        invariant
            n == s@.len(),
            i <= n,
            out@ == start + escape(s@.take(i as int)),
        decreases n - i,
    {
        let c = s.get_char(i);
        if c == '"' {
            proof {
                reveal_strlit("\\\"");
            }
            out.append("\\\"");
        } else if c == '\\' {
            proof {
                reveal_strlit("\\\\");
            }
            out.append("\\\\");
        } else if c == '\u{8}' {
            proof {
                reveal_strlit("\\b");
            }
            out.append("\\b");
        } else if c == '\t' {
            proof {
                reveal_strlit("\\t");
            }
            out.append("\\t");
        } else if c == '\n' {
            proof {
                reveal_strlit("\\n");
            }
            out.append("\\n");
        } else if c == '\u{c}' {
            proof {
                reveal_strlit("\\f");
            }
            out.append("\\f");
        } else if c == '\r' {
            proof {
                reveal_strlit("\\r");
            }
            out.append("\\r");
        } else if (c as u32) < 0x20 {
            proof {
                reveal_strlit("\\u00");
            }
            out.append("\\u00");
            out.append(hex_digit_str((c as u32) / 16));
            out.append(hex_digit_str((c as u32) % 16));
        } else {
            let piece = s.substring_char(i, i + 1);
            assert(piece@ =~= seq![s@[i as int]]);
            out.append(piece);
        }
        proof {
            lemma_escape_snoc(s@, i as int);
        }
        i = i + 1;
    }
    proof {
        assert(s@.take(n as int) =~= s@);
    }
}

// ---------------------------------------------------------------------------
// Wire payloads
//
// Every frame the relay sends is either a JSON document (chat messages), a
// tag-prefixed string (`__users__`, `__typing__`, `__room_ended__`,
// `__new_admin__`) or a plain human-readable notice. The spec functions
// below pin each payload down character for character.
// ---------------------------------------------------------------------------

/// The JSON document for one chat message. The `admin` field is written only
/// when it is present; consumers tell an admin message by the field being
/// there at all.
pub open spec fn chat_json(
    username: Seq<char>,
    text: Seq<char>,
    room: Seq<char>,
    admin: Option<bool>,
    timestamp: Seq<char>,
) -> Seq<char> {
    ("{\"username\":\"")@ + escape(username) + ("\",\"text\":\"")@ + escape(text) + (
    "\",\"room\":\"")@ + escape(room) + (match admin {
        Some(true) => ("\",\"admin\":true,\"timestamp\":\"")@,
        Some(false) => ("\",\"admin\":false,\"timestamp\":\"")@,
        None => ("\",\"timestamp\":\"")@,
    }) + escape(timestamp) + ("\"}")@
}

/// One roster entry: a JSON object whose keys come out in alphabetical
/// order, `admin` before `username`.
pub open spec fn users_entry(name: Seq<char>, is_admin: bool) -> Seq<char> {
    ("{\"admin\":")@ + (if is_admin {
        ("true")@
    } else {
        ("false")@
    }) + (",\"username\":\"")@ + escape(name) + ("\"}")@
}

/// The typing notice: tag, then the typer's name verbatim.
pub open spec fn typing_msg_view(username: Seq<char>) -> Seq<char> {
    ("__typing__")@ + username
}

/// The admin-change control signal naming the new admin.
pub open spec fn new_admin_msg_view(username: Seq<char>) -> Seq<char> {
    ("__new_admin__")@ + username
}

/// The join notice shown to every member of the room.
pub open spec fn join_notice_view(username: Seq<char>, room: Seq<char>) -> Seq<char> {
    ("✅ ")@ + username + (" joined '")@ + room + ("'")@
}

/// The departure notice shown to the remaining members.
pub open spec fn left_notice_view(username: Seq<char>, room: Seq<char>) -> Seq<char> {
    ("⚠️ ")@ + username + (" left '")@ + room + ("'")@
}

/// Tag carried by inbound typing frames and by outbound typing notices.
pub open spec fn typing_tag() -> Seq<char> {
    ("__typing__")@
}

/// The end-of-room command an admin types to terminate the room.
pub open spec fn end_command() -> Seq<char> {
    ("/end")@
}

/// The room-ended broadcast signal.
pub open spec fn room_ended_msg() -> Seq<char> {
    ("__room_ended__")@
}

/// The notice a connecting client gets when the room does not exist and
/// creation was not requested.
pub open spec fn not_found_notice() -> Seq<char> {
    ("❌ Room not found")@
}

/// Builds the typing notice for `username`.
pub fn build_typing_msg(username: &str) -> (r: String)
    ensures
        r@ == typing_msg_view(username@),
{
    let mut out = String::from_str("__typing__");
    out.append(username);
    out
}

/// Builds the admin-change signal for `username`.
pub fn build_new_admin_msg(username: &str) -> (r: String)
    ensures
        r@ == new_admin_msg_view(username@),
{
    let mut out = String::from_str("__new_admin__");
    out.append(username);
    out
}

/// Builds the join notice.
pub fn build_join_notice(username: &str, room: &str) -> (r: String)
    ensures
        r@ == join_notice_view(username@, room@),
{
    let mut out = String::from_str("✅ ");
    out.append(username);
    out.append(" joined '");
    out.append(room);
    out.append("'");
    proof {
        assert(out@ =~= join_notice_view(username@, room@));
    }
    out
}

/// Builds the departure notice.
pub fn build_left_notice(username: &str, room: &str) -> (r: String)
    ensures
        r@ == left_notice_view(username@, room@),
{
    let mut out = String::from_str("⚠️ ");
    out.append(username);
    out.append(" left '");
    out.append(room);
    out.append("'");
    proof {
        assert(out@ =~= left_notice_view(username@, room@));
    }
    out
}

/// Whether an inbound frame carries the typing tag as its prefix.
pub open spec fn is_typing_frame(text: Seq<char>) -> bool {
    text.len() >= typing_tag().len() && text.take(typing_tag().len() as int) == typing_tag()
}

/// Tests an inbound frame for the typing tag.
pub fn frame_is_typing(text: &str) -> (r: bool)
    ensures
        r == is_typing_frame(text@),
{
    proof {
        reveal_strlit("__typing__");
    }
    let n = text.unicode_len();
    if n < 10 {
        false
    } else {
        let prefix = text.substring_char(0, 10);
        let tag = String::from_str("__typing__");
        let eq = String::from_str(prefix) == tag;
        proof {
            assert(typing_tag().len() == 10);
        }
        eq
    }
}

} // verus!
