use vstd::prelude::*;
use vstd::utf8::encode_utf8;

verus! {

/// True when `needle` occurs as a contiguous run inside `hay`.
pub open spec fn has_infix(hay: Seq<u8>, needle: Seq<u8>) -> bool {
    exists|i: int|
        0 <= i && i + needle.len() <= hay.len() && #[trigger] hay.subrange(i, i + needle.len())
            == needle
}

/// The role that a server takes in its cluster, as read from its `stat` output.
#[derive(Clone, Copy, Debug, PartialEq, Eq, Structural)]
pub enum Role {
    Follower,
    Leader,
    Standalone,
    Unknown,
}

/// Whether the UTF-8 encoding of `text` holds the UTF-8 encoding of `marker`.
pub open spec fn mentions(text: Seq<char>, marker: Seq<char>) -> bool {
    has_infix(encode_utf8(text), encode_utf8(marker))
}

/// Classification of a diagnostic response: the markers are tried in a fixed
/// order and the first one found decides.
pub open spec fn classify(text: Seq<char>) -> Role {
    if mentions(text, "Mode: follower"@) {
        Role::Follower
    } else if mentions(text, "Mode: leader"@) {
        Role::Leader
    } else if mentions(text, "Mode: standalone"@) {
        Role::Standalone
    } else {
        Role::Unknown
    }
}

/// The display name of a role.
pub open spec fn role_name(r: Role) -> Seq<char> {
    match r {
        Role::Follower => "Follower"@,
        Role::Leader => "Leader"@,
        Role::Standalone => "Standalone"@,
        Role::Unknown => "Unknown"@,
    }
}

impl Role {
    pub fn as_str(&self) -> (r: &'static str)
        ensures
            r@ == role_name(*self),
    {
        match self {
            Role::Follower => "Follower",
            Role::Leader => "Leader",
            Role::Standalone => "Standalone",
            Role::Unknown => "Unknown",
        }
    }

    /// The display name as an owned string.
    pub fn to_string(&self) -> (r: String)
        ensures
            r@ == role_name(*self),
    {
        self.as_str().to_owned()
    }
}

/// Byte-wise search of `needle` in `hay`.
pub fn contains_bytes(hay: &[u8], needle: &[u8]) -> (r: bool)
    ensures
        r == has_infix(hay@, needle@),
{
    if needle.len() == 0 {
        assert(hay@.subrange(0int, 0int + needle@.len()) =~= needle@);
        return true;
    }
    if needle.len() > hay.len() {
        return false;
    }
    let hay_len: usize = hay.len();
    let last: usize = hay_len - needle.len();
    let mut i: usize = 0;
    while i <= last
        invariant
            last + needle@.len() == hay@.len(),
            hay_len == hay@.len(),
            needle@.len() > 0,
            forall|k: int| 0 <= k < i ==> #[trigger] hay@.subrange(k, k + needle@.len()) != needle@,
        decreases last + 1 - i,
    {
        let mut j: usize = 0;
        let mut agree: bool = true;
        while agree && j < needle.len()
            invariant
                i <= last,
                last + needle@.len() == hay@.len(),
                hay_len == hay@.len(),
                j <= needle@.len(),
                forall|m: int| 0 <= m < j ==> hay@[i + m] == needle@[m],
                !agree ==> j < needle@.len() && hay@[i + j] != needle@[j as int],
            decreases needle@.len() - j + (if agree { 1int } else { 0int }),
        {
            assert(i + j < hay@.len());
            if hay[i + j] != needle[j] {
                agree = false;
            } else {
                j = j + 1;
            }
        }
        if agree {
            assert(hay@.subrange(i as int, i + needle@.len()) =~= needle@);
            return true;
        }
        assert(hay@.subrange(i as int, i + needle@.len())[j as int] != needle@[j as int]);
        i = i + 1;
    }
    proof {
        assert forall|k: int| 0 <= k && k + needle@.len() <= hay@.len() implies
            #[trigger] hay@.subrange(k, k + needle@.len()) != needle@ by {
            assert(k < i);
        }
    }
    false
}

/// Whether `text` holds `marker`, compared on their UTF-8 encodings.
pub fn text_mentions(text: &str, marker: &str) -> (r: bool)
    ensures
        r == mentions(text@, marker@),
{
    contains_bytes(text.as_bytes(), marker.as_bytes())
}

/// Classifies a server's response to the `stat` command.
pub fn parse_srvr(buf: &String) -> (r: Role)
    ensures
        r == classify(buf@),
{
    let text: &str = buf.as_str();
    if text_mentions(text, "Mode: follower") {
        return Role::Follower;
    }
    if text_mentions(text, "Mode: leader") {
        return Role::Leader;
    }
    if text_mentions(text, "Mode: standalone") {
        return Role::Standalone;
    }
    Role::Unknown
}

/// One probed server and the role that its response shows.
pub struct RoleRow {
    pub host: String,
    pub role: Role,
}

impl RoleRow {
    /// The row of a server from its full response to the `stat` command.
    pub fn from_response(host: String, response: &String) -> (r: RoleRow)
        ensures
            r.host == host,
            r.role == classify(response@),
    {
        RoleRow { host, role: parse_srvr(response) }
    }
}

} // verus!
