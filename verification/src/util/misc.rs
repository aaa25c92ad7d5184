//! Small helpers of the side channels: log text, icons, notifications and
//! the configuration that must be present.

use vstd::prelude::*;
use vstd::string::StringExecFns;
use crate::util::bridge::{
    base64_decoded, base64_fits, base64_padded, decode_padded, encode_padded, regex_replace_all,
    regex_replaced, replace_all, replaced,
};

verus! {

/// The address of the picture shown where an upload gave none.
pub const DEFAULT_IMAGE: &'static str = "https://i.imgur.com/n4BlJtE.png";

/// The regular expression of a colour sequence: escape, `[`, anything up to
/// the next `m`.
pub open spec fn ansi_pattern() -> Seq<char> {
    "\\x1b\\[.*?m"@
}

/// What icons are prefixed with when they are sent as a data address.
pub open spec fn png_prefix() -> Seq<char> {
    "data:image/png;base64,"@
}

/// `input` without its colour sequences; should the pattern not compile,
/// `input` as it is.
pub fn strip_ansi(input: &str) -> (text: String)
    ensures
        text@ == match regex_replaced(ansi_pattern(), input@, Seq::<char>::empty()) {
            Some(stripped) => stripped,
            None => input@,
        },
{
    proof {
        reveal_strlit("");
        assert(""@ =~= Seq::<char>::empty());
    }
    match regex_replace_all("\\x1b\\[.*?m", input, "") {
        Some(stripped) => stripped,
        None => String::from_str(input),
    }
}

/// The bytes of an icon sent as text: the data-address prefix is taken out
/// wherever it occurs and the rest read as padded base64. Text that is no
/// base64 gives no bytes.
pub fn decode_favicon(favicon: String) -> (bytes: Vec<u8>)
    ensures
        bytes@ == match base64_decoded(replaced(favicon@, png_prefix(), Seq::<char>::empty())) {
            Some(decoded) => decoded,
            None => Seq::<u8>::empty(),
        },
{
    proof {
        reveal_strlit("");
        reveal_strlit("data:image/png;base64,");
        assert(""@ =~= Seq::<char>::empty());
    }
    let text = replace_all(favicon.as_str(), "data:image/png;base64,", "");
    match decode_padded(text.as_str()) {
        Some(decoded) => decoded,
        None => Vec::new(),
    }
}

/// The picture as it is written into the upload form: padded base64.
pub fn image_field(bytes: &Vec<u8>) -> (field: String)
    requires
        base64_fits(bytes@.len()),
    ensures
        field@ == base64_padded(bytes@),
{
    encode_padded(bytes)
}

/// The address of an uploaded picture: the link that the upload answered
/// with, its quotation marks taken out, or the default picture where it
/// answered with none.
pub fn image_url(link: Option<&str>) -> (url: String)
    ensures
        url@ == match link {
            Some(quoted) => replaced(quoted@, seq!['"'], Seq::<char>::empty()),
            None => DEFAULT_IMAGE@,
        },
{
    match link {
        Some(quoted) => {
            proof {
                reveal_strlit("");
                reveal_strlit("\"");
                assert(""@ =~= Seq::<char>::empty());
                assert("\""@ =~= seq!['"']);
            }
            replace_all(quoted, "\"", "")
        },
        None => String::from_str(DEFAULT_IMAGE),
    }
}

/// The channel a notification goes to.
#[derive(Debug, Clone, Copy, PartialEq, Eq, Structural)]
pub enum WHLog {
    Info,
    Error,
    Voyager,
}

impl WHLog {
    /// The channel's name.
    pub open spec fn name(self) -> Seq<char> {
        match self {
            WHLog::Info => "INFO"@,
            WHLog::Error => "ERROR"@,
            WHLog::Voyager => "VOYAGER"@,
        }
    }

    /// The channel's name.
    pub fn to_text(&self) -> (text: String)
        ensures
            text@ == self.name(),
    {
        match self {
            WHLog::Info => String::from_str("INFO"),
            WHLog::Error => String::from_str("ERROR"),
            WHLog::Voyager => String::from_str("VOYAGER"),
        }
    }
}

/// Where a notification goes and under which name.
pub struct Notice {
    /// The configuration key that holds the channel's address.
    pub url_key: String,
    /// The name the notification is sent under.
    pub username: String,
    /// The notification's text.
    pub content: String,
}

/// Prepares a notification: the address is configured under the channel's
/// name followed by `_WEBHOOK_URL`, and the sender is `logger` where none is
/// given.
pub fn wh_send(level: WHLog, msg: &str, username: Option<&str>) -> (notice: Notice)
    ensures
        notice.url_key@ == level.name() + "_WEBHOOK_URL"@,
        notice.username@ == match username {
            Some(name) => name@,
            None => "logger"@,
        },
        notice.content@ == msg@,
{
    let mut url_key = level.to_text();
    url_key.append("_WEBHOOK_URL");
    let username = match username {
        Some(name) => String::from_str(name),
        None => String::from_str("logger"),
    };
    Notice { url_key, username, content: String::from_str(msg) }
}

/// The configuration keys that must be set before the process starts.
pub open spec fn required_keys() -> Seq<Seq<char>> {
    seq![
        "API_KEY"@,
        "ADMIN_KEY"@,
        "DATABASE_URL"@,
        "ERROR_WEBHOOK_URL"@,
        "INFO_WEBHOOK_URL"@,
        "VOYAGER_WEBHOOK_URL"@,
        "IMGUR_CLIENT_ID"@,
        "LOG_LEVEL"@,
        "VOYAGER_ADDR"@,
        "VOYAGER_PORT"@,
        "WEBSERVER_URL"@,
        "WEBSERVER_PORT"@,
    ]
}

/// Those of `keys` that are not set, in order.
pub open spec fn unset(keys: Seq<Seq<char>>, set: Seq<bool>) -> Seq<Seq<char>>
    recommends
        keys.len() == set.len(),
    decreases keys.len(),
{
    if keys.len() == 0 || set.len() == 0 {
        Seq::empty()
    } else if set.last() {
        unset(keys.drop_last(), set.drop_last())
    } else {
        unset(keys.drop_last(), set.drop_last()).push(keys.last())
    }
}

/// The configuration keys that must be set before the process starts.
pub fn env_keys() -> (keys: Vec<&'static str>)
    ensures
        keys@.map_values(|key: &'static str| key@) == required_keys(),
{
    let mut keys: Vec<&'static str> = Vec::new();
    keys.push("API_KEY");
    keys.push("ADMIN_KEY");
    keys.push("DATABASE_URL");
    keys.push("ERROR_WEBHOOK_URL");
    keys.push("INFO_WEBHOOK_URL");
    keys.push("VOYAGER_WEBHOOK_URL");
    keys.push("IMGUR_CLIENT_ID");
    keys.push("LOG_LEVEL");
    keys.push("VOYAGER_ADDR");
    keys.push("VOYAGER_PORT");
    keys.push("WEBSERVER_URL");
    keys.push("WEBSERVER_PORT");
    assert(keys@.map_values(|key: &'static str| key@) =~= required_keys());
    keys
}

/// The required keys that are missing, given for each required key whether
/// it is set. The process may start only where none is missing.
pub fn check_env(set: &Vec<bool>) -> (missing: Vec<&'static str>)
    requires
        set@.len() == required_keys().len(),
    ensures
        missing@.map_values(|key: &'static str| key@) == unset(required_keys(), set@),
{
    let keys = env_keys();
    let mut missing: Vec<&'static str> = Vec::new();
    let mut i: usize = 0;
    let ghost names = keys@.map_values(|key: &'static str| key@);
    assert(keys@.len() == names.len());
    proof {
        assert(names.take(0) =~= Seq::<Seq<char>>::empty());
        assert(missing@.map_values(|key: &'static str| key@) =~= Seq::<Seq<char>>::empty());
    }
    while i < keys.len()
        invariant
            i <= keys@.len(),
            keys@.len() == set@.len(),
            names == keys@.map_values(|key: &'static str| key@),
            missing@.map_values(|key: &'static str| key@) == unset(
                names.take(i as int),
                set@.take(i as int),
            ),
        decreases keys@.len() - i,
    {
        proof {
            assert(names.take(i as int + 1).drop_last() =~= names.take(i as int));
            assert(set@.take(i as int + 1).drop_last() =~= set@.take(i as int));
        }
        if !set[i] {
            proof {
                assert(missing@.push(keys@[i as int]).map_values(|key: &'static str| key@)
                    =~= missing@.map_values(|key: &'static str| key@).push(names[i as int]));
            }
            missing.push(keys[i]);
        }
        i = i + 1;
    }
    proof {
        assert(names.take(keys@.len() as int) =~= names);
        assert(set@.take(set@.len() as int) =~= set@);
    }
    missing
}

} // verus!
