//! What one probe found, in the shape in which it is uploaded and stored.
//!
//! Timestamps are microseconds since the Unix epoch, UTC.

use vstd::prelude::*;
use vstd::string::{StrSliceExecFns, StringExecFns};
use crate::database::entities::{
    lemma_views_push, views, DescriptionInsert, DescriptionModel, DescriptionRow,
    DescriptionValues, FaviconInsert, FaviconModel, FaviconRow, FaviconValues, IpInsert, IpValues,
    PlayerInsert, PlayerValues, ServerInsert, ServerModel, ServerRow, ServerValues,
};
use crate::util::bridge::{
    base64_fits, base64_unpadded, clock_micros, encode_unpadded, format_uuid, parse_u16,
    parse_uuid, u16_parsed, uuid_hyphenated, uuid_parsed,
};
use crate::util::convert::{
    i32_to_u16, i32_to_usize, sign_extended_usize, usize_to_i32, wrapped_i32, wrapped_u16,
};

verus! {

/// A target to probe, written `host:port`.
#[derive(Debug, Clone)]
pub struct OntosAddress {
    pub host: String,
}

/// Why a probe gave no scan result.
#[derive(Debug, Clone, Copy, PartialEq, Eq, Structural)]
pub enum ScanError {
    /// The target is no `host:port`.
    BadAddress,
    /// The host did not answer in time.
    Timeout,
    /// The connection was not accepted.
    Connect,
    /// The host answered, but not as a server does.
    Protocol,
    /// The answer names a sampled player whose id is no UUID, or carries an
    /// icon too large to encode.
    Malformed,
}

/// A host name and a port.
#[derive(Debug, Clone)]
pub struct ServerAddress {
    pub host: String,
    pub port: u16,
}

/// One player of the sample in a server's answer.
#[derive(Debug, Clone)]
pub struct SamplePlayer {
    pub name: String,
    /// The player's UUID as the server wrote it.
    pub id: String,
}

/// The description line of a server's answer.
#[derive(Debug, Clone)]
pub struct Chat {
    pub text: String,
    pub bold: bool,
    pub italic: bool,
    pub underlined: bool,
    pub strikethrough: bool,
    pub obfuscated: bool,
    pub color: Option<String>,
}

/// What a server answered to a status request.
#[derive(Debug, Clone)]
pub struct PingResponse {
    pub version: String,
    pub protocol: i32,
    pub max_players: usize,
    pub online_players: usize,
    pub sample: Option<Vec<SamplePlayer>>,
    pub description: Chat,
    /// The raw bytes of the server's icon.
    pub favicon: Option<Vec<u8>>,
    /// Whether the answer carried mod-loader data.
    pub forge: bool,
}

/// Whether a server answered, as stored.
#[derive(Debug, Clone, Copy, PartialEq, Eq, Structural)]
pub enum OnlineStatus {
    Online,
    Offline,
}

/// A player seen on a server.
#[derive(Debug, Clone)]
pub struct OntosPlayer {
    pub name: String,
    /// The 128-bit value of the player's UUID.
    pub uuid: u128,
    pub last_seen: i64,
    pub server_id: i32,
}

/// A server as probed or as read back.
#[derive(Debug, Clone)]
pub struct Server {
    pub id: i32,
    pub ip: String,
    pub port: u16,
    pub version: String,
    pub protocol: i32,
    pub max_players: usize,
    pub online_players: usize,
    pub sample_players: Option<Vec<OntosPlayer>>,
    pub auth: OnlineStatus,
    pub created_at: i64,
    pub updated_at: i64,
    pub forge: bool,
}

/// A server's description line with its style.
#[derive(Debug, Clone)]
pub struct Description {
    pub id: i32,
    pub server_id: i32,
    pub text: String,
    pub bold: bool,
    pub italic: bool,
    pub underline: bool,
    pub strikethrough: bool,
    pub obfuscated: bool,
    pub colour: String,
}

/// A server's icon, base64 text without padding.
#[derive(Debug, Clone)]
pub struct Favicon {
    pub id: i32,
    pub png: Option<String>,
    pub server_id: i32,
}

/// One scan result: a server with its description and icon.
#[derive(Debug, Clone)]
pub struct Entry {
    pub server: Server,
    pub description: Description,
    pub favicon: Favicon,
}

/// What a player holds.
pub struct PlayerView {
    pub name: Seq<char>,
    pub uuid: u128,
    pub last_seen: i64,
    pub server_id: i32,
}

/// What a server holds.
pub struct ServerView {
    pub id: i32,
    pub ip: Seq<char>,
    pub port: u16,
    pub version: Seq<char>,
    pub protocol: i32,
    pub max_players: usize,
    pub online_players: usize,
    pub sample_players: Option<Seq<PlayerView>>,
    pub auth: OnlineStatus,
    pub created_at: i64,
    pub updated_at: i64,
    pub forge: bool,
}

/// What a description holds.
pub struct DescriptionView {
    pub id: i32,
    pub server_id: i32,
    pub text: Seq<char>,
    pub bold: bool,
    pub italic: bool,
    pub underline: bool,
    pub strikethrough: bool,
    pub obfuscated: bool,
    pub colour: Seq<char>,
}

/// What an icon holds.
pub struct FaviconView {
    pub id: i32,
    pub png: Option<Seq<char>>,
    pub server_id: i32,
}

/// What a scan result holds.
pub struct EntryView {
    pub server: ServerView,
    pub description: DescriptionView,
    pub favicon: FaviconView,
}

impl View for OntosPlayer {
    type V = PlayerView;

    open spec fn view(&self) -> PlayerView {
        PlayerView {
            name: self.name@,
            uuid: self.uuid,
            last_seen: self.last_seen,
            server_id: self.server_id,
        }
    }
}

impl View for Server {
    type V = ServerView;

    open spec fn view(&self) -> ServerView {
        ServerView {
            id: self.id,
            ip: self.ip@,
            port: self.port,
            version: self.version@,
            protocol: self.protocol,
            max_players: self.max_players,
            online_players: self.online_players,
            sample_players: match self.sample_players {
                Some(players) => Some(views(players@)),
                None => None,
            },
            auth: self.auth,
            created_at: self.created_at,
            updated_at: self.updated_at,
            forge: self.forge,
        }
    }
}

impl View for Description {
    type V = DescriptionView;

    open spec fn view(&self) -> DescriptionView {
        DescriptionView {
            id: self.id,
            server_id: self.server_id,
            text: self.text@,
            bold: self.bold,
            italic: self.italic,
            underline: self.underline,
            strikethrough: self.strikethrough,
            obfuscated: self.obfuscated,
            colour: self.colour@,
        }
    }
}

impl View for Favicon {
    type V = FaviconView;

    open spec fn view(&self) -> FaviconView {
        FaviconView {
            id: self.id,
            png: match self.png {
                Some(png) => Some(png@),
                None => None,
            },
            server_id: self.server_id,
        }
    }
}

impl View for Entry {
    type V = EntryView;

    open spec fn view(&self) -> EntryView {
        EntryView { server: self.server@, description: self.description@, favicon: self.favicon@ }
    }
}

impl PlayerView {
    /// The values to insert for this player under `server_id`, seen at
    /// `now`: the UUID in its hyphenated notation.
    pub open spec fn model(self, server_id: i32, now: i64) -> PlayerValues {
        PlayerValues {
            name: self.name,
            uuid: uuid_hyphenated(self.uuid),
            last_seen: now,
            server_id,
        }
    }
}

impl ServerView {
    /// The values to insert for this server at time `now`: the counts
    /// narrowed to 32 bits, the status by its stored name, and both
    /// timestamps set to `now`.
    pub open spec fn model(self, now: i64) -> ServerValues {
        ServerValues {
            ip: self.ip,
            port: self.port as i32,
            version: self.version,
            protocol: self.protocol,
            max_players: wrapped_i32(self.max_players as int) as i32,
            online_players: wrapped_i32(self.online_players as int) as i32,
            auth: self.auth.stored_name(),
            created_at: now,
            updated_at: now,
            forge: self.forge,
        }
    }

    /// The server's address as it is written to `ips` when it was scanned
    /// at `now`.
    pub open spec fn scan_time(self, now: i64) -> IpValues {
        IpValues { ip: self.ip, port: self.port as i32, last_scanned: Some(now) }
    }

    /// The server that a stored row holds. The port keeps its lowest 16
    /// bits, the counts are widened with their sign, the sample is absent,
    /// and any status name but `Online` reads as `Offline`.
    pub open spec fn of_row(row: ServerRow) -> ServerView {
        ServerView {
            id: row.id,
            ip: row.ip,
            port: wrapped_u16(row.port as int) as u16,
            version: row.version,
            protocol: row.protocol,
            max_players: sign_extended_usize(row.max_players as int) as usize,
            online_players: sign_extended_usize(row.online_players as int) as usize,
            sample_players: None,
            auth: OnlineStatus::of_stored_name(row.auth),
            created_at: row.created_at,
            updated_at: row.updated_at,
            forge: row.forge,
        }
    }
}

impl DescriptionView {
    /// The values to insert for this description under `server_id`. The
    /// style is not carried over: every flag is stored unset and the colour
    /// as the text `false`.
    pub open spec fn model(self, server_id: i32) -> DescriptionValues {
        DescriptionValues {
            server_id,
            text: self.text,
            bold: false,
            italic: false,
            underline: false,
            strikethrough: false,
            obfuscated: false,
            colour: "false"@,
        }
    }

    /// The description that a stored row holds, field by field.
    pub open spec fn of_row(row: DescriptionRow) -> DescriptionView {
        DescriptionView {
            id: row.id,
            server_id: row.server_id,
            text: row.text,
            bold: row.bold,
            italic: row.italic,
            underline: row.underline,
            strikethrough: row.strikethrough,
            obfuscated: row.obfuscated,
            colour: row.colour,
        }
    }

    /// The description of a server that has none stored: no text, no style,
    /// white.
    pub open spec fn nothing() -> DescriptionView {
        DescriptionView {
            id: 0,
            server_id: 0,
            text: Seq::empty(),
            bold: false,
            italic: false,
            underline: false,
            strikethrough: false,
            obfuscated: false,
            colour: "white"@,
        }
    }
}

impl FaviconView {
    /// The values to insert for this icon under `server_id`.
    pub open spec fn model(self, server_id: i32) -> FaviconValues
        recommends
            self.png is Some,
    {
        FaviconValues { server_id, png: self.png->0 }
    }

    /// The icon that a stored row holds.
    pub open spec fn of_row(row: FaviconRow) -> FaviconView {
        FaviconView { id: row.id, png: Some(row.png), server_id: row.server_id }
    }

    /// The icon of a server that has none.
    pub open spec fn nothing() -> FaviconView {
        FaviconView { id: 0, png: None, server_id: 0 }
    }
}

impl OnlineStatus {
    /// The name under which the status is stored.
    pub open spec fn stored_name(self) -> Seq<char> {
        match self {
            OnlineStatus::Online => "Online"@,
            OnlineStatus::Offline => "Offline"@,
        }
    }

    /// The status that a stored name stands for: `Online` for that very
    /// name, `Offline` for every other.
    pub open spec fn of_stored_name(name: Seq<char>) -> OnlineStatus {
        if name == "Online"@ {
            OnlineStatus::Online
        } else {
            OnlineStatus::Offline
        }
    }

    /// The name under which the status is stored.
    pub fn to_string_but_consistent(&self) -> (name: String)
        ensures
            name@ == self.stored_name(),
    {
        match self {
            OnlineStatus::Online => String::from_str("Online"),
            OnlineStatus::Offline => String::from_str("Offline"),
        }
    }

    /// Reads a stored name back.
    pub fn from_stored(name: &String) -> (status: OnlineStatus)
        ensures
            status == OnlineStatus::of_stored_name(name@),
    {
        let online = String::from_str("Online");
        if *name == online {
            OnlineStatus::Online
        } else {
            OnlineStatus::Offline
        }
    }
}

/// Storing a status and reading it back gives the status.
pub proof fn stored_name_reads_back(status: OnlineStatus)
    ensures
        OnlineStatus::of_stored_name(status.stored_name()) == status,
{
    reveal_strlit("Online");
    reveal_strlit("Offline");
    if status == OnlineStatus::Offline {
        assert("Offline"@.len() != "Online"@.len());
    }
}

impl Description {
    /// The values to insert for this description under `server_id`. The
    /// style is not carried over: every flag is stored unset and the colour
    /// as the text `false`.
    pub fn model(self, server_id: i32) -> (row: DescriptionInsert)
        ensures
            row@ == self@.model(server_id),
    {
        DescriptionInsert {
            server_id,
            text: self.text,
            bold: false,
            italic: false,
            underline: false,
            strikethrough: false,
            obfuscated: false,
            colour: String::from_str("false"),
        }
    }

    /// The description that a stored row holds, field by field.
    pub fn from_model(model: DescriptionModel) -> (d: Self)
        ensures
            d@ == DescriptionView::of_row(model@),
    {
        Self {
            id: model.id,
            server_id: model.server_id,
            text: model.text,
            bold: model.bold,
            italic: model.italic,
            underline: model.underline,
            strikethrough: model.strikethrough,
            obfuscated: model.obfuscated,
            colour: model.colour,
        }
    }

    /// The description of a server that has none stored: no text, no style,
    /// white.
    pub fn empty() -> (d: Self)
        ensures
            d@ == DescriptionView::nothing(),
    {
        Self {
            id: 0,
            server_id: 0,
            text: String::new(),
            bold: false,
            italic: false,
            underline: false,
            strikethrough: false,
            obfuscated: false,
            colour: String::from_str("white"),
        }
    }
}

impl Favicon {
    /// The values to insert for this icon under `server_id`.
    pub fn model(self, server_id: i32) -> (row: FaviconInsert)
        requires
            self.png is Some,
        ensures
            row@ == self@.model(server_id),
    {
        FaviconInsert { server_id, png: self.png.unwrap() }
    }

    /// The icon that a stored row holds.
    pub fn from_model(model: FaviconModel) -> (f: Self)
        ensures
            f@ == FaviconView::of_row(model@),
    {
        Self { id: model.id, png: Some(model.png), server_id: model.server_id }
    }

    /// The icon of a server that has none.
    pub fn empty() -> (f: Self)
        ensures
            f@ == FaviconView::nothing(),
    {
        Self { id: 0, png: None, server_id: 0 }
    }
}

impl Default for Favicon {
    fn default() -> (f: Self)
        ensures
            f@ == FaviconView::nothing(),
    {
        Favicon::empty()
    }
}

impl Server {
    /// The values to insert for this server at time `now`.
    pub fn model_at(&self, now: i64) -> (row: ServerInsert)
        ensures
            row@ == self@.model(now),
    {
        ServerInsert {
            ip: self.ip.clone(),
            port: self.port as i32,
            version: self.version.clone(),
            protocol: self.protocol,
            max_players: usize_to_i32(self.max_players),
            online_players: usize_to_i32(self.online_players),
            auth: self.auth.to_string_but_consistent(),
            created_at: now,
            updated_at: now,
            forge: self.forge,
        }
    }

    /// The values that mark this server's address as scanned at `now`.
    pub fn update_scan_time(&self, now: i64) -> (row: IpInsert)
        ensures
            row@ == self@.scan_time(now),
    {
        IpInsert { ip: self.ip.clone(), port: self.port as i32, last_scanned: Some(now) }
    }

    /// The values to insert for this server now, by the machine's clock.
    pub fn model(&self) -> (row: ServerInsert)
        ensures
            exists|now: i64| row@ == #[trigger] self@.model(now),
    {
        let now: i64 = clock_micros();
        let row = self.model_at(now);
        assert(row@ == self@.model(now));
        row
    }

    /// The server that a stored row holds. The port keeps its lowest 16
    /// bits, the counts are widened with their sign, the sample is absent,
    /// and any status name but `Online` reads as `Offline`.
    pub fn from_model(model: ServerModel) -> (s: Self)
        ensures
            s@ == ServerView::of_row(model@),
    {
        let auth = OnlineStatus::from_stored(&model.auth);
        Self {
            id: model.id,
            ip: model.ip,
            port: i32_to_u16(model.port),
            version: model.version,
            protocol: model.protocol,
            max_players: i32_to_usize(model.max_players),
            online_players: i32_to_usize(model.online_players),
            sample_players: None,
            auth,
            created_at: model.created_at,
            updated_at: model.updated_at,
            forge: model.forge,
        }
    }
}

impl OntosPlayer {
    /// The values to insert for the players of `list` under `server_id`,
    /// seen at time `now`: one row per player, in the same order.
    pub open spec fn models(list: Seq<PlayerView>, server_id: i32, now: i64) -> Seq<PlayerValues> {
        list.map_values(|player: PlayerView| player.model(server_id, now))
    }

    /// The values to insert for a sample of players under `server_id`, seen
    /// at time `now`.
    pub fn from_sample_at(list: Vec<Self>, server_id: i32, now: i64) -> (rows: Vec<PlayerInsert>)
        ensures
            rows@.len() == list@.len(),
            views(rows@) == OntosPlayer::models(views(list@), server_id, now),
    {
        let mut rows: Vec<PlayerInsert> = Vec::new();
        let mut i: usize = 0;
        assert(views(rows@) =~= OntosPlayer::models(views(list@.take(0)), server_id, now));
        while i < list.len()
            invariant
                i <= list@.len(),
                rows@.len() == i,
                views(rows@) == OntosPlayer::models(views(list@.take(i as int)), server_id, now),
            decreases list@.len() - i,
        {
            let row = PlayerInsert {
                name: list[i].name.clone(),
                uuid: format_uuid(list[i].uuid),
                last_seen: now,
                server_id,
            };
            proof {
                lemma_views_push(rows@, row);
                let before = list@.take(i as int);
                assert(list@.take(i as int + 1) =~= before.push(list@[i as int]));
                lemma_views_push(before, list@[i as int]);
                assert(OntosPlayer::models(views(before).push(list@[i as int]@), server_id, now)
                    =~= OntosPlayer::models(views(before), server_id, now).push(row@));
            }
            rows.push(row);
            i = i + 1;
        }
        assert(list@.take(list@.len() as int) =~= list@);
        rows
    }

    /// The values to insert for a sample of players under `server_id`, seen
    /// now, by the machine's clock.
    pub fn from_sample(list: Vec<Self>, server_id: i32) -> (rows: Vec<PlayerInsert>)
        ensures
            exists|now: i64|
                views(rows@) == #[trigger] OntosPlayer::models(views(list@), server_id, now),
    {
        let now: i64 = clock_micros();
        let rows = OntosPlayer::from_sample_at(list, server_id, now);
        assert(views(rows@) == OntosPlayer::models(views(list@), server_id, now));
        rows
    }
}

/// The index of the first colon of `text` at or behind `from`, or the
/// length of `text` where there is none.
pub open spec fn colon_from(text: Seq<char>, from: int) -> int
    decreases text.len() - from,
{
    if from < 0 || from >= text.len() || text[from] == ':' {
        from
    } else {
        colon_from(text, from + 1)
    }
}

impl ServerAddress {
    /// The port of a server whose address names none.
    pub open spec fn default_port() -> Seq<char> {
        "25565"@
    }

    /// The host and the port that `text` names. The host is what stands
    /// before the first colon. The port is what stands between the first
    /// colon and the second, or to the end where there is no second, and is
    /// 25565 where there is no colon at all. Empty text names nothing, nor
    /// does text whose port is no number that fits 16 bits.
    pub open spec fn named_by(text: Seq<char>) -> Option<(Seq<char>, u16)> {
        let first = colon_from(text, 0);
        let port = if first >= text.len() {
            ServerAddress::default_port()
        } else {
            text.subrange(first + 1, colon_from(text, first + 1))
        };
        if text.len() == 0 {
            None
        } else {
            match u16_parsed(port) {
                Some(number) => Some((text.take(first), number)),
                None => None,
            }
        }
    }

    /// Reads an address written `host:port` or `host`.
    pub fn parse(text: &str) -> (addr: Option<Self>)
        ensures
            addr is Some <==> ServerAddress::named_by(text@) is Some,
            addr matches Some(a) ==> (a.host@, a.port) == ServerAddress::named_by(text@)->0,
    {
        let len: usize = text.unicode_len();
        if len == 0 {
            return None;
        }
        let first: usize = find_colon(text, 0);
        let host = String::from_str(text.substring_char(0, first));
        assert(text@.subrange(0, first as int) =~= text@.take(first as int));
        let port: Option<u16> = if first >= len {
            parse_u16("25565")
        } else {
            let second: usize = find_colon(text, first + 1);
            parse_u16(text.substring_char(first + 1, second))
        };
        match port {
            Some(port) => Some(ServerAddress { host, port }),
            None => None,
        }
    }
}

/// Finds the first colon of `text` at or behind `from`.
fn find_colon(text: &str, from: usize) -> (at: usize)
    requires
        from <= text@.len(),
    ensures
        at == colon_from(text@, from as int),
        from <= at <= text@.len(),
{
    let len: usize = text.unicode_len();
    let mut at: usize = from;
    while at < len && text.get_char(at) != ':'
        invariant
            len == text@.len(),
            from <= at <= len,
            colon_from(text@, from as int) == colon_from(text@, at as int),
        decreases len - at,
    {
        at = at + 1;
    }
    at
}

impl OntosAddress {
    /// The host and port that this target names, if it names any.
    pub fn address(&self) -> (addr: Option<ServerAddress>)
        ensures
            addr is Some <==> ServerAddress::named_by(self.host@) is Some,
            addr matches Some(a) ==> (a.host@, a.port) == ServerAddress::named_by(self.host@)->0,
    {
        ServerAddress::parse(self.host.as_str())
    }

    /// Turns the outcome of one probe of this target into a scan result,
    /// read now. A target that names no address gives `BadAddress`, whatever
    /// the outcome; a probe that failed gives its error; an answer of which
    /// no entry can be made gives `Malformed`.
    pub fn ping_server(&self, answer: Result<PingResponse, ScanError>) -> (scan: Result<
        Entry,
        ScanError,
    >)
        ensures
            scan is Ok <==> ServerAddress::named_by(self.host@) is Some && (answer matches Ok(
                packet,
            ) && packet.usable()),
            scan matches Ok(entry) ==> exists|now: i64, addr: ServerAddress|
                (addr.host@, addr.port) == ServerAddress::named_by(self.host@)->0
                    && #[trigger] Entry::is_reading_of(entry@, answer->Ok_0, addr, now),
            scan matches Err(e) ==> e == if ServerAddress::named_by(self.host@) is None {
                ScanError::BadAddress
            } else {
                match answer {
                    Ok(_) => ScanError::Malformed,
                    Err(failure) => failure,
                }
            },
    {
        let addr = match self.address() {
            Some(addr) => addr,
            None => {
                return Err(ScanError::BadAddress);
            },
        };
        match answer {
            Ok(packet) => {
                if packet.is_usable() {
                    let entry = Entry::new(packet, addr);
                    Ok(entry)
                } else {
                    Err(ScanError::Malformed)
                }
            },
            Err(failure) => Err(failure),
        }
    }
}

impl PingResponse {
    /// Whether an entry can be made of this answer: every sampled player's
    /// id is a UUID, and the icon's encoded length fits the machine.
    pub open spec fn usable(&self) -> bool {
        &&& self.sample matches Some(sample) ==> forall|i: int|
            0 <= i < sample@.len() ==> uuid_parsed((#[trigger] sample@[i]).id@) is Some
        &&& self.favicon matches Some(bytes) ==> base64_fits(bytes@.len())
    }

    /// Tells whether an entry can be made of this answer.
    pub fn is_usable(&self) -> (ok: bool)
        ensures
            ok == self.usable(),
    {
        match &self.favicon {
            Some(bytes) => {
                if bytes.len() / 3 > (usize::MAX - 4) / 4 {
                    return false;
                }
            },
            None => {},
        }
        match &self.sample {
            Some(sample) => {
                let mut i: usize = 0;
                while i < sample.len()
                    invariant
                        i <= sample@.len(),
                        self.sample == Some(*sample),
                        self.favicon matches Some(bytes) ==> base64_fits(bytes@.len()),
                        forall|j: int|
                            0 <= j < i ==> uuid_parsed((#[trigger] sample@[j]).id@) is Some,
                    decreases sample@.len() - i,
                {
                    if parse_uuid(sample[i].id.as_str()).is_none() {
                        assert(uuid_parsed(sample@[i as int].id@) is None);
                        return false;
                    }
                    i = i + 1;
                }
                true
            },
            None => true,
        }
    }
}

impl Entry {
    /// Whether `players` are the sampled players of an answer, seen at
    /// `now`: one per sample entry and in the same order, each under the
    /// value of its UUID, none yet tied to a stored server.
    pub open spec fn players_of(sample: Seq<SamplePlayer>, now: i64, players: Seq<PlayerView>)
        -> bool {
        &&& players.len() == sample.len()
        &&& forall|i: int|
            0 <= i < sample.len() ==> {
                &&& (#[trigger] players[i]).name == sample[i].name@
                &&& Some(players[i].uuid) == uuid_parsed(sample[i].id@)
                &&& players[i].last_seen == now
                &&& players[i].server_id == 0
            }
    }

    /// Whether `entry` is what the answer `packet` from `addr` gives when
    /// it is read at time `now`.
    pub open spec fn is_reading_of(
        entry: EntryView,
        packet: PingResponse,
        addr: ServerAddress,
        now: i64,
    ) -> bool {
        &&& entry.server.id == 0
        &&& entry.server.ip == addr.host@
        &&& entry.server.port == addr.port
        &&& entry.server.version == packet.version@
        &&& entry.server.protocol == packet.protocol
        &&& entry.server.max_players == packet.max_players
        &&& entry.server.online_players == packet.online_players
        &&& match packet.sample {
            Some(sample) => entry.server.sample_players matches Some(players)
                && Entry::players_of(sample@, now, players),
            None => entry.server.sample_players is None,
        }
        &&& entry.server.auth == OnlineStatus::Online
        &&& entry.server.created_at == now
        &&& entry.server.updated_at == now
        &&& entry.server.forge == packet.forge
        &&& entry.description == (DescriptionView {
            id: 0,
            server_id: 0,
            text: packet.description.text@,
            bold: packet.description.bold,
            italic: packet.description.italic,
            underline: packet.description.underlined,
            strikethrough: packet.description.strikethrough,
            obfuscated: packet.description.obfuscated,
            colour: match packet.description.color {
                Some(colour) => colour@,
                None => "white"@,
            },
        })
        &&& entry.favicon == (FaviconView {
            id: 0,
            png: match packet.favicon {
                Some(bytes) => Some(base64_unpadded(bytes@)),
                None => None,
            },
            server_id: 0,
        })
    }

    /// Reads the answer `packet` from `addr` at time `now`.
    pub fn read_at(packet: PingResponse, addr: ServerAddress, now: i64) -> (entry: Self)
        requires
            packet.usable(),
        ensures
            Entry::is_reading_of(entry@, packet, addr, now),
    {
        let sample_players: Option<Vec<OntosPlayer>> = match &packet.sample {
            Some(sample) => {
                let mut players: Vec<OntosPlayer> = Vec::new();
                let mut i: usize = 0;
                while i < sample.len()
                    invariant
                        i <= sample@.len(),
                        forall|j: int|
                            0 <= j < sample@.len() ==> uuid_parsed(
                                (#[trigger] sample@[j]).id@,
                            ) is Some,
                        Entry::players_of(sample@.take(i as int), now, views(players@)),
                    decreases sample@.len() - i,
                {
                    let uuid: u128 = parse_uuid(sample[i].id.as_str()).unwrap();
                    let player = OntosPlayer {
                        name: sample[i].name.clone(),
                        uuid,
                        last_seen: now,
                        server_id: 0,
                    };
                    proof {
                        lemma_views_push(players@, player);
                    }
                    players.push(player);
                    i = i + 1;
                }
                assert(sample@.take(sample@.len() as int) =~= sample@);
                Some(players)
            },
            None => None,
        };
        let png: Option<String> = match &packet.favicon {
            Some(bytes) => Some(encode_unpadded(bytes)),
            None => None,
        };
        let colour: String = match &packet.description.color {
            Some(colour) => colour.clone(),
            None => String::from_str("white"),
        };
        Self {
            server: Server {
                id: 0,
                ip: addr.host,
                port: addr.port,
                version: packet.version,
                protocol: packet.protocol,
                max_players: packet.max_players,
                online_players: packet.online_players,
                sample_players,
                auth: OnlineStatus::Online,
                created_at: now,
                updated_at: now,
                forge: packet.forge,
            },
            description: Description {
                id: 0,
                server_id: 0,
                text: packet.description.text,
                bold: packet.description.bold,
                italic: packet.description.italic,
                underline: packet.description.underlined,
                strikethrough: packet.description.strikethrough,
                obfuscated: packet.description.obfuscated,
                colour,
            },
            favicon: Favicon { id: 0, png, server_id: 0 },
        }
    }

    /// Reads the answer `packet` from `addr` now, by the machine's clock.
    pub fn new(packet: PingResponse, addr: ServerAddress) -> (entry: Self)
        requires
            packet.usable(),
        ensures
            exists|now: i64| Entry::is_reading_of(entry@, packet, addr, now),
    {
        let now: i64 = clock_micros();
        let entry = Entry::read_at(packet, addr, now);
        assert(Entry::is_reading_of(entry@, packet, addr, now));
        entry
    }

    /// The scan result that stored rows hold: the server's row, with its
    /// description and its icon where they are stored, and with the empty
    /// ones where they are not.
    pub fn from_models(
        server: ServerModel,
        description: Option<DescriptionModel>,
        favicon: Option<FaviconModel>,
    ) -> (entry: Self)
        ensures
            entry@ == (EntryView {
                server: ServerView::of_row(server@),
                description: match description {
                    Some(row) => DescriptionView::of_row(row@),
                    None => DescriptionView::nothing(),
                },
                favicon: match favicon {
                    Some(row) => FaviconView::of_row(row@),
                    None => FaviconView::nothing(),
                },
            }),
    {
        Entry {
            server: Server::from_model(server),
            description: match description {
                Some(row) => Description::from_model(row),
                None => Description::empty(),
            },
            favicon: match favicon {
                Some(row) => Favicon::from_model(row),
                None => Favicon::empty(),
            },
        }
    }

    /// Reads the answer `packet` from `addr` now, if an entry can be made of
    /// it; there is none where a sampled player's id is no UUID.
    pub fn try_new(packet: PingResponse, addr: ServerAddress) -> (entry: Option<Self>)
        ensures
            entry is Some <==> packet.usable(),
            entry matches Some(e) ==> exists|now: i64| Entry::is_reading_of(e@, packet, addr, now),
    {
        if packet.is_usable() {
            Some(Entry::new(packet, addr))
        } else {
            None
        }
    }
}

} // verus!
