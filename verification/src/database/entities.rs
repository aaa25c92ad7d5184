//! Rows of the five relations, and the values handed to an insert.
//!
//! Each type has a view in which text is a sequence of characters; the
//! contracts of the storage model speak of those views. Timestamps are
//! microseconds since the Unix epoch, UTC.

use vstd::prelude::*;

verus! {

/// A row of `servers`. Unique by `(ip, port)`.
#[derive(Debug, Clone)]
pub struct ServerModel {
    pub id: i32,
    pub ip: String,
    pub port: i32,
    pub version: String,
    pub protocol: i32,
    pub max_players: i32,
    pub online_players: i32,
    pub auth: String,
    pub created_at: i64,
    pub updated_at: i64,
    pub forge: bool,
}

/// What a row of `servers` holds.
pub struct ServerRow {
    pub id: i32,
    pub ip: Seq<char>,
    pub port: i32,
    pub version: Seq<char>,
    pub protocol: i32,
    pub max_players: i32,
    pub online_players: i32,
    pub auth: Seq<char>,
    pub created_at: i64,
    pub updated_at: i64,
    pub forge: bool,
}

impl View for ServerModel {
    type V = ServerRow;

    open spec fn view(&self) -> ServerRow {
        ServerRow {
            id: self.id,
            ip: self.ip@,
            port: self.port,
            version: self.version@,
            protocol: self.protocol,
            max_players: self.max_players,
            online_players: self.online_players,
            auth: self.auth@,
            created_at: self.created_at,
            updated_at: self.updated_at,
            forge: self.forge,
        }
    }
}

/// The values of a server to insert; storage assigns the id.
#[derive(Debug, Clone)]
pub struct ServerInsert {
    pub ip: String,
    pub port: i32,
    pub version: String,
    pub protocol: i32,
    pub max_players: i32,
    pub online_players: i32,
    pub auth: String,
    pub created_at: i64,
    pub updated_at: i64,
    pub forge: bool,
}

/// What an insert into `servers` holds.
pub struct ServerValues {
    pub ip: Seq<char>,
    pub port: i32,
    pub version: Seq<char>,
    pub protocol: i32,
    pub max_players: i32,
    pub online_players: i32,
    pub auth: Seq<char>,
    pub created_at: i64,
    pub updated_at: i64,
    pub forge: bool,
}

impl View for ServerInsert {
    type V = ServerValues;

    open spec fn view(&self) -> ServerValues {
        ServerValues {
            ip: self.ip@,
            port: self.port,
            version: self.version@,
            protocol: self.protocol,
            max_players: self.max_players,
            online_players: self.online_players,
            auth: self.auth@,
            created_at: self.created_at,
            updated_at: self.updated_at,
            forge: self.forge,
        }
    }
}

/// A row of `descriptions`. Unique by `(server_id, text)`.
#[derive(Debug, Clone)]
pub struct DescriptionModel {
    pub id: i32,
    pub server_id: i32,
    pub text: String,
    pub bold: bool,
    pub italic: bool,
    pub underline: bool,
    pub strikethrough: bool,
    pub obfuscated: bool,
    pub colour: String,
}

/// What a row of `descriptions` holds.
pub struct DescriptionRow {
    pub id: i32,
    pub server_id: i32,
    pub text: Seq<char>,
    pub bold: bool,
    pub italic: bool,
    pub underline: bool,
    pub strikethrough: bool,
    pub obfuscated: bool,
    pub colour: Seq<char>,
}

impl View for DescriptionModel {
    type V = DescriptionRow;

    open spec fn view(&self) -> DescriptionRow {
        DescriptionRow {
            id: self.id,
            server_id: self.server_id,
            text: self.text@,
            bold: self.bold,
            italic: self.italic,
            underline: self.underline,
            strikethrough: self.strikethrough,
            obfuscated: self.obfuscated,
            colour: self.colour@,
        }
    }
}

/// The values of a description to insert; storage assigns the id.
#[derive(Debug, Clone)]
pub struct DescriptionInsert {
    pub server_id: i32,
    pub text: String,
    pub bold: bool,
    pub italic: bool,
    pub underline: bool,
    pub strikethrough: bool,
    pub obfuscated: bool,
    pub colour: String,
}

/// What an insert into `descriptions` holds.
pub struct DescriptionValues {
    pub server_id: i32,
    pub text: Seq<char>,
    pub bold: bool,
    pub italic: bool,
    pub underline: bool,
    pub strikethrough: bool,
    pub obfuscated: bool,
    pub colour: Seq<char>,
}

impl View for DescriptionInsert {
    type V = DescriptionValues;

    open spec fn view(&self) -> DescriptionValues {
        DescriptionValues {
            server_id: self.server_id,
            text: self.text@,
            bold: self.bold,
            italic: self.italic,
            underline: self.underline,
            strikethrough: self.strikethrough,
            obfuscated: self.obfuscated,
            colour: self.colour@,
        }
    }
}

/// A row of `favicons`. Unique by `server_id`.
#[derive(Debug, Clone)]
pub struct FaviconModel {
    pub id: i32,
    pub server_id: i32,
    pub png: String,
}

/// What a row of `favicons` holds.
pub struct FaviconRow {
    pub id: i32,
    pub server_id: i32,
    pub png: Seq<char>,
}

impl View for FaviconModel {
    type V = FaviconRow;

    open spec fn view(&self) -> FaviconRow {
        FaviconRow {
            id: self.id,
            server_id: self.server_id,
            png: self.png@,
        }
    }
}

/// The values of an icon to insert; storage assigns the id.
#[derive(Debug, Clone)]
pub struct FaviconInsert {
    pub server_id: i32,
    pub png: String,
}

/// What an insert into `favicons` holds.
pub struct FaviconValues {
    pub server_id: i32,
    pub png: Seq<char>,
}

impl View for FaviconInsert {
    type V = FaviconValues;

    open spec fn view(&self) -> FaviconValues {
        FaviconValues {
            server_id: self.server_id,
            png: self.png@,
        }
    }
}

/// A row of `players`. Unique by `(server_id, uuid)`.
#[derive(Debug, Clone)]
pub struct PlayerModel {
    pub id: i32,
    pub name: String,
    pub uuid: String,
    pub last_seen: i64,
    pub server_id: i32,
}

/// What a row of `players` holds.
pub struct PlayerRow {
    pub id: i32,
    pub name: Seq<char>,
    pub uuid: Seq<char>,
    pub last_seen: i64,
    pub server_id: i32,
}

impl View for PlayerModel {
    type V = PlayerRow;

    open spec fn view(&self) -> PlayerRow {
        PlayerRow {
            id: self.id,
            name: self.name@,
            uuid: self.uuid@,
            last_seen: self.last_seen,
            server_id: self.server_id,
        }
    }
}

/// The values of a sampled player to insert; storage assigns the id.
#[derive(Debug, Clone)]
pub struct PlayerInsert {
    pub name: String,
    pub uuid: String,
    pub last_seen: i64,
    pub server_id: i32,
}

/// What an insert into `players` holds.
pub struct PlayerValues {
    pub name: Seq<char>,
    pub uuid: Seq<char>,
    pub last_seen: i64,
    pub server_id: i32,
}

impl View for PlayerInsert {
    type V = PlayerValues;

    open spec fn view(&self) -> PlayerValues {
        PlayerValues {
            name: self.name@,
            uuid: self.uuid@,
            last_seen: self.last_seen,
            server_id: self.server_id,
        }
    }
}

/// A row of `ips`. Unique by `(ip, port)`.
#[derive(Debug, Clone)]
pub struct IpModel {
    pub id: i32,
    pub ip: String,
    pub port: i32,
    pub last_scanned: Option<i64>,
}

/// What a row of `ips` holds.
pub struct IpRow {
    pub id: i32,
    pub ip: Seq<char>,
    pub port: i32,
    pub last_scanned: Option<i64>,
}

impl View for IpModel {
    type V = IpRow;

    open spec fn view(&self) -> IpRow {
        IpRow {
            id: self.id,
            ip: self.ip@,
            port: self.port,
            last_scanned: self.last_scanned,
        }
    }
}

/// The values of a probed address to insert; storage assigns the id.
#[derive(Debug, Clone)]
pub struct IpInsert {
    pub ip: String,
    pub port: i32,
    pub last_scanned: Option<i64>,
}

/// What an insert into `ips` holds.
pub struct IpValues {
    pub ip: Seq<char>,
    pub port: i32,
    pub last_scanned: Option<i64>,
}

impl View for IpInsert {
    type V = IpValues;

    open spec fn view(&self) -> IpValues {
        IpValues {
            ip: self.ip@,
            port: self.port,
            last_scanned: self.last_scanned,
        }
    }
}

/// The views of a list of values, in order.
pub open spec fn views<T: View>(list: Seq<T>) -> Seq<T::V> {
    list.map_values(|item: T| item@)
}

/// The views of a list with one more item are the views of the list with
/// that item's view behind them.
pub proof fn lemma_views_push<T: View>(list: Seq<T>, item: T)
    ensures
        views(list.push(item)) == views(list).push(item@),
{
    assert(views(list.push(item)) =~= views(list).push(item@));
}

/// The views of a list with one item replaced are the views of the list
/// with that item's view in the same place.
pub proof fn lemma_views_update<T: View>(list: Seq<T>, i: int, item: T)
    requires
        0 <= i < list.len(),
    ensures
        views(list.update(i, item)) == views(list).update(i, item@),
{
    assert(views(list.update(i, item)) =~= views(list).update(i, item@));
}

} // verus!
