//! The five relations as sequences of rows: the key of each, and what an
//! insert does to a relation whose key it meets.

use vstd::prelude::*;
use crate::database::entities::{
    DescriptionRow, DescriptionValues, FaviconRow, FaviconValues, IpRow, IpValues, PlayerRow,
    PlayerValues, ServerRow, ServerValues,
};

verus! {

/// Most rows a relation can hold: ids are 32 bits wide and start at one.
pub const MAX_ROWS: usize = 0x7fff_ffff;

/// Whether `row` is the server at `(ip, port)`.
pub open spec fn is_server(row: ServerRow, ip: Seq<char>, port: i32) -> bool {
    row.ip == ip && row.port == port
}

/// Whether `row` is the description of `server_id` with text `text`.
pub open spec fn is_description(row: DescriptionRow, server_id: i32, text: Seq<char>) -> bool {
    row.server_id == server_id && row.text == text
}

/// Whether `row` is the icon of `server_id`.
pub open spec fn is_favicon(row: FaviconRow, server_id: i32) -> bool {
    row.server_id == server_id
}

/// Whether `row` is the player `uuid` on `server_id`.
pub open spec fn is_player(row: PlayerRow, server_id: i32, uuid: Seq<char>) -> bool {
    row.server_id == server_id && row.uuid == uuid
}

/// Whether `row` is the address `(ip, port)`.
pub open spec fn is_ip(row: IpRow, ip: Seq<char>, port: i32) -> bool {
    row.ip == ip && row.port == port
}

/// No two servers share `(ip, port)`.
pub open spec fn unique_servers(rows: Seq<ServerRow>) -> bool {
    forall|i: int, j: int|
        0 <= i < rows.len() && 0 <= j < rows.len() && is_server(
            #[trigger] rows[i],
            (#[trigger] rows[j]).ip,
            rows[j].port,
        ) ==> i == j
}

/// No two descriptions share `(server_id, text)`.
pub open spec fn unique_descriptions(rows: Seq<DescriptionRow>) -> bool {
    forall|i: int, j: int|
        0 <= i < rows.len() && 0 <= j < rows.len() && is_description(
            #[trigger] rows[i],
            (#[trigger] rows[j]).server_id,
            rows[j].text,
        ) ==> i == j
}

/// No two icons share `server_id`.
pub open spec fn unique_favicons(rows: Seq<FaviconRow>) -> bool {
    forall|i: int, j: int|
        0 <= i < rows.len() && 0 <= j < rows.len() && is_favicon(
            #[trigger] rows[i],
            (#[trigger] rows[j]).server_id,
        ) ==> i == j
}

/// No two players share `(server_id, uuid)`.
pub open spec fn unique_players(rows: Seq<PlayerRow>) -> bool {
    forall|i: int, j: int|
        0 <= i < rows.len() && 0 <= j < rows.len() && is_player(
            #[trigger] rows[i],
            (#[trigger] rows[j]).server_id,
            rows[j].uuid,
        ) ==> i == j
}

/// No two addresses share `(ip, port)`.
pub open spec fn unique_ips(rows: Seq<IpRow>) -> bool {
    forall|i: int, j: int|
        0 <= i < rows.len() && 0 <= j < rows.len() && is_ip(
            #[trigger] rows[i],
            (#[trigger] rows[j]).ip,
            rows[j].port,
        ) ==> i == j
}

/// The index of the server at `(ip, port)`, if it is stored.
pub open spec fn server_at(rows: Seq<ServerRow>, ip: Seq<char>, port: i32) -> Option<int> {
    if exists|i: int| 0 <= i < rows.len() && is_server(#[trigger] rows[i], ip, port) {
        Some(choose|i: int| 0 <= i < rows.len() && is_server(#[trigger] rows[i], ip, port))
    } else {
        None
    }
}

/// The index of the description of `server_id` with text `text`, if it is
/// stored.
pub open spec fn description_at(rows: Seq<DescriptionRow>, server_id: i32, text: Seq<char>)
    -> Option<int> {
    if exists|i: int| 0 <= i < rows.len() && is_description(#[trigger] rows[i], server_id, text) {
        Some(
            choose|i: int|
                0 <= i < rows.len() && is_description(#[trigger] rows[i], server_id, text),
        )
    } else {
        None
    }
}

/// The index of the icon of `server_id`, if it is stored.
pub open spec fn favicon_at(rows: Seq<FaviconRow>, server_id: i32) -> Option<int> {
    if exists|i: int| 0 <= i < rows.len() && is_favicon(#[trigger] rows[i], server_id) {
        Some(choose|i: int| 0 <= i < rows.len() && is_favicon(#[trigger] rows[i], server_id))
    } else {
        None
    }
}

/// The index of the player `uuid` on `server_id`, if it is stored.
pub open spec fn player_at(rows: Seq<PlayerRow>, server_id: i32, uuid: Seq<char>) -> Option<
    int,
> {
    if exists|i: int| 0 <= i < rows.len() && is_player(#[trigger] rows[i], server_id, uuid) {
        Some(choose|i: int| 0 <= i < rows.len() && is_player(#[trigger] rows[i], server_id, uuid))
    } else {
        None
    }
}

/// The index of the address `(ip, port)`, if it is stored.
pub open spec fn ip_at(rows: Seq<IpRow>, ip: Seq<char>, port: i32) -> Option<int> {
    if exists|i: int| 0 <= i < rows.len() && is_ip(#[trigger] rows[i], ip, port) {
        Some(choose|i: int| 0 <= i < rows.len() && is_ip(#[trigger] rows[i], ip, port))
    } else {
        None
    }
}

/// The id that a relation of `len` rows gives its next row.
pub open spec fn next_id(len: nat) -> i32 {
    (len + 1) as i32
}

/// `servers` after an insert of `new`. A server already stored at the same
/// `(ip, port)` keeps its id and the time of its creation and takes every
/// other value from `new`; otherwise `new` becomes a row of its own.
pub open spec fn servers_after(rows: Seq<ServerRow>, new: ServerValues) -> Seq<ServerRow> {
    match server_at(rows, new.ip, new.port) {
        Some(i) => rows.update(
            i,
            ServerRow {
                id: rows[i].id,
                ip: rows[i].ip,
                port: rows[i].port,
                version: new.version,
                protocol: new.protocol,
                max_players: new.max_players,
                online_players: new.online_players,
                auth: new.auth,
                created_at: rows[i].created_at,
                updated_at: new.updated_at,
                forge: new.forge,
            },
        ),
        None => rows.push(
            ServerRow {
                id: next_id(rows.len()),
                ip: new.ip,
                port: new.port,
                version: new.version,
                protocol: new.protocol,
                max_players: new.max_players,
                online_players: new.online_players,
                auth: new.auth,
                created_at: new.created_at,
                updated_at: new.updated_at,
                forge: new.forge,
            },
        ),
    }
}

/// The id of the row that holds `new` after its insert into `rows`.
pub open spec fn id_of_server(rows: Seq<ServerRow>, new: ServerValues) -> i32 {
    match server_at(rows, new.ip, new.port) {
        Some(i) => rows[i].id,
        None => next_id(rows.len()),
    }
}

/// `descriptions` after an insert of `new`. A description already stored
/// for the same server with the same text takes its style from `new`;
/// otherwise `new` becomes a row of its own.
pub open spec fn descriptions_after(rows: Seq<DescriptionRow>, new: DescriptionValues) -> Seq<
    DescriptionRow,
> {
    match description_at(rows, new.server_id, new.text) {
        Some(i) => rows.update(
            i,
            DescriptionRow {
                id: rows[i].id,
                server_id: rows[i].server_id,
                text: new.text,
                bold: new.bold,
                italic: new.italic,
                underline: new.underline,
                strikethrough: new.strikethrough,
                obfuscated: new.obfuscated,
                colour: new.colour,
            },
        ),
        None => rows.push(
            DescriptionRow {
                id: next_id(rows.len()),
                server_id: new.server_id,
                text: new.text,
                bold: new.bold,
                italic: new.italic,
                underline: new.underline,
                strikethrough: new.strikethrough,
                obfuscated: new.obfuscated,
                colour: new.colour,
            },
        ),
    }
}

/// `favicons` after an insert of `new`. An icon already stored for the same
/// server is overwritten; otherwise `new` becomes a row of its own.
pub open spec fn favicons_after(rows: Seq<FaviconRow>, new: FaviconValues) -> Seq<FaviconRow> {
    match favicon_at(rows, new.server_id) {
        Some(i) => rows.update(
            i,
            FaviconRow { id: rows[i].id, server_id: rows[i].server_id, png: new.png },
        ),
        None => rows.push(
            FaviconRow { id: next_id(rows.len()), server_id: new.server_id, png: new.png },
        ),
    }
}

/// `players` after an insert of `new`. A player already stored on the same
/// server under the same UUID is seen again, and nothing else of the row
/// changes; otherwise `new` becomes a row of its own.
pub open spec fn players_after(rows: Seq<PlayerRow>, new: PlayerValues) -> Seq<PlayerRow> {
    match player_at(rows, new.server_id, new.uuid) {
        Some(i) => rows.update(
            i,
            PlayerRow {
                id: rows[i].id,
                name: rows[i].name,
                uuid: rows[i].uuid,
                last_seen: new.last_seen,
                server_id: rows[i].server_id,
            },
        ),
        None => rows.push(
            PlayerRow {
                id: next_id(rows.len()),
                name: new.name,
                uuid: new.uuid,
                last_seen: new.last_seen,
                server_id: new.server_id,
            },
        ),
    }
}

/// `players` after an insert of each of `new`, in order.
pub open spec fn players_after_all(rows: Seq<PlayerRow>, new: Seq<PlayerValues>) -> Seq<
    PlayerRow,
>
    decreases new.len(),
{
    if new.len() == 0 {
        rows
    } else {
        players_after(players_after_all(rows, new.drop_last()), new.last())
    }
}

/// `ips` after an insert of `new`. An address already stored takes the new
/// scan time; otherwise `new` becomes a row of its own.
pub open spec fn ips_after(rows: Seq<IpRow>, new: IpValues) -> Seq<IpRow> {
    match ip_at(rows, new.ip, new.port) {
        Some(i) => rows.update(
            i,
            IpRow {
                id: rows[i].id,
                ip: rows[i].ip,
                port: rows[i].port,
                last_scanned: new.last_scanned,
            },
        ),
        None => rows.push(
            IpRow {
                id: next_id(rows.len()),
                ip: new.ip,
                port: new.port,
                last_scanned: new.last_scanned,
            },
        ),
    }
}

/// Under a unique key the server at `(ip, port)` is at `i` and nowhere else.
pub proof fn lemma_server_at(rows: Seq<ServerRow>, ip: Seq<char>, port: i32, i: int)
    requires
        unique_servers(rows),
        0 <= i < rows.len(),
        is_server(rows[i], ip, port),
    ensures
        server_at(rows, ip, port) == Some(i),
{
    let k = server_at(rows, ip, port)->0;
    assert(is_server(rows[k], rows[i].ip, rows[i].port));
}

/// Under a unique key the description of `server_id` with text `text` is at
/// `i` and nowhere else.
pub proof fn lemma_description_at(
    rows: Seq<DescriptionRow>,
    server_id: i32,
    text: Seq<char>,
    i: int,
)
    requires
        unique_descriptions(rows),
        0 <= i < rows.len(),
        is_description(rows[i], server_id, text),
    ensures
        description_at(rows, server_id, text) == Some(i),
{
    let k = description_at(rows, server_id, text)->0;
    assert(is_description(rows[k], rows[i].server_id, rows[i].text));
}

/// Under a unique key the icon of `server_id` is at `i` and nowhere else.
pub proof fn lemma_favicon_at(rows: Seq<FaviconRow>, server_id: i32, i: int)
    requires
        unique_favicons(rows),
        0 <= i < rows.len(),
        is_favicon(rows[i], server_id),
    ensures
        favicon_at(rows, server_id) == Some(i),
{
    let k = favicon_at(rows, server_id)->0;
    assert(is_favicon(rows[k], rows[i].server_id));
}

/// Under a unique key the player `uuid` on `server_id` is at `i` and nowhere
/// else.
pub proof fn lemma_player_at(rows: Seq<PlayerRow>, server_id: i32, uuid: Seq<char>, i: int)
    requires
        unique_players(rows),
        0 <= i < rows.len(),
        is_player(rows[i], server_id, uuid),
    ensures
        player_at(rows, server_id, uuid) == Some(i),
{
    let k = player_at(rows, server_id, uuid)->0;
    assert(is_player(rows[k], rows[i].server_id, rows[i].uuid));
}

/// Under a unique key the address `(ip, port)` is at `i` and nowhere else.
pub proof fn lemma_ip_at(rows: Seq<IpRow>, ip: Seq<char>, port: i32, i: int)
    requires
        unique_ips(rows),
        0 <= i < rows.len(),
        is_ip(rows[i], ip, port),
    ensures
        ip_at(rows, ip, port) == Some(i),
{
    let k = ip_at(rows, ip, port)->0;
    assert(is_ip(rows[k], rows[i].ip, rows[i].port));
}

/// After an insert the server is stored exactly once, at the place its key
/// had or at the end, with the values of the insert; every other row is as
/// it was.
pub proof fn lemma_servers_after(rows: Seq<ServerRow>, new: ServerValues)
    requires
        unique_servers(rows),
    ensures
        unique_servers(servers_after(rows, new)),
        server_at(servers_after(rows, new), new.ip, new.port) == Some(
            match server_at(rows, new.ip, new.port) {
                Some(i) => i,
                None => rows.len() as int,
            },
        ),
        server_at(rows, new.ip, new.port) is Some ==> servers_after(rows, new).len() == rows.len(),
        server_at(rows, new.ip, new.port) is None ==> servers_after(rows, new).len() == rows.len()
            + 1,
        forall|j: int|
            0 <= j < rows.len() && server_at(rows, new.ip, new.port) != Some(j)
                ==> #[trigger] servers_after(rows, new)[j] == rows[j],
{
    let after = servers_after(rows, new);
    let at: int = match server_at(rows, new.ip, new.port) {
        Some(i) => i,
        None => rows.len() as int,
    };
    assert(is_server(after[at], new.ip, new.port));
    assert forall|i: int, j: int|
        0 <= i < after.len() && 0 <= j < after.len() && is_server(
            #[trigger] after[i],
            (#[trigger] after[j]).ip,
            after[j].port,
        ) implies i == j by {
        if i < rows.len() && j < rows.len() {
            assert(is_server(rows[i], rows[j].ip, rows[j].port));
        } else if i < rows.len() {
            assert(is_server(rows[i], new.ip, new.port));
        } else if j < rows.len() {
            assert(is_server(rows[j], new.ip, new.port));
        }
    }
    lemma_server_at(after, new.ip, new.port, at);
}

/// After an insert the description is stored exactly once, at the place
/// its key had or at the end; every other row is as it was.
pub proof fn lemma_descriptions_after(rows: Seq<DescriptionRow>, new: DescriptionValues)
    requires
        unique_descriptions(rows),
    ensures
        unique_descriptions(descriptions_after(rows, new)),
        description_at(descriptions_after(rows, new), new.server_id, new.text) == Some(
            match description_at(rows, new.server_id, new.text) {
                Some(i) => i,
                None => rows.len() as int,
            },
        ),
        description_at(rows, new.server_id, new.text) is Some ==> descriptions_after(
            rows,
            new,
        ).len() == rows.len(),
        description_at(rows, new.server_id, new.text) is None ==> descriptions_after(
            rows,
            new,
        ).len() == rows.len() + 1,
        forall|j: int|
            0 <= j < rows.len() && description_at(rows, new.server_id, new.text) != Some(j)
                ==> #[trigger] descriptions_after(rows, new)[j] == rows[j],
{
    let after = descriptions_after(rows, new);
    let at: int = match description_at(rows, new.server_id, new.text) {
        Some(i) => i,
        None => rows.len() as int,
    };
    assert(is_description(after[at], new.server_id, new.text));
    assert forall|i: int, j: int|
        0 <= i < after.len() && 0 <= j < after.len() && is_description(
            #[trigger] after[i],
            (#[trigger] after[j]).server_id,
            after[j].text,
        ) implies i == j by {
        if i < rows.len() && j < rows.len() {
            assert(is_description(rows[i], rows[j].server_id, rows[j].text));
        } else if i < rows.len() {
            assert(is_description(rows[i], new.server_id, new.text));
        } else if j < rows.len() {
            assert(is_description(rows[j], new.server_id, new.text));
        }
    }
    lemma_description_at(after, new.server_id, new.text, at);
}

/// After an insert the icons still have unique keys, and at most one more
/// row.
pub proof fn lemma_favicons_after(rows: Seq<FaviconRow>, new: FaviconValues)
    requires
        unique_favicons(rows),
    ensures
        unique_favicons(favicons_after(rows, new)),
        rows.len() <= favicons_after(rows, new).len() <= rows.len() + 1,
{
    let after = favicons_after(rows, new);
    assert forall|i: int, j: int|
        0 <= i < after.len() && 0 <= j < after.len() && is_favicon(
            #[trigger] after[i],
            (#[trigger] after[j]).server_id,
        ) implies i == j by {
        if i < rows.len() && j < rows.len() {
            assert(is_favicon(rows[i], rows[j].server_id));
        } else if i < rows.len() {
            assert(is_favicon(rows[i], new.server_id));
        } else if j < rows.len() {
            assert(is_favicon(rows[j], new.server_id));
        }
    }
}

/// After an insert the players still have unique keys, and at most one
/// more row.
pub proof fn lemma_players_after(rows: Seq<PlayerRow>, new: PlayerValues)
    requires
        unique_players(rows),
    ensures
        unique_players(players_after(rows, new)),
        rows.len() <= players_after(rows, new).len() <= rows.len() + 1,
{
    let after = players_after(rows, new);
    assert forall|i: int, j: int|
        0 <= i < after.len() && 0 <= j < after.len() && is_player(
            #[trigger] after[i],
            (#[trigger] after[j]).server_id,
            after[j].uuid,
        ) implies i == j by {
        if i < rows.len() && j < rows.len() {
            assert(is_player(rows[i], rows[j].server_id, rows[j].uuid));
        } else if i < rows.len() {
            assert(is_player(rows[i], new.server_id, new.uuid));
        } else if j < rows.len() {
            assert(is_player(rows[j], new.server_id, new.uuid));
        }
    }
}

/// After a run of inserts the players still have unique keys, and at most
/// one more row for each insert.
pub proof fn lemma_players_after_all(rows: Seq<PlayerRow>, new: Seq<PlayerValues>)
    requires
        unique_players(rows),
    ensures
        unique_players(players_after_all(rows, new)),
        rows.len() <= players_after_all(rows, new).len() <= rows.len() + new.len(),
    decreases new.len(),
{
    if new.len() > 0 {
        lemma_players_after_all(rows, new.drop_last());
        lemma_players_after(players_after_all(rows, new.drop_last()), new.last());
    }
}

/// After an insert the addresses still have unique keys, and at most one
/// more row.
pub proof fn lemma_ips_after(rows: Seq<IpRow>, new: IpValues)
    requires
        unique_ips(rows),
    ensures
        unique_ips(ips_after(rows, new)),
        rows.len() <= ips_after(rows, new).len() <= rows.len() + 1,
{
    let after = ips_after(rows, new);
    assert forall|i: int, j: int|
        0 <= i < after.len() && 0 <= j < after.len() && is_ip(
            #[trigger] after[i],
            (#[trigger] after[j]).ip,
            after[j].port,
        ) implies i == j by {
        if i < rows.len() && j < rows.len() {
            assert(is_ip(rows[i], rows[j].ip, rows[j].port));
        } else if i < rows.len() {
            assert(is_ip(rows[i], new.ip, new.port));
        } else if j < rows.len() {
            assert(is_ip(rows[j], new.ip, new.port));
        }
    }
}

/// A server inserted twice under the same `(ip, port)` is stored once.
/// The second insert adds no row; the one row with that key keeps the id
/// and the creation time it had after the first insert, and holds the
/// version, protocol, player counts, status, mod flag and update time of
/// the second.
pub proof fn server_reinsert_overwrites(
    rows: Seq<ServerRow>,
    first: ServerValues,
    second: ServerValues,
)
    requires
        unique_servers(rows),
        first.ip == second.ip,
        first.port == second.port,
    ensures
        ({
            let once = servers_after(rows, first);
            let twice = servers_after(once, second);
            &&& unique_servers(twice)
            &&& twice.len() == once.len()
            &&& server_at(twice, second.ip, second.port) matches Some(i)
            &&& forall|j: int|
                0 <= j < twice.len() ==> (is_server(#[trigger] twice[j], second.ip, second.port)
                    <==> j == i)
            &&& twice[i] == (ServerRow {
                id: once[i].id,
                ip: once[i].ip,
                port: once[i].port,
                created_at: once[i].created_at,
                version: second.version,
                protocol: second.protocol,
                max_players: second.max_players,
                online_players: second.online_players,
                auth: second.auth,
                forge: second.forge,
                updated_at: second.updated_at,
            })
            &&& forall|j: int| 0 <= j < twice.len() && j != i ==> #[trigger] twice[j] == once[j]
        }),
{
    let once = servers_after(rows, first);
    lemma_servers_after(rows, first);
    lemma_servers_after(once, second);
    let twice = servers_after(once, second);
    let i = server_at(twice, second.ip, second.port)->0;
    assert forall|j: int| 0 <= j < twice.len() && is_server(
        #[trigger] twice[j],
        second.ip,
        second.port,
    ) implies j == i by {
        lemma_server_at(twice, second.ip, second.port, j);
    }
}

/// Two descriptions inserted for the same server collapse to one row where
/// their text is the same, and are both stored where it differs.
pub proof fn description_key_is_server_and_text(
    rows: Seq<DescriptionRow>,
    first: DescriptionValues,
    second: DescriptionValues,
)
    requires
        unique_descriptions(rows),
        first.server_id == second.server_id,
    ensures
        ({
            let once = descriptions_after(rows, first);
            let twice = descriptions_after(once, second);
            &&& unique_descriptions(twice)
            &&& first.text == second.text ==> twice.len() == once.len() && description_at(
                twice,
                first.server_id,
                first.text,
            ) == description_at(once, first.server_id, first.text)
            &&& first.text != second.text ==> {
                &&& description_at(twice, first.server_id, first.text) is Some
                &&& description_at(twice, second.server_id, second.text) is Some
                &&& description_at(twice, first.server_id, first.text) != description_at(
                    twice,
                    second.server_id,
                    second.text,
                )
                &&& twice[description_at(twice, first.server_id, first.text)->0]
                    == once[description_at(once, first.server_id, first.text)->0]
            }
        }),
{
    let once = descriptions_after(rows, first);
    lemma_descriptions_after(rows, first);
    lemma_descriptions_after(once, second);
    let twice = descriptions_after(once, second);
    if first.text != second.text {
        let i = description_at(once, first.server_id, first.text)->0;
        assert(description_at(once, second.server_id, second.text) != Some(i)) by {
            if description_at(once, second.server_id, second.text) == Some(i) {
                assert(is_description(once[i], second.server_id, second.text));
                assert(is_description(once[i], first.server_id, first.text));
            }
        }
        assert(twice[i] == once[i]);
        lemma_description_at(twice, first.server_id, first.text, i);
    }
}

} // verus!
