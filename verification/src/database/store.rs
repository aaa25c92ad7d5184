//! The relations held in memory: the store that ingestion writes to when it
//! runs in one process, and the transactions that are held back from it.

use vstd::prelude::*;
use crate::database::entities::{
    lemma_views_push, lemma_views_update, views, DescriptionInsert, DescriptionModel,
    DescriptionRow, FaviconInsert, FaviconModel, FaviconRow, IpInsert, IpModel, IpRow,
    PlayerInsert, PlayerModel, PlayerRow, PlayerValues, ServerInsert, ServerModel, ServerRow,
};
use crate::database::relations::{
    description_at, descriptions_after, favicon_at, favicons_after, id_of_server, ip_at,
    ips_after, is_description, is_favicon, is_ip, is_player, is_server, lemma_description_at,
    lemma_descriptions_after, lemma_favicon_at, lemma_favicons_after, lemma_ip_at,
    lemma_ips_after, lemma_player_at, lemma_players_after_all, lemma_server_at,
    lemma_servers_after, player_at, players_after, players_after_all, server_at,
    server_reinsert_overwrites, servers_after, unique_descriptions, unique_favicons, unique_ips,
    unique_players, unique_servers, MAX_ROWS,
};
use crate::database::DbStats;
use crate::util::lists::reversed;
use crate::util::types::{Entry, EntryView, OntosPlayer};

verus! {

/// What is stored, as five sequences of rows.
pub struct StoreView {
    pub servers: Seq<ServerRow>,
    pub descriptions: Seq<DescriptionRow>,
    pub favicons: Seq<FaviconRow>,
    pub players: Seq<PlayerRow>,
    pub ips: Seq<IpRow>,
}

impl StoreView {
    /// Every relation keeps its key unique and has no more rows than ids.
    pub open spec fn wf(self) -> bool {
        &&& unique_servers(self.servers)
        &&& unique_descriptions(self.descriptions)
        &&& unique_favicons(self.favicons)
        &&& unique_players(self.players)
        &&& unique_ips(self.ips)
        &&& self.servers.len() <= MAX_ROWS
        &&& self.descriptions.len() <= MAX_ROWS
        &&& self.favicons.len() <= MAX_ROWS
        &&& self.players.len() <= MAX_ROWS
        &&& self.ips.len() <= MAX_ROWS
    }
}

/// Why a transaction was not committed.
#[derive(Debug, Clone, Copy, PartialEq, Eq, Structural)]
pub enum CommitError {
    /// A relation has no id left for a row that the transaction may add.
    NoRoom,
}

impl StoreView {
    /// Whether `ips`, `servers`, `descriptions` and, for an entry with an
    /// icon, `favicons` each have an id left for a row that `entry` may add.
    pub open spec fn has_room(self, entry: EntryView) -> bool {
        &&& self.ips.len() < MAX_ROWS
        &&& self.servers.len() < MAX_ROWS
        &&& self.descriptions.len() < MAX_ROWS
        &&& entry.favicon.png is Some ==> self.favicons.len() < MAX_ROWS
    }

    /// Whether `players` has an id left for each of `count` rows.
    pub open spec fn has_room_for_players(self, count: nat) -> bool {
        self.players.len() + count <= MAX_ROWS
    }

    /// What is stored once `entry` is written at time `now`: its address is
    /// marked as scanned, its server inserted or overwritten, and under that
    /// server's id its description, its sampled players where it has a
    /// sample, and its icon where it has one. A sample for which `players`
    /// has no room is left out, and the rest is written all the same.
    pub open spec fn with_entry(self, entry: EntryView, now: i64) -> StoreView {
        let id = id_of_server(self.servers, entry.server.model(now));
        StoreView {
            ips: ips_after(self.ips, entry.server.scan_time(now)),
            servers: servers_after(self.servers, entry.server.model(now)),
            descriptions: descriptions_after(self.descriptions, entry.description.model(id)),
            players: match entry.server.sample_players {
                Some(players) => if self.has_room_for_players(players.len()) {
                    players_after_all(self.players, OntosPlayer::models(players, id, now))
                } else {
                    self.players
                },
                None => self.players,
            },
            favicons: if entry.favicon.png is Some {
                favicons_after(self.favicons, entry.favicon.model(id))
            } else {
                self.favicons
            },
        }
    }

    /// What is stored once the transaction that writes `entry` at `now` has
    /// been put to the store: the entry is written where there is room for
    /// it, and nothing changes where there is not.
    pub open spec fn committed(self, entry: EntryView, now: i64) -> StoreView {
        if self.has_room(entry) {
            self.with_entry(entry, now)
        } else {
            self
        }
    }
}

/// What one scan result writes and when, held back until it is committed.
pub struct PendingTransaction {
    pub entry: Entry,
    /// The time at which the result was taken in.
    pub at: i64,
}

/// What a held-back transaction holds.
pub struct PendingView {
    pub entry: EntryView,
    pub at: i64,
}

impl View for PendingTransaction {
    type V = PendingView;

    open spec fn view(&self) -> PendingView {
        PendingView { entry: self.entry@, at: self.at }
    }
}

impl StoreView {
    /// What is stored once each of `pending` has been put to the store, in
    /// order. One that finds no room changes nothing and holds up none of
    /// those behind it.
    pub open spec fn committed_all(self, pending: Seq<PendingView>) -> StoreView
        decreases pending.len(),
    {
        if pending.len() == 0 {
            self
        } else {
            self.committed_all(pending.drop_last()).committed(
                pending.last().entry,
                pending.last().at,
            )
        }
    }

    /// Number of those of `pending` that find no room when each is put to
    /// the store, in order.
    pub open spec fn refused(self, pending: Seq<PendingView>) -> nat
        decreases pending.len(),
    {
        if pending.len() == 0 {
            0
        } else {
            let before = self.refused(pending.drop_last());
            if self.committed_all(pending.drop_last()).has_room(pending.last().entry) {
                before
            } else {
                before + 1
            }
        }
    }
}

/// The relations in memory.
pub struct Store {
    pub servers: Vec<ServerModel>,
    pub descriptions: Vec<DescriptionModel>,
    pub favicons: Vec<FaviconModel>,
    pub players: Vec<PlayerModel>,
    pub ips: Vec<IpModel>,
}

impl View for Store {
    type V = StoreView;

    open spec fn view(&self) -> StoreView {
        StoreView {
            servers: views(self.servers@),
            descriptions: views(self.descriptions@),
            favicons: views(self.favicons@),
            players: views(self.players@),
            ips: views(self.ips@),
        }
    }
}

impl Store {
    /// Every relation keeps its key unique and has no more rows than ids.
    pub open spec fn wf(&self) -> bool {
        self@.wf()
    }

    /// A store with nothing in it.
    pub fn new() -> (store: Self)
        ensures
            store.wf(),
            store@.servers.len() == 0,
            store@.descriptions.len() == 0,
            store@.favicons.len() == 0,
            store@.players.len() == 0,
            store@.ips.len() == 0,
    {
        Store {
            servers: Vec::new(),
            descriptions: Vec::new(),
            favicons: Vec::new(),
            players: Vec::new(),
            ips: Vec::new(),
        }
    }

    /// Looks up the address `(ip, port)`.
    pub fn find_ip(&self, ip: &String, port: i32) -> (found: Option<usize>)
        requires
            self.wf(),
        ensures
            found is Some <==> ip_at(self@.ips, ip@, port) is Some,
            found matches Some(i) ==> i == ip_at(self@.ips, ip@, port)->0 && i < self@.ips.len(),
    {
        let mut i: usize = 0;
        while i < self.ips.len()
            invariant
                self.wf(),
                i <= self.ips@.len(),
                forall|j: int| 0 <= j < i ==> !is_ip(#[trigger] self.ips@[j]@, ip@, port),
            decreases self.ips@.len() - i,
        {
            if self.ips[i].port == port && self.ips[i].ip == *ip {
                proof {
                    lemma_ip_at(self@.ips, ip@, port, i as int);
                }
                return Some(i);
            }
            i = i + 1;
        }
        None
    }

    /// Inserts an address, or renews its scan time where it is stored.
    pub fn upsert_ip(&mut self, new: IpInsert)
        requires
            old(self).wf(),
            old(self)@.ips.len() < MAX_ROWS,
        ensures
            final(self).wf(),
            final(self)@ == (StoreView { ips: ips_after(old(self)@.ips, new@), ..old(self)@ }),
    {
        match self.find_ip(&new.ip, new.port) {
            Some(i) => {
                let row = IpModel {
                    id: self.ips[i].id,
                    ip: self.ips[i].ip.clone(),
                    port: self.ips[i].port,
                    last_scanned: new.last_scanned,
                };
                proof {
                    lemma_views_update(self.ips@, i as int, row);
                }
                self.ips.set(i, row);
            },
            None => {
                let id: i32 = (self.ips.len() + 1) as i32;
                let row =
                    IpModel { id, ip: new.ip, port: new.port, last_scanned: new.last_scanned };
                proof {
                    lemma_views_push(self.ips@, row);
                }
                self.ips.push(row);
            },
        }
    }

    /// Looks up the server at `(ip, port)`.
    pub fn find_server(&self, ip: &String, port: i32) -> (found: Option<usize>)
        requires
            self.wf(),
        ensures
            found is Some <==> server_at(self@.servers, ip@, port) is Some,
            found matches Some(i) ==> i == server_at(self@.servers, ip@, port)->0 && i
                < self@.servers.len(),
    {
        let mut i: usize = 0;
        while i < self.servers.len()
            invariant
                self.wf(),
                i <= self.servers@.len(),
                forall|j: int| 0 <= j < i ==> !is_server(#[trigger] self.servers@[j]@, ip@, port),
            decreases self.servers@.len() - i,
        {
            if self.servers[i].port == port && self.servers[i].ip == *ip {
                proof {
                    lemma_server_at(self@.servers, ip@, port, i as int);
                }
                return Some(i);
            }
            i = i + 1;
        }
        None
    }

    /// Inserts a server, or overwrites what may change of it where it is
    /// stored. Returns the id of its row.
    pub fn upsert_server(&mut self, new: ServerInsert) -> (id: i32)
        requires
            old(self).wf(),
            old(self)@.servers.len() < MAX_ROWS,
        ensures
            final(self).wf(),
            final(self)@ == (StoreView {
                servers: servers_after(old(self)@.servers, new@),
                ..old(self)@
            }),
            id == id_of_server(old(self)@.servers, new@),
    {
        match self.find_server(&new.ip, new.port) {
            Some(i) => {
                let id: i32 = self.servers[i].id;
                let row = ServerModel {
                    id,
                    ip: self.servers[i].ip.clone(),
                    port: self.servers[i].port,
                    version: new.version,
                    protocol: new.protocol,
                    max_players: new.max_players,
                    online_players: new.online_players,
                    auth: new.auth,
                    created_at: self.servers[i].created_at,
                    updated_at: new.updated_at,
                    forge: new.forge,
                };
                proof {
                    lemma_views_update(self.servers@, i as int, row);
                }
                self.servers.set(i, row);
                id
            },
            None => {
                let id: i32 = (self.servers.len() + 1) as i32;
                let row = ServerModel {
                    id,
                    ip: new.ip,
                    port: new.port,
                    version: new.version,
                    protocol: new.protocol,
                    max_players: new.max_players,
                    online_players: new.online_players,
                    auth: new.auth,
                    created_at: new.created_at,
                    updated_at: new.updated_at,
                    forge: new.forge,
                };
                proof {
                    lemma_views_push(self.servers@, row);
                }
                self.servers.push(row);
                id
            },
        }
    }

    /// Looks up the description of `server_id` with text `text`.
    pub fn find_description(&self, server_id: i32, text: &String) -> (found: Option<usize>)
        requires
            self.wf(),
        ensures
            found is Some <==> description_at(self@.descriptions, server_id, text@) is Some,
            found matches Some(i) ==> i == description_at(self@.descriptions, server_id, text@)->0
                && i < self@.descriptions.len(),
    {
        let mut i: usize = 0;
        while i < self.descriptions.len()
            invariant
                self.wf(),
                i <= self.descriptions@.len(),
                forall|j: int|
                    0 <= j < i ==> !is_description(
                        #[trigger] self.descriptions@[j]@,
                        server_id,
                        text@,
                    ),
            decreases self.descriptions@.len() - i,
        {
            if self.descriptions[i].server_id == server_id && self.descriptions[i].text == *text {
                proof {
                    lemma_description_at(self@.descriptions, server_id, text@, i as int);
                }
                return Some(i);
            }
            i = i + 1;
        }
        None
    }

    /// Inserts a description, or restyles it where the same text is stored
    /// for the same server.
    pub fn upsert_description(&mut self, new: DescriptionInsert)
        requires
            old(self).wf(),
            old(self)@.descriptions.len() < MAX_ROWS,
        ensures
            final(self).wf(),
            final(self)@ == (StoreView {
                descriptions: descriptions_after(old(self)@.descriptions, new@),
                ..old(self)@
            }),
    {
        match self.find_description(new.server_id, &new.text) {
            Some(i) => {
                let row = DescriptionModel {
                    id: self.descriptions[i].id,
                    server_id: self.descriptions[i].server_id,
                    text: new.text,
                    bold: new.bold,
                    italic: new.italic,
                    underline: new.underline,
                    strikethrough: new.strikethrough,
                    obfuscated: new.obfuscated,
                    colour: new.colour,
                };
                proof {
                    lemma_views_update(self.descriptions@, i as int, row);
                }
                self.descriptions.set(i, row);
            },
            None => {
                let id: i32 = (self.descriptions.len() + 1) as i32;
                let row = DescriptionModel {
                    id,
                    server_id: new.server_id,
                    text: new.text,
                    bold: new.bold,
                    italic: new.italic,
                    underline: new.underline,
                    strikethrough: new.strikethrough,
                    obfuscated: new.obfuscated,
                    colour: new.colour,
                };
                proof {
                    lemma_views_push(self.descriptions@, row);
                }
                self.descriptions.push(row);
            },
        }
    }

    /// Looks up the icon of `server_id`.
    pub fn find_favicon(&self, server_id: i32) -> (found: Option<usize>)
        requires
            self.wf(),
        ensures
            found is Some <==> favicon_at(self@.favicons, server_id) is Some,
            found matches Some(i) ==> i == favicon_at(self@.favicons, server_id)->0 && i
                < self@.favicons.len(),
    {
        let mut i: usize = 0;
        while i < self.favicons.len()
            invariant
                self.wf(),
                i <= self.favicons@.len(),
                forall|j: int| 0 <= j < i ==> !is_favicon(#[trigger] self.favicons@[j]@, server_id),
            decreases self.favicons@.len() - i,
        {
            if self.favicons[i].server_id == server_id {
                proof {
                    lemma_favicon_at(self@.favicons, server_id, i as int);
                }
                return Some(i);
            }
            i = i + 1;
        }
        None
    }

    /// Inserts an icon, or overwrites the one stored for the same server.
    pub fn upsert_favicon(&mut self, new: FaviconInsert)
        requires
            old(self).wf(),
            old(self)@.favicons.len() < MAX_ROWS,
        ensures
            final(self).wf(),
            final(self)@ == (StoreView {
                favicons: favicons_after(old(self)@.favicons, new@),
                ..old(self)@
            }),
    {
        match self.find_favicon(new.server_id) {
            Some(i) => {
                let row = FaviconModel {
                    id: self.favicons[i].id,
                    server_id: self.favicons[i].server_id,
                    png: new.png,
                };
                proof {
                    lemma_views_update(self.favicons@, i as int, row);
                }
                self.favicons.set(i, row);
            },
            None => {
                let id: i32 = (self.favicons.len() + 1) as i32;
                let row = FaviconModel { id, server_id: new.server_id, png: new.png };
                proof {
                    lemma_views_push(self.favicons@, row);
                }
                self.favicons.push(row);
            },
        }
    }

    /// Looks up the player `uuid` on `server_id`.
    pub fn find_player(&self, server_id: i32, uuid: &String) -> (found: Option<usize>)
        requires
            self.wf(),
        ensures
            found is Some <==> player_at(self@.players, server_id, uuid@) is Some,
            found matches Some(i) ==> i == player_at(self@.players, server_id, uuid@)->0 && i
                < self@.players.len(),
    {
        let mut i: usize = 0;
        while i < self.players.len()
            invariant
                self.wf(),
                i <= self.players@.len(),
                forall|j: int|
                    0 <= j < i ==> !is_player(#[trigger] self.players@[j]@, server_id, uuid@),
            decreases self.players@.len() - i,
        {
            if self.players[i].server_id == server_id && self.players[i].uuid == *uuid {
                proof {
                    lemma_player_at(self@.players, server_id, uuid@, i as int);
                }
                return Some(i);
            }
            i = i + 1;
        }
        None
    }

    /// Inserts a player, or renews when it was last seen where it is stored.
    pub fn upsert_player(&mut self, new: PlayerInsert)
        requires
            old(self).wf(),
            old(self)@.players.len() < MAX_ROWS,
        ensures
            final(self).wf(),
            final(self)@ == (StoreView {
                players: players_after(old(self)@.players, new@),
                ..old(self)@
            }),
    {
        match self.find_player(new.server_id, &new.uuid) {
            Some(i) => {
                let row = PlayerModel {
                    id: self.players[i].id,
                    name: self.players[i].name.clone(),
                    uuid: self.players[i].uuid.clone(),
                    last_seen: new.last_seen,
                    server_id: self.players[i].server_id,
                };
                proof {
                    lemma_views_update(self.players@, i as int, row);
                }
                self.players.set(i, row);
            },
            None => {
                let id: i32 = (self.players.len() + 1) as i32;
                let row = PlayerModel {
                    id,
                    name: new.name,
                    uuid: new.uuid,
                    last_seen: new.last_seen,
                    server_id: new.server_id,
                };
                proof {
                    lemma_views_push(self.players@, row);
                }
                self.players.push(row);
            },
        }
    }

    /// Inserts each player of `rows`, in order.
    pub fn upsert_players(&mut self, rows: &Vec<PlayerInsert>)
        requires
            old(self).wf(),
            old(self)@.players.len() + rows@.len() <= MAX_ROWS,
        ensures
            final(self).wf(),
            final(self)@ == (StoreView {
                players: players_after_all(old(self)@.players, views(rows@)),
                ..old(self)@
            }),
    {
        let mut i: usize = 0;
        proof {
            assert(views(rows@.take(0)) =~= Seq::<PlayerValues>::empty());
        }
        while i < rows.len()
            invariant
                i <= rows@.len(),
                self.wf(),
                self@.players.len() <= old(self)@.players.len() + i,
                old(self)@.players.len() + rows@.len() <= MAX_ROWS,
                self@ == (StoreView {
                    players: players_after_all(old(self)@.players, views(rows@.take(i as int))),
                    ..old(self)@
                }),
            decreases rows@.len() - i,
        {
            let row = PlayerInsert {
                name: rows[i].name.clone(),
                uuid: rows[i].uuid.clone(),
                last_seen: rows[i].last_seen,
                server_id: rows[i].server_id,
            };
            proof {
                let before = rows@.take(i as int);
                let grown = rows@.take(i as int + 1);
                assert(grown =~= before.push(rows@[i as int]));
                lemma_views_push(before, rows@[i as int]);
                assert(views(grown).drop_last() =~= views(before));
                assert(row@ == rows@[i as int]@);
            }
            self.upsert_player(row);
            i = i + 1;
        }
        proof {
            assert(rows@.take(rows@.len() as int) =~= rows@);
        }
    }

    /// Tells whether the relations other than `players` have an id left for
    /// each row that `entry` may add.
    pub fn has_room(&self, entry: &Entry) -> (ok: bool)
        ensures
            ok == self@.has_room(entry@),
    {
        if self.ips.len() >= MAX_ROWS || self.servers.len() >= MAX_ROWS || self.descriptions.len()
            >= MAX_ROWS {
            return false;
        }
        !(entry.favicon.png.is_some() && self.favicons.len() >= MAX_ROWS)
    }

    /// Writes one scan result at time `now`: marks its address as scanned,
    /// inserts or overwrites its server, and stores under that server's id
    /// its description, its sampled players and its icon. Refused, with
    /// nothing written, where a relation has no room; but a sample of
    /// players that finds no room is merely left out. Returns the server's
    /// id.
    pub fn add_server(&mut self, entry: Entry, now: i64) -> (id: Result<i32, CommitError>)
        requires
            old(self).wf(),
        ensures
            final(self).wf(),
            final(self)@ == old(self)@.committed(entry@, now),
            id is Ok <==> old(self)@.has_room(entry@),
            id matches Ok(server_id) ==> server_id == id_of_server(
                old(self)@.servers,
                entry@.server.model(now),
            ),
            id matches Err(e) ==> e == CommitError::NoRoom,
    {
        if !self.has_room(&entry) {
            return Err(CommitError::NoRoom);
        }
        self.upsert_ip(entry.server.update_scan_time(now));
        let server_id: i32 = self.upsert_server(entry.server.model_at(now));
        self.upsert_description(entry.description.model(server_id));
        match entry.server.sample_players {
            Some(players) => {
                if self.players.len() <= MAX_ROWS && players.len() <= MAX_ROWS
                    - self.players.len() {
                    let rows = OntosPlayer::from_sample_at(players, server_id, now);
                    self.upsert_players(&rows);
                }
            },
            None => {},
        }
        if entry.favicon.png.is_some() {
            self.upsert_favicon(entry.favicon.model(server_id));
        }
        Ok(server_id)
    }

    /// Commits one held-back transaction.
    pub fn commit(&mut self, txn: PendingTransaction) -> (done: Result<(), CommitError>)
        requires
            old(self).wf(),
        ensures
            final(self).wf(),
            final(self)@ == old(self)@.committed(txn@.entry, txn@.at),
            done is Ok <==> old(self)@.has_room(txn@.entry),
            done matches Err(e) ==> e == CommitError::NoRoom,
    {
        match self.add_server(txn.entry, txn.at) {
            Ok(_) => Ok(()),
            Err(e) => Err(e),
        }
    }

    /// Commits held-back transactions one after the other, in the order in
    /// which they were held back. One that fails is dropped and the rest
    /// still commit. Returns the number of those that failed.
    pub fn commit_all(&mut self, pending: Vec<PendingTransaction>) -> (failed: usize)
        requires
            old(self).wf(),
        ensures
            final(self).wf(),
            final(self)@ == old(self)@.committed_all(views(pending@)),
            failed == old(self)@.refused(views(pending@)),
    {
        let ghost all = views(pending@);
        let total: usize = pending.len();
        let mut stack: Vec<PendingTransaction> = reversed(pending);
        let mut failed: usize = 0;
        let ghost mut done: int = 0;
        proof {
            assert(all.take(0) =~= Seq::<PendingView>::empty());
        }
        while stack.len() > 0
            invariant
                self.wf(),
                0 <= done <= all.len(),
                stack@.len() == all.len() - done,
                forall|k: int|
                    0 <= k < stack@.len() ==> (#[trigger] stack@[k])@ == all[all.len() - 1 - k],
                self@ == old(self)@.committed_all(all.take(done)),
                failed == old(self)@.refused(all.take(done)),
                failed <= done,
                all.len() == total,
            decreases stack@.len(),
        {
            let txn = stack.pop().unwrap();
            proof {
                assert(txn@ == all[done]);
                assert(all.take(done + 1).drop_last() =~= all.take(done));
                assert(all.take(done + 1).last() == all[done]);
            }
            assert(done < all.len());
            match self.commit(txn) {
                Ok(_) => {},
                Err(_) => {
                    failed = failed + 1;
                },
            }
            proof {
                done = done + 1;
            }
        }
        proof {
            assert(all.take(all.len() as int) =~= all);
        }
        failed
    }

    /// Counts what is stored.
    pub fn create_stats(&self) -> (stats: DbStats)
        ensures
            stats == stats_of(self@),
    {
        DbStats {
            ips: self.ips.len() as u64,
            servers: self.servers.len() as u64,
            players: self.players.len() as u64,
        }
    }
}

/// The counts of what is stored.
pub open spec fn stats_of(store: StoreView) -> DbStats {
    DbStats {
        ips: store.ips.len() as u64,
        servers: store.servers.len() as u64,
        players: store.players.len() as u64,
    }
}

/// Writing two scan results for the same `(ip, port)`, one after the
/// other, leaves one server row for that address: it has the id and the
/// creation time of the first write, and the update time and every value
/// that may change of the second.
pub proof fn ingest_twice_keeps_one_server(
    store: StoreView,
    first: EntryView,
    first_at: i64,
    second: EntryView,
    second_at: i64,
)
    requires
        store.wf(),
        first.server.ip == second.server.ip,
        first.server.port == second.server.port,
        store.has_room(first),
        store.with_entry(first, first_at).has_room(second),
    ensures
        ({
            let once = store.committed(first, first_at).servers;
            let twice = store.committed(first, first_at).committed(second, second_at).servers;
            let values = second.server.model(second_at);
            &&& twice.len() == once.len()
            &&& server_at(twice, values.ip, values.port) matches Some(i)
            &&& forall|j: int|
                0 <= j < twice.len() ==> (is_server(#[trigger] twice[j], values.ip, values.port)
                    <==> j == i)
            &&& twice[i].id == once[i].id
            &&& twice[i].created_at == once[i].created_at
            &&& twice[i].updated_at == second_at
            &&& twice[i].version == second.server.version
            &&& twice[i].protocol == second.server.protocol
            &&& twice[i].max_players == values.max_players
            &&& twice[i].online_players == values.online_players
            &&& twice[i].auth == second.server.auth.stored_name()
            &&& twice[i].forge == second.server.forge
        }),
{
    server_reinsert_overwrites(
        store.servers,
        first.server.model(first_at),
        second.server.model(second_at),
    );
}

/// Committing in two flushes what was held back in two runs gives what
/// committing it all in one flush gives: transactions reach the store in
/// the order in which they were held back, whichever cycle takes them.
pub proof fn flushes_compose(
    store: StoreView,
    first: Seq<PendingView>,
    second: Seq<PendingView>,
)
    ensures
        store.committed_all(first).committed_all(second) == store.committed_all(first + second),
        store.refused(first) + store.committed_all(first).refused(second) == store.refused(
            first + second,
        ),
    decreases second.len(),
{
    if second.len() == 0 {
        assert(first + second =~= first);
    } else {
        flushes_compose(store, first, second.drop_last());
        assert((first + second).drop_last() =~= first + second.drop_last());
        assert((first + second).last() == second.last());
    }
}

/// A transaction that is held back and never committed leaves no trace:
/// what is stored is the outcome of the committed ones alone, and with none
/// committed it is what it was.
pub proof fn uncommitted_is_invisible(store: StoreView)
    ensures
        store.committed_all(Seq::empty()) == store,
        store.refused(Seq::empty()) == 0,
{
}

/// Committing keeps every key unique and every relation within its ids.
pub proof fn commit_keeps_keys_unique(store: StoreView, entry: EntryView, now: i64)
    requires
        store.wf(),
    ensures
        store.committed(entry, now).wf(),
{
    if store.has_room(entry) {
        let id = id_of_server(store.servers, entry.server.model(now));
        lemma_servers_after(store.servers, entry.server.model(now));
        lemma_descriptions_after(store.descriptions, entry.description.model(id));
        lemma_ips_after(store.ips, entry.server.scan_time(now));
        if entry.favicon.png is Some {
            lemma_favicons_after(store.favicons, entry.favicon.model(id));
        }
        match entry.server.sample_players {
            Some(players) => {
                if store.has_room_for_players(players.len()) {
                    lemma_players_after_all(store.players, OntosPlayer::models(players, id, now));
                }
            },
            None => {},
        }
    }
}

} // verus!
