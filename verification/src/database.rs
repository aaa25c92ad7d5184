//! The storage contract: rows, keys and what is read back from storage.

pub mod entities;
pub mod ips;
pub mod relations;
pub mod store;

use vstd::prelude::*;
use vstd::string::StringExecFns;
use crate::database::entities::IpModel;
use crate::database::ips::names_of;
use crate::util::bridge::{i32_parsed, parse_i32, random_i32, shuffle_rows};
use crate::util::convert::{i32_to_u16, wrapped_u16};
use crate::util::text::{host_name, host_string};

verus! {

/// A filter as a caller writes it: a column's name and a value.
#[derive(Clone, Debug)]
pub struct QueryParams {
    pub column: String,
    pub value: String,
}

/// Counts of what is stored.
#[derive(Clone, Copy, Debug, PartialEq, Eq, Structural)]
pub struct DbStats {
    pub ips: u64,
    pub servers: u64,
    pub players: u64,
}

/// The columns of `servers` that a filter may name.
#[derive(Clone, Copy, Debug, PartialEq, Eq, Structural)]
pub enum ServerColumn {
    Id,
    Ip,
    Version,
    Protocol,
    MaxPlayers,
    OnlinePlayers,
    Auth,
}

/// Why a filter was refused.
#[derive(Clone, Copy, Debug, PartialEq, Eq, Structural)]
pub enum QueryError {
    /// The filter names no column that may be filtered on.
    InvalidColumn,
}

/// How a column is matched against a filter's value.
#[derive(Clone, Debug)]
pub enum Matching {
    /// The column equals this number.
    Equals(i32),
    /// The column's text matches this pattern, in which `%` stands for any
    /// run of characters.
    Like(String),
}

/// A filter on `servers`, checked.
#[derive(Clone, Debug)]
pub struct Filter {
    pub column: ServerColumn,
    pub matching: Matching,
}

impl ServerColumn {
    /// The column of a given name, if a filter may name it.
    pub open spec fn named(name: Seq<char>) -> Option<ServerColumn> {
        if name == "id"@ {
            Some(ServerColumn::Id)
        } else if name == "ip"@ {
            Some(ServerColumn::Ip)
        } else if name == "version"@ {
            Some(ServerColumn::Version)
        } else if name == "protocol"@ {
            Some(ServerColumn::Protocol)
        } else if name == "max_players"@ {
            Some(ServerColumn::MaxPlayers)
        } else if name == "online_players"@ {
            Some(ServerColumn::OnlinePlayers)
        } else if name == "auth"@ {
            Some(ServerColumn::Auth)
        } else {
            None
        }
    }
}

impl QueryError {
    /// The error in words.
    pub fn message(&self) -> (text: String)
        ensures
            text@ == "Invalid column"@,
    {
        String::from_str("Invalid column")
    }
}

impl Filter {
    /// The pattern that matches every text with `value` somewhere in it.
    pub open spec fn containing(value: Seq<char>) -> Seq<char> {
        seq!['%'] + value + seq!['%']
    }

    /// Whether this filter is the one on `column` for `value`, where
    /// `number` is what `value` reads as: a value that is a number has the
    /// column equal it, any other value has the column contain it.
    pub open spec fn is_for(&self, column: ServerColumn, value: Seq<char>, number: Option<i32>)
        -> bool {
        &&& self.column == column
        &&& match number {
            Some(n) => self.matching == Matching::Equals(n),
            None => self.matching matches Matching::Like(pattern) && pattern@ == Filter::containing(
                value,
            ),
        }
    }

    /// The filter on `column` for `value`, where `number` is what `value`
    /// reads as.
    pub fn of(column: ServerColumn, value: &str, number: Option<i32>) -> (filter: Self)
        ensures
            filter.is_for(column, value@, number),
    {
        match number {
            Some(n) => Filter { column, matching: Matching::Equals(n) },
            None => {
                proof {
                    reveal_strlit("%");
                }
                let mut pattern = String::from_str("%");
                pattern.append(value);
                pattern.append("%");
                assert(pattern@ =~= Filter::containing(value@));
                Filter { column, matching: Matching::Like(pattern) }
            },
        }
    }
}

impl QueryParams {
    /// The column that the filter names. A name that is none of the seven
    /// that may be filtered on is refused.
    pub fn to_column(&self) -> (column: Result<ServerColumn, QueryError>)
        ensures
            column == match ServerColumn::named(self.column@) {
                Some(c) => Ok::<ServerColumn, QueryError>(c),
                None => Err(QueryError::InvalidColumn),
            },
    {
        if self.column == String::from_str("id") {
            Ok(ServerColumn::Id)
        } else if self.column == String::from_str("ip") {
            Ok(ServerColumn::Ip)
        } else if self.column == String::from_str("version") {
            Ok(ServerColumn::Version)
        } else if self.column == String::from_str("protocol") {
            Ok(ServerColumn::Protocol)
        } else if self.column == String::from_str("max_players") {
            Ok(ServerColumn::MaxPlayers)
        } else if self.column == String::from_str("online_players") {
            Ok(ServerColumn::OnlinePlayers)
        } else if self.column == String::from_str("auth") {
            Ok(ServerColumn::Auth)
        } else {
            Err(QueryError::InvalidColumn)
        }
    }

    /// The checked filter: refused where the column's name is, else the
    /// filter on that column for the value.
    pub fn filter(&self) -> (filter: Result<Filter, QueryError>)
        ensures
            filter is Ok <==> ServerColumn::named(self.column@) is Some,
            filter matches Ok(f) ==> f.is_for(
                ServerColumn::named(self.column@)->0,
                self.value@,
                i32_parsed(self.value@),
            ),
            filter matches Err(e) ==> e == QueryError::InvalidColumn,
    {
        match self.to_column() {
            Ok(column) => {
                let number = parse_i32(self.value.as_str());
                Ok(Filter::of(column, self.value.as_str(), number))
            },
            Err(e) => Err(e),
        }
    }
}

/// The remainder of `a` by `b` that has the sign of `a`.
pub open spec fn truncated_rem(a: int, b: int) -> int
    recommends
        b != 0,
{
    let magnitude = (if a < 0 {
        -a
    } else {
        a
    }) % (if b < 0 {
        -b
    } else {
        b
    });
    if a < 0 {
        -magnitude
    } else {
        magnitude
    }
}

/// The id under which a random address is looked up: the remainder of a
/// random number by the number of stored addresses.
pub fn random_ip_id(random: i32, size: i32) -> (id: i32)
    requires
        size != 0,
    ensures
        id == truncated_rem(random as int, size as int),
{
    let a: i64 = random as i64;
    let b: i64 = size as i64;
    let a_abs: u64 = if a < 0 {
        (-a) as u64
    } else {
        a as u64
    };
    let b_abs: u64 = if b < 0 {
        (-b) as u64
    } else {
        b as u64
    };
    let magnitude: u64 = a_abs % b_abs;
    if a < 0 {
        (-(magnitude as i64)) as i32
    } else {
        magnitude as i32
    }
}

/// Draws the id under which a random address is looked up among `size`
/// stored addresses. There is none where nothing is stored.
pub fn draw_ip_id(size: i32) -> (id: Option<i32>)
    ensures
        id is Some <==> size != 0,
        id matches Some(i) ==> exists|random: i32| i == truncated_rem(random as int, size as int),
{
    if size == 0 {
        None
    } else {
        let random: i32 = random_i32();
        let id = random_ip_id(random, size);
        assert(id == truncated_rem(random as int, size as int));
        Some(id)
    }
}

/// The name of a stored address, its port read as 16 bits.
pub fn get_random_ip(row: &IpModel) -> (name: String)
    ensures
        name@ == host_name(row.ip@, wrapped_u16(row.port as int)),
{
    host_string(row.ip.as_str(), i32_to_u16(row.port) as i64)
}

/// The names of the first `amount` rows, or of all where there are fewer.
pub fn first_names(rows: &Vec<IpModel>, amount: usize) -> (names: Vec<String>)
    ensures
        names.deep_view() == names_of(
            rows@.take(
                if amount <= rows@.len() {
                    amount as int
                } else {
                    rows@.len() as int
                },
            ),
        ),
{
    let mut kept: Vec<String> = Vec::new();
    let mut i: usize = 0;
    assert(kept.deep_view() =~= names_of(rows@.take(0)));
    while i < rows.len() && i < amount
        invariant
            i <= rows@.len(),
            i <= amount,
            kept.deep_view() == names_of(rows@.take(i as int)),
        decreases rows@.len() - i,
    {
        let name = host_string(rows[i].ip.as_str(), rows[i].port as i64);
        proof {
            let before = rows@.take(i as int);
            let after = rows@.take(i as int + 1);
            assert(after =~= before.push(rows@[i as int]));
            assert(names_of(after) =~= names_of(before).push(name@));
            assert(kept@.push(name).map_values(|s: String| s@) =~= kept@.map_values(
                |s: String| s@,
            ).push(name@));
        }
        kept.push(name);
        i = i + 1;
    }
    kept
}

/// The names of `amount` stored addresses picked at random, or of all in a
/// random order where there are fewer: the rows are shuffled, and the first
/// `amount` of them named.
pub fn get_some_ips(rows: Vec<IpModel>, amount: usize) -> (names: Vec<String>)
    ensures
        exists|shuffled: Seq<IpModel>|
            #[trigger] shuffled.to_multiset() == rows@.to_multiset() && names.deep_view()
                == names_of(
                shuffled.take(
                    if amount <= rows@.len() {
                        amount as int
                    } else {
                        rows@.len() as int
                    },
                ),
            ),
{
    broadcast use vstd::seq_lib::group_to_multiset_ensures;

    let mut rows = rows;
    let ghost before = rows@;
    shuffle_rows(&mut rows);
    let names = first_names(&rows, amount);
    proof {
        assert(rows@.len() == rows@.to_multiset().len());
        assert(before.len() == before.to_multiset().len());
        let cut: int = if amount <= before.len() {
            amount as int
        } else {
            before.len() as int
        };
        assert(names.deep_view() == names_of(rows@.take(cut)));
    }
    names
}

} // verus!
