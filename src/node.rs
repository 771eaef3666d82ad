use vstd::prelude::*;
use vstd::utf8::{decode_utf8, valid_utf8};

use crate::listing::names;
use crate::text::decode_text;

verus! {

/// The metadata that the service keeps for a node.
#[derive(Clone, Copy, Debug, PartialEq, Eq, Structural)]
pub struct TabledStat {
    pub czxid: i64,
    pub mzxid: i64,
    pub ctime: i64,
    pub mtime: i64,
    pub version: i32,
    pub cversion: i32,
    pub aversion: i32,
    pub ephemeral_owner: i64,
    pub data_length: i32,
    pub num_children: i32,
    pub pzxid: i64,
}

/// A node read from the service: its path, its value as text, and its metadata.
pub struct GetResult {
    pub key: String,
    pub value: String,
    pub stat: TabledStat,
}

/// The column names of a node record, in the order of its fields.
pub open spec fn column_names() -> Seq<Seq<char>> {
    seq![
        "key"@,
        "value"@,
        "czxid"@,
        "mzxid"@,
        "ctime"@,
        "mtime"@,
        "version"@,
        "cversion"@,
        "aversion"@,
        "ephemeral_owner"@,
        "data_length"@,
        "num_children"@,
        "pzxid"@,
    ]
}

/// The character of a decimal digit.
pub open spec fn digit_char(d: nat) -> char {
    if d == 0 {
        '0'
    } else if d == 1 {
        '1'
    } else if d == 2 {
        '2'
    } else if d == 3 {
        '3'
    } else if d == 4 {
        '4'
    } else if d == 5 {
        '5'
    } else if d == 6 {
        '6'
    } else if d == 7 {
        '7'
    } else if d == 8 {
        '8'
    } else {
        '9'
    }
}

/// The decimal digits of a natural number, most significant first, without
/// leading zeros.
pub open spec fn digits(n: nat) -> Seq<char>
    decreases n,
{
    if n < 10 {
        seq![digit_char(n)]
    } else {
        digits(n / 10).push(digit_char(n % 10))
    }
}

/// The decimal text of an integer, with a leading `-` when it is negative.
pub open spec fn decimal(n: int) -> Seq<char> {
    if n < 0 {
        seq!['-'] + digits((-n) as nat)
    } else {
        digits(n as nat)
    }
}

/// Relies on `i64`'s `to_string`: its decimal text.
#[verifier::external_body]
fn decimal_i64(n: i64) -> (r: String)
    ensures
        r@ == decimal(n as int),
{
    n.to_string()
}

/// Relies on `i32`'s `to_string`: its decimal text.
#[verifier::external_body]
fn decimal_i32(n: i32) -> (r: String)
    ensures
        r@ == decimal(n as int),
{
    n.to_string()
}

/// The cells of a node record, in the order of `column_names`.
pub open spec fn cells(g: GetResult) -> Seq<Seq<char>> {
    seq![
        g.key@,
        g.value@,
        decimal(g.stat.czxid as int),
        decimal(g.stat.mzxid as int),
        decimal(g.stat.ctime as int),
        decimal(g.stat.mtime as int),
        decimal(g.stat.version as int),
        decimal(g.stat.cversion as int),
        decimal(g.stat.aversion as int),
        decimal(g.stat.ephemeral_owner as int),
        decimal(g.stat.data_length as int),
        decimal(g.stat.num_children as int),
        decimal(g.stat.pzxid as int),
    ]
}

impl GetResult {
    /// The cells of the record as text, one for each column.
    pub fn fields(&self) -> (r: Vec<String>)
        ensures
            names(r@) == cells(*self),
    {
        let mut r: Vec<String> = Vec::new();
        r.push(self.key.clone());
        r.push(self.value.clone());
        r.push(decimal_i64(self.stat.czxid));
        r.push(decimal_i64(self.stat.mzxid));
        r.push(decimal_i64(self.stat.ctime));
        r.push(decimal_i64(self.stat.mtime));
        r.push(decimal_i32(self.stat.version));
        r.push(decimal_i32(self.stat.cversion));
        r.push(decimal_i32(self.stat.aversion));
        r.push(decimal_i64(self.stat.ephemeral_owner));
        r.push(decimal_i32(self.stat.data_length));
        r.push(decimal_i32(self.stat.num_children));
        r.push(decimal_i64(self.stat.pzxid));
        assert(names(r@) =~= cells(*self));
        r
    }

    /// The record of a node from what the service returned for it; `None`
    /// where the stored value is not UTF-8 text.
    pub fn from_fetch(key: &String, data: &Vec<u8>, stat: TabledStat) -> (r: Option<GetResult>)
        ensures
            r is Some <==> valid_utf8(data@),
            r matches Some(g) ==> g.key@ == key@ && g.value@ == decode_utf8(data@) && g.stat
                == stat,
    {
        match decode_text(data.as_slice()) {
            Some(value) => Some(GetResult { key: key.clone(), value, stat }),
            None => None,
        }
    }

    /// The column names of a node record.
    pub fn headers() -> (r: Vec<String>)
        ensures
            names(r@) == column_names(),
    {
        let mut r: Vec<String> = Vec::new();
        r.push("key".to_owned());
        r.push("value".to_owned());
        r.push("czxid".to_owned());
        r.push("mzxid".to_owned());
        r.push("ctime".to_owned());
        r.push("mtime".to_owned());
        r.push("version".to_owned());
        r.push("cversion".to_owned());
        r.push("aversion".to_owned());
        r.push("ephemeral_owner".to_owned());
        r.push("data_length".to_owned());
        r.push("num_children".to_owned());
        r.push("pzxid".to_owned());
        assert(names(r@) =~= column_names());
        r
    }
}

} // verus!
