use vstd::prelude::*;

use crate::listing::names;
use crate::text::{trim, trimmed};

verus! {

/// How results are rendered.
#[derive(Clone, Copy, Debug, PartialEq, Eq, Structural)]
pub enum Format {
    Table,
    JSON,
    YAML,
}

/// The operation that one invocation performs.
pub enum Command {
    Get { key: String, watch: bool },
    List { key: String, recursive: bool, show_value: bool },
    Put { key: String, value: String },
    Exists { key: String },
    Delete { key: String },
    Role,
}

/// The settings of one invocation.
pub struct Cli {
    pub format: Format,
    /// Server addresses, `host:port`, separated by commas.
    pub zoo_hosts: String,
    /// Connection timeout in milliseconds.
    pub timeout: u64,
    pub quiet: bool,
    pub command: Option<Command>,
}

/// The pieces of `s` between commas, in order; a string without a comma is one piece.
pub open spec fn comma_fields(s: Seq<char>) -> Seq<Seq<char>>
    decreases s.len(),
{
    if s.len() == 0 {
        seq![Seq::<char>::empty()]
    } else if s.last() == ',' {
        comma_fields(s.drop_last()).push(Seq::<char>::empty())
    } else {
        let f = comma_fields(s.drop_last());
        f.update(f.len() - 1, f.last().push(s.last()))
    }
}

/// Relies on `str::split` with a comma pattern: the pieces between commas, in order.
#[verifier::external_body]
fn split_commas(s: &str) -> (r: Vec<String>)
    ensures
        names(r@) == comma_fields(s@),
{
    s.split(',').map(|piece| piece.to_owned()).collect()
}

/// The duration of a number of milliseconds.
pub uninterp spec fn millis_duration(ms: u64) -> std::time::Duration;

/// Relies on `Duration::from_millis`: the duration of `ms` milliseconds.
#[verifier::external_body]
fn duration_from_millis(ms: u64) -> (r: std::time::Duration)
    ensures
        r == millis_duration(ms),
{
    std::time::Duration::from_millis(ms)
}

/// The server addresses of a host list: its comma-separated pieces, trimmed.
pub open spec fn host_list(s: Seq<char>) -> Seq<Seq<char>> {
    comma_fields(s).map_values(|f: Seq<char>| trimmed(f))
}

impl Cli {
    /// The configured server addresses, in order.
    pub fn get_zoo_hosts(&self) -> (r: Vec<String>)
        ensures
            names(r@) == host_list(self.zoo_hosts@),
    {
        let fields: Vec<String> = split_commas(self.zoo_hosts.as_str());
        let mut r: Vec<String> = Vec::new();
        let mut i: usize = 0;
        while i < fields.len()
            invariant
                i <= fields@.len(),
                names(fields@) == comma_fields(self.zoo_hosts@),
                names(r@) == names(fields@).subrange(0, i as int).map_values(
                    |f: Seq<char>| trimmed(f),
                ),
            decreases fields@.len() - i,
        {
            let host: String = trim(fields[i].as_str());
            let ghost prev: Seq<String> = r@;
            r.push(host);
            proof {
                assert(names(r@) =~= names(prev).push(trimmed(fields@[i as int]@)));
                assert(names(r@) =~= names(fields@).subrange(0, i + 1).map_values(
                    |f: Seq<char>| trimmed(f),
                ));
            }
            i = i + 1;
        }
        assert(names(fields@).subrange(0, i as int) =~= names(fields@));
        r
    }

    /// The connection timeout.
    pub fn get_timeout(&self) -> (r: std::time::Duration)
        ensures
            r == millis_duration(self.timeout),
    {
        duration_from_millis(self.timeout)
    }
}

/// One invocation of the client, over its settings.
pub struct App<'a> {
    pub cli: &'a Cli,
}

impl<'a> App<'a> {
    pub fn new(cli: &'a Cli) -> (r: Self)
        ensures
            r.cli == cli,
    {
        App { cli }
    }
}

} // verus!
