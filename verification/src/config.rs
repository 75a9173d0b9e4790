//! What the device is configured with.

use vstd::prelude::*;

verus! {

/// Where the batches of one stream go, and how large they grow.
#[derive(Debug, Clone, PartialEq, Eq)]
pub struct StreamConfig {
    pub topic: String,
    pub buf_size: usize,
}

/// Where the spool lies, and how much of it is kept.
#[derive(Debug, Clone, PartialEq, Eq)]
pub struct Persistence {
    pub path: String,
    pub max_file_size: usize,
    pub max_file_count: usize,
}

/// The configuration of a device. `streams` names each stream once; where a
/// name stands twice, the first entry counts.
#[derive(Debug, Clone, PartialEq, Eq)]
pub struct Config {
    pub project_id: String,
    pub device_id: String,
    pub bridge_port: u16,
    pub max_packet_size: usize,
    pub flush_period: Option<u64>,
    pub streams: Vec<(String, StreamConfig)>,
    pub persistence: Option<Persistence>,
}

/// The names of the configured streams, in the order of their entries.
pub open spec fn stream_names(streams: Seq<(String, StreamConfig)>) -> Seq<Seq<char>> {
    streams.map_values(|entry: (String, StreamConfig)| entry.0@)
}

/// The position of the first of `names` that equals `name`, or the length
/// of `names` where none does.
pub open spec fn position(names: Seq<Seq<char>>, name: Seq<char>) -> int
    decreases names.len(),
{
    if names.len() == 0 {
        0
    } else if names[0] == name {
        0
    } else {
        1 + position(names.drop_first(), name)
    }
}

/// `position` points at the name, or past the end where the name does not
/// occur; it does not occur before that position.
pub proof fn lemma_position(names: Seq<Seq<char>>, name: Seq<char>)
    ensures
        0 <= position(names, name) <= names.len(),
        position(names, name) < names.len() ==> names[position(names, name)] == name,
        forall|i: int| 0 <= i < position(names, name) ==> #[trigger] names[i] != name,
    decreases names.len(),
{
    if names.len() > 0 && names[0] != name {
        let rest = names.drop_first();
        lemma_position(rest, name);
        assert forall|i: int| 0 <= i < position(names, name) implies #[trigger] names[i]
            != name by {
            if i > 0 {
                assert(names[i] == rest[i - 1]);
            }
        }
    }
}

/// Where a name occurs at `at` and nowhere before, `position` is `at`;
/// where it occurs nowhere, `position` is the length.
pub proof fn lemma_position_is(names: Seq<Seq<char>>, name: Seq<char>, at: int)
    requires
        0 <= at <= names.len(),
        at < names.len() ==> names[at] == name,
        forall|i: int| 0 <= i < at ==> #[trigger] names[i] != name,
    ensures
        position(names, name) == at,
{
    lemma_position(names, name);
}

impl Config {
    /// The configuration of the stream `name`, if it has one.
    pub fn stream(&self, name: &str) -> (found: Option<&StreamConfig>)
        ensures
            match found {
                Some(config) => {
                    &&& position(stream_names(self.streams@), name@) < self.streams@.len()
                    &&& *config == self.streams@[position(stream_names(self.streams@), name@)].1
                },
                None => position(stream_names(self.streams@), name@) == self.streams@.len(),
            },
    {
        let wanted = name.to_owned();
        let mut i: usize = 0;
        while i < self.streams.len()
            invariant
                i <= self.streams@.len(),
                wanted@ == name@,
                forall|j: int| 0 <= j < i ==> (#[trigger] self.streams@[j]).0@ != name@,
            decreases self.streams@.len() - i,
        {
            if self.streams[i].0 == wanted {
                proof {
                    lemma_position_is(stream_names(self.streams@), name@, i as int);
                }
                return Some(&self.streams[i].1);
            }
            i += 1;
        }
        proof {
            lemma_position_is(stream_names(self.streams@), name@, i as int);
        }
        None
    }
}

} // verus!
