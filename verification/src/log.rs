//! The command log: each `set` or `rm` becomes a record that names the
//! record before it, stored under the decimal name of its number.
use vstd::prelude::*;
use crate::utils::{decimal, parse_u64, parse_u64_spec, u64_to_decimal, lemma_parse_decimal};

verus! {

/// The key and, for a `set`, the value that a log record carries.
#[derive(Debug, Clone)]
pub struct KvPair {
    pub key: String,
    pub value: Option<String>,
}

/// One record of the log: the number of the record before it, the command
/// (`"set"` or `"rm"`) and its key and value.
#[derive(Debug, Clone)]
pub struct LogEntry {
    pub previous: u64,
    pub command: String,
    pub kv_pair: KvPair,
}

/// The head of the log: the number of the newest record, the number of the
/// record before it, and the newest record itself (`None` before any record
/// was written).
#[derive(Debug)]
pub struct Log {
    pub current: u64,
    pub previous: u64,
    pub log_dict: Option<LogEntry>,
}

/// The names in `names` that parse as a record number, and `highest` is the
/// name to load: `None` when no name parses, else the first of the names
/// that parse to the greatest number.
pub open spec fn is_highest_numbered(names: Seq<Seq<char>>, highest: Option<Seq<char>>) -> bool {
    match highest {
        None => forall|i: int| 0 <= i < names.len() ==> (#[trigger] parse_u64_spec(names[i])) is None,
        Some(h) => exists|k: int|
            {
                &&& 0 <= k < names.len()
                &&& names[k] == h
                &&& parse_u64_spec(h) is Some
                &&& forall|i: int|
                    0 <= i < names.len() && (#[trigger] parse_u64_spec(names[i])) is Some
                        ==> parse_u64_spec(names[i])->0 <= parse_u64_spec(h)->0
                &&& forall|i: int|
                    0 <= i < k && (#[trigger] parse_u64_spec(names[i])) is Some
                        ==> parse_u64_spec(names[i])->0 < parse_u64_spec(h)->0
            },
    }
}

/// Reloading finds the newest record: when the directory holds the file
/// that `append` named after record `current` and no file is numbered above
/// `current`, the name picked as highest parses back to `current`.
pub proof fn lemma_reload_finds_newest(
    names: Seq<Seq<char>>,
    current: u64,
    highest: Option<Seq<char>>,
)
    requires
        is_highest_numbered(names, highest),
        names.contains(decimal(current as nat)),
        forall|i: int|
            0 <= i < names.len() && (#[trigger] parse_u64_spec(names[i])) is Some
                ==> parse_u64_spec(names[i])->0 <= current,
    ensures
        highest matches Some(h) && parse_u64_spec(h) == Some(current),
{
    lemma_parse_decimal(current);
    let k = choose|k: int| 0 <= k < names.len() && names[k] == decimal(current as nat);
    assert(parse_u64_spec(names[k]) == Some(current));
}

/// `after` is the log `before` once a record for `command` on `kv_pair` was
/// appended: the record gets the next number and points back at the
/// number that was newest.
pub open spec fn appended(before: Log, command: String, kv_pair: KvPair, after: Log) -> bool {
    &&& after.previous == before.current
    &&& after.current == before.current + 1
    &&& after.log_dict == Some(
        LogEntry { previous: before.current, command: command, kv_pair: kv_pair },
    )
}

/// An append gives the new record the number right after the newest one
/// and points it back at the old newest: `current` grows by exactly one,
/// `previous` becomes the old `current`, and the record carries the
/// command, the pair and that back pointer.
pub proof fn law_append_next_number(before: Log, command: String, kv_pair: KvPair, after: Log)
    requires
        appended(before, command, kv_pair, after),
    ensures
        after.current == before.current + 1,
        after.previous == before.current,
        after.log_dict matches Some(e) && e.previous == before.current && e.command == command
            && e.kv_pair == kv_pair,
{
}

/// Record numbers follow each other: in a log that starts empty (record 1
/// after record 0) and grows only by appends, every state has
/// `current == previous + 1`, and once a record was appended it points back
/// at `previous`.
pub proof fn law_log_numbers_follow(logs: Seq<Log>, commands: Seq<String>, pairs: Seq<KvPair>)
    requires
        logs.len() >= 1,
        logs[0].current == 1,
        logs[0].previous == 0,
        logs[0].log_dict is None,
        commands.len() == logs.len() - 1,
        pairs.len() == logs.len() - 1,
        forall|i: int|
            0 <= i < logs.len() - 1 ==> #[trigger] appended(logs[i], commands[i], pairs[i], logs[i + 1]),
    ensures
        forall|i: int| 0 <= i < logs.len() ==> (#[trigger] logs[i]).chained() && logs[i].wf(),
{
    assert forall|i: int| 0 <= i < logs.len() implies (#[trigger] logs[i]).chained() && logs[i].wf() by {
        if i > 0 {
            let j = i - 1;
            assert(appended(logs[j], commands[j], pairs[j], logs[j + 1]));
            assert(j + 1 == i);
        }
    }
}

/// `log` is the log restored from the record `entry` stored under the
/// name `id`: its number is what `id` parses to, and it points back where
/// the record does.
pub open spec fn restores(log: Log, id: Seq<char>, entry: LogEntry) -> bool {
    &&& log.current == parse_u64_spec(id)->0
    &&& log.previous == entry.previous
    &&& log.log_dict == Some(entry)
}

/// Reloading gives back the log: take a log `l` whose newest record was
/// written by `append` under `l.file_name()`, a directory whose file names
/// `names` include that name and no number above `l.current`, the name
/// `highest` picked from them, and the log `l2` restored from `highest` and
/// the record read back unchanged. Then `l2` has the number, the back
/// pointer and the record of `l`.
pub proof fn law_reload_round_trip(
    l: Log,
    names: Seq<Seq<char>>,
    highest: Option<Seq<char>>,
    l2: Log,
)
    requires
        l.wf(),
        l.log_dict is Some,
        names.contains(decimal(l.current as nat)),
        forall|i: int|
            0 <= i < names.len() && (#[trigger] parse_u64_spec(names[i])) is Some
                ==> parse_u64_spec(names[i])->0 <= l.current,
        is_highest_numbered(names, highest),
        highest matches Some(h) ==> restores(l2, h, l.log_dict->0),
    ensures
        highest is Some,
        l2.current == l.current,
        l2.previous == l.previous,
        l2.log_dict == l.log_dict,
{
    lemma_reload_finds_newest(names, l.current, highest);
}

impl Default for Log {
    fn default() -> (log: Log)
        ensures
            log.current == 1,
            log.previous == 0,
            log.log_dict is None,
            log.wf(),
            log.chained(),
    {
        Self::new()
    }
}

impl Log {
    /// The newest record's number follows the one before it.
    pub open spec fn chained(self) -> bool {
        self.current == self.previous + 1
    }

    /// The newest record, when there is one, points back at `previous`.
    pub open spec fn wf(self) -> bool {
        self.log_dict matches Some(e) ==> e.previous == self.previous
    }

    /// An empty log: the next record gets number 2, after record 1.
    pub fn new() -> (log: Log)
        ensures
            log.current == 1,
            log.previous == 0,
            log.log_dict is None,
            log.wf(),
            log.chained(),
    {
        Log { current: 1, previous: 0, log_dict: None }
    }

    /// Adds a record for `command` on `kv_pair`: it gets the next number
    /// and names the record that was newest before it.
    pub fn append(&mut self, command: String, kv_pair: KvPair)
        requires
            old(self).current < u64::MAX,
        ensures
            appended(*old(self), command, kv_pair, *final(self)),
            final(self).wf(),
            final(self).chained(),
    {
        self.previous = self.current;
        self.current = self.current + 1;
        self.log_dict = Some(self.create_entry(command, kv_pair));
    }

    /// The record for `command` on `kv_pair`, pointing back at `previous`.
    fn create_entry(&self, command: String, kv_pair: KvPair) -> (entry: LogEntry)
        ensures
            entry == (LogEntry { previous: self.previous, command: command, kv_pair: kv_pair }),
    {
        LogEntry { previous: self.previous, command, kv_pair }
    }

    /// The name under which the newest record is stored: the decimal
    /// text of its number.
    pub fn file_name(&self) -> (name: String)
        ensures
            name@ == decimal(self.current as nat),
            parse_u64_spec(name@) == Some(self.current),
    {
        proof {
            lemma_parse_decimal(self.current);
        }
        u64_to_decimal(self.current)
    }

    /// Among the names of the files in the log's directory, the one that
    /// holds the newest record: the first name that parses to the greatest
    /// record number, or `None` when no name is a number.
    pub fn find_highest_numbered_file(&self, file_names: &Vec<String>) -> (highest: Option<String>)
        ensures
            is_highest_numbered(file_names.deep_view(), match highest {
                Some(h) => Some(h@),
                None => None,
            }),
    {
        let ghost names = file_names.deep_view();
        let mut highest_number: Option<u64> = None;
        let mut highest_file_name: Option<String> = None;
        let ghost mut at: int = 0;
        let mut i: usize = 0;
        while i < file_names.len()
            invariant
                i <= file_names.len(),
                names == file_names.deep_view(),
                names.len() == file_names.len(),
                highest_number is None <==> highest_file_name is None,
                highest_number is None ==> forall|j: int|
                    0 <= j < i ==> (#[trigger] parse_u64_spec(names[j])) is None,
                highest_number matches Some(v) ==> {
                    &&& 0 <= at < i
                    &&& highest_file_name matches Some(h) && h@ == names[at]
                    &&& parse_u64_spec(names[at]) == Some(v)
                    &&& forall|j: int|
                        0 <= j < i && (#[trigger] parse_u64_spec(names[j])) is Some
                            ==> parse_u64_spec(names[j])->0 <= v
                    &&& forall|j: int|
                        0 <= j < at && (#[trigger] parse_u64_spec(names[j])) is Some
                            ==> parse_u64_spec(names[j])->0 < v
                },
            decreases file_names.len() - i,
        {
            let name = &file_names[i];
            assert(names[i as int] == name@);
            match parse_u64(name.as_str()) {
                Some(number) => {
                    let higher = match highest_number {
                        None => true,
                        Some(h) => number > h,
                    };
                    if higher {
                        highest_number = Some(number);
                        highest_file_name = Some(name.clone());
                        proof {
                            at = i as int;
                        }
                    }
                },
                None => {},
            }
            i = i + 1;
        }
        proof {
            if highest_file_name is Some {
                assert(names[at] == highest_file_name->0@);
            }
        }
        highest_file_name
    }

    /// The log as it stands after the record `unique_id`, which holds
    /// `data_dict`, was written.
    pub fn get_log_from_dict(unique_id: &str, data_dict: LogEntry) -> (log: Log)
        requires
            parse_u64_spec(unique_id@) is Some,
        ensures
            restores(log, unique_id@, data_dict),
            log.wf(),
    {
        let current = match parse_u64(unique_id) {
            Some(n) => n,
            None => 0,
        };
        Log { current, previous: data_dict.previous, log_dict: Some(data_dict) }
    }

    /// The log found on disk: empty when no record was written, else as it
    /// stands after `latest`, the newest record and the name it is stored
    /// under.
    pub fn load(&self, latest: Option<(String, LogEntry)>) -> (log: Log)
        requires
            latest matches Some((id, _)) ==> parse_u64_spec(id@) is Some,
        ensures
            match latest {
                None => log.current == 1 && log.previous == 0 && log.log_dict is None,
                Some((id, entry)) => restores(log, id@, entry),
            },
    {
        match latest {
            None => Log::new(),
            Some((id, entry)) => Log::get_log_from_dict(id.as_str(), entry),
        }
    }
}

} // verus!
