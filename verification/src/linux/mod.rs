//! The limits table of GNU/Linux: the file `/proc/<pid>/limits`, its rows,
//! and the record that they fill.
//!
//! The table is text. Its first line is a header. Each line after it names a
//! property in its first 26 characters and gives, behind them, the soft limit
//! and the hard limit of that property and perhaps a unit. A limit is a
//! decimal number, or the word `unlimited`.

use vstd::prelude::*;
use crate::decimal::{append_decimal, decimal_digits, parse_decimal, parse_u32};
use crate::text::{lowercase, str_eq, to_lowercase};
use crate::linux::property::Property;
use crate::linux::row::{row_fields, split_row};
use crate::Error;

pub mod laws;
pub mod property;
pub mod row;

verus! {

/// The two limits of one property: the soft limit, which holds now and
/// which the process may raise, and the hard limit, up to which it may
/// raise it. `None` on a side means that the side is not limited. Nothing
/// keeps the soft limit at or below the hard one: both are taken as the
/// table gives them.
#[derive(Debug, Clone, Copy, PartialEq, Eq)]
pub struct Limit {
    pub soft: Option<u32>,
    pub hard: Option<u32>,
}

/// What one limit of a table says: `unlimited` and every text that is no
/// unsigned 32-bit numeral stand for no limit, a numeral for its value.
pub open spec fn limit_value(token: Seq<char>) -> Option<u32> {
    if token == "unlimited"@ {
        None
    } else {
        parse_u32(token)
    }
}

/// Reads one limit of a table. No text is refused.
pub fn parse_limit_value(token: &str) -> (value: Option<u32>)
    ensures
        value == limit_value(token@),
{
    if str_eq(token, "unlimited") {
        None
    } else {
        parse_decimal(token)
    }
}

impl Limit {
    /// The limit without a bound on either side.
    pub open spec fn unlimited() -> Limit {
        Limit { soft: None, hard: None }
    }

    /// The limit that the two texts of a row stand for.
    pub open spec fn of_tokens(soft: Seq<char>, hard: Seq<char>) -> Limit {
        Limit { soft: limit_value(soft), hard: limit_value(hard) }
    }

    /// Reads the two limits of a row.
    pub fn from_strings(soft_string: &str, hard_string: &str) -> (limit: Limit)
        ensures
            limit == Limit::of_tokens(soft_string@, hard_string@),
    {
        Limit { soft: parse_limit_value(soft_string), hard: parse_limit_value(hard_string) }
    }
}

impl Default for Limit {
    fn default() -> (limit: Limit)
        ensures
            limit == Limit::unlimited(),
    {
        Limit { soft: None, hard: None }
    }
}

/// The limits of one process, one for each of the sixteen properties that
/// can be limited. A property of which a table says nothing is not limited.
#[derive(Debug, Clone, Copy, PartialEq, Eq)]
pub struct Limits {
    pub max_cpu_time: Limit,
    pub max_file_size: Limit,
    pub max_data_size: Limit,
    pub max_stack_size: Limit,
    pub max_core_file_size: Limit,
    pub max_resident_set: Limit,
    pub max_processes: Limit,
    pub max_open_files: Limit,
    pub max_locked_memory: Limit,
    pub max_address_space: Limit,
    pub max_file_locks: Limit,
    pub max_pending_signals: Limit,
    pub max_msgqueue_size: Limit,
    pub max_nice_priority: Limit,
    pub max_realtime_priority: Limit,
    pub max_realtime_timeout: Limit,
}

impl Default for Limits {
    fn default() -> (limits: Limits)
        ensures
            limits == Limits::unlimited(),
    {
        let none = Limit { soft: None, hard: None };
        Limits {
            max_cpu_time: none,
            max_file_size: none,
            max_data_size: none,
            max_stack_size: none,
            max_core_file_size: none,
            max_resident_set: none,
            max_processes: none,
            max_open_files: none,
            max_locked_memory: none,
            max_address_space: none,
            max_file_locks: none,
            max_pending_signals: none,
            max_msgqueue_size: none,
            max_nice_priority: none,
            max_realtime_priority: none,
            max_realtime_timeout: none,
        }
    }
}

impl Limits {
    /// The record in which nothing is limited: what a table without rows
    /// gives.
    pub open spec fn unlimited() -> Limits {
        Limits {
            max_cpu_time: Limit::unlimited(),
            max_file_size: Limit::unlimited(),
            max_data_size: Limit::unlimited(),
            max_stack_size: Limit::unlimited(),
            max_core_file_size: Limit::unlimited(),
            max_resident_set: Limit::unlimited(),
            max_processes: Limit::unlimited(),
            max_open_files: Limit::unlimited(),
            max_locked_memory: Limit::unlimited(),
            max_address_space: Limit::unlimited(),
            max_file_locks: Limit::unlimited(),
            max_pending_signals: Limit::unlimited(),
            max_msgqueue_size: Limit::unlimited(),
            max_nice_priority: Limit::unlimited(),
            max_realtime_priority: Limit::unlimited(),
            max_realtime_timeout: Limit::unlimited(),
        }
    }

    /// The limit that the record holds for `property`.
    pub open spec fn get(self, property: Property) -> Limit {
        match property {
            Property::MaxCpuTime => self.max_cpu_time,
            Property::MaxFileSize => self.max_file_size,
            Property::MaxDataSize => self.max_data_size,
            Property::MaxStackSize => self.max_stack_size,
            Property::MaxCoreFileSize => self.max_core_file_size,
            Property::MaxResidentSet => self.max_resident_set,
            Property::MaxProcesses => self.max_processes,
            Property::MaxOpenFiles => self.max_open_files,
            Property::MaxLockedMemory => self.max_locked_memory,
            Property::MaxAddressSpace => self.max_address_space,
            Property::MaxFileLocks => self.max_file_locks,
            Property::MaxPendingSignals => self.max_pending_signals,
            Property::MaxMsgqueueSize => self.max_msgqueue_size,
            Property::MaxNicePriority => self.max_nice_priority,
            Property::MaxRealtimePriority => self.max_realtime_priority,
            Property::MaxRealtimeTimeout => self.max_realtime_timeout,
        }
    }

    /// The record with `limit` in the place of `property` and every other
    /// limit as it was.
    pub open spec fn with(self, property: Property, limit: Limit) -> Limits {
        match property {
            Property::MaxCpuTime => Limits { max_cpu_time: limit, ..self },
            Property::MaxFileSize => Limits { max_file_size: limit, ..self },
            Property::MaxDataSize => Limits { max_data_size: limit, ..self },
            Property::MaxStackSize => Limits { max_stack_size: limit, ..self },
            Property::MaxCoreFileSize => Limits { max_core_file_size: limit, ..self },
            Property::MaxResidentSet => Limits { max_resident_set: limit, ..self },
            Property::MaxProcesses => Limits { max_processes: limit, ..self },
            Property::MaxOpenFiles => Limits { max_open_files: limit, ..self },
            Property::MaxLockedMemory => Limits { max_locked_memory: limit, ..self },
            Property::MaxAddressSpace => Limits { max_address_space: limit, ..self },
            Property::MaxFileLocks => Limits { max_file_locks: limit, ..self },
            Property::MaxPendingSignals => Limits { max_pending_signals: limit, ..self },
            Property::MaxMsgqueueSize => Limits { max_msgqueue_size: limit, ..self },
            Property::MaxNicePriority => Limits { max_nice_priority: limit, ..self },
            Property::MaxRealtimePriority => Limits { max_realtime_priority: limit, ..self },
            Property::MaxRealtimeTimeout => Limits { max_realtime_timeout: limit, ..self },
        }
    }

    /// The record after a row with the label `name` and the limits `soft`
    /// and `hard`. The label counts in its lower-case form. Where that names
    /// a property, the row's limit takes the property's place; where it names
    /// none, the row changes nothing.
    pub open spec fn with_row(self, name: Seq<char>, soft: Seq<char>, hard: Seq<char>) -> Limits {
        match Property::named(lowercase(name)) {
            Some(property) => self.with(property, Limit::of_tokens(soft, hard)),
            None => self,
        }
    }

    /// The record after the line `line` of a table: after its row, or
    /// unchanged where the line is no row.
    pub open spec fn with_line(self, line: Seq<char>) -> Limits {
        match row_fields(line) {
            Some((label, soft, hard)) => self.with_row(label, soft, hard),
            None => self,
        }
    }

    /// The record after the lines `lines`, taken in their order. Where two
    /// rows name one property, the later one stays.
    pub open spec fn with_lines(self, lines: Seq<Seq<char>>) -> Limits
        decreases lines.len(),
    {
        if lines.len() == 0 {
            self
        } else {
            self.with_lines(lines.drop_last()).with_line(lines.last())
        }
    }

    /// The record that a table gives, from what reading it line by line
    /// gave: nothing is limited at first, and then the lines behind the
    /// header are taken in their order.
    pub open spec fn of_table(reads: Seq<Result<String, std::io::Error>>) -> Limits {
        Limits::unlimited().with_lines(lines_behind_header(reads))
    }

    /// The limit that the record holds for `property`.
    pub fn limit(&self, property: Property) -> (limit: Limit)
        ensures
            limit == self.get(property),
    {
        match property {
            Property::MaxCpuTime => self.max_cpu_time,
            Property::MaxFileSize => self.max_file_size,
            Property::MaxDataSize => self.max_data_size,
            Property::MaxStackSize => self.max_stack_size,
            Property::MaxCoreFileSize => self.max_core_file_size,
            Property::MaxResidentSet => self.max_resident_set,
            Property::MaxProcesses => self.max_processes,
            Property::MaxOpenFiles => self.max_open_files,
            Property::MaxLockedMemory => self.max_locked_memory,
            Property::MaxAddressSpace => self.max_address_space,
            Property::MaxFileLocks => self.max_file_locks,
            Property::MaxPendingSignals => self.max_pending_signals,
            Property::MaxMsgqueueSize => self.max_msgqueue_size,
            Property::MaxNicePriority => self.max_nice_priority,
            Property::MaxRealtimePriority => self.max_realtime_priority,
            Property::MaxRealtimeTimeout => self.max_realtime_timeout,
        }
    }

    /// Puts `limit` in the place of `property`.
    pub fn set(&mut self, property: Property, limit: Limit)
        ensures
            *final(self) == old(self).with(property, limit),
    {
        match property {
            Property::MaxCpuTime => self.max_cpu_time = limit,
            Property::MaxFileSize => self.max_file_size = limit,
            Property::MaxDataSize => self.max_data_size = limit,
            Property::MaxStackSize => self.max_stack_size = limit,
            Property::MaxCoreFileSize => self.max_core_file_size = limit,
            Property::MaxResidentSet => self.max_resident_set = limit,
            Property::MaxProcesses => self.max_processes = limit,
            Property::MaxOpenFiles => self.max_open_files = limit,
            Property::MaxLockedMemory => self.max_locked_memory = limit,
            Property::MaxAddressSpace => self.max_address_space = limit,
            Property::MaxFileLocks => self.max_file_locks = limit,
            Property::MaxPendingSignals => self.max_pending_signals = limit,
            Property::MaxMsgqueueSize => self.max_msgqueue_size = limit,
            Property::MaxNicePriority => self.max_nice_priority = limit,
            Property::MaxRealtimePriority => self.max_realtime_priority = limit,
            Property::MaxRealtimeTimeout => self.max_realtime_timeout = limit,
        }
    }

    /// Takes one row into the record: the limits `soft_string` and
    /// `hard_string` of the property that `name` names. A name in any mix of
    /// upper and lower case is known; a name that is no property's is passed
    /// over, and so is no error.
    pub fn set_property_from_strings(&mut self, name: &str, soft_string: &str, hard_string: &str)
        ensures
            *final(self) == old(self).with_row(name@, soft_string@, hard_string@),
    {
        let lower_case = to_lowercase(name);
        let new_limit = Limit::from_strings(soft_string, hard_string);
        match Property::from_label(lower_case.as_str()) {
            Some(property) => self.set(property, new_limit),
            None => (),
        }
    }

    /// Takes one line of a table into the record. A line that is no row
    /// is passed over.
    pub fn set_properties_from_line(&mut self, line: &str)
        ensures
            *final(self) == old(self).with_line(line@),
    {
        match split_row(line) {
            Some((label, soft, hard)) => self.set_property_from_strings(label, soft, hard),
            None => (),
        }
    }
}

/// The lines that were read, in their order: of the outcomes `reads` those
/// that hold a line, without the failures between them.
pub open spec fn decoded(reads: Seq<Result<String, std::io::Error>>) -> Seq<Seq<char>>
    decreases reads.len(),
{
    if reads.len() == 0 {
        Seq::empty()
    } else {
        match reads.last() {
            Ok(line) => decoded(reads.drop_last()).push(line@),
            Err(_) => decoded(reads.drop_last()),
        }
    }
}

/// The lines of a table that can hold rows. The first outcome of reading
/// is the header's, whatever it is, and counts for nothing; of the outcomes
/// behind it those count that hold a line.
pub open spec fn lines_behind_header(reads: Seq<Result<String, std::io::Error>>) -> Seq<Seq<char>> {
    if reads.len() == 0 {
        Seq::empty()
    } else {
        decoded(reads.drop_first())
    }
}

/// The limits that a table says, from what reading it line by line gave:
/// `reads` holds, for each line in turn, the line without its end-of-line
/// or the failure to read it, as `std::io::BufRead::lines` hands them out.
///
/// The first line is the header and is dropped. A line behind it that
/// could not be read is left out and stops nothing; a line that is no row
/// is passed over; the rows fill the record. The result is always `Ok`,
/// also for a table of no lines at all.
pub fn get_limits_from_reader(reads: Vec<Result<String, std::io::Error>>) -> (result: Result<
    Limits,
    Error,
>)
    ensures
        result == Ok::<Limits, Error>(Limits::of_table(reads@)),
{
    let mut limits = Limits::default();
    if reads.len() == 0 {
        return Ok(limits);
    }
    let mut i: usize = 1;
    assert(reads@.subrange(1, 1) == Seq::<Result<String, std::io::Error>>::empty());
    while i < reads.len()
        invariant
            1 <= i <= reads.len(),
            limits == Limits::unlimited().with_lines(decoded(reads@.subrange(1, i as int))),
        decreases reads.len() - i,
    {
        assert(reads@.subrange(1, i + 1).drop_last() == reads@.subrange(1, i as int));
        match &reads[i] {
            Ok(line) => {
                let ghost before = decoded(reads@.subrange(1, i as int));
                assert(before.push(line@).drop_last() == before);
                limits.set_properties_from_line(line.as_str());
            },
            Err(_) => {},
        }
        i += 1;
    }
    assert(reads@.subrange(1, i as int) == reads@.drop_first());
    Ok(limits)
}

/// The path of the limits table of the process `pid`.
pub open spec fn limits_path_text(pid: u32) -> Seq<char> {
    "/proc/"@ + decimal_digits(pid as nat) + "/limits"@
}

/// The path of the limits table of the process `pid`: `/proc/`, the
/// process id in decimal digits, and `/limits`.
pub fn limits_path(pid: u32) -> (path: String)
    ensures
        path@ == limits_path_text(pid),
{
    let mut path = String::from_str("/proc/");
    append_decimal(&mut path, pid);
    path.append("/limits");
    path
}

/// The limits of the process `pid`, from what opening and reading its table
/// gave. `opened` is the outcome of opening the file at [`limits_path`] of
/// `pid` and, where that went well, of reading it line by line.
///
/// Where the file could not be opened the answer is
/// [`Error::ProcFileNotFound`], with the path that was tried and the cause
/// as it was handed in. Where it could, the answer is what
/// [`get_limits_from_reader`] makes of its lines.
pub fn get_pid_limits(
    pid: u32,
    opened: Result<Vec<Result<String, std::io::Error>>, std::io::Error>,
) -> (result: Result<Limits, Error>)
    ensures
        match opened {
            Ok(reads) => result == Ok::<Limits, Error>(Limits::of_table(reads@)),
            Err(cause) => result matches Err(Error::ProcFileNotFound(path, source))
                && path@ == limits_path_text(pid) && source == cause,
        },
{
    match opened {
        Ok(reads) => get_limits_from_reader(reads),
        Err(io_error) => Err(Error::ProcFileNotFound(limits_path(pid), io_error)),
    }
}

} // verus!
