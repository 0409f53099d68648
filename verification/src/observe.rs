//! Snapshots of the running process: how many Unix sockets the system
//! lists and how many descriptors the process holds.
use crate::platform::{new_id, now_micros};
use crate::protocol::Timestamp;
use crate::text::{count_lines, line_count};
use vstd::prelude::*;

verus! {

/// What a snapshot records.
#[derive(Debug, Clone)]
pub struct ObservationSnapshot {
    pub snapshot_id: u128,
    pub created_at: Timestamp,
    pub process_id: u32,
    pub socket_count: usize,
    pub open_fd_count: Option<usize>,
    pub note: String,
}

/// The rows of a table that starts with one header line: every line but
/// the first.
pub open spec fn table_row_count(table: Seq<char>) -> nat {
    if line_count(table) == 0 {
        0
    } else {
        (line_count(table) - 1) as nat
    }
}

/// Counts the rows under the header of a table such as `/proc/net/unix`.
pub fn table_rows(table: &str) -> (n: usize)
    ensures
        n == table_row_count(table@),
{
    let lines = count_lines(table);
    if lines == 0 {
        0
    } else {
        lines - 1
    }
}

impl ObservationSnapshot {
    /// A snapshot of process `process_id` with a fresh id and the current
    /// time: its socket count is the number of rows of the socket table
    /// that was read, zero when none could be read.
    pub fn capture(
        note: String,
        process_id: u32,
        socket_table: Option<&str>,
        open_fd_count: Option<usize>,
    ) -> (s: ObservationSnapshot)
        ensures
            s.note == note,
            s.process_id == process_id,
            s.open_fd_count == open_fd_count,
            s.socket_count == match socket_table {
                Some(t) => table_row_count(t@),
                None => 0,
            },
    {
        let socket_count = match socket_table {
            Some(t) => table_rows(t),
            None => 0,
        };
        ObservationSnapshot {
            snapshot_id: new_id(),
            created_at: now_micros(),
            process_id,
            socket_count,
            open_fd_count,
            note,
        }
    }
}

} // verus!
