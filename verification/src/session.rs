//! Rules of a running session that need neither the terminal nor the
//! network: moving a selection, keeping the log, measuring traffic, and
//! keeping count of the updates that are under way.

use crate::clash_types::{Connection, LogEntry, Rule};
use crate::locate::paths::{mentions, mentions_word};
use crate::text::{
    ascii_lowered, chars_of, decimal_text, opt_text, push_decimal, push_word, string_of, texts,
    to_ascii_lower,
};
use vstd::prelude::*;

verus! {

/// How many lines of the log are kept.
pub const LOG_LIMIT: usize = 1000;

/// The selection one up, or where it is at the top.
pub fn select_previous(index: usize) -> (next: usize)
    ensures
        next == if index > 0 {
            index - 1
        } else {
            0
        },
{
    if index > 0 {
        index - 1
    } else {
        0
    }
}

/// The selection one down, or where it is at the last of `len` items.
pub fn select_next(index: usize, len: usize) -> (next: usize)
    ensures
        next == if index + 1 < len {
            index + 1
        } else {
            index as int
        },
{
    if len > 0 && index < len - 1 {
        index + 1
    } else {
        index
    }
}

/// The selection brought back into a list of `len` items.
pub fn clamp_selection(index: usize, len: usize) -> (next: usize)
    ensures
        next == if len == 0 {
            0
        } else if index < len {
            index as int
        } else {
            len - 1
        },
{
    if len == 0 {
        0
    } else if index < len {
        index
    } else {
        len - 1
    }
}

/// The first row of a list that is shown, where `height` rows fit: the
/// list from its start where it fits whole, else so that the selected row
/// is the last one shown or the list ends with the last row.
pub open spec fn first_visible(selected: usize, len: usize, height: usize) -> int {
    if height == 0 || len <= height {
        0
    } else if selected + 1 <= height {
        0
    } else if selected + 1 - height <= len - height {
        selected + 1 - height
    } else {
        len - height
    }
}

/// The rows of a list that are shown, from the first to before the last.
pub fn visible_range(selected: usize, len: usize, height: usize) -> (range: (usize, usize))
    ensures
        range.0 == first_visible(selected, len, height),
        range.1 == if height == 0 || len <= height {
            len as int
        } else {
            range.0 + height
        },
        range.0 <= range.1 <= len,
        selected < len && height > 0 ==> range.0 <= selected < range.1,
{
    if height == 0 || len <= height {
        return (0, len);
    }
    let wanted: usize = if selected >= height {
        selected - (height - 1)
    } else {
        0
    };
    let start: usize = if wanted <= len - height {
        wanted
    } else {
        len - height
    };
    (start, start + height)
}

/// True when a text holds the words that are looked for, whatever the case
/// of the ASCII letters of either. Nothing looked for is found in any text.
pub open spec fn found_in(text: Seq<char>, query: Seq<char>) -> bool {
    mentions(text, ascii_lowered(query))
}

/// Whether a text holds what is looked for.
pub fn matches_query(text: &str, query: &str) -> (yes: bool)
    ensures
        yes == found_in(text@, query@),
{
    let q = chars_of(query);
    let lowered = to_ascii_lower(q.as_slice());
    let word = string_of(lowered.as_slice());
    mentions_word(text, word.as_str())
}

/// Whether one of the texts holds what is looked for.
pub fn any_matches(list: &Vec<String>, query: &str) -> (yes: bool)
    ensures
        yes == exists|i: int| 0 <= i < list@.len() && found_in(#[trigger] list@[i]@, query@),
{
    let mut i: usize = 0;
    while i < list.len()
        invariant
            i <= list.len(),
            forall|k: int| 0 <= k < i ==> !found_in(#[trigger] list@[k]@, query@),
        decreases list.len() - i,
    {
        if matches_query(list[i].as_str(), query) {
            return true;
        }
        i += 1;
    }
    false
}

/// Whether a rule is shown for a search: its payload, its target or its
/// type holds what is looked for.
pub fn rule_matches(rule: &Rule, query: &str) -> (yes: bool)
    ensures
        yes == (found_in(rule.payload@, query@) || found_in(rule.proxy@, query@) || found_in(
            rule.rule_type@,
            query@,
        )),
{
    matches_query(rule.payload.as_str(), query) || matches_query(rule.proxy.as_str(), query)
        || matches_query(rule.rule_type.as_str(), query)
}

/// Whether a line of the log is shown for a search: its message holds what
/// is looked for.
pub fn log_matches(entry: &LogEntry, query: &str) -> (yes: bool)
    ensures
        yes == found_in(entry.message@, query@),
{
    matches_query(entry.message.as_str(), query)
}

/// Whether a connection is shown for a search: its host, its destination,
/// its rule or one of its chains holds what is looked for.
pub fn connection_matches(connection: &Connection, query: &str) -> (yes: bool)
    ensures
        yes == ((match connection.metadata.host {
            Some(host) => found_in(host@, query@),
            None => found_in(Seq::empty(), query@),
        }) || found_in(connection.metadata.destination_ip@, query@) || found_in(
            connection.rule@,
            query@,
        ) || exists|i: int|
            0 <= i < connection.chains@.len() && found_in(
                #[trigger] connection.chains@[i]@,
                query@,
            )),
{
    let host = match &connection.metadata.host {
        Some(host) => matches_query(host.as_str(), query),
        None => matches_query("", query),
    };
    proof {
        reveal_strlit("");
        assert(""@ =~= Seq::<char>::empty());
    }
    host || matches_query(connection.metadata.destination_ip.as_str(), query) || matches_query(
        connection.rule.as_str(),
        query,
    ) || any_matches(&connection.chains, query)
}

/// Puts a new line at the head of the log and drops what goes beyond the
/// limit.
pub fn push_log(logs: &mut Vec<LogEntry>, entry: LogEntry)
    ensures
        final(logs)@ == if old(logs)@.len() < LOG_LIMIT {
            seq![entry] + old(logs)@
        } else {
            (seq![entry] + old(logs)@).take(LOG_LIMIT as int)
        },
{
    logs.insert(0, entry);
    assert(logs@ =~= seq![entry] + old(logs)@);
    if logs.len() > LOG_LIMIT {
        logs.truncate(LOG_LIMIT);
        assert(logs@ =~= (seq![entry] + old(logs)@).take(LOG_LIMIT as int));
    }
}

/// The bytes per second that went through between two readings of a
/// counter; nothing for a counter that went back and where no second
/// passed.
pub fn transfer_rate(previous_total: u64, total: u64, elapsed_secs: u64) -> (rate: u64)
    ensures
        rate == if elapsed_secs == 0 || total <= previous_total {
            0
        } else {
            (total - previous_total) / elapsed_secs as int
        },
{
    if elapsed_secs == 0 || total <= previous_total {
        0
    } else {
        (total - previous_total) / elapsed_secs
    }
}

/// How the updates that were started are doing.
#[derive(Debug, Clone, Copy, PartialEq, Eq, Structural)]
pub struct UpdateProgress {
    /// How many have not ended yet.
    pub in_flight: u32,
    /// How many were started.
    pub total: u32,
    pub succeeded: u32,
    pub failed: u32,
}

/// The status line after an update ended.
pub open spec fn update_message(
    after: UpdateProgress,
    name: Seq<char>,
    success: bool,
    error: Option<Seq<char>>,
) -> Option<Seq<char>> {
    if after.total == 0 {
        None
    } else if after.in_flight > 0 {
        Some(
            "Updating... ("@ + decimal_text((after.succeeded + after.failed) as nat) + "/"@
                + decimal_text(after.total as nat) + ")"@,
        )
    } else if after.total == 1 {
        if success {
            Some("Updated "@ + name + " successfully!"@)
        } else {
            Some(
                "Failed to update "@ + name + ": "@ + match error {
                    Some(detail) => detail,
                    None => "Unknown error"@,
                },
            )
        }
    } else if after.failed == 0 {
        Some("All "@ + decimal_text(after.succeeded as nat) + " providers updated successfully!"@)
    } else {
        Some(
            "Updated: "@ + decimal_text(after.succeeded as nat) + " succeeded, "@ + decimal_text(
                after.failed as nat,
            ) + " failed"@,
        )
    }
}

impl UpdateProgress {
    /// Nothing under way.
    pub fn idle() -> (progress: UpdateProgress)
        ensures
            progress == (UpdateProgress { in_flight: 0, total: 0, succeeded: 0, failed: 0 }),
    {
        UpdateProgress { in_flight: 0, total: 0, succeeded: 0, failed: 0 }
    }

    /// `count` updates just started.
    pub fn started(count: u32) -> (progress: UpdateProgress)
        ensures
            progress == (UpdateProgress {
                in_flight: count,
                total: count,
                succeeded: 0,
                failed: 0,
            }),
    {
        UpdateProgress { in_flight: count, total: count, succeeded: 0, failed: 0 }
    }

    /// Whether every update that was started has ended.
    pub fn is_done(&self) -> (done: bool)
        ensures
            done == (self.in_flight == 0 && self.total > 0),
    {
        self.in_flight == 0 && self.total > 0
    }

    /// The progress after one more update ended.
    pub open spec fn after(self, success: bool) -> UpdateProgress {
        UpdateProgress {
            in_flight: if self.in_flight > 0 {
                (self.in_flight - 1) as u32
            } else {
                0
            },
            total: self.total,
            succeeded: if success && self.succeeded < u32::MAX {
                (self.succeeded + 1) as u32
            } else {
                self.succeeded
            },
            failed: if !success && self.failed < u32::MAX {
                (self.failed + 1) as u32
            } else {
                self.failed
            },
        }
    }

    /// Takes in that one update ended, and writes the status line: the
    /// count so far while others are under way, and the outcome at the end.
    pub fn finish_item(&mut self, name: &str, success: bool, error: &Option<String>) -> (message:
        Option<String>)
        ensures
            *final(self) == old(self).after(success),
            opt_text(message) == update_message(
                old(self).after(success),
                name@,
                success,
                opt_text(*error),
            ),
    {
        if self.in_flight > 0 {
            self.in_flight = self.in_flight - 1;
        }
        if success {
            if self.succeeded < u32::MAX {
                self.succeeded = self.succeeded + 1;
            }
        } else if self.failed < u32::MAX {
            self.failed = self.failed + 1;
        }
        if self.total == 0 {
            return None;
        }
        let mut out: Vec<char> = Vec::new();
        if self.in_flight > 0 {
            let done: u64 = self.succeeded as u64 + self.failed as u64;
            push_word(&mut out, "Updating... (");
            push_decimal(&mut out, done);
            push_word(&mut out, "/");
            push_decimal(&mut out, self.total as u64);
            push_word(&mut out, ")");
        } else if self.total == 1 {
            if success {
                push_word(&mut out, "Updated ");
                push_word(&mut out, name);
                push_word(&mut out, " successfully!");
            } else {
                push_word(&mut out, "Failed to update ");
                push_word(&mut out, name);
                push_word(&mut out, ": ");
                match error {
                    Some(detail) => push_word(&mut out, detail.as_str()),
                    None => push_word(&mut out, "Unknown error"),
                }
            }
        } else if self.failed == 0 {
            push_word(&mut out, "All ");
            push_decimal(&mut out, self.succeeded as u64);
            push_word(&mut out, " providers updated successfully!");
        } else {
            push_word(&mut out, "Updated: ");
            push_decimal(&mut out, self.succeeded as u64);
            push_word(&mut out, " succeeded, ");
            push_decimal(&mut out, self.failed as u64);
            push_word(&mut out, " failed");
        }
        Some(string_of(out.as_slice()))
    }
}

} // verus!
