//! Which worker messages task readers replay and task writers record.

use vstd::prelude::*;
use crate::text::{string_set, contains_string};

verus! {

/// What a worker message carries, checked in this order: a result, a
/// question, an error, or none of them.
#[derive(Clone, Copy, PartialEq, Eq, Structural, Debug)]
pub enum MessageKind {
    TaskResult,
    TaskQuestion,
    Error,
    Other,
}

/// Whether a message of `kind` is among the configured `message_types`
/// ("task_result", "task_question", "error").
pub fn should_be_sent(kind: MessageKind, message_types: &Vec<String>) -> (r: bool)
    ensures
        r == should_be_sent_spec(kind, message_types@),
{
    match kind {
        MessageKind::TaskResult => contains_string(message_types, &String::from_str("task_result")),
        MessageKind::TaskQuestion => contains_string(message_types, &String::from_str("task_question")),
        MessageKind::Error => contains_string(message_types, &String::from_str("error")),
        MessageKind::Other => false,
    }
}

/// Writers record the same kinds of messages that readers replay.
pub fn should_be_written(kind: MessageKind, message_types: &Vec<String>) -> (r: bool)
    ensures
        r == should_be_sent_spec(kind, message_types@),
{
    should_be_sent(kind, message_types)
}

pub open spec fn should_be_sent_spec(kind: MessageKind, message_types: Seq<String>) -> bool {
    match kind {
        MessageKind::TaskResult => string_set(message_types).contains("task_result"@),
        MessageKind::TaskQuestion => string_set(message_types).contains("task_question"@),
        MessageKind::Error => string_set(message_types).contains("error"@),
        MessageKind::Other => false,
    }
}

} // verus!
