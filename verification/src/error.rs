//! What can go wrong while collecting, and how each failure is worded.

use vstd::prelude::*;
use crate::text::{decimal, push_decimal, push_str, string_from_chars};

verus! {

/// A failure that ends a collection phase or the whole run.
///
/// A failure that was met while something was read carries, as its
/// detail, the line that describes it: what could not be done, and why.
#[derive(Clone, Debug, PartialEq, Eq)]
pub enum CollectionError {
    /// No collector exists for the platform.
    UnsupportedPlatform,
    /// A system utility could not be run or ended with a failure status.
    ExternalToolFailure { tool: String, exit_status: Option<i32>, stderr: String },
    /// Structured output did not have the expected shape.
    SchemaDecodeFailure { source: String, detail: String },
    /// A registry key could not be opened or queried.
    RegistryAccessFailure { key_path: String, detail: String },
    /// A timestamp field was present but could not be read.
    DateTimeParseFailure { raw_value: String, detail: String },
}

/// A collection error as plain values.
pub enum CollectionErrorView {
    UnsupportedPlatform,
    ExternalToolFailure { tool: Seq<char>, exit_status: Option<i32>, stderr: Seq<char> },
    SchemaDecodeFailure { source: Seq<char>, detail: Seq<char> },
    RegistryAccessFailure { key_path: Seq<char>, detail: Seq<char> },
    DateTimeParseFailure { raw_value: Seq<char>, detail: Seq<char> },
}

impl View for CollectionError {
    type V = CollectionErrorView;

    open spec fn view(&self) -> CollectionErrorView {
        match *self {
            CollectionError::UnsupportedPlatform => CollectionErrorView::UnsupportedPlatform,
            CollectionError::ExternalToolFailure { tool, exit_status, stderr } => {
                CollectionErrorView::ExternalToolFailure {
                    tool: tool@,
                    exit_status,
                    stderr: stderr@,
                }
            },
            CollectionError::SchemaDecodeFailure { source, detail } => {
                CollectionErrorView::SchemaDecodeFailure { source: source@, detail: detail@ }
            },
            CollectionError::RegistryAccessFailure { key_path, detail } => {
                CollectionErrorView::RegistryAccessFailure { key_path: key_path@, detail: detail@ }
            },
            CollectionError::DateTimeParseFailure { raw_value, detail } => {
                CollectionErrorView::DateTimeParseFailure { raw_value: raw_value@, detail: detail@ }
            },
        }
    }
}

/// Whether `text` begins with `prefix`.
pub open spec fn starts_with(text: Seq<char>, prefix: Seq<char>) -> bool {
    prefix.len() <= text.len() && text.take(prefix.len() as int) == prefix
}

/// The decimal notation of an exit status, with its sign.
pub open spec fn signed_decimal(n: int) -> Seq<char> {
    if n < 0 {
        seq!['-'] + decimal((-n) as nat)
    } else {
        decimal(n as nat)
    }
}

/// The failure to decode what `source` gave: the detail says, after the
/// words of `lead`, what was wrong.
pub open spec fn decode_failure(source: Seq<char>, lead: Seq<char>, what: Seq<char>)
    -> CollectionErrorView {
    CollectionErrorView::SchemaDecodeFailure { source, detail: lead + ": "@ + what }
}

/// The failure to read the text `raw_value` as a date and time: the detail
/// quotes the text after the words of `lead` and ends in what the parser
/// said.
pub open spec fn datetime_failure(lead: Seq<char>, raw_value: Seq<char>, cause: Seq<char>)
    -> CollectionErrorView {
    CollectionErrorView::DateTimeParseFailure {
        raw_value,
        detail: lead + " '"@ + raw_value + "': "@ + cause,
    }
}

/// The failure to reach the registry key at `key_path`: the detail names
/// the key after the words of `lead` and ends in the cause.
pub open spec fn access_failure(lead: Seq<char>, key_path: Seq<char>, cause: Seq<char>)
    -> CollectionErrorView {
    CollectionErrorView::RegistryAccessFailure {
        key_path,
        detail: lead + " "@ + key_path + ": "@ + cause,
    }
}

impl CollectionErrorView {
    /// The line that describes the error.
    ///
    /// The failure of a tool names the tool, then its exit status and what
    /// it wrote to its standard error, or says that the tool could not be
    /// executed. Every other failure is described by its detail.
    pub open spec fn message(self) -> Seq<char> {
        match self {
            CollectionErrorView::UnsupportedPlatform => "unsupported operating system"@,
            CollectionErrorView::ExternalToolFailure { tool, exit_status, stderr } => {
                match exit_status {
                    Some(code) => tool + " exit status "@ + signed_decimal(code as int) + ": "@
                        + stderr,
                    None => "could not execute "@ + tool + ": "@ + stderr,
                }
            },
            CollectionErrorView::SchemaDecodeFailure { detail, .. } => detail,
            CollectionErrorView::RegistryAccessFailure { detail, .. } => detail,
            CollectionErrorView::DateTimeParseFailure { detail, .. } => detail,
        }
    }
}

/// A decode failure's line begins with its lead, a date failure's with its
/// lead and the quoted text, an access failure's with its lead and the
/// path of the key.
pub proof fn lemma_failure_messages(lead: Seq<char>, subject: Seq<char>, cause: Seq<char>)
    ensures
        starts_with(decode_failure(subject, lead, cause).message(), lead + ": "@),
        starts_with(datetime_failure(lead, subject, cause).message(), lead + " '"@ + subject + "': "@),
        starts_with(access_failure(lead, subject, cause).message(), lead + " "@ + subject + ": "@),
{
    let decode = lead + ": "@;
    assert((decode + cause).take(decode.len() as int) =~= decode);
    let date = lead + " '"@ + subject + "': "@;
    assert((date + cause).take(date.len() as int) =~= date);
    let access = lead + " "@ + subject + ": "@;
    assert((access + cause).take(access.len() as int) =~= access);
}

impl CollectionError {
    /// The failure to decode what `source` gave.
    pub fn decode(source: &str, lead: &str, what: &str) -> (e: CollectionError)
        ensures
            e@ == decode_failure(source@, lead@, what@),
    {
        let mut out: Vec<char> = Vec::new();
        push_str(&mut out, lead);
        push_str(&mut out, ": ");
        push_str(&mut out, what);
        proof {
            assert(out@ =~= lead@ + ": "@ + what@);
        }
        CollectionError::SchemaDecodeFailure {
            source: source.to_owned(),
            detail: string_from_chars(&out),
        }
    }

    /// The failure to read `raw_value` as a date and time.
    pub fn datetime(lead: &str, raw_value: &str, cause: &str) -> (e: CollectionError)
        ensures
            e@ == datetime_failure(lead@, raw_value@, cause@),
    {
        let mut out: Vec<char> = Vec::new();
        push_str(&mut out, lead);
        push_str(&mut out, " '");
        push_str(&mut out, raw_value);
        push_str(&mut out, "': ");
        push_str(&mut out, cause);
        proof {
            assert(out@ =~= lead@ + " '"@ + raw_value@ + "': "@ + cause@);
        }
        CollectionError::DateTimeParseFailure {
            raw_value: raw_value.to_owned(),
            detail: string_from_chars(&out),
        }
    }

    /// The failure to reach the registry key at `key_path`.
    pub fn access(lead: &str, key_path: &str, cause: &str) -> (e: CollectionError)
        ensures
            e@ == access_failure(lead@, key_path@, cause@),
    {
        let mut out: Vec<char> = Vec::new();
        push_str(&mut out, lead);
        push_str(&mut out, " ");
        push_str(&mut out, key_path);
        push_str(&mut out, ": ");
        push_str(&mut out, cause);
        proof {
            assert(out@ =~= lead@ + " "@ + key_path@ + ": "@ + cause@);
        }
        CollectionError::RegistryAccessFailure {
            key_path: key_path.to_owned(),
            detail: string_from_chars(&out),
        }
    }

    /// Describes the error in one line.
    pub fn message(&self) -> (text: String)
        ensures
            text@ == self@.message(),
    {
        match self {
            CollectionError::UnsupportedPlatform => "unsupported operating system".to_owned(),
            CollectionError::ExternalToolFailure { tool, exit_status, stderr } => {
                let mut out: Vec<char> = Vec::new();
                match exit_status {
                    Some(code) => {
                        push_str(&mut out, tool.as_str());
                        push_str(&mut out, " exit status ");
                        let wide: i64 = *code as i64;
                        if wide < 0 {
                            out.push('-');
                            push_decimal(&mut out, (-wide) as u64);
                        } else {
                            push_decimal(&mut out, wide as u64);
                        }
                        push_str(&mut out, ": ");
                        push_str(&mut out, stderr.as_str());
                    },
                    None => {
                        push_str(&mut out, "could not execute ");
                        push_str(&mut out, tool.as_str());
                        push_str(&mut out, ": ");
                        push_str(&mut out, stderr.as_str());
                    },
                }
                proof {
                    assert(out@ =~= self@.message());
                }
                string_from_chars(&out)
            },
            CollectionError::SchemaDecodeFailure { detail, .. } => detail.clone(),
            CollectionError::RegistryAccessFailure { detail, .. } => detail.clone(),
            CollectionError::DateTimeParseFailure { detail, .. } => detail.clone(),
        }
    }
}

} // verus!
