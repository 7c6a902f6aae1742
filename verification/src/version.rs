//! The version-resource extractor: the three native queries that yield the
//! four-part product version embedded in a binary, as a protocol that the
//! caller drives one request at a time.
//!
//! The order is fixed, because each query needs what the one before it
//! returned: the size of the version resource, then the resource loaded
//! into a buffer of that size, then the fixed block inside that buffer.

use vstd::prelude::*;
use crate::text::{decimal, push_decimal, push_str, string_from_chars};
use crate::wide::{encode_wide, lemma_utf16_units_push, str_to_pcwstr, utf16_units_of};

verus! {

/// The two fields of the fixed version block that the extractor reads.
#[derive(Clone, Copy, Debug, PartialEq, Eq, Structural)]
pub struct FixedFileInfo {
    pub product_version_high: u32,
    pub product_version_low: u32,
}

/// Why no version could be read. Such a failure never ends a run: the
/// caller records an empty version and goes on.
#[derive(Clone, Debug, PartialEq, Eq)]
pub enum VersionError {
    /// The size query answered zero.
    VersionInfoSizeUnavailable { path: String, native_error_code: u32 },
    /// The resource could not be loaded.
    VersionInfoLoadFailed { path: String, native_error_code: u32 },
    /// The loaded resource holds no fixed block.
    VersionBlockQueryFailed { path: String, native_error_code: u32 },
}

/// A version error as plain values.
pub enum VersionErrorView {
    VersionInfoSizeUnavailable { path: Seq<char>, native_error_code: u32 },
    VersionInfoLoadFailed { path: Seq<char>, native_error_code: u32 },
    VersionBlockQueryFailed { path: Seq<char>, native_error_code: u32 },
}

impl View for VersionError {
    type V = VersionErrorView;

    open spec fn view(&self) -> VersionErrorView {
        match *self {
            VersionError::VersionInfoSizeUnavailable { path, native_error_code } => {
                VersionErrorView::VersionInfoSizeUnavailable { path: path@, native_error_code }
            },
            VersionError::VersionInfoLoadFailed { path, native_error_code } => {
                VersionErrorView::VersionInfoLoadFailed { path: path@, native_error_code }
            },
            VersionError::VersionBlockQueryFailed { path, native_error_code } => {
                VersionErrorView::VersionBlockQueryFailed { path: path@, native_error_code }
            },
        }
    }
}

impl VersionErrorView {
    /// The native call that failed.
    pub open spec fn call_name(self) -> Seq<char> {
        match self {
            VersionErrorView::VersionInfoSizeUnavailable { .. } => "GetFileVersionInfoSizeW"@,
            VersionErrorView::VersionInfoLoadFailed { .. } => "GetFileVersionInfoW"@,
            VersionErrorView::VersionBlockQueryFailed { .. } => "VerQueryValueW"@,
        }
    }

    /// The path of the file that was asked about.
    pub open spec fn path(self) -> Seq<char> {
        match self {
            VersionErrorView::VersionInfoSizeUnavailable { path, .. } => path,
            VersionErrorView::VersionInfoLoadFailed { path, .. } => path,
            VersionErrorView::VersionBlockQueryFailed { path, .. } => path,
        }
    }

    /// The native error code that was reported.
    pub open spec fn code(self) -> u32 {
        match self {
            VersionErrorView::VersionInfoSizeUnavailable { native_error_code, .. } => {
                native_error_code
            },
            VersionErrorView::VersionInfoLoadFailed { native_error_code, .. } => native_error_code,
            VersionErrorView::VersionBlockQueryFailed { native_error_code, .. } => {
                native_error_code
            },
        }
    }

    /// The line that describes the failure.
    pub open spec fn message(self) -> Seq<char> {
        self.call_name() + " failed for "@ + self.path() + " with "@ + decimal(self.code() as nat)
    }
}

impl VersionError {
    /// Describes the failure in one line: the native call, the file and
    /// the native error code.
    pub fn message(&self) -> (text: String)
        ensures
            text@ == self@.message(),
    {
        let mut out: Vec<char> = Vec::new();
        match self {
            VersionError::VersionInfoSizeUnavailable { path, native_error_code } => {
                push_str(&mut out, "GetFileVersionInfoSizeW");
                push_str(&mut out, " failed for ");
                push_str(&mut out, path.as_str());
                push_str(&mut out, " with ");
                push_decimal(&mut out, *native_error_code as u64);
            },
            VersionError::VersionInfoLoadFailed { path, native_error_code } => {
                push_str(&mut out, "GetFileVersionInfoW");
                push_str(&mut out, " failed for ");
                push_str(&mut out, path.as_str());
                push_str(&mut out, " with ");
                push_decimal(&mut out, *native_error_code as u64);
            },
            VersionError::VersionBlockQueryFailed { path, native_error_code } => {
                push_str(&mut out, "VerQueryValueW");
                push_str(&mut out, " failed for ");
                push_str(&mut out, path.as_str());
                push_str(&mut out, " with ");
                push_decimal(&mut out, *native_error_code as u64);
            },
        }
        proof {
            assert(out@ =~= self@.message());
        }
        string_from_chars(&out)
    }
}

// ---------------------------------------------------------------------------
// Formatting
// ---------------------------------------------------------------------------

/// The four parts of a product version: the upper and the lower sixteen
/// bits of the high field, then those of the low field.
pub open spec fn version_parts(high: u32, low: u32) -> (nat, nat, nat, nat) {
    ((high / 0x10000) as nat, (high % 0x10000) as nat, (low / 0x10000) as nat, (low
        % 0x10000) as nat)
}

/// The version string `MAJOR.MINOR.BUILD.REVISION` of a fixed block.
pub open spec fn version_text(high: u32, low: u32) -> Seq<char> {
    let (major, minor, build, revision) = version_parts(high, low);
    decimal(major) + seq!['.'] + decimal(minor) + seq!['.'] + decimal(build) + seq!['.']
        + decimal(revision)
}

proof fn lemma_halves(x: u32)
    by (bit_vector)
    ensures
        x >> 16 == x / 0x10000,
        x & 0xFFFF == x % 0x10000,
{
}

/// Formats the product version of a fixed block as four decimal numbers
/// separated by dots.
pub fn format_version(high: u32, low: u32) -> (text: String)
    ensures
        text@ == version_text(high, low),
{
    proof {
        lemma_halves(high);
        lemma_halves(low);
    }
    let mut out: Vec<char> = Vec::new();
    push_decimal(&mut out, (high >> 16) as u64);
    out.push('.');
    push_decimal(&mut out, (high & 0xFFFF) as u64);
    out.push('.');
    push_decimal(&mut out, (low >> 16) as u64);
    out.push('.');
    push_decimal(&mut out, (low & 0xFFFF) as u64);
    proof {
        assert(out@ =~= version_text(high, low));
    }
    string_from_chars(&out)
}

// ---------------------------------------------------------------------------
// The protocol
// ---------------------------------------------------------------------------

/// The name of the root entry of a version resource, under which its
/// fixed block stands: a single backslash.
pub open spec fn root_block() -> Seq<char> {
    seq!['\\']
}

/// The name of the root entry as a native wide string: the unit of the
/// backslash and the terminator.
pub proof fn lemma_root_block_name()
    ensures
        encode_wide(root_block()) == seq![0x5Cu16, 0u16],
{
    lemma_utf16_units_push(Seq::empty(), '\\');
    assert(Seq::<char>::empty().push('\\') =~= root_block());
    assert(utf16_units_of('\\') =~= seq![0x5Cu16]);
    assert(encode_wide(root_block()) =~= seq![0x5Cu16, 0u16]);
}

/// The name of the root entry as a native wide string.
pub fn root_block_name() -> (name: Vec<u16>)
    ensures
        name@ == encode_wide(root_block()),
        name@ == seq![0x5Cu16, 0u16],
{
    proof {
        reveal_strlit("\\");
        assert("\\"@ =~= root_block());
        lemma_root_block_name();
    }
    str_to_pcwstr("\\")
}

/// Which answer the extractor waits for.
#[derive(Clone, Copy, Debug, PartialEq, Eq, Structural)]
pub enum VersionStep {
    AwaitSize,
    AwaitLoad,
    AwaitBlock,
    Finished,
}

/// What the caller is asked to do next.
#[derive(Debug, PartialEq, Eq)]
pub enum VersionRequest {
    /// Ask for the size of the version resource of the file.
    QuerySize { file_name: Vec<u16> },
    /// Load the version resource of the file into a buffer of `size` bytes.
    LoadInfo { file_name: Vec<u16>, size: u32 },
    /// Ask the loaded buffer for the block of the given name: the fixed
    /// block, which is the root entry.
    QueryFixedBlock { sub_block: Vec<u16> },
    /// Nothing more: the version, or why there is none.
    Finished(Result<String, VersionError>),
}

/// A request as plain values.
pub enum VersionRequestView {
    QuerySize { file_name: Seq<u16> },
    LoadInfo { file_name: Seq<u16>, size: u32 },
    QueryFixedBlock { sub_block: Seq<u16> },
    Finished(Result<Seq<char>, VersionErrorView>),
}

impl View for VersionRequest {
    type V = VersionRequestView;

    open spec fn view(&self) -> VersionRequestView {
        match *self {
            VersionRequest::QuerySize { file_name } => VersionRequestView::QuerySize {
                file_name: file_name@,
            },
            VersionRequest::LoadInfo { file_name, size } => VersionRequestView::LoadInfo {
                file_name: file_name@,
                size,
            },
            VersionRequest::QueryFixedBlock { sub_block } => VersionRequestView::QueryFixedBlock {
                sub_block: sub_block@,
            },
            VersionRequest::Finished(Ok(text)) => VersionRequestView::Finished(Ok(text@)),
            VersionRequest::Finished(Err(e)) => VersionRequestView::Finished(Err(e@)),
        }
    }
}

/// What came back from the native call. `last_error` is the native error
/// code read after the call; it counts only where the call failed.
#[derive(Clone, Copy, Debug, PartialEq, Eq, Structural)]
pub enum VersionReply {
    /// The size query returned `size`; zero means failure.
    Size { size: u32, last_error: u32 },
    /// The load succeeded or failed.
    Loaded { ok: bool, last_error: u32 },
    /// The fixed block, or `None` where the query failed.
    FixedBlock { info: Option<FixedFileInfo>, last_error: u32 },
}

/// One version lookup in progress.
#[derive(Clone, Debug, PartialEq, Eq)]
pub struct VersionQuery {
    pub path: String,
    pub step: VersionStep,
}

/// A lookup in progress as plain values.
pub struct VersionQueryView {
    pub path: Seq<char>,
    pub step: VersionStep,
}

impl View for VersionQuery {
    type V = VersionQueryView;

    open spec fn view(&self) -> VersionQueryView {
        VersionQueryView { path: self.path@, step: self.step }
    }
}

impl VersionQueryView {
    /// The lookup at its end, with the outcome that is handed out.
    pub open spec fn finished(self, outcome: Result<Seq<char>, VersionErrorView>) -> (
        VersionQueryView,
        VersionRequestView,
    ) {
        (
            VersionQueryView { step: VersionStep::Finished, ..self },
            VersionRequestView::Finished(outcome),
        )
    }

    /// The state and the request that follow a reply.
    ///
    /// A zero size, a failed load and a missing fixed block each end the
    /// lookup with their own error. A reply that does not answer the
    /// pending request ends it too, as a failure of the pending query with
    /// the error code that the reply carries.
    pub open spec fn next(self, reply: VersionReply) -> (VersionQueryView, VersionRequestView) {
        match self.step {
            VersionStep::AwaitSize => match reply {
                VersionReply::Size { size, last_error } => if size == 0 {
                    self.finished(
                        Err(
                            VersionErrorView::VersionInfoSizeUnavailable {
                                path: self.path,
                                native_error_code: last_error,
                            },
                        ),
                    )
                } else {
                    (
                        VersionQueryView { step: VersionStep::AwaitLoad, ..self },
                        VersionRequestView::LoadInfo { file_name: encode_wide(self.path), size },
                    )
                },
                _ => self.finished(
                    Err(
                        VersionErrorView::VersionInfoSizeUnavailable {
                            path: self.path,
                            native_error_code: reply_error(reply),
                        },
                    ),
                ),
            },
            VersionStep::AwaitLoad => match reply {
                VersionReply::Loaded { ok: true, .. } => (
                    VersionQueryView { step: VersionStep::AwaitBlock, ..self },
                    VersionRequestView::QueryFixedBlock { sub_block: encode_wide(root_block()) },
                ),
                _ => self.finished(
                    Err(
                        VersionErrorView::VersionInfoLoadFailed {
                            path: self.path,
                            native_error_code: reply_error(reply),
                        },
                    ),
                ),
            },
            VersionStep::AwaitBlock => match reply {
                VersionReply::FixedBlock { info: Some(info), .. } => self.finished(
                    Ok(version_text(info.product_version_high, info.product_version_low)),
                ),
                _ => self.finished(
                    Err(
                        VersionErrorView::VersionBlockQueryFailed {
                            path: self.path,
                            native_error_code: reply_error(reply),
                        },
                    ),
                ),
            },
            VersionStep::Finished => self.finished(
                Err(
                    VersionErrorView::VersionBlockQueryFailed {
                        path: self.path,
                        native_error_code: reply_error(reply),
                    },
                ),
            ),
        }
    }
}

/// The native error code that a reply carries.
pub open spec fn reply_error(reply: VersionReply) -> u32 {
    match reply {
        VersionReply::Size { last_error, .. } => last_error,
        VersionReply::Loaded { last_error, .. } => last_error,
        VersionReply::FixedBlock { last_error, .. } => last_error,
    }
}

/// What a whole lookup yields, given what each native call answers: the
/// first failure in the order size, load, fixed block, or the formatted
/// version.
pub open spec fn lookup_outcome(
    path: Seq<char>,
    size: VersionReply,
    loaded: VersionReply,
    block: VersionReply,
) -> Result<Seq<char>, VersionErrorView> {
    if !(size matches VersionReply::Size { size: n, .. } && n != 0) {
        Err(
            VersionErrorView::VersionInfoSizeUnavailable {
                path,
                native_error_code: reply_error(size),
            },
        )
    } else if !(loaded matches VersionReply::Loaded { ok: true, .. }) {
        Err(
            VersionErrorView::VersionInfoLoadFailed {
                path,
                native_error_code: reply_error(loaded),
            },
        )
    } else {
        match block {
            VersionReply::FixedBlock { info: Some(info), .. } => Ok(
                version_text(info.product_version_high, info.product_version_low),
            ),
            _ => Err(
                VersionErrorView::VersionBlockQueryFailed {
                    path,
                    native_error_code: reply_error(block),
                },
            ),
        }
    }
}

fn reply_code(reply: &VersionReply) -> (code: u32)
    ensures
        code == reply_error(*reply),
{
    match reply {
        VersionReply::Size { last_error, .. } => *last_error,
        VersionReply::Loaded { last_error, .. } => *last_error,
        VersionReply::FixedBlock { last_error, .. } => *last_error,
    }
}

impl VersionQuery {
    /// Starts the lookup for the file at `path`: the first request asks
    /// for the size of its version resource.
    pub fn start(path: &str) -> (res: (VersionQuery, VersionRequest))
        ensures
            res.0@ == (VersionQueryView { path: path@, step: VersionStep::AwaitSize }),
            res.1@ == (VersionRequestView::QuerySize { file_name: encode_wide(path@) }),
    {
        let file_name: Vec<u16> = str_to_pcwstr(path);
        (
            VersionQuery { path: path.to_owned(), step: VersionStep::AwaitSize },
            VersionRequest::QuerySize { file_name },
        )
    }

    fn finish(self, outcome: Result<String, VersionError>) -> (res: (VersionQuery, VersionRequest))
        ensures
            res.0@ == (VersionQueryView { path: self.path@, step: VersionStep::Finished }),
            res.1 == VersionRequest::Finished(outcome),
    {
        (
            VersionQuery { path: self.path, step: VersionStep::Finished },
            VersionRequest::Finished(outcome),
        )
    }

    /// Takes the answer to the pending request and says what to do next.
    pub fn advance(self, reply: VersionReply) -> (res: (VersionQuery, VersionRequest))
        ensures
            (res.0@, res.1@) == self@.next(reply),
    {
        let code: u32 = reply_code(&reply);
        match self.step {
            VersionStep::AwaitSize => {
                match reply {
                    VersionReply::Size { size, last_error } => {
                        if size == 0 {
                            let path: String = self.path.clone();
                            self.finish(
                                Err(
                                    VersionError::VersionInfoSizeUnavailable {
                                        path,
                                        native_error_code: last_error,
                                    },
                                ),
                            )
                        } else {
                            let file_name: Vec<u16> = str_to_pcwstr(self.path.as_str());
                            (
                                VersionQuery { path: self.path, step: VersionStep::AwaitLoad },
                                VersionRequest::LoadInfo { file_name, size },
                            )
                        }
                    },
                    _ => {
                        let path: String = self.path.clone();
                        self.finish(
                            Err(
                                VersionError::VersionInfoSizeUnavailable {
                                    path,
                                    native_error_code: code,
                                },
                            ),
                        )
                    },
                }
            },
            VersionStep::AwaitLoad => {
                match reply {
                    VersionReply::Loaded { ok: true, .. } => {
                        let sub_block: Vec<u16> = root_block_name();
                        (
                            VersionQuery { path: self.path, step: VersionStep::AwaitBlock },
                            VersionRequest::QueryFixedBlock { sub_block },
                        )
                    },
                    _ => {
                        let path: String = self.path.clone();
                        self.finish(
                            Err(
                                VersionError::VersionInfoLoadFailed {
                                    path,
                                    native_error_code: code,
                                },
                            ),
                        )
                    },
                }
            },
            VersionStep::AwaitBlock => {
                match reply {
                    VersionReply::FixedBlock { info: Some(info), .. } => {
                        let text: String = format_version(
                            info.product_version_high,
                            info.product_version_low,
                        );
                        self.finish(Ok(text))
                    },
                    _ => {
                        let path: String = self.path.clone();
                        self.finish(
                            Err(
                                VersionError::VersionBlockQueryFailed {
                                    path,
                                    native_error_code: code,
                                },
                            ),
                        )
                    },
                }
            },
            VersionStep::Finished => {
                let path: String = self.path.clone();
                self.finish(
                    Err(VersionError::VersionBlockQueryFailed { path, native_error_code: code }),
                )
            },
        }
    }
}

/// A lookup that is answered in order runs through the three queries and
/// ends with the outcome that the answers decide: the first failure, or the
/// formatted version. No query is made after a failure.
pub proof fn lemma_lookup_protocol(
    path: Seq<char>,
    size: VersionReply,
    loaded: VersionReply,
    block: VersionReply,
)
    requires
        size is Size,
        loaded is Loaded,
        block is FixedBlock,
    ensures
        ({
            let start = VersionQueryView { path, step: VersionStep::AwaitSize };
            let (after_size, first) = start.next(size);
            let (after_load, second) = after_size.next(loaded);
            let (after_block, third) = after_load.next(block);
            let outcome = lookup_outcome(path, size, loaded, block);
            if first is Finished {
                first == VersionRequestView::Finished(outcome)
            } else if second is Finished {
                &&& first is LoadInfo
                &&& second == VersionRequestView::Finished(outcome)
            } else {
                &&& first is LoadInfo
                &&& second == (VersionRequestView::QueryFixedBlock {
                    sub_block: encode_wide(root_block()),
                })
                &&& third == VersionRequestView::Finished(outcome)
                &&& after_block.step == VersionStep::Finished
            }
        }),
{
}

/// The four parts of a version are the two halves of each field: each
/// field is its upper part times 65536 plus its lower part, and the lower
/// parts stay below 65536.
pub proof fn lemma_version_parts(high: u32, low: u32)
    ensures
        version_parts(high, low).0 * 0x10000 + version_parts(high, low).1 == high,
        version_parts(high, low).2 * 0x10000 + version_parts(high, low).3 == low,
        version_parts(high, low).1 < 0x10000,
        version_parts(high, low).3 < 0x10000,
{
}

} // verus!
