//! The registry inventory reader: decoding of typed registry values to
//! text, the property map of an uninstall entry, and the rules by which a
//! scan of the uninstall roots goes on or ends.

use vstd::prelude::*;
use crate::component::Timestamp;
use crate::error::{access_failure, CollectionError, CollectionErrorView};
use crate::text::{chars_of, decimal, occurs_at, push_decimal, push_str, replace, replace_all, replace_from, same_text, string_from_chars, texts};
use crate::wide::{decode_wide, wide_to_string, NUL};

verus! {

/// The character that separates the strings of a decoded multi-string.
pub const NEWLINE: char = '\n';

// ---------------------------------------------------------------------------
// Values
// ---------------------------------------------------------------------------

/// The native type of a registry value.
#[derive(Clone, Copy, Debug, PartialEq, Eq, Structural)]
pub enum RegType {
    RegNone,
    RegSz,
    RegExpandSz,
    RegBinary,
    RegDword,
    RegDwordBigEndian,
    RegLink,
    RegMultiSz,
    RegResourceList,
    RegFullResourceDescriptor,
    RegResourceRequirementsList,
    RegQword,
}

/// A raw registry value: its native type and its bytes.
#[derive(Clone, Debug, PartialEq, Eq)]
pub struct RegValue {
    pub vtype: RegType,
    pub bytes: Vec<u8>,
}

/// The 16-bit units held in a byte buffer, low byte first. A last odd byte
/// belongs to no unit.
pub open spec fn words_of(bytes: Seq<u8>) -> Seq<u16> {
    Seq::new(bytes.len() / 2, |i: int| (bytes[2 * i] + 256 * bytes[2 * i + 1]) as u16)
}

/// Reads a byte buffer as 16-bit units, low byte first.
pub fn words(bytes: &Vec<u8>) -> (units: Vec<u16>)
    ensures
        units@ == words_of(bytes@),
{
    let count: usize = bytes.len() / 2;
    let mut units: Vec<u16> = Vec::with_capacity(count);
    let mut i: usize = 0;
    while i < count
        invariant
            i <= count,
            count == bytes@.len() / 2,
            2 * count <= bytes@.len() <= usize::MAX,
            units@ == words_of(bytes@).take(i as int),
        decreases count - i,
    {
        let low: u16 = bytes[2 * i] as u16;
        let high: u16 = bytes[2 * i + 1] as u16;
        units.push(low + 256 * high);
        proof {
            assert(units@ =~= words_of(bytes@).take(i + 1));
        }
        i = i + 1;
    }
    proof {
        assert(words_of(bytes@).take(count as int) =~= words_of(bytes@));
    }
    units
}

/// The text of a decoded multi-string: every NUL that separates two
/// strings becomes a newline.
pub open spec fn multi_string_text(decoded: Seq<char>) -> Seq<char> {
    replace_all(decoded, seq![NUL], seq![NEWLINE])
}

/// The decimal numbers of a list of bytes, with a comma and a space
/// between each two.
pub open spec fn byte_list(bytes: Seq<u8>) -> Seq<char>
    decreases bytes.len(),
{
    if bytes.len() == 0 {
        Seq::empty()
    } else if bytes.len() == 1 {
        decimal(bytes[0] as nat)
    } else {
        byte_list(bytes.drop_last()) + ", "@ + decimal(bytes.last() as nat)
    }
}

/// The rendering of raw bytes, for values that are no text: the decimal
/// numbers of the bytes as a list in square brackets.
pub open spec fn bytes_debug_text(bytes: Seq<u8>) -> Seq<char> {
    "["@ + byte_list(bytes) + "]"@
}

/// Renders raw bytes as the list of their decimal numbers.
pub fn debug_bytes(bytes: &Vec<u8>) -> (text: String)
    ensures
        text@ == bytes_debug_text(bytes@),
{
    let mut out: Vec<char> = Vec::new();
    push_str(&mut out, "[");
    let mut i: usize = 0;
    proof {
        assert(bytes@.take(0) =~= Seq::<u8>::empty());
        assert("["@ + byte_list(bytes@.take(0)) =~= "["@);
    }
    while i < bytes.len()
        invariant
            i <= bytes@.len(),
            out@ == "["@ + byte_list(bytes@.take(i as int)),
        decreases bytes@.len() - i,
    {
        let ghost before = out@;
        proof {
            assert(bytes@.take(i + 1).drop_last() =~= bytes@.take(i as int));
            assert(bytes@.take(i + 1).last() == bytes@[i as int]);
        }
        if i > 0 {
            push_str(&mut out, ", ");
        }
        push_decimal(&mut out, bytes[i] as u64);
        proof {
            if i > 0 {
                assert(out@ =~= "["@ + (byte_list(bytes@.take(i as int)) + ", "@ + decimal(
                    bytes@[i as int] as nat,
                )));
            } else {
                assert(byte_list(bytes@.take(0)) =~= Seq::<char>::empty());
                assert(out@ =~= "["@ + decimal(bytes@[0] as nat));
            }
        }
        i = i + 1;
    }
    proof {
        assert(bytes@.take(bytes@.len() as int) =~= bytes@);
    }
    push_str(&mut out, "]");
    string_from_chars(&out)
}

/// The text that a registry value decodes to.
///
/// String and expandable-string values are UTF-16 text without the NULs at
/// the end. A multi-string is the same, with its inner NULs as newlines.
/// Every other type is rendered from its raw bytes and never interpreted.
pub open spec fn reg_text(vtype: RegType, bytes: Seq<u8>) -> Seq<char> {
    match vtype {
        RegType::RegSz | RegType::RegExpandSz => decode_wide(words_of(bytes)),
        RegType::RegMultiSz => multi_string_text(decode_wide(words_of(bytes))),
        _ => bytes_debug_text(bytes),
    }
}

/// Decodes a registry value to text by its native type.
pub fn regvalue_to_string(v: &RegValue) -> (text: String)
    ensures
        text@ == reg_text(v.vtype, v.bytes@),
{
    match v.vtype {
        RegType::RegSz | RegType::RegExpandSz | RegType::RegMultiSz => {
            let units: Vec<u16> = words(&v.bytes);
            let s: String = wide_to_string(units.as_slice());
            if v.vtype == RegType::RegMultiSz {
                let chars: Vec<char> = chars_of(s.as_str());
                let mut nul: Vec<char> = Vec::new();
                nul.push(NUL);
                let mut newline: Vec<char> = Vec::new();
                newline.push(NEWLINE);
                proof {
                    assert(nul@ =~= seq![NUL]);
                    assert(newline@ =~= seq![NEWLINE]);
                }
                let joined: Vec<char> = replace(&chars, &nul, &newline);
                string_from_chars(&joined)
            } else {
                s
            }
        },
        _ => debug_bytes(&v.bytes),
    }
}

// ---------------------------------------------------------------------------
// Multi-strings as segments
// ---------------------------------------------------------------------------

/// The segments of `text` behind position `from`, as `sep` delimits them.
/// There is always one segment more than there are separators.
pub open spec fn segments_from(text: Seq<char>, sep: char, from: int) -> Seq<Seq<char>>
    decreases text.len() - from,
{
    if from < 0 || from >= text.len() {
        seq![Seq::empty()]
    } else if text[from] == sep {
        seq![Seq::empty()] + segments_from(text, sep, from + 1)
    } else {
        let rest = segments_from(text, sep, from + 1);
        seq![seq![text[from]] + rest[0]] + rest.drop_first()
    }
}

/// The segments of `text`, as `sep` delimits them.
pub open spec fn segments(text: Seq<char>, sep: char) -> Seq<Seq<char>> {
    segments_from(text, sep, 0)
}

/// The segments in order, with one `sep` between each two.
pub open spec fn join_with(parts: Seq<Seq<char>>, sep: char) -> Seq<char>
    decreases parts.len(),
{
    if parts.len() == 0 {
        Seq::empty()
    } else if parts.len() == 1 {
        parts[0]
    } else {
        parts[0] + seq![sep] + join_with(parts.drop_first(), sep)
    }
}

/// How often `c` stands in `text` behind position `from`.
pub open spec fn count_from(text: Seq<char>, c: char, from: int) -> nat
    decreases text.len() - from,
{
    if from < 0 || from >= text.len() {
        0
    } else if text[from] == c {
        1 + count_from(text, c, from + 1)
    } else {
        count_from(text, c, from + 1)
    }
}

proof fn lemma_segments_from(text: Seq<char>, sep: char, with: char, from: int)
    requires
        0 <= from <= text.len(),
    ensures
        segments_from(text, sep, from).len() == count_from(text, sep, from) + 1,
        join_with(segments_from(text, sep, from), with) == replace_from(
            text,
            seq![sep],
            seq![with],
            from,
        ),
        join_with(segments_from(text, sep, from), sep) == text.skip(from),
        forall|i: int|
            0 <= i < segments_from(text, sep, from).len() ==> !(#[trigger] segments_from(
                text,
                sep,
                from,
            )[i]).contains(sep),
    decreases text.len() - from,
{
    let segs = segments_from(text, sep, from);
    if from >= text.len() {
        assert(text.skip(from) =~= Seq::<char>::empty());
        assert(join_with(segs, with) =~= Seq::<char>::empty());
        assert(join_with(segs, sep) =~= Seq::<char>::empty());
    } else {
        lemma_segments_from(text, sep, with, from + 1);
        let rest = segments_from(text, sep, from + 1);
        let pattern = seq![sep];
        assert(text.subrange(from, from + 1) =~= seq![text[from]]);
        assert(text.skip(from) =~= seq![text[from]] + text.skip(from + 1));
        if text[from] == sep {
            assert(occurs_at(text, pattern, from));
            assert(segs.drop_first() =~= rest);
            assert(segs[0] + seq![with] + join_with(rest, with) =~= seq![with] + join_with(
                rest,
                with,
            ));
            assert(segs[0] + seq![sep] + join_with(rest, sep) =~= seq![sep] + join_with(rest, sep));
            assert forall|i: int| 0 <= i < segs.len() implies !(#[trigger] segs[i]).contains(
                sep,
            ) by {
                if i > 0 {
                    assert(segs[i] == rest[i - 1]);
                }
            }
        } else {
            assert(!occurs_at(text, pattern, from)) by {
                if occurs_at(text, pattern, from) {
                    assert(text.subrange(from, from + 1)[0] == pattern[0]);
                }
            }
            let head = seq![text[from]] + rest[0];
            assert(segs[0] == head);
            assert(segs.drop_first() =~= rest.drop_first());
            if rest.len() == 1 {
                assert(join_with(rest, with) == rest[0]);
                assert(join_with(rest, sep) == rest[0]);
                assert(segs.len() == 1);
            } else {
                assert(head + seq![with] + join_with(rest.drop_first(), with) =~= seq![text[from]]
                    + (rest[0] + seq![with] + join_with(rest.drop_first(), with)));
                assert(head + seq![sep] + join_with(rest.drop_first(), sep) =~= seq![text[from]]
                    + (rest[0] + seq![sep] + join_with(rest.drop_first(), sep)));
            }
            assert forall|i: int| 0 <= i < segs.len() implies !(#[trigger] segs[i]).contains(
                sep,
            ) by {
                if i > 0 {
                    assert(segs[i] == rest[i]);
                } else {
                    assert(!rest[0].contains(sep));
                    if head.contains(sep) {
                        let j = choose|j: int| 0 <= j < head.len() && head[j] == sep;
                        assert(j > 0);
                        assert(rest[0][j - 1] == sep);
                    }
                }
            }
        }
    }
}

/// A decoded multi-string keeps its strings and their order. Where the raw
/// text has N segments between its NULs, the decoded text is those N
/// segments with exactly N - 1 newlines put between them; joined by NUL
/// again they are the raw text; and N is one more than the number of NULs.
pub proof fn lemma_multi_string_segments(raw: Seq<char>)
    ensures
        multi_string_text(raw) == join_with(segments(raw, NUL), NEWLINE),
        join_with(segments(raw, NUL), NUL) == raw,
        segments(raw, NUL).len() == count_from(raw, NUL, 0) + 1,
        forall|i: int|
            0 <= i < segments(raw, NUL).len() ==> !(#[trigger] segments(raw, NUL)[i]).contains(NUL),
{
    lemma_segments_from(raw, NUL, NEWLINE, 0);
    assert(raw.skip(0) =~= raw);
}

/// Joining N segments puts N - 1 separators between them: where no segment
/// holds the separator, the joined text holds it exactly N - 1 times.
pub proof fn lemma_join_separator_count(parts: Seq<Seq<char>>, sep: char)
    requires
        parts.len() > 0,
        forall|i: int| 0 <= i < parts.len() ==> !(#[trigger] parts[i]).contains(sep),
    ensures
        count_from(join_with(parts, sep), sep, 0) == parts.len() - 1,
    decreases parts.len(),
{
    if parts.len() == 1 {
        lemma_count_absent(parts[0], sep, 0);
    } else {
        let rest = parts.drop_first();
        assert forall|i: int| 0 <= i < rest.len() implies !(#[trigger] rest[i]).contains(sep) by {
            assert(rest[i] == parts[i + 1]);
        }
        lemma_join_separator_count(rest, sep);
        let tail = seq![sep] + join_with(rest, sep);
        assert(parts[0] + seq![sep] + join_with(rest, sep) =~= parts[0] + tail);
        lemma_count_concat(parts[0], tail, sep, 0);
        lemma_count_absent(parts[0], sep, 0);
        assert(tail.skip(1) =~= join_with(rest, sep));
        lemma_count_shift(tail, sep, 1);
    }
}

proof fn lemma_count_absent(text: Seq<char>, c: char, from: int)
    requires
        0 <= from <= text.len(),
        !text.contains(c),
    ensures
        count_from(text, c, from) == 0,
    decreases text.len() - from,
{
    if from < text.len() {
        assert(text[from] != c);
        lemma_count_absent(text, c, from + 1);
    }
}

proof fn lemma_count_shift(text: Seq<char>, c: char, from: int)
    requires
        0 <= from <= text.len(),
    ensures
        count_from(text, c, from) == count_from(text.skip(from), c, 0),
    decreases text.len() - from,
{
    lemma_count_shift_by(text, c, from, 0);
}

proof fn lemma_count_shift_by(text: Seq<char>, c: char, from: int, k: int)
    requires
        0 <= from <= text.len(),
        0 <= k <= text.len() - from,
    ensures
        count_from(text, c, from + k) == count_from(text.skip(from), c, k),
    decreases text.len() - from - k,
{
    if from + k < text.len() {
        assert(text.skip(from)[k] == text[from + k]);
        lemma_count_shift_by(text, c, from, k + 1);
    }
}

proof fn lemma_count_concat(a: Seq<char>, b: Seq<char>, c: char, from: int)
    requires
        0 <= from <= a.len(),
    ensures
        count_from(a + b, c, from) == count_from(a, c, from) + count_from(b, c, 0),
    decreases a.len() - from,
{
    if from < a.len() {
        assert((a + b)[from] == a[from]);
        lemma_count_concat(a, b, c, from + 1);
    } else {
        assert((a + b).skip(from) =~= b);
        lemma_count_shift(a + b, c, from);
    }
}

// ---------------------------------------------------------------------------
// Properties
// ---------------------------------------------------------------------------

/// The value that a list of named values holds for `name`: that of the
/// last value of that name.
pub open spec fn lookup(entries: Seq<(String, String)>, name: Seq<char>) -> Option<Seq<char>>
    decreases entries.len(),
{
    if entries.len() == 0 {
        None
    } else if entries.last().0@ == name {
        Some(entries.last().1@)
    } else {
        lookup(entries.drop_last(), name)
    }
}

/// The named values of a registry key, decoded to text: a map from value
/// name to text. A name that is put twice keeps its later text.
///
/// The map is kept as a list of pairs and read from its end. A hash map
/// keyed by strings would do as well at run time, but the library gives
/// no model of hashing for string keys that a proof could rest on.
#[derive(Clone, Debug, PartialEq, Eq)]
pub struct Properties {
    entries: Vec<(String, String)>,
}

impl View for Properties {
    type V = Map<Seq<char>, Seq<char>>;

    closed spec fn view(&self) -> Map<Seq<char>, Seq<char>> {
        Map::new(
            |name: Seq<char>| lookup(self.entries@, name) is Some,
            |name: Seq<char>| lookup(self.entries@, name)->Some_0,
        )
    }
}

impl Properties {
    /// The empty map.
    pub fn new() -> (props: Properties)
        ensures
            props@ == Map::<Seq<char>, Seq<char>>::empty(),
    {
        let props = Properties { entries: Vec::new() };
        proof {
            assert(props@ =~= Map::<Seq<char>, Seq<char>>::empty());
        }
        props
    }

    /// Puts `value` under `name`, in place of what was there.
    pub fn insert(&mut self, name: String, value: String)
        ensures
            final(self)@ == old(self)@.insert(name@, value@),
    {
        let ghost before = self.entries@;
        self.entries.push((name, value));
        proof {
            assert(self.entries@.drop_last() =~= before);
            assert(self@ =~= old(self)@.insert(name@, value@));
        }
    }

    /// The text under `name`, if there is one.
    pub fn get(&self, name: &str) -> (res: Option<&String>)
        ensures
            match res {
                Some(value) => self@.contains_key(name@) && self@[name@] == value@,
                None => !self@.contains_key(name@),
            },
    {
        let mut i: usize = self.entries.len();
        proof {
            assert(self.entries@.take(i as int) =~= self.entries@);
        }
        while i > 0
            invariant
                i <= self.entries@.len(),
                lookup(self.entries@.take(i as int), name@) == lookup(self.entries@, name@),
            decreases i,
        {
            i = i - 1;
            proof {
                assert(self.entries@.take(i + 1).drop_last() =~= self.entries@.take(i as int));
            }
            if same_text(self.entries[i].0.as_str(), name) {
                return Some(&self.entries[i].1);
            }
        }
        None
    }

    /// Whether there is a text under `name`.
    pub fn contains_key(&self, name: &str) -> (res: bool)
        ensures
            res == self@.contains_key(name@),
    {
        self.get(name).is_some()
    }
}

// ---------------------------------------------------------------------------
// Uninstall entries
// ---------------------------------------------------------------------------

/// What came of reading one named value of an open key.
#[derive(Clone, Debug, PartialEq, Eq)]
pub enum ValueRead {
    /// The value was read.
    Value { name: String, value: RegValue },
    /// The value could not be read; it is passed over.
    Unreadable,
}

/// The property map that a list of value reads gives: each value that was
/// read, decoded by its type, under its name.
pub open spec fn properties_of(reads: Seq<ValueRead>) -> Map<Seq<char>, Seq<char>>
    decreases reads.len(),
{
    if reads.len() == 0 {
        Map::empty()
    } else {
        let earlier = properties_of(reads.drop_last());
        match reads.last() {
            ValueRead::Value { name, value } => earlier.insert(
                name@,
                reg_text(value.vtype, value.bytes@),
            ),
            ValueRead::Unreadable => earlier,
        }
    }
}

/// Decodes the values of one key into its property map. A value that could
/// not be read is absent from the map and makes nothing fail.
pub fn decode_properties(reads: &Vec<ValueRead>) -> (props: Properties)
    ensures
        props@ == properties_of(reads@),
{
    let mut props: Properties = Properties::new();
    let mut i: usize = 0;
    while i < reads.len()
        invariant
            i <= reads@.len(),
            props@ == properties_of(reads@.take(i as int)),
        decreases reads@.len() - i,
    {
        proof {
            assert(reads@.take(i + 1).drop_last() =~= reads@.take(i as int));
        }
        match &reads[i] {
            ValueRead::Value { name, value } => {
                props.insert(name.clone(), regvalue_to_string(value));
            },
            ValueRead::Unreadable => {},
        }
        i = i + 1;
    }
    proof {
        assert(reads@.take(reads@.len() as int) =~= reads@);
    }
    props
}

/// One sub-key of an uninstall root: its name, when it was last written
/// and its named values as text.
#[derive(Clone, Debug, PartialEq, Eq)]
pub struct UninstallEntry {
    pub key_name: String,
    pub modified: Timestamp,
    pub properties: Properties,
}

/// An uninstall entry as plain values.
pub struct UninstallEntryView {
    pub key_name: Seq<char>,
    pub modified: Timestamp,
    pub properties: Map<Seq<char>, Seq<char>>,
}

impl View for UninstallEntry {
    type V = UninstallEntryView;

    open spec fn view(&self) -> UninstallEntryView {
        UninstallEntryView {
            key_name: self.key_name@,
            modified: self.modified,
            properties: self.properties@,
        }
    }
}

/// The views of a list of entries.
pub open spec fn entry_views(list: Seq<UninstallEntry>) -> Seq<UninstallEntryView> {
    list.map_values(|e: UninstallEntry| e@)
}

// ---------------------------------------------------------------------------
// Scanning the uninstall roots
// ---------------------------------------------------------------------------

/// The uninstall root in the native view of the registry.
pub open spec fn native_uninstall_root() -> Seq<char> {
    "SOFTWARE\\Microsoft\\Windows\\CurrentVersion\\Uninstall"@
}

/// The uninstall root in the redirected view of the registry.
pub open spec fn redirected_uninstall_root() -> Seq<char> {
    "SOFTWARE\\Wow6432Node\\Microsoft\\Windows\\CurrentVersion\\Uninstall"@
}

/// The two uninstall roots below the local-machine hive, in the order in
/// which they are read.
pub fn uninstall_locations() -> (roots: Vec<String>)
    ensures
        texts(roots@) == seq![native_uninstall_root(), redirected_uninstall_root()],
{
    let mut roots: Vec<String> = Vec::new();
    roots.push("SOFTWARE\\Microsoft\\Windows\\CurrentVersion\\Uninstall".to_owned());
    roots.push(
        "SOFTWARE\\Wow6432Node\\Microsoft\\Windows\\CurrentVersion\\Uninstall".to_owned(),
    );
    proof {
        assert(texts(roots@) =~= seq![native_uninstall_root(), redirected_uninstall_root()]);
    }
    roots
}

/// What the reader met while it walked the uninstall roots.
#[derive(Clone, Debug, PartialEq, Eq)]
pub enum RegistryEvent {
    /// A root key could not be opened.
    RootOpenFailed { location: String, detail: String },
    /// The name of one sub-key could not be read.
    SubkeyUnreadable,
    /// A sub-key could not be opened.
    SubkeyOpenFailed { location: String, name: String, detail: String },
    /// The metadata of a sub-key could not be queried.
    SubkeyInfoFailed { location: String, name: String, detail: String },
    /// A sub-key was read.
    Subkey { name: String, modified: Timestamp, values: Vec<ValueRead> },
}

/// The path of a sub-key below its root, as failures name it: the root,
/// a slash and the name of the sub-key.
pub open spec fn subkey_path(location: Seq<char>, name: Seq<char>) -> Seq<char> {
    location + seq!['/'] + name
}

/// The words that begin the failure to open a key.
pub open spec fn open_lead() -> Seq<char> {
    "can't open"@
}

/// The words that begin the failure to query the metadata of a key.
pub open spec fn query_lead() -> Seq<char> {
    "can't query info for"@
}

/// The error with which an event ends the scan, if it does.
///
/// A root or a sub-key that cannot be opened, and metadata that cannot be
/// queried, end it; the error says which of the two failed, for which
/// key, and why. A sub-key whose name cannot be read is passed over.
pub open spec fn event_failure(event: RegistryEvent) -> Option<CollectionErrorView> {
    match event {
        RegistryEvent::RootOpenFailed { location, detail } => Some(
            access_failure(open_lead(), location@, detail@),
        ),
        RegistryEvent::SubkeyOpenFailed { location, name, detail } => Some(
            access_failure(open_lead(), subkey_path(location@, name@), detail@),
        ),
        RegistryEvent::SubkeyInfoFailed { location, name, detail } => Some(
            access_failure(query_lead(), subkey_path(location@, name@), detail@),
        ),
        RegistryEvent::SubkeyUnreadable => None,
        RegistryEvent::Subkey { .. } => None,
    }
}

/// The entries that a scan holds after an event.
pub open spec fn entries_after(found: Seq<UninstallEntryView>, event: RegistryEvent) -> Seq<
    UninstallEntryView,
> {
    match event {
        RegistryEvent::Subkey { name, modified, values } => found.push(
            UninstallEntryView {
                key_name: name@,
                modified,
                properties: properties_of(values@),
            },
        ),
        _ => found,
    }
}

/// A scan of the uninstall roots in progress: the entries found so far.
#[derive(Clone, Debug, PartialEq, Eq)]
pub struct RegistryScan {
    pub found: Vec<UninstallEntry>,
}

impl View for RegistryScan {
    type V = Seq<UninstallEntryView>;

    open spec fn view(&self) -> Seq<UninstallEntryView> {
        entry_views(self.found@)
    }
}

fn key_path(location: &str, name: &str) -> (path: String)
    ensures
        path@ == subkey_path(location@, name@),
{
    let mut out: Vec<char> = Vec::new();
    push_str(&mut out, location);
    out.push('/');
    push_str(&mut out, name);
    proof {
        assert(out@ =~= subkey_path(location@, name@));
    }
    string_from_chars(&out)
}

impl RegistryScan {
    /// A scan that has found nothing yet.
    pub fn new() -> (scan: RegistryScan)
        ensures
            scan@ == Seq::<UninstallEntryView>::empty(),
    {
        let scan = RegistryScan { found: Vec::new() };
        proof {
            assert(scan@ =~= Seq::<UninstallEntryView>::empty());
        }
        scan
    }

    /// Takes one event of the walk. Returns the error that ends the scan,
    /// or `None` where the walk goes on.
    pub fn observe(&mut self, event: RegistryEvent) -> (failure: Option<CollectionError>)
        ensures
            final(self)@ == entries_after(old(self)@, event),
            match failure {
                Some(e) => event_failure(event) == Some(e@),
                None => event_failure(event) is None,
            },
    {
        match event {
            RegistryEvent::RootOpenFailed { location, detail } => Some(
                CollectionError::access("can't open", location.as_str(), detail.as_str()),
            ),
            RegistryEvent::SubkeyOpenFailed { location, name, detail } => {
                let path: String = key_path(location.as_str(), name.as_str());
                Some(CollectionError::access("can't open", path.as_str(), detail.as_str()))
            },
            RegistryEvent::SubkeyInfoFailed { location, name, detail } => {
                let path: String = key_path(location.as_str(), name.as_str());
                Some(
                    CollectionError::access("can't query info for", path.as_str(), detail.as_str()),
                )
            },
            RegistryEvent::SubkeyUnreadable => None,
            RegistryEvent::Subkey { name, modified, values } => {
                let properties: Properties = decode_properties(&values);
                let ghost before = self.found@;
                let entry = UninstallEntry { key_name: name, modified, properties };
                self.found.push(entry);
                proof {
                    assert(entry_views(self.found@) =~= entry_views(before).push(entry@));
                }
                None
            },
        }
    }

    /// Ends the scan and hands out the entries, in the order in which they
    /// were found.
    pub fn finish(self) -> (entries: Vec<UninstallEntry>)
        ensures
            entry_views(entries@) == self@,
    {
        self.found
    }
}

} // verus!
