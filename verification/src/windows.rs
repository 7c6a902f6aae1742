//! The Windows collector: the operating system from the banner of `ver`,
//! drivers from the table of `driverquery`, applications from the uninstall
//! entries of the registry, and all of them as components.

use vstd::prelude::*;
use crate::component::{all_well_formed, component_views, id_or_name, identifier, normalized_fields, push_components, Component, ComponentTrait, ComponentView, Kind, Timestamp};
use crate::clock::{datetime_of, read_datetime};
use crate::error::{datetime_failure, decode_failure, lemma_failure_messages, starts_with, CollectionError, CollectionErrorView};
use crate::registry::{Properties, UninstallEntry, UninstallEntryView, entry_views};
use crate::text::{chars_of, find, find_from, lemma_find_from, push_str, replace, replace_all, same_text, slice_chars, string_from_chars, texts, trim, trimmed};
use crate::tool::{run_outcome, tool_output, ToolRun};
use crate::version::{VersionError, VersionErrorView};

verus! {

// ---------------------------------------------------------------------------
// The operating system
// ---------------------------------------------------------------------------

/// The name under which the operating system is listed.
pub open spec fn os_name() -> Seq<char> {
    "Microsoft Windows"@
}

/// The publishers of what the vendor ships.
pub open spec fn microsoft_publishers() -> Seq<Seq<char>> {
    seq!["Microsoft"@]
}

/// The path that stands for the whole system.
pub open spec fn root_path() -> Seq<char> {
    "/"@
}

/// The publishers of what the vendor ships.
pub fn microsoft_default_publishers() -> (list: Vec<String>)
    ensures
        texts(list@) == microsoft_publishers(),
{
    let mut list: Vec<String> = Vec::new();
    list.push("Microsoft".to_owned());
    proof {
        assert(texts(list@) =~= microsoft_publishers());
    }
    list
}

/// The operating system as a record of its own.
#[derive(Clone, Debug, PartialEq, Eq)]
pub struct OS {
    pub name: String,
    pub version: String,
    pub publishers: Vec<String>,
}

impl OS {
    /// The record of the system in the given version.
    pub fn new(version: String) -> (os: OS)
        ensures
            os.name@ == os_name(),
            os.version@ == version@,
            texts(os.publishers@) == microsoft_publishers(),
    {
        OS {
            name: "Microsoft Windows".to_owned(),
            version,
            publishers: microsoft_default_publishers(),
        }
    }
}

impl ComponentTrait for OS {
    /// The system has no identifier of its own: its name stands for it. It
    /// lies at the root path and carries the zero instant.
    open spec fn fields(&self) -> ComponentView {
        ComponentView {
            kind: Kind::OS,
            name: self.name@,
            id: self.name@,
            version: self.version@,
            path: root_path(),
            modified: Timestamp::zero_instant(),
            publishers: texts(self.publishers@),
        }
    }

    fn kind(&self) -> (k: Kind) {
        Kind::OS
    }

    fn name(&self) -> (s: &str) {
        self.name.as_str()
    }

    fn id(&self) -> (s: &str) {
        self.name()
    }

    fn version(&self) -> (s: &str) {
        self.version.as_str()
    }

    fn path(&self) -> (s: &str) {
        "/"
    }

    fn modified(&self) -> (t: Timestamp) {
        Timestamp::zero()
    }

    fn publishers(&self) -> (p: &Vec<String>) {
        &self.publishers
    }
}

/// What introduces the version in the banner of `ver`.
pub open spec fn version_marker() -> Seq<char> {
    "[Version "@
}

/// The version that a banner names: what stands between the first marker
/// and the next one, or the end, of the banner without the white space
/// around it, with every closing bracket taken out. `None` where the
/// banner holds no marker.
pub open spec fn banner_version(banner: Seq<char>) -> Option<Seq<char>> {
    let line = trimmed(banner);
    match find_from(line, version_marker(), 0) {
        None => None,
        Some(start) => {
            let after = line.skip(start + version_marker().len());
            let part = match find_from(after, version_marker(), 0) {
                Some(end) => after.take(end),
                None => after,
            };
            Some(replace_all(part, seq![']'], Seq::empty()))
        },
    }
}

/// The words that begin the failure of a banner.
pub open spec fn banner_lead() -> Seq<char> {
    "could not parse ver output"@
}

/// What reading a banner yields: the system in the version that the banner
/// names, or a decode failure that quotes the banner.
pub open spec fn banner_outcome(banner: Seq<char>) -> Result<Seq<char>, CollectionErrorView> {
    match banner_version(banner) {
        Some(version) => Ok(version),
        None => Err(decode_failure("ver"@, banner_lead(), banner)),
    }
}

/// Reads the version of the system out of the banner that `ver` prints.
pub fn os_from_banner(banner: &str) -> (res: Result<OS, CollectionError>)
    ensures
        match res {
            Ok(os) => banner_outcome(banner@) == Ok::<Seq<char>, CollectionErrorView>(os.version@)
                && os.name@ == os_name() && texts(os.publishers@) == microsoft_publishers(),
            Err(e) => banner_outcome(banner@) == Err::<Seq<char>, CollectionErrorView>(e@),
        },
{
    let raw: Vec<char> = chars_of(banner);
    let line: Vec<char> = trim(&raw);
    let marker: Vec<char> = chars_of("[Version ");
    match find(&line, &marker, 0) {
        None => Err(CollectionError::decode("ver", "could not parse ver output", banner)),
        Some(start) => {
            proof {
                lemma_find_from(line@, marker@, 0);
            }
            let end_of_line: usize = line.len();
            let after: Vec<char> = slice_chars(&line, start + marker.len(), end_of_line);
            proof {
                assert(after@ =~= line@.skip(start + marker@.len()));
            }
            let part: Vec<char> = match find(&after, &marker, 0) {
                Some(end) => {
                    proof {
                        lemma_find_from(after@, marker@, 0);
                    }
                    let head: Vec<char> = slice_chars(&after, 0, end);
                    proof {
                        assert(head@ =~= after@.take(end as int));
                    }
                    head
                },
                None => after,
            };
            let mut bracket: Vec<char> = Vec::new();
            bracket.push(']');
            let nothing: Vec<char> = Vec::new();
            proof {
                assert(bracket@ =~= seq![']']);
                assert(nothing@ =~= Seq::<char>::empty());
            }
            let version: Vec<char> = replace(&part, &bracket, &nothing);
            Ok(OS::new(string_from_chars(&version)))
        },
    }
}

// ---------------------------------------------------------------------------
// Applications
// ---------------------------------------------------------------------------

/// The text under `name`, or the empty text where there is none.
pub open spec fn text_or_empty(props: Map<Seq<char>, Seq<char>>, name: Seq<char>) -> Seq<char> {
    if props.contains_key(name) {
        props[name]
    } else {
        Seq::empty()
    }
}

/// The version of an application: its display version, else its version,
/// else nothing.
pub open spec fn application_version(props: Map<Seq<char>, Seq<char>>) -> Seq<char> {
    if props.contains_key("DisplayVersion"@) {
        props["DisplayVersion"@]
    } else {
        text_or_empty(props, "Version"@)
    }
}

/// The first text that is there and not empty among those under the
/// candidate names, in their order; the empty text where there is none.
pub open spec fn first_non_empty(props: Map<Seq<char>, Seq<char>>, candidates: Seq<Seq<char>>)
    -> Seq<char>
    decreases candidates.len(),
{
    if candidates.len() == 0 {
        Seq::empty()
    } else if props.contains_key(candidates[0]) && props[candidates[0]].len() > 0 {
        props[candidates[0]]
    } else {
        first_non_empty(props, candidates.drop_first())
    }
}

/// The names under which the location of an application may stand, in the
/// order in which they are tried.
pub open spec fn path_candidates() -> Seq<Seq<char>> {
    seq!["InstallLocation"@, "InstallSource"@, "BundleCachePath"@]
}

/// The publishers of an application: its publisher as it stands, as the
/// one element of the list, or nothing.
pub open spec fn application_publishers(props: Map<Seq<char>, Seq<char>>) -> Seq<Seq<char>> {
    if props.contains_key("Publisher"@) {
        seq![props["Publisher"@]]
    } else {
        Seq::empty()
    }
}

/// The names of strings, as texts.
pub open spec fn names(list: Seq<&str>) -> Seq<Seq<char>> {
    list.map_values(|s: &str| s@)
}

/// Picks the first text that is there and not empty among those under
/// the candidate names.
pub fn pick_first_non_empty(props: &Properties, candidates: &Vec<&str>) -> (res: String)
    ensures
        res@ == first_non_empty(props@, names(candidates@)),
{
    let mut i: usize = 0;
    proof {
        assert(names(candidates@).skip(0) =~= names(candidates@));
    }
    while i < candidates.len()
        invariant
            i <= candidates@.len(),
            first_non_empty(props@, names(candidates@).skip(i as int)) == first_non_empty(
                props@,
                names(candidates@),
            ),
        decreases candidates@.len() - i,
    {
        proof {
            assert(names(candidates@).skip(i as int).drop_first() =~= names(candidates@).skip(
                i + 1,
            ));
            assert(names(candidates@).skip(i as int)[0] == candidates@[i as int]@);
        }
        match props.get(candidates[i]) {
            Some(text) => {
                if !text.as_str().is_empty() {
                    return text.clone();
                }
            },
            None => {},
        }
        i = i + 1;
    }
    String::new()
}

/// An installed application, as its uninstall entry describes it.
#[derive(Clone, Debug, PartialEq, Eq)]
pub struct Application {
    pub key: String,
    pub modified: Timestamp,
    pub properties: Properties,
    pub name: String,
    pub version: String,
    pub path: String,
    pub publishers: Vec<String>,
}

/// An application as plain values.
pub struct ApplicationView {
    pub key: Seq<char>,
    pub modified: Timestamp,
    pub properties: Map<Seq<char>, Seq<char>>,
    pub name: Seq<char>,
    pub version: Seq<char>,
    pub path: Seq<char>,
    pub publishers: Seq<Seq<char>>,
}

impl View for Application {
    type V = ApplicationView;

    open spec fn view(&self) -> ApplicationView {
        ApplicationView {
            key: self.key@,
            modified: self.modified,
            properties: self.properties@,
            name: self.name@,
            version: self.version@,
            path: self.path@,
            publishers: texts(self.publishers@),
        }
    }
}

/// The application that an uninstall entry describes.
pub open spec fn application_of(
    key: Seq<char>,
    modified: Timestamp,
    props: Map<Seq<char>, Seq<char>>,
) -> ApplicationView {
    ApplicationView {
        key,
        modified,
        properties: props,
        name: text_or_empty(props, "DisplayName"@),
        version: application_version(props),
        path: first_non_empty(props, path_candidates()),
        publishers: application_publishers(props),
    }
}

impl Application {
    /// Derives an application from the name, the last-write time and the
    /// properties of its uninstall entry.
    ///
    /// The name is the display name. The version is the display version,
    /// or else the version. The path is the first that is not empty of the
    /// install location, the install source and the bundle cache path. The
    /// publisher, where there is one, is the one publisher of the list,
    /// taken as it stands.
    pub fn new(key: String, modified: Timestamp, properties: Properties) -> (app: Application)
        ensures
            app@ == application_of(key@, modified, properties@),
    {
        let name: String = match properties.get("DisplayName") {
            Some(text) => text.clone(),
            None => String::new(),
        };
        let version: String = match properties.get("DisplayVersion") {
            Some(text) => text.clone(),
            None => match properties.get("Version") {
                Some(text) => text.clone(),
                None => String::new(),
            },
        };
        let mut candidates: Vec<&str> = Vec::new();
        candidates.push("InstallLocation");
        candidates.push("InstallSource");
        candidates.push("BundleCachePath");
        proof {
            assert(names(candidates@) =~= path_candidates());
        }
        let path: String = pick_first_non_empty(&properties, &candidates);
        let mut publishers: Vec<String> = Vec::new();
        match properties.get("Publisher") {
            Some(text) => {
                publishers.push(text.clone());
            },
            None => {},
        }
        proof {
            assert(texts(publishers@) =~= application_publishers(properties@));
        }
        Application { key, modified, properties, name, version, path, publishers }
    }
}

impl ComponentTrait for Application {
    /// An application is identified by the name of its uninstall key, and
    /// by its name where that is empty.
    open spec fn fields(&self) -> ComponentView {
        ComponentView {
            kind: Kind::Application,
            name: self.name@,
            id: id_or_name(self.key@, self.name@),
            version: self.version@,
            path: self.path@,
            modified: self.modified,
            publishers: texts(self.publishers@),
        }
    }

    fn kind(&self) -> (k: Kind) {
        Kind::Application
    }

    fn name(&self) -> (s: &str) {
        self.name.as_str()
    }

    fn id(&self) -> (s: &str) {
        identifier(self.key.as_str(), self.name.as_str())
    }

    fn version(&self) -> (s: &str) {
        self.version.as_str()
    }

    fn path(&self) -> (s: &str) {
        self.path.as_str()
    }

    fn modified(&self) -> (t: Timestamp) {
        self.modified
    }

    fn publishers(&self) -> (p: &Vec<String>) {
        &self.publishers
    }
}

/// The views of a list of applications.
pub open spec fn application_views(list: Seq<Application>) -> Seq<ApplicationView> {
    list.map_values(|a: Application| a@)
}

/// The applications among a list of uninstall entries: those entries that
/// have a display name, in their order.
pub open spec fn applications_of(entries: Seq<UninstallEntryView>) -> Seq<ApplicationView>
    decreases entries.len(),
{
    if entries.len() == 0 {
        Seq::empty()
    } else {
        let earlier = applications_of(entries.drop_last());
        let entry = entries.last();
        if entry.properties.contains_key("DisplayName"@) {
            earlier.push(application_of(entry.key_name, entry.modified, entry.properties))
        } else {
            earlier
        }
    }
}

// ---------------------------------------------------------------------------
// Drivers
// ---------------------------------------------------------------------------

/// An error of the table reader.
#[verifier::external_type_specification]
#[verifier::external_body]
pub struct ExCsvError(csv::Error);

/// The rows of a table in comma-separated form, the header row first, or
/// `None` where the text is no such table.
pub uninterp spec fn csv_table(text: Seq<char>) -> Option<Seq<Seq<Seq<char>>>>;

/// The texts of the rows of a table.
pub open spec fn table_text(rows: Seq<Vec<String>>) -> Seq<Seq<Seq<char>>> {
    rows.map_values(|row: Vec<String>| texts(row@))
}

/// Reads a table in comma-separated form.
///
/// Trusted: the rows that `csv::Reader` yields for a text, its header row
/// first, depend on the text alone.
#[verifier::external_body]
fn read_csv(text: &str) -> (res: Result<Vec<Vec<String>>, csv::Error>)
    ensures
        res is Ok <==> csv_table(text@) is Some,
        res matches Ok(rows) ==> csv_table(text@) == Some(table_text(rows@)),
{
    let mut reader = csv::Reader::from_reader(text.as_bytes());
    let header: Vec<String> = reader.headers()?.iter().map(String::from).collect();
    let mut rows: Vec<Vec<String>> = vec![header];
    for record in reader.records() {
        rows.push(record?.iter().map(String::from).collect());
    }
    Ok(rows)
}

/// Describes an error of the table reader.
///
/// Nothing is claimed of the text: it is whatever the `Debug` rendering
/// of the error gives.
#[verifier::external_body]
fn csv_error_text(e: &csv::Error) -> (text: String) {
    format!("{:?}", e)
}

/// The format of the link date of a driver.
pub open spec fn link_date_format() -> Seq<char> {
    "%m/%e/%Y %l:%M:%S %p"@
}

/// What reading a link date gives: the instant that it names, or what
/// the parser said of it.
pub open spec fn link_date_of(text: Seq<char>) -> Result<Timestamp, Seq<char>> {
    datetime_of(text, link_date_format())
}

/// The words that begin the failure of a link date.
pub open spec fn link_date_lead() -> Seq<char> {
    "could not parse driver datetime"@
}

/// The words that begin the failure of a record of the driver table.
pub open spec fn driver_record_lead() -> Seq<char> {
    "could not deserialize driver record"@
}

/// What is wrong with a record that does not hold the column `name`.
pub open spec fn column_fault(name: Seq<char>) -> Seq<char> {
    "column "@ + name
}

/// The failure of a record that does not hold the column `name`.
pub open spec fn column_failure(name: Seq<char>) -> CollectionErrorView {
    decode_failure("driverquery"@, driver_record_lead(), column_fault(name))
}

fn column_error(name: &str) -> (e: CollectionError)
    ensures
        e@ == column_failure(name@),
{
    let mut what: Vec<char> = Vec::new();
    push_str(&mut what, "column ");
    push_str(&mut what, name);
    let fault: String = string_from_chars(&what);
    CollectionError::decode("driverquery", "could not deserialize driver record", fault.as_str())
}

/// What the reading of a link date gave, as plain values.
pub open spec fn reading(parsed: Result<Timestamp, String>) -> Result<Timestamp, Seq<char>> {
    match parsed {
        Ok(instant) => Ok(instant),
        Err(cause) => Err(cause@),
    }
}

/// The columns of the driver table, in the order of the fields of a
/// driver.
pub open spec fn driver_columns() -> Seq<Seq<char>> {
    seq![
        "Module Name"@,
        "Display Name"@,
        "Description"@,
        "Driver Type"@,
        "Start Mode"@,
        "State"@,
        "Status"@,
        "Accept Stop"@,
        "Accept Pause"@,
        "Paged Pool(bytes)"@,
        "Code(bytes)"@,
        "BSS(bytes)"@,
        "Link Date"@,
        "Path"@,
        "Init(bytes)"@,
    ]
}

/// The columns of the driver table.
pub fn driver_column_names() -> (columns: Vec<&'static str>)
    ensures
        names(columns@) == driver_columns(),
{
    let mut columns: Vec<&'static str> = Vec::new();
    columns.push("Module Name");
    columns.push("Display Name");
    columns.push("Description");
    columns.push("Driver Type");
    columns.push("Start Mode");
    columns.push("State");
    columns.push("Status");
    columns.push("Accept Stop");
    columns.push("Accept Pause");
    columns.push("Paged Pool(bytes)");
    columns.push("Code(bytes)");
    columns.push("BSS(bytes)");
    columns.push("Link Date");
    columns.push("Path");
    columns.push("Init(bytes)");
    proof {
        assert(names(columns@) =~= driver_columns());
    }
    columns
}

/// The first position at or behind `from` where `name` stands in `list`.
pub open spec fn index_of(list: Seq<Seq<char>>, name: Seq<char>, from: int) -> Option<int>
    decreases list.len() - from,
{
    if from < 0 || from >= list.len() {
        None
    } else if list[from] == name {
        Some(from)
    } else {
        index_of(list, name, from + 1)
    }
}

/// The text that a record holds in the column `name`: there is one where
/// the header names that column exactly once and the record reaches it.
pub open spec fn column_value(header: Seq<Seq<char>>, record: Seq<Seq<char>>, name: Seq<char>)
    -> Option<Seq<char>> {
    match index_of(header, name, 0) {
        Some(i) => if index_of(header, name, i + 1) is None && i < record.len() {
            Some(record[i])
        } else {
            None
        },
        None => None,
    }
}

/// The texts that a record holds in the given columns, in their order, or
/// the name of the first column for which it holds none.
pub open spec fn fields_from(
    header: Seq<Seq<char>>,
    record: Seq<Seq<char>>,
    columns: Seq<Seq<char>>,
) -> Result<Seq<Seq<char>>, Seq<char>>
    decreases columns.len(),
{
    if columns.len() == 0 {
        Ok(Seq::empty())
    } else {
        match fields_from(header, record, columns.drop_last()) {
            Err(name) => Err(name),
            Ok(values) => match column_value(header, record, columns.last()) {
                Some(value) => Ok(values.push(value)),
                None => Err(columns.last()),
            },
        }
    }
}

/// Finds `name` in `list` at or behind `from`.
pub fn position(list: &Vec<String>, name: &str, from: usize) -> (res: Option<usize>)
    ensures
        match res {
            Some(i) => index_of(texts(list@), name@, from as int) == Some(i as int) && i
                < list@.len(),
            None => index_of(texts(list@), name@, from as int) is None,
        },
{
    let mut i: usize = from;
    while i < list.len()
        invariant
            from <= i,
            index_of(texts(list@), name@, i as int) == index_of(texts(list@), name@, from as int),
        decreases list@.len() - i,
    {
        if same_text(list[i].as_str(), name) {
            return Some(i);
        }
        i = i + 1;
    }
    None
}

/// Reads the text of a record in the column `name`.
pub fn column_text(header: &Vec<String>, record: &Vec<String>, name: &str) -> (res: Option<String>)
    ensures
        match res {
            Some(text) => column_value(texts(header@), texts(record@), name@) == Some(text@),
            None => column_value(texts(header@), texts(record@), name@) is None,
        },
{
    let width: usize = header.len();
    match position(header, name, 0) {
        None => None,
        Some(i) => {
            assert(i < width);
            if position(header, name, i + 1).is_none() && i < record.len() {
                Some(record[i].clone())
            } else {
                None
            }
        },
    }
}

/// Reads the texts of a record in the given columns.
pub fn read_fields(header: &Vec<String>, record: &Vec<String>, columns: &Vec<&'static str>) -> (res:
    Result<Vec<String>, String>)
    ensures
        match res {
            Ok(values) => fields_from(texts(header@), texts(record@), names(columns@)) == Ok::<
                Seq<Seq<char>>,
                Seq<char>,
            >(texts(values@)),
            Err(name) => fields_from(texts(header@), texts(record@), names(columns@)) == Err::<
                Seq<Seq<char>>,
                Seq<char>,
            >(name@),
        },
{
    let mut values: Vec<String> = Vec::new();
    let mut i: usize = 0;
    proof {
        assert(names(columns@).take(0) =~= Seq::<Seq<char>>::empty());
        assert(texts(values@) =~= Seq::<Seq<char>>::empty());
    }
    while i < columns.len()
        invariant
            i <= columns@.len(),
            fields_from(texts(header@), texts(record@), names(columns@).take(i as int)) == Ok::<
                Seq<Seq<char>>,
                Seq<char>,
            >(texts(values@)),
        decreases columns@.len() - i,
    {
        proof {
            assert(names(columns@).take(i + 1).drop_last() =~= names(columns@).take(i as int));
            assert(names(columns@).take(i + 1).last() == columns@[i as int]@);
        }
        match column_text(header, record, columns[i]) {
            Some(text) => {
                let ghost before = values@;
                values.push(text);
                proof {
                    assert(texts(values@) =~= texts(before).push(text@));
                }
            },
            None => {
                proof {
                    lemma_fields_from_fails(
                        texts(header@),
                        texts(record@),
                        names(columns@),
                        i + 1,
                    );
                }
                return Err(columns[i].to_owned());
            },
        }
        i = i + 1;
    }
    proof {
        assert(names(columns@).take(columns@.len() as int) =~= names(columns@));
    }
    Ok(values)
}

/// Once a column has failed, more columns do not mend it.
proof fn lemma_fields_from_fails(
    header: Seq<Seq<char>>,
    record: Seq<Seq<char>>,
    columns: Seq<Seq<char>>,
    upto: int,
)
    requires
        0 <= upto <= columns.len(),
        fields_from(header, record, columns.take(upto)) is Err,
    ensures
        fields_from(header, record, columns) == fields_from(header, record, columns.take(upto)),
    decreases columns.len() - upto,
{
    if upto < columns.len() {
        assert(columns.take(upto + 1).drop_last() =~= columns.take(upto));
        lemma_fields_from_fails(header, record, columns, upto + 1);
    } else {
        assert(columns.take(upto) =~= columns);
    }
}

/// Where all columns are read, there are as many texts as columns.
proof fn lemma_fields_from_len(
    header: Seq<Seq<char>>,
    record: Seq<Seq<char>>,
    columns: Seq<Seq<char>>,
)
    ensures
        fields_from(header, record, columns) matches Ok(values) ==> values.len() == columns.len(),
    decreases columns.len(),
{
    if columns.len() > 0 {
        lemma_fields_from_len(header, record, columns.drop_last());
    }
}

/// A driver, as one row of the driver table describes it.
#[derive(Clone, Debug, PartialEq, Eq)]
pub struct Driver {
    pub module_name: String,
    pub display_name: String,
    pub description: String,
    pub driver_type: String,
    pub start_mode: String,
    pub state: String,
    pub status: String,
    pub accept_stop: String,
    pub accept_pause: String,
    pub paged_pool_size: String,
    pub code_size: String,
    pub bss_size: String,
    pub link_date_string: String,
    pub path: String,
    pub init_size: String,
    pub link_date: Timestamp,
    pub publishers: Vec<String>,
    pub version: String,
}

/// A driver as plain values: the texts of its row in the order of the
/// columns, and what was derived.
pub struct DriverView {
    pub row: Seq<Seq<char>>,
    pub link_date: Timestamp,
    pub publishers: Seq<Seq<char>>,
    pub version: Seq<char>,
}

impl View for Driver {
    type V = DriverView;

    open spec fn view(&self) -> DriverView {
        DriverView {
            row: seq![
                self.module_name@,
                self.display_name@,
                self.description@,
                self.driver_type@,
                self.start_mode@,
                self.state@,
                self.status@,
                self.accept_stop@,
                self.accept_pause@,
                self.paged_pool_size@,
                self.code_size@,
                self.bss_size@,
                self.link_date_string@,
                self.path@,
                self.init_size@,
            ],
            link_date: self.link_date,
            publishers: texts(self.publishers@),
            version: self.version@,
        }
    }
}

impl DriverView {
    /// A driver fresh from its row: no link date read yet, no publishers,
    /// no version.
    pub open spec fn fresh(row: Seq<Seq<char>>) -> DriverView {
        DriverView {
            row,
            link_date: Timestamp::zero_instant(),
            publishers: Seq::empty(),
            version: Seq::empty(),
        }
    }

    /// The text of the link date.
    pub open spec fn link_date_text(self) -> Seq<char> {
        self.row[12]
    }

    /// The driver after its link date was read, given what the reading of
    /// the text gave. An empty text is no date and leaves the zero
    /// instant; a text that is no date is a failure that quotes the text
    /// and says what the parser said of it.
    pub open spec fn with_link_date(self, parsed: Result<Timestamp, Seq<char>>) -> Result<
        DriverView,
        CollectionErrorView,
    > {
        if self.link_date_text().len() == 0 {
            Ok(self)
        } else {
            match parsed {
                Ok(instant) => Ok(DriverView { link_date: instant, ..self }),
                Err(cause) => Err(
                    datetime_failure(link_date_lead(), self.link_date_text(), cause),
                ),
            }
        }
    }

    /// The driver after its link date was read.
    pub open spec fn dated(self) -> Result<DriverView, CollectionErrorView> {
        self.with_link_date(link_date_of(self.link_date_text()))
    }

    /// The driver after the lookup of its version: a version that was
    /// found is recorded, a failed lookup leaves the version as it was.
    pub open spec fn with_version(self, lookup: Result<Seq<char>, VersionErrorView>) -> DriverView {
        match lookup {
            Ok(version) => DriverView { version, ..self },
            Err(_) => self,
        }
    }
}

/// A link date that cannot be read fails its record, and leaves no doubt
/// about what failed: the failure carries the text as it stood, and its
/// line begins with the words for a driver's date, quotes the text, and
/// goes on with what the parser said.
pub proof fn lemma_link_date_failure(driver: DriverView)
    requires
        driver.dated() is Err,
    ensures
        driver.link_date_text().len() > 0,
        link_date_of(driver.link_date_text()) is Err,
        driver.dated()->Err_0 == datetime_failure(
            link_date_lead(),
            driver.link_date_text(),
            link_date_of(driver.link_date_text())->Err_0,
        ),
        starts_with(
            driver.dated()->Err_0.message(),
            link_date_lead() + " '"@ + driver.link_date_text() + "': "@,
        ),
{
    lemma_failure_messages(
        link_date_lead(),
        driver.link_date_text(),
        link_date_of(driver.link_date_text())->Err_0,
    );
}

impl Driver {
    /// The driver of a row, from the texts of the row in the order of the
    /// columns; `None` where there is not one text for each column.
    pub fn from_fields(values: &Vec<String>) -> (res: Option<Driver>)
        ensures
            match res {
                Some(driver) => values@.len() == driver_columns().len() && driver@
                    == DriverView::fresh(texts(values@)),
                None => values@.len() != driver_columns().len(),
            },
    {
        if values.len() != 15 {
            return None;
        }
        let driver = Driver {
            module_name: values[0].clone(),
            display_name: values[1].clone(),
            description: values[2].clone(),
            driver_type: values[3].clone(),
            start_mode: values[4].clone(),
            state: values[5].clone(),
            status: values[6].clone(),
            accept_stop: values[7].clone(),
            accept_pause: values[8].clone(),
            paged_pool_size: values[9].clone(),
            code_size: values[10].clone(),
            bss_size: values[11].clone(),
            link_date_string: values[12].clone(),
            path: values[13].clone(),
            init_size: values[14].clone(),
            link_date: Timestamp::zero(),
            publishers: Vec::new(),
            version: String::new(),
        };
        proof {
            assert(driver@.row =~= texts(values@));
            assert(driver@.publishers =~= Seq::<Seq<char>>::empty());
        }
        Some(driver)
    }

    /// Records the link date, given what the reading of its text gave:
    /// the instant, or what the parser said of the text.
    pub fn set_link_date(&mut self, parsed: Result<Timestamp, String>) -> (res: Result<
        (),
        CollectionError,
    >)
        ensures
            match res {
                Ok(()) => old(self)@.with_link_date(reading(parsed)) == Ok::<
                    DriverView,
                    CollectionErrorView,
                >(final(self)@),
                Err(e) => old(self)@.with_link_date(reading(parsed)) == Err::<
                    DriverView,
                    CollectionErrorView,
                >(e@) && final(self)@ == old(self)@,
            },
    {
        if self.link_date_string.as_str().is_empty() {
            return Ok(());
        }
        match parsed {
            Ok(instant) => {
                self.link_date = instant;
                proof {
                    assert(self@.row =~= old(self)@.row);
                }
                Ok(())
            },
            Err(cause) => Err(
                CollectionError::datetime(
                    "could not parse driver datetime",
                    self.link_date_string.as_str(),
                    cause.as_str(),
                ),
            ),
        }
    }

    /// Reads the link date of the driver, where it has one.
    pub fn parse(&mut self) -> (res: Result<(), CollectionError>)
        ensures
            match res {
                Ok(()) => old(self)@.dated() == Ok::<DriverView, CollectionErrorView>(
                    final(self)@,
                ),
                Err(e) => old(self)@.dated() == Err::<DriverView, CollectionErrorView>(e@)
                    && final(self)@ == old(self)@,
            },
    {
        let parsed: Result<Timestamp, String> = read_datetime(
            self.link_date_string.as_str(),
            "%m/%e/%Y %l:%M:%S %p",
        );
        self.set_link_date(parsed)
    }

    /// Records what the lookup of the version gave. A failed lookup is no
    /// failure of the driver: the version stays as it was, and the error
    /// is handed back to be logged.
    pub fn apply_version(&mut self, lookup: Result<String, VersionError>) -> (warning: Option<
        VersionError,
    >)
        ensures
            match lookup {
                Ok(version) => warning is None && final(self)@ == old(self)@.with_version(
                    Ok(version@),
                ),
                Err(e) => warning == Some(e) && final(self)@ == old(self)@,
            },
    {
        match lookup {
            Ok(version) => {
                self.version = version;
                proof {
                    assert(self@.row =~= old(self)@.row);
                }
                None
            },
            Err(e) => Some(e),
        }
    }
}

impl ComponentTrait for Driver {
    /// A driver is named by its display name and identified by the name
    /// of its module, or by its display name where it has no module name.
    open spec fn fields(&self) -> ComponentView {
        ComponentView {
            kind: Kind::Driver,
            name: self.display_name@,
            id: id_or_name(self.module_name@, self.display_name@),
            version: self.version@,
            path: self.path@,
            modified: self.link_date,
            publishers: texts(self.publishers@),
        }
    }

    fn kind(&self) -> (k: Kind) {
        Kind::Driver
    }

    fn name(&self) -> (s: &str) {
        self.display_name.as_str()
    }

    fn id(&self) -> (s: &str) {
        identifier(self.module_name.as_str(), self.display_name.as_str())
    }

    fn version(&self) -> (s: &str) {
        self.version.as_str()
    }

    fn path(&self) -> (s: &str) {
        self.path.as_str()
    }

    fn modified(&self) -> (t: Timestamp) {
        self.link_date
    }

    fn publishers(&self) -> (p: &Vec<String>) {
        &self.publishers
    }
}

/// The views of a list of drivers.
pub open spec fn driver_views(list: Seq<Driver>) -> Seq<DriverView> {
    list.map_values(|d: Driver| d@)
}

/// What one record of the driver table yields: a driver with its link
/// date read, or the failure of the record.
pub open spec fn record_outcome(header: Seq<Seq<char>>, record: Seq<Seq<char>>) -> Result<
    DriverView,
    CollectionErrorView,
> {
    match fields_from(header, record, driver_columns()) {
        Err(name) => Err(column_failure(name)),
        Ok(values) => DriverView::fresh(values).dated(),
    }
}

/// What the records of the driver table yield: all drivers in the order
/// of the records, or the failure of the first record that fails. No
/// driver is kept of a table in which one record fails.
pub open spec fn records_outcome(header: Seq<Seq<char>>, records: Seq<Seq<Seq<char>>>) -> Result<
    Seq<DriverView>,
    CollectionErrorView,
>
    decreases records.len(),
{
    if records.len() == 0 {
        Ok(Seq::empty())
    } else {
        match records_outcome(header, records.drop_last()) {
            Err(e) => Err(e),
            Ok(drivers) => match record_outcome(header, records.last()) {
                Ok(driver) => Ok(drivers.push(driver)),
                Err(e) => Err(e),
            },
        }
    }
}

/// What a table yields whose first row is the header. A table without
/// rows holds no driver.
pub open spec fn table_outcome(table: Seq<Seq<Seq<char>>>) -> Result<
    Seq<DriverView>,
    CollectionErrorView,
> {
    if table.len() == 0 {
        Ok(Seq::empty())
    } else {
        records_outcome(table[0], table.skip(1))
    }
}

proof fn lemma_records_outcome_fails(
    header: Seq<Seq<char>>,
    records: Seq<Seq<Seq<char>>>,
    upto: int,
)
    requires
        0 <= upto <= records.len(),
        records_outcome(header, records.take(upto)) is Err,
    ensures
        records_outcome(header, records) == records_outcome(header, records.take(upto)),
    decreases records.len() - upto,
{
    if upto < records.len() {
        assert(records.take(upto + 1).drop_last() =~= records.take(upto));
        lemma_records_outcome_fails(header, records, upto + 1);
    } else {
        assert(records.take(upto) =~= records);
    }
}

/// Reads one record of the driver table.
pub fn driver_from_record(header: &Vec<String>, record: &Vec<String>) -> (res: Result<
    Driver,
    CollectionError,
>)
    ensures
        match res {
            Ok(driver) => record_outcome(texts(header@), texts(record@)) == Ok::<
                DriverView,
                CollectionErrorView,
            >(driver@),
            Err(e) => record_outcome(texts(header@), texts(record@)) == Err::<
                DriverView,
                CollectionErrorView,
            >(e@),
        },
{
    let columns: Vec<&'static str> = driver_column_names();
    match read_fields(header, record, &columns) {
        Err(name) => Err(column_error(name.as_str())),
        Ok(values) => {
            proof {
                lemma_fields_from_len(texts(header@), texts(record@), driver_columns());
            }
            match Driver::from_fields(&values) {
                Some(fresh) => {
                    let mut driver: Driver = fresh;
                    match driver.parse() {
                        Ok(()) => Ok(driver),
                        Err(e) => Err(e),
                    }
                },
                // One text was read for each column, so this is never met.
                None => Err(column_error("")),
            }
        },
    }
}

/// Reads the drivers of a table whose first row is the header.
pub fn drivers_from_table(rows: &Vec<Vec<String>>) -> (res: Result<Vec<Driver>, CollectionError>)
    ensures
        match res {
            Ok(drivers) => table_outcome(table_text(rows@)) == Ok::<
                Seq<DriverView>,
                CollectionErrorView,
            >(driver_views(drivers@)),
            Err(e) => table_outcome(table_text(rows@)) == Err::<
                Seq<DriverView>,
                CollectionErrorView,
            >(e@),
        },
{
    let mut drivers: Vec<Driver> = Vec::new();
    if rows.len() == 0 {
        proof {
            assert(driver_views(drivers@) =~= Seq::<DriverView>::empty());
        }
        return Ok(drivers);
    }
    let ghost header = table_text(rows@)[0];
    let ghost records = table_text(rows@).skip(1);
    let mut i: usize = 1;
    proof {
        assert(records.take(0) =~= Seq::<Seq<Seq<char>>>::empty());
        assert(driver_views(drivers@) =~= Seq::<DriverView>::empty());
    }
    while i < rows.len()
        invariant
            1 <= i <= rows@.len(),
            header == texts(rows@[0]@),
            records == table_text(rows@).skip(1),
            records_outcome(header, records.take(i - 1)) == Ok::<
                Seq<DriverView>,
                CollectionErrorView,
            >(driver_views(drivers@)),
        decreases rows@.len() - i,
    {
        proof {
            assert(records.take(i as int).drop_last() =~= records.take(i - 1));
            assert(records.take(i as int).last() == texts(rows@[i as int]@));
        }
        match driver_from_record(&rows[0], &rows[i]) {
            Ok(driver) => {
                let ghost before = drivers@;
                drivers.push(driver);
                proof {
                    assert(driver_views(drivers@) =~= driver_views(before).push(driver@));
                }
            },
            Err(e) => {
                proof {
                    lemma_records_outcome_fails(header, records, i as int);
                }
                return Err(e);
            },
        }
        i = i + 1;
    }
    proof {
        assert(records.take(rows@.len() - 1) =~= records);
    }
    Ok(drivers)
}

/// What the text of a driver table yields, where the text is a table.
pub open spec fn drivers_outcome(text: Seq<char>) -> Option<Result<
    Seq<DriverView>,
    CollectionErrorView,
>> {
    match csv_table(text) {
        Some(table) => Some(table_outcome(table)),
        None => None,
    }
}

/// Whether an error says that the driver table could not be decoded: its
/// detail begins with the words for a record that cannot be read.
pub open spec fn is_table_failure(e: CollectionErrorView) -> bool {
    e matches CollectionErrorView::SchemaDecodeFailure { source, detail } && source
        == "driverquery"@ && starts_with(detail, driver_record_lead() + ": "@)
}

/// Reads the drivers out of the table that `driverquery` prints.
///
/// Where the text is a table, the drivers are those of its records, or
/// the run fails with the first record that fails. Where the text is no
/// table, the run fails with what the reader says of it.
pub fn parse_drivers(text: &str) -> (res: Result<Vec<Driver>, CollectionError>)
    ensures
        match drivers_outcome(text@) {
            Some(Ok(drivers)) => res matches Ok(list) && driver_views(list@) == drivers,
            Some(Err(e)) => res matches Err(failure) && failure@ == e,
            None => res matches Err(failure) && is_table_failure(failure@),
        },
{
    match read_csv(text) {
        Ok(rows) => drivers_from_table(&rows),
        Err(e) => {
            let cause: String = csv_error_text(&e);
            proof {
                lemma_failure_messages(driver_record_lead(), "driverquery"@, cause@);
            }
            Err(
                CollectionError::decode(
                    "driverquery",
                    "could not deserialize driver record",
                    cause.as_str(),
                ),
            )
        },
    }
}

/// The failure of what this platform does not offer.
pub open spec fn not_implemented() -> CollectionErrorView {
    CollectionErrorView::SchemaDecodeFailure { source: "json"@, detail: "not implemented"@ }
}

/// The Windows collector.
#[derive(Clone, Copy, Debug, Default, PartialEq, Eq)]
pub struct Collector {}

impl Collector {
    /// Prepares the collector. Nothing has to be prepared on this
    /// platform, so this never fails.
    pub fn setup(&mut self) -> (res: Result<(), CollectionError>)
        ensures
            res is Ok,
            *final(self) == *old(self),
    {
        Ok(())
    }

    /// The operating system, from the run of `ver`.
    pub fn collect_os(&self, run: &ToolRun) -> (res: Result<OS, CollectionError>)
        ensures
            match res {
                Ok(os) => run_outcome("ver"@, "ver"@, *run) matches Ok(banner) && banner_outcome(banner)
                    == Ok::<Seq<char>, CollectionErrorView>(os.version@) && os.name@ == os_name()
                    && texts(os.publishers@) == microsoft_publishers(),
                Err(e) => match run_outcome("ver"@, "ver"@, *run) {
                    Ok(banner) => banner_outcome(banner) == Err::<Seq<char>, CollectionErrorView>(
                        e@,
                    ),
                    Err(failure) => e@ == failure,
                },
            },
    {
        match tool_output("ver", "ver", run) {
            Ok(banner) => os_from_banner(banner.as_str()),
            Err(e) => Err(e),
        }
    }

    /// The drivers, from the run of `driverquery`.
    ///
    /// A run that failed ends the phase with the failure of the tool. What
    /// a run that succeeded printed is read as the driver table.
    pub fn collect_drivers(&self, run: &ToolRun) -> (res: Result<Vec<Driver>, CollectionError>)
        ensures
            match run_outcome("driverquery"@, "driverquery.exe"@, *run) {
                Err(failure) => res matches Err(e) && e@ == failure,
                Ok(text) => match drivers_outcome(text) {
                    Some(Ok(drivers)) => res matches Ok(list) && driver_views(list@) == drivers,
                    Some(Err(e)) => res matches Err(failure) && failure@ == e,
                    None => res matches Err(failure) && is_table_failure(failure@),
                },
            },
    {
        match tool_output("driverquery", "driverquery.exe", run) {
            Ok(text) => parse_drivers(text.as_str()),
            Err(e) => Err(e),
        }
    }

    /// Reading an inventory out of JSON is not offered on this platform:
    /// whatever the text, it fails and says so.
    pub fn collect_from_json(&self, json: &str) -> (res: Result<Vec<Component>, CollectionError>)
        ensures
            res matches Err(e) && e@ == not_implemented(),
    {
        Err(
            CollectionError::SchemaDecodeFailure {
                source: "json".to_owned(),
                detail: "not implemented".to_owned(),
            },
        )
    }

    /// The applications among the uninstall entries that the registry
    /// reader found. An entry without a display name is no application and
    /// is passed over.
    pub fn collect_apps(&self, entries: Vec<UninstallEntry>) -> (apps: Vec<Application>)
        ensures
            application_views(apps@) == applications_of(entry_views(entries@)),
    {
        let mut apps: Vec<Application> = Vec::new();
        let ghost all = entries@;
        proof {
            assert(entry_views(all).take(0) =~= Seq::<UninstallEntryView>::empty());
            assert(application_views(apps@) =~= Seq::<ApplicationView>::empty());
        }
        for entry in it: entries
            invariant
                it.seq() == all,
                application_views(apps@) == applications_of(
                    entry_views(all).take(it.index() as int),
                ),
        {
            proof {
                assert(entry_views(all).take(it.index() + 1).drop_last() =~= entry_views(all).take(
                    it.index() as int,
                ));
                assert(entry_views(all).take(it.index() + 1).last() == entry@);
            }
            if entry.properties.contains_key("DisplayName") {
                let ghost before = apps@;
                let app = Application::new(entry.key_name, entry.modified, entry.properties);
                apps.push(app);
                proof {
                    assert(application_views(apps@) =~= application_views(before).push(app@));
                }
            }
        }
        proof {
            assert(entry_views(all).take(all.len() as int) =~= entry_views(all));
        }
        apps
    }

    /// The inventory of the host: the drivers, then the operating system,
    /// then the applications, each group in the order in which it was
    /// found, and every record normalised.
    pub fn collect(&self, os: &OS, drivers: &Vec<Driver>, apps: &Vec<Application>) -> (components:
        Vec<Component>)
        ensures
            component_views(components@) == normalized_fields(drivers@) + seq![
                os.fields().normalized(),
            ] + normalized_fields(apps@),
            all_well_formed(components@),
    {
        let mut components: Vec<Component> = Vec::new();
        proof {
            assert(component_views(components@) =~= Seq::<ComponentView>::empty());
        }
        push_components(&mut components, drivers);
        let ghost with_drivers = components@;
        let system: Component = Component::from_record(os);
        components.push(system);
        proof {
            assert(component_views(components@) =~= component_views(with_drivers).push(system@));
            assert forall|k: int| 0 <= k < components@.len() implies (
            #[trigger] components@[k]).well_formed() by {
                if k < with_drivers.len() {
                    assert(components@[k] == with_drivers[k]);
                }
            }
        }
        push_components(&mut components, apps);
        proof {
            assert(component_views(components@) =~= normalized_fields(drivers@) + seq![
                os.fields().normalized(),
            ] + normalized_fields(apps@));
        }
        components
    }
}

} // verus!
