//! The macOS collector: the operating system, the kernel extensions and the
//! applications that the system profiler reports, as components.

use vstd::prelude::*;
use crate::clock::{instant_of, read_instant};
use crate::component::{all_well_formed, component_views, id_or_name, identifier, normalized_fields, push_components, Component, ComponentTrait, ComponentView, Kind, Timestamp};
use crate::error::{datetime_failure, decode_failure, lemma_failure_messages, starts_with, CollectionError, CollectionErrorView};
use crate::json::{field_list, field_specs, field_text, json_document, read_list, read_text, read_texts, texts_from, Json};
use crate::text::{chars_of, clone_strings, push_str, replace, replace_all, string_from_chars, texts};
use crate::tool::{run_outcome, tool_output, ToolRun};

verus! {

/// The name under which the operating system is listed.
pub open spec fn os_name() -> Seq<char> {
    "macOS"@
}

/// The path that stands for the whole system.
pub open spec fn root_path() -> Seq<char> {
    "/"@
}

/// The publishers of what the vendor ships.
pub open spec fn apple_publishers() -> Seq<Seq<char>> {
    seq!["Apple Code Signing Certification Authority"@, "Apple Root CA"@]
}

/// The publishers of what the vendor ships.
pub fn apple_default_publishers() -> (list: Vec<String>)
    ensures
        texts(list@) == apple_publishers(),
{
    let mut list: Vec<String> = Vec::new();
    list.push("Apple Code Signing Certification Authority".to_owned());
    list.push("Apple Root CA".to_owned());
    proof {
        assert(texts(list@) =~= apple_publishers());
    }
    list
}

/// Wraps a signer that is reported as one text into a list of one
/// element. The text is taken as it stands and is not split.
pub fn string_as_string_vector(s: &str) -> (list: Vec<String>)
    ensures
        texts(list@) == seq![s@],
{
    let mut list: Vec<String> = Vec::new();
    list.push(s.to_owned());
    proof {
        assert(texts(list@) =~= seq![s@]);
    }
    list
}

/// The words that begin the failure to decode what the profiler gave.
pub open spec fn profile_lead() -> Seq<char> {
    "could not parse system_profiler output"@
}

/// The words that begin the failure of a timestamp of the profile.
pub open spec fn profile_date_lead() -> Seq<char> {
    "could not parse system_profiler output: datetime"@
}

/// What is wrong with a record that does not hold the field `name` as it
/// should.
pub open spec fn field_fault(name: Seq<char>) -> Seq<char> {
    "field "@ + name
}

/// The failure of a record of the profile that does not hold a field as
/// it should.
pub open spec fn schema_failure(field: Seq<char>) -> CollectionErrorView {
    decode_failure("system_profiler"@, profile_lead(), field_fault(field))
}

fn schema_error(field: String) -> (e: CollectionError)
    ensures
        e@ == schema_failure(field@),
{
    let mut what: Vec<char> = Vec::new();
    push_str(&mut what, "field ");
    push_str(&mut what, field.as_str());
    let fault: String = string_from_chars(&what);
    CollectionError::decode(
        "system_profiler",
        "could not parse system_profiler output",
        fault.as_str(),
    )
}

/// The failure of a record whose timestamp is no timestamp: it quotes the
/// text and says what the parser said of it.
pub open spec fn date_failure(raw_value: Seq<char>, cause: Seq<char>) -> CollectionErrorView {
    datetime_failure(profile_date_lead(), raw_value, cause)
}

fn date_error(raw_value: &str, cause: &str) -> (e: CollectionError)
    ensures
        e@ == date_failure(raw_value@, cause@),
{
    CollectionError::datetime(
        "could not parse system_profiler output: datetime",
        raw_value,
        cause,
    )
}

/// A record of the profile that can be read out of a JSON value.
pub trait Decode: View + Sized {
    /// What a value decodes to: the record, or the failure of the first
    /// field that the value does not hold as it should.
    spec fn decoded(tree: Json) -> Result<Self::V, CollectionErrorView>;

    /// Reads the record out of a value.
    fn decode(tree: &Json) -> (res: Result<Self, CollectionError>)
        ensures
            match res {
                Ok(record) => Self::decoded(*tree) == Ok::<Self::V, CollectionErrorView>(record@),
                Err(e) => Self::decoded(*tree) == Err::<Self::V, CollectionErrorView>(e@),
            },
    ;
}

/// The views of a list of records.
pub open spec fn views_of<T: View>(list: Seq<T>) -> Seq<T::V> {
    list.map_values(|record: T| record@)
}

/// What a list of values decodes to: all records in the order of the
/// values, or the failure of the first value that fails.
pub open spec fn decoded_all<T: Decode>(items: Seq<Json>) -> Result<Seq<T::V>, CollectionErrorView>
    decreases items.len(),
{
    if items.len() == 0 {
        Ok(Seq::empty())
    } else {
        match decoded_all::<T>(items.drop_last()) {
            Err(e) => Err(e),
            Ok(records) => match T::decoded(items.last()) {
                Ok(record) => Ok(records.push(record)),
                Err(e) => Err(e),
            },
        }
    }
}

proof fn lemma_decoded_all_fails<T: Decode>(items: Seq<Json>, upto: int)
    requires
        0 <= upto <= items.len(),
        decoded_all::<T>(items.take(upto)) is Err,
    ensures
        decoded_all::<T>(items) == decoded_all::<T>(items.take(upto)),
    decreases items.len() - upto,
{
    if upto < items.len() {
        assert(items.take(upto + 1).drop_last() =~= items.take(upto));
        lemma_decoded_all_fails::<T>(items, upto + 1);
    } else {
        assert(items.take(upto) =~= items);
    }
}

/// Reads the records of a list of values.
pub fn decode_all<T: Decode>(items: &Vec<Json>) -> (res: Result<Vec<T>, CollectionError>)
    ensures
        match res {
            Ok(records) => decoded_all::<T>(items@) == Ok::<Seq<T::V>, CollectionErrorView>(
                views_of(records@),
            ),
            Err(e) => decoded_all::<T>(items@) == Err::<Seq<T::V>, CollectionErrorView>(e@),
        },
{
    let mut records: Vec<T> = Vec::new();
    let mut i: usize = 0;
    proof {
        assert(items@.take(0) =~= Seq::<Json>::empty());
        assert(views_of(records@) =~= Seq::<T::V>::empty());
    }
    while i < items.len()
        invariant
            i <= items@.len(),
            decoded_all::<T>(items@.take(i as int)) == Ok::<Seq<T::V>, CollectionErrorView>(
                views_of(records@),
            ),
        decreases items@.len() - i,
    {
        proof {
            assert(items@.take(i + 1).drop_last() =~= items@.take(i as int));
        }
        match T::decode(&items[i]) {
            Ok(record) => {
                let ghost before = records@;
                let ghost view = record@;
                records.push(record);
                proof {
                    assert(views_of(records@) =~= views_of(before).push(view));
                }
            },
            Err(e) => {
                proof {
                    lemma_decoded_all_fails::<T>(items@, i + 1);
                }
                return Err(e);
            },
        }
        i = i + 1;
    }
    proof {
        assert(items@.take(items@.len() as int) =~= items@);
    }
    Ok(records)
}

// ---------------------------------------------------------------------------
// The operating system
// ---------------------------------------------------------------------------

/// The operating system as the profiler reports it.
#[derive(Clone, Debug, PartialEq, Eq)]
pub struct OS {
    pub os_version: String,
    pub publishers: Vec<String>,
}

/// The operating system as plain values.
pub struct OSView {
    pub os_version: Seq<char>,
    pub publishers: Seq<Seq<char>>,
}

impl View for OS {
    type V = OSView;

    open spec fn view(&self) -> OSView {
        OSView { os_version: self.os_version@, publishers: texts(self.publishers@) }
    }
}

impl OSView {
    /// The system has no identifier of its own: its name stands for it. It
    /// lies at the root path and carries the zero instant.
    pub open spec fn fields(self) -> ComponentView {
        ComponentView {
            kind: Kind::OS,
            name: os_name(),
            id: os_name(),
            version: self.os_version,
            path: root_path(),
            modified: Timestamp::zero_instant(),
            publishers: self.publishers,
        }
    }

    /// The system with its bare version.
    pub open spec fn with_bare_version(self) -> OSView {
        OSView { os_version: bare_version(self.os_version), ..self }
    }
}

impl OS {
    /// The record of the system in the given version.
    pub fn new(os_version: String) -> (os: OS)
        ensures
            os@ == (OSView { os_version: os_version@, publishers: apple_publishers() }),
    {
        OS { os_version, publishers: apple_default_publishers() }
    }
}

impl ComponentTrait for OS {
    open spec fn fields(&self) -> ComponentView {
        self@.fields()
    }

    fn kind(&self) -> (k: Kind) {
        Kind::OS
    }

    fn name(&self) -> (s: &str) {
        "macOS"
    }

    fn id(&self) -> (s: &str) {
        self.name()
    }

    fn version(&self) -> (s: &str) {
        self.os_version.as_str()
    }

    fn path(&self) -> (s: &str) {
        "/"
    }

    fn modified(&self) -> (t: Timestamp) {
        Timestamp::zero()
    }

    fn publishers(&self) -> (p: &Vec<String>) {
        &self.publishers
    }
}

impl Decode for OS {
    /// The software overview has to hold its version as a text.
    open spec fn decoded(tree: Json) -> Result<OSView, CollectionErrorView> {
        match field_text(tree, "os_version"@, true) {
            Some(version) => Ok(OSView { os_version: version, publishers: apple_publishers() }),
            None => Err(schema_failure("os_version"@)),
        }
    }

    fn decode(tree: &Json) -> (res: Result<OS, CollectionError>) {
        match read_text(tree, "os_version", true) {
            Some(version) => Ok(OS::new(version)),
            None => Err(schema_error("os_version".to_owned())),
        }
    }
}

// ---------------------------------------------------------------------------
// Applications
// ---------------------------------------------------------------------------

/// An application as the profiler reports it.
#[derive(Clone, Debug, PartialEq, Eq)]
pub struct Application {
    pub name: String,
    pub arch_kind: String,
    pub modified: Timestamp,
    pub obtained_from: String,
    pub path: String,
    pub signed_by: Vec<String>,
    pub version: String,
}

/// An application as plain values.
pub struct ApplicationView {
    pub name: Seq<char>,
    pub arch_kind: Seq<char>,
    pub modified: Timestamp,
    pub obtained_from: Seq<char>,
    pub path: Seq<char>,
    pub signed_by: Seq<Seq<char>>,
    pub version: Seq<char>,
}

impl View for Application {
    type V = ApplicationView;

    open spec fn view(&self) -> ApplicationView {
        ApplicationView {
            name: self.name@,
            arch_kind: self.arch_kind@,
            modified: self.modified,
            obtained_from: self.obtained_from@,
            path: self.path@,
            signed_by: texts(self.signed_by@),
            version: self.version@,
        }
    }
}

impl ApplicationView {
    /// The profiler gives an application no identifier: its name stands
    /// for it.
    pub open spec fn fields(self) -> ComponentView {
        ComponentView {
            kind: Kind::Application,
            name: self.name,
            id: self.name,
            version: self.version,
            path: self.path,
            modified: self.modified,
            publishers: self.signed_by,
        }
    }
}

impl ComponentTrait for Application {
    open spec fn fields(&self) -> ComponentView {
        self@.fields()
    }

    fn kind(&self) -> (k: Kind) {
        Kind::Application
    }

    fn name(&self) -> (s: &str) {
        self.name.as_str()
    }

    fn id(&self) -> (s: &str) {
        self.name.as_str()
    }

    fn version(&self) -> (s: &str) {
        self.version.as_str()
    }

    fn path(&self) -> (s: &str) {
        self.path.as_str()
    }

    fn modified(&self) -> (t: Timestamp) {
        self.modified
    }

    fn publishers(&self) -> (p: &Vec<String>) {
        &self.signed_by
    }
}

/// The text fields of an application, each with whether it is required:
/// the name, the kind of architecture, the time of the last change, the
/// origin, the path and the version.
pub open spec fn application_fields() -> Seq<(Seq<char>, bool)> {
    seq![
        ("_name"@, true),
        ("arch_kind"@, true),
        ("lastModified"@, true),
        ("obtained_from"@, true),
        ("path"@, true),
        ("version"@, false),
    ]
}

fn application_field_names() -> (fields: Vec<(&'static str, bool)>)
    ensures
        field_specs(fields@) == application_fields(),
{
    let mut fields: Vec<(&'static str, bool)> = Vec::new();
    fields.push(("_name", true));
    fields.push(("arch_kind", true));
    fields.push(("lastModified", true));
    fields.push(("obtained_from", true));
    fields.push(("path", true));
    fields.push(("version", false));
    proof {
        assert(field_specs(fields@) =~= application_fields());
    }
    fields
}

impl Decode for Application {
    /// An application has to hold its text fields, its signers as a list
    /// of texts where it has any, and a time of last change that is an
    /// instant.
    open spec fn decoded(tree: Json) -> Result<ApplicationView, CollectionErrorView> {
        match texts_from(tree, application_fields()) {
            Err(field) => Err(schema_failure(field)),
            Ok(values) => match field_list(tree, "signed_by"@) {
                None => Err(schema_failure("signed_by"@)),
                Some(signed_by) => match instant_of(values[2]) {
                    Err(cause) => Err(date_failure(values[2], cause)),
                    Ok(modified) => Ok(
                        ApplicationView {
                            name: values[0],
                            arch_kind: values[1],
                            modified,
                            obtained_from: values[3],
                            path: values[4],
                            signed_by,
                            version: values[5],
                        },
                    ),
                },
            },
        }
    }

    fn decode(tree: &Json) -> (res: Result<Application, CollectionError>) {
        let fields: Vec<(&'static str, bool)> = application_field_names();
        match read_texts(tree, &fields) {
            Err(field) => Err(schema_error(field)),
            Ok(values) => match read_list(tree, "signed_by") {
                None => Err(schema_error("signed_by".to_owned())),
                Some(signed_by) => match read_instant(values[2].as_str()) {
                    Err(cause) => Err(date_error(values[2].as_str(), cause.as_str())),
                    Ok(modified) => Ok(
                        Application {
                            name: values[0].clone(),
                            arch_kind: values[1].clone(),
                            modified,
                            obtained_from: values[3].clone(),
                            path: values[4].clone(),
                            signed_by,
                            version: values[5].clone(),
                        },
                    ),
                },
            },
        }
    }
}

// ---------------------------------------------------------------------------
// Extensions
// ---------------------------------------------------------------------------

/// A kernel extension as the profiler reports it.
#[derive(Clone, Debug, PartialEq, Eq)]
pub struct Extension {
    pub name: String,
    pub architectures: Vec<String>,
    pub bundleid: String,
    pub has_64bit_intel_code: String,
    pub has_all_dependencies: String,
    pub last_modified: Timestamp,
    pub loadable: String,
    pub loaded: String,
    pub notarized: String,
    pub obtained_from: String,
    pub path: String,
    pub runtime_environment: String,
    pub signed_by: Vec<String>,
    pub spext_version: String,
    pub version: String,
}

/// A kernel extension as plain values.
pub struct ExtensionView {
    pub name: Seq<char>,
    pub architectures: Seq<Seq<char>>,
    pub bundleid: Seq<char>,
    pub has_64bit_intel_code: Seq<char>,
    pub has_all_dependencies: Seq<char>,
    pub last_modified: Timestamp,
    pub loadable: Seq<char>,
    pub loaded: Seq<char>,
    pub notarized: Seq<char>,
    pub obtained_from: Seq<char>,
    pub path: Seq<char>,
    pub runtime_environment: Seq<char>,
    pub signed_by: Seq<Seq<char>>,
    pub spext_version: Seq<char>,
    pub version: Seq<char>,
}

impl View for Extension {
    type V = ExtensionView;

    open spec fn view(&self) -> ExtensionView {
        ExtensionView {
            name: self.name@,
            architectures: texts(self.architectures@),
            bundleid: self.bundleid@,
            has_64bit_intel_code: self.has_64bit_intel_code@,
            has_all_dependencies: self.has_all_dependencies@,
            last_modified: self.last_modified,
            loadable: self.loadable@,
            loaded: self.loaded@,
            notarized: self.notarized@,
            obtained_from: self.obtained_from@,
            path: self.path@,
            runtime_environment: self.runtime_environment@,
            signed_by: texts(self.signed_by@),
            spext_version: self.spext_version@,
            version: self.version@,
        }
    }
}

impl ExtensionView {
    /// An extension is a driver, identified by its bundle identifier, and
    /// by its name where it has none.
    pub open spec fn fields(self) -> ComponentView {
        ComponentView {
            kind: Kind::Driver,
            name: self.name,
            id: id_or_name(self.bundleid, self.name),
            version: self.version,
            path: self.path,
            modified: self.last_modified,
            publishers: self.signed_by,
        }
    }
}

impl ComponentTrait for Extension {
    open spec fn fields(&self) -> ComponentView {
        self@.fields()
    }

    fn kind(&self) -> (k: Kind) {
        Kind::Driver
    }

    fn name(&self) -> (s: &str) {
        self.name.as_str()
    }

    fn id(&self) -> (s: &str) {
        identifier(self.bundleid.as_str(), self.name.as_str())
    }

    fn version(&self) -> (s: &str) {
        self.version.as_str()
    }

    fn path(&self) -> (s: &str) {
        self.path.as_str()
    }

    fn modified(&self) -> (t: Timestamp) {
        self.last_modified
    }

    fn publishers(&self) -> (p: &Vec<String>) {
        &self.signed_by
    }
}

/// The text fields of an extension, each with whether it is required.
pub open spec fn extension_fields() -> Seq<(Seq<char>, bool)> {
    seq![
        ("_name"@, true),
        ("spext_bundleid"@, true),
        ("spext_has64BitIntelCode"@, false),
        ("spext_hasAllDependencies"@, true),
        ("spext_lastModified"@, true),
        ("spext_loadable"@, true),
        ("spext_loaded"@, true),
        ("spext_notarized"@, true),
        ("spext_obtained_from"@, true),
        ("spext_path"@, true),
        ("spext_runtime_environment"@, false),
        ("spext_signed_by"@, true),
        ("spext_version"@, true),
        ("version"@, true),
    ]
}

fn extension_field_names() -> (fields: Vec<(&'static str, bool)>)
    ensures
        field_specs(fields@) == extension_fields(),
{
    let mut fields: Vec<(&'static str, bool)> = Vec::new();
    fields.push(("_name", true));
    fields.push(("spext_bundleid", true));
    fields.push(("spext_has64BitIntelCode", false));
    fields.push(("spext_hasAllDependencies", true));
    fields.push(("spext_lastModified", true));
    fields.push(("spext_loadable", true));
    fields.push(("spext_loaded", true));
    fields.push(("spext_notarized", true));
    fields.push(("spext_obtained_from", true));
    fields.push(("spext_path", true));
    fields.push(("spext_runtime_environment", false));
    fields.push(("spext_signed_by", true));
    fields.push(("spext_version", true));
    fields.push(("version", true));
    proof {
        assert(field_specs(fields@) =~= extension_fields());
    }
    fields
}

impl Decode for Extension {
    /// An extension has to hold its text fields, its architectures as a
    /// list of texts where it has any, and a time of last change that is
    /// an instant. Its signer is one text, and is the one element of the
    /// list of its signers.
    open spec fn decoded(tree: Json) -> Result<ExtensionView, CollectionErrorView> {
        match texts_from(tree, extension_fields()) {
            Err(field) => Err(schema_failure(field)),
            Ok(values) => match field_list(tree, "spext_architectures"@) {
                None => Err(schema_failure("spext_architectures"@)),
                Some(architectures) => match instant_of(values[4]) {
                    Err(cause) => Err(date_failure(values[4], cause)),
                    Ok(last_modified) => Ok(
                        ExtensionView {
                            name: values[0],
                            architectures,
                            bundleid: values[1],
                            has_64bit_intel_code: values[2],
                            has_all_dependencies: values[3],
                            last_modified,
                            loadable: values[5],
                            loaded: values[6],
                            notarized: values[7],
                            obtained_from: values[8],
                            path: values[9],
                            runtime_environment: values[10],
                            signed_by: seq![values[11]],
                            spext_version: values[12],
                            version: values[13],
                        },
                    ),
                },
            },
        }
    }

    fn decode(tree: &Json) -> (res: Result<Extension, CollectionError>) {
        let fields: Vec<(&'static str, bool)> = extension_field_names();
        match read_texts(tree, &fields) {
            Err(field) => Err(schema_error(field)),
            Ok(values) => match read_list(tree, "spext_architectures") {
                None => Err(schema_error("spext_architectures".to_owned())),
                Some(architectures) => match read_instant(values[4].as_str()) {
                    Err(cause) => Err(date_error(values[4].as_str(), cause.as_str())),
                    Ok(last_modified) => Ok(
                        Extension {
                            name: values[0].clone(),
                            architectures,
                            bundleid: values[1].clone(),
                            has_64bit_intel_code: values[2].clone(),
                            has_all_dependencies: values[3].clone(),
                            last_modified,
                            loadable: values[5].clone(),
                            loaded: values[6].clone(),
                            notarized: values[7].clone(),
                            obtained_from: values[8].clone(),
                            path: values[9].clone(),
                            runtime_environment: values[10].clone(),
                            signed_by: string_as_string_vector(values[11].as_str()),
                            spext_version: values[12].clone(),
                            version: values[13].clone(),
                        },
                    ),
                },
            },
        }
    }
}

// ---------------------------------------------------------------------------
// The profile
// ---------------------------------------------------------------------------

/// What the profiler reports: the software overview, the applications and
/// the extensions.
#[derive(Clone, Debug, PartialEq, Eq)]
pub struct Profile {
    pub os: Vec<OS>,
    pub apps: Vec<Application>,
    pub drivers: Vec<Extension>,
}

/// A profile as plain values.
pub struct ProfileView {
    pub os: Seq<OSView>,
    pub apps: Seq<ApplicationView>,
    pub drivers: Seq<ExtensionView>,
}

impl View for Profile {
    type V = ProfileView;

    open spec fn view(&self) -> ProfileView {
        ProfileView {
            os: views_of(self.os@),
            apps: views_of(self.apps@),
            drivers: views_of(self.drivers@),
        }
    }
}

/// The records of the section `name` of a document: the section has to be
/// there and be an array, and each of its items has to decode.
pub open spec fn section_of<T: Decode>(doc: Json, name: Seq<char>) -> Result<
    Seq<T::V>,
    CollectionErrorView,
> {
    match doc.member(name) {
        Some(Json::Array(items)) => decoded_all::<T>(items@),
        _ => Err(schema_failure(name)),
    }
}

/// Reads the records of a section of a document.
pub fn read_section<T: Decode>(doc: &Json, name: &str) -> (res: Result<Vec<T>, CollectionError>)
    ensures
        match res {
            Ok(records) => section_of::<T>(*doc, name@) == Ok::<Seq<T::V>, CollectionErrorView>(
                views_of(records@),
            ),
            Err(e) => section_of::<T>(*doc, name@) == Err::<Seq<T::V>, CollectionErrorView>(e@),
        },
{
    match doc.get(name) {
        Some(section) => match section {
            Json::Array(items) => decode_all::<T>(items),
            _ => Err(schema_error(name.to_owned())),
        },
        None => Err(schema_error(name.to_owned())),
    }
}

impl Decode for Profile {
    /// A profile has to hold its three sections; the first section that
    /// fails, in the order software, applications, extensions, decides the
    /// failure.
    open spec fn decoded(tree: Json) -> Result<ProfileView, CollectionErrorView> {
        match section_of::<OS>(tree, "SPSoftwareDataType"@) {
            Err(e) => Err(e),
            Ok(os) => match section_of::<Application>(tree, "SPApplicationsDataType"@) {
                Err(e) => Err(e),
                Ok(apps) => match section_of::<Extension>(tree, "SPExtensionsDataType"@) {
                    Err(e) => Err(e),
                    Ok(drivers) => Ok(ProfileView { os, apps, drivers }),
                },
            },
        }
    }

    fn decode(tree: &Json) -> (res: Result<Profile, CollectionError>) {
        match read_section::<OS>(tree, "SPSoftwareDataType") {
            Err(e) => Err(e),
            Ok(os) => match read_section::<Application>(tree, "SPApplicationsDataType") {
                Err(e) => Err(e),
                Ok(apps) => match read_section::<Extension>(tree, "SPExtensionsDataType") {
                    Err(e) => Err(e),
                    Ok(drivers) => Ok(Profile { os, apps, drivers }),
                },
            },
        }
    }
}

// ---------------------------------------------------------------------------
// The collector
// ---------------------------------------------------------------------------

/// What the profiler puts before the version of the system.
pub open spec fn version_prefix() -> Seq<char> {
    "macOS "@
}

/// The version of the system without the name of the system in it.
pub open spec fn bare_version(reported: Seq<char>) -> Seq<char> {
    replace_all(reported, version_prefix(), Seq::empty())
}

/// Takes the name of the system out of a reported version.
pub fn strip_os_name(reported: &str) -> (version: String)
    ensures
        version@ == bare_version(reported@),
{
    let text: Vec<char> = chars_of(reported);
    let prefix: Vec<char> = chars_of("macOS ");
    let nothing: Vec<char> = Vec::new();
    proof {
        assert(nothing@ =~= Seq::<char>::empty());
    }
    let bare: Vec<char> = replace(&text, &prefix, &nothing);
    string_from_chars(&bare)
}

/// The inventory that a profile holds: the operating system with its bare
/// version, then the extensions, then the applications, each group in the
/// order of the profile, and every record normalised.
pub open spec fn inventory_of(profile: ProfileView) -> Seq<ComponentView> {
    profile.os.map_values(|os: OSView| os.with_bare_version().fields().normalized())
        + profile.drivers.map_values(|driver: ExtensionView| driver.fields().normalized())
        + profile.apps.map_values(|app: ApplicationView| app.fields().normalized())
}

/// What a JSON text of the profiler yields, where the text is JSON: the
/// inventory of the profile that it holds, or the failure of the profile.
pub open spec fn json_outcome(json: Seq<char>) -> Option<Result<
    Seq<ComponentView>,
    CollectionErrorView,
>> {
    match json_document(json) {
        Some(doc) => Some(
            match Profile::decoded(doc) {
                Ok(profile) => Ok(inventory_of(profile)),
                Err(e) => Err(e),
            },
        ),
        None => None,
    }
}

/// Whether an error says that the output of the profiler could not be
/// decoded: its detail begins with the words for output that cannot be
/// parsed.
pub open spec fn is_profile_failure(e: CollectionErrorView) -> bool {
    e matches CollectionErrorView::SchemaDecodeFailure { source, detail } && source
        == "system_profiler"@ && starts_with(detail, profile_lead() + ": "@)
}

/// The macOS collector.
#[derive(Clone, Copy, Debug, Default, PartialEq, Eq)]
pub struct Collector {}

impl Collector {
    /// Prepares the collector. Nothing has to be prepared on this
    /// platform, so this never fails.
    pub fn setup(&mut self) -> (res: Result<(), CollectionError>)
        ensures
            res is Ok,
            *final(self) == *old(self),
    {
        Ok(())
    }

    /// The inventory that a profile holds.
    pub fn collect_from_profile(&self, profile: &Profile) -> (components: Vec<Component>)
        ensures
            component_views(components@) == inventory_of(profile@),
            all_well_formed(components@),
    {
        let mut components: Vec<Component> = Vec::new();
        let mut i: usize = 0;
        let ghost systems = profile@.os.map_values(
            |os: OSView| os.with_bare_version().fields().normalized(),
        );
        proof {
            assert(component_views(components@) =~= systems.take(0));
        }
        while i < profile.os.len()
            invariant
                i <= profile.os@.len(),
                systems == profile@.os.map_values(
                    |os: OSView| os.with_bare_version().fields().normalized(),
                ),
                component_views(components@) == systems.take(i as int),
                all_well_formed(components@),
            decreases profile.os@.len() - i,
        {
            let reported: &OS = &profile.os[i];
            let os = OS {
                os_version: strip_os_name(reported.os_version.as_str()),
                publishers: clone_strings(&reported.publishers),
            };
            proof {
                assert(os@ == profile@.os[i as int].with_bare_version());
            }
            let component: Component = Component::from_record(&os);
            let ghost before = components@;
            components.push(component);
            proof {
                assert(component_views(components@) =~= component_views(before).push(component@));
                assert(systems.take(i + 1) =~= systems.take(i as int).push(component@));
                assert forall|k: int| 0 <= k < components@.len() implies (
                #[trigger] components@[k]).well_formed() by {
                    if k < before.len() {
                        assert(components@[k] == before[k]);
                    }
                }
            }
            i = i + 1;
        }
        proof {
            assert(systems.take(profile.os@.len() as int) =~= systems);
        }
        push_components(&mut components, &profile.drivers);
        push_components(&mut components, &profile.apps);
        proof {
            assert(normalized_fields(profile.drivers@) =~= profile@.drivers.map_values(
                |driver: ExtensionView| driver.fields().normalized(),
            ));
            assert(normalized_fields(profile.apps@) =~= profile@.apps.map_values(
                |app: ApplicationView| app.fields().normalized(),
            ));
        }
        components
    }

    /// The inventory that the JSON output of the profiler holds.
    ///
    /// Where the text is JSON, it is decoded as a profile: the inventory
    /// of the profile is handed out, or the phase fails with the first
    /// record that fails. Where the text is no JSON, the phase fails with
    /// what the reader says of it.
    pub fn collect_from_json(&self, json: &str) -> (res: Result<Vec<Component>, CollectionError>)
        ensures
            match json_outcome(json@) {
                Some(Ok(inventory)) => res matches Ok(components) && component_views(components@)
                    == inventory && all_well_formed(components@),
                Some(Err(e)) => res matches Err(failure) && failure@ == e,
                None => res matches Err(failure) && is_profile_failure(failure@),
            },
    {
        match Json::parse(json) {
            Err(cause) => {
                proof {
                    lemma_failure_messages(profile_lead(), "system_profiler"@, cause@);
                }
                Err(
                    CollectionError::decode(
                        "system_profiler",
                        "could not parse system_profiler output",
                        cause.as_str(),
                    ),
                )
            },
            Ok(doc) => match Profile::decode(&doc) {
                Err(e) => Err(e),
                Ok(profile) => Ok(self.collect_from_profile(&profile)),
            },
        }
    }

    /// The inventory of the host, from the run of the profiler. A run that
    /// failed ends the collection with the failure of the tool.
    pub fn collect(&self, run: &ToolRun) -> (res: Result<Vec<Component>, CollectionError>)
        ensures
            match run_outcome("system_profiler"@, "system_profiler"@, *run) {
                Err(failure) => res matches Err(e) && e@ == failure,
                Ok(json) => match json_outcome(json) {
                    Some(Ok(inventory)) => res matches Ok(components) && component_views(
                        components@,
                    ) == inventory && all_well_formed(components@),
                    Some(Err(e)) => res matches Err(failure) && failure@ == e,
                    None => res matches Err(failure) && is_profile_failure(failure@),
                },
            },
    {
        match tool_output("system_profiler", "system_profiler", run) {
            Ok(json) => self.collect_from_json(json.as_str()),
            Err(e) => Err(e),
        }
    }
}

} // verus!
