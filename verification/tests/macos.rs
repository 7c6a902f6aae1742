use unisbom::clock::{read_datetime, read_instant};
use unisbom::component::{Component, ComponentTrait, Kind, Timestamp};
use unisbom::error::CollectionError;
use unisbom::json::{read_list, read_text, read_texts, Json};
use unisbom::macos::{apple_default_publishers, decode_all, read_section, string_as_string_vector, strip_os_name, Application, Collector, Decode, Extension, Profile, OS};
use unisbom::tool::ToolRun;

const PROFILE: &str = r#"{
  "SPApplicationsDataType" : [
    {
      "_name" : "Safari",
      "arch_kind" : "arch_arm_i64",
      "lastModified" : "2023-01-24T06:39:52Z",
      "obtained_from" : "apple",
      "path" : "/Applications/Safari.app",
      "signed_by" : [ "Software Signing", "Apple Code Signing Certification Authority", "Apple Root CA" ],
      "version" : "16.3"
    },
    {
      "_name" : "Tool",
      "arch_kind" : "arch_i64",
      "lastModified" : "2021-05-01T10:00:00+02:00",
      "obtained_from" : "unknown",
      "path" : "/Applications/Tool.app",
      "extra" : 5
    }
  ],
  "SPExtensionsDataType" : [
    {
      "_name" : "AppleACPIPlatform",
      "spext_architectures" : [ "arm64e", "x86_64" ],
      "spext_bundleid" : "com.apple.driver.AppleACPIPlatform",
      "spext_hasAllDependencies" : "spext_satisfied",
      "spext_lastModified" : "2023-01-24T06:39:52Z",
      "spext_loadable" : "spext_yes",
      "spext_loaded" : "spext_no",
      "spext_notarized" : "spext_yes",
      "spext_obtained_from" : "spext_apple",
      "spext_path" : "/System/Library/Extensions/AppleACPIPlatform.kext",
      "spext_signed_by" : "Software Signing, Apple Code Signing Certification Authority, Apple Root CA",
      "spext_version" : "6.1",
      "version" : "6.1"
    }
  ],
  "SPSoftwareDataType" : [
    {
      "_name" : "os_overview",
      "os_version" : "macOS 13.2 (22D49)"
    }
  ]
}"#;

fn instant(y: i32, m: u32, d: u32, h: u32, mi: u32, s: u32) -> Timestamp {
    let t = chrono::NaiveDate::from_ymd_opt(y, m, d).unwrap().and_hms_opt(h, mi, s).unwrap().and_utc();
    Timestamp { secs: t.timestamp(), nanos: 0 }
}

fn text(s: &str) -> Json {
    Json::Text(s.to_string())
}

fn object(members: Vec<(&str, Json)>) -> Json {
    Json::Object(members.into_iter().map(|(k, v)| (k.to_string(), v)).collect())
}

#[test]
fn signer_is_wrapped_and_not_split() {
    assert_eq!(string_as_string_vector("A, B, C"), vec!["A, B, C".to_string()]);
    assert_eq!(string_as_string_vector(""), vec!["".to_string()]);
}

#[test]
fn name_of_the_system_is_taken_out_of_its_version() {
    assert_eq!(strip_os_name("macOS 13.2 (22D49)"), "13.2 (22D49)");
    assert_eq!(strip_os_name("13.2"), "13.2");
    assert_eq!(strip_os_name("macOS macOS 1"), "1");
    assert_eq!(strip_os_name("macOS"), "macOS");
}

#[test]
fn instants_are_read_in_the_notation_of_rfc_3339() {
    assert_eq!(read_instant("2023-01-24T06:39:52Z"), Ok(instant(2023, 1, 24, 6, 39, 52)));
    assert_eq!(read_instant("2021-05-01T10:00:00+02:00"), Ok(instant(2021, 5, 1, 8, 0, 0)));
    assert_eq!(read_instant("1970-01-01T00:00:00Z"), Ok(Timestamp::zero()));
    assert_eq!(read_instant("2023-01-24 06:39:52+0000"), Ok(instant(2023, 1, 24, 6, 39, 52)));
    assert_eq!(read_instant("2023-01-24T06:39:52.5Z"), Ok(Timestamp { secs: 1_674_542_392, nanos: 500_000_000 }));
    assert_eq!(read_instant("yesterday"), Err("ParseError(Invalid)".to_string()));
    assert_eq!(read_instant(""), Err("ParseError(TooShort)".to_string()));
}

#[test]
fn dates_are_read_by_a_format() {
    assert_eq!(read_datetime("12/7/2019 9:17:08 AM", "%m/%e/%Y %l:%M:%S %p"), Ok(instant(2019, 12, 7, 9, 17, 8)));
    assert_eq!(read_datetime("2020-02-29", "%Y-%m-%d"), Err("ParseError(NotEnough)".to_string()));
    assert_eq!(read_datetime("2020-02-29 01:02:03", "%Y-%m-%d %H:%M:%S"), Ok(instant(2020, 2, 29, 1, 2, 3)));
    assert_eq!(read_datetime("x", "%Y"), Err("ParseError(Invalid)".to_string()));
}

#[test]
fn documents_are_read_as_trees() {
    let doc = Json::parse(r#"{"a": [1, "x", null, true, {"b": -2.5}], "c": "d"}"#).unwrap();
    assert_eq!(
        doc,
        object(vec![
            (
                "a",
                Json::Array(vec![
                    Json::Number("1".to_string()),
                    text("x"),
                    Json::Null,
                    Json::Bool(true),
                    object(vec![("b", Json::Number("-2.5".to_string()))]),
                ])
            ),
            ("c", text("d")),
        ])
    );
    assert_eq!(doc.get("c"), Some(&text("d")));
    assert_eq!(doc.get("z"), None);
    assert_eq!(text("x").get("c"), None);
    assert!(Json::parse("{").is_err());
    assert!(Json::parse("").is_err());
}

#[test]
fn fields_of_a_record_are_read_by_their_names() {
    let record = object(vec![("a", text("1")), ("l", Json::Array(vec![text("x"), text("y")])), ("n", Json::Null)]);
    assert_eq!(read_text(&record, "a", true), Some("1".to_string()));
    assert_eq!(read_text(&record, "z", true), None);
    assert_eq!(read_text(&record, "z", false), Some("".to_string()));
    assert_eq!(read_text(&record, "n", false), None);
    assert_eq!(read_text(&record, "l", true), None);
    assert_eq!(read_list(&record, "l"), Some(vec!["x".to_string(), "y".to_string()]));
    assert_eq!(read_list(&record, "z"), Some(vec![]));
    assert_eq!(read_list(&record, "a"), None);
    assert_eq!(read_list(&object(vec![("l", Json::Array(vec![text("x"), Json::Null]))]), "l"), None);
    assert_eq!(Json::Array(vec![]).text_list(), Some(vec![]));
    assert_eq!(read_texts(&record, &vec![("a", true), ("z", false)]), Ok(vec!["1".to_string(), "".to_string()]));
    assert_eq!(read_texts(&record, &vec![("a", true), ("z", true), ("n", true)]), Err("z".to_string()));
    assert_eq!(read_text(&Json::Null, "a", true), None);
}

#[test]
fn inventory_is_read_out_of_the_profile() {
    let components = Collector::default().collect_from_json(PROFILE).unwrap();
    assert_eq!(components.len(), 4);
    assert_eq!(
        components[0],
        Component {
            kind: Kind::OS,
            name: "macOS".to_string(),
            id: "macOS".to_string(),
            version: "13.2 (22D49)".to_string(),
            path: "/".to_string(),
            modified: Timestamp::zero(),
            publishers: vec!["Apple Code Signing Certification Authority".to_string(), "Apple Root CA".to_string()],
        }
    );
    assert_eq!(
        components[1],
        Component {
            kind: Kind::Driver,
            name: "AppleACPIPlatform".to_string(),
            id: "com.apple.driver.AppleACPIPlatform".to_string(),
            version: "6.1".to_string(),
            path: "/System/Library/Extensions/AppleACPIPlatform.kext".to_string(),
            modified: instant(2023, 1, 24, 6, 39, 52),
            publishers: vec!["Software Signing, Apple Code Signing Certification Authority, Apple Root CA".to_string()],
        }
    );
    assert_eq!(
        components[2],
        Component {
            kind: Kind::Application,
            name: "Safari".to_string(),
            id: "Safari".to_string(),
            version: "16.3".to_string(),
            path: "/Applications/Safari.app".to_string(),
            modified: instant(2023, 1, 24, 6, 39, 52),
            publishers: vec![
                "Software Signing".to_string(),
                "Apple Code Signing Certification Authority".to_string(),
                "Apple Root CA".to_string(),
            ],
        }
    );
    assert_eq!(components[3].name, "Tool");
    assert_eq!(components[3].id, "Tool");
    assert_eq!(components[3].version, "");
    assert!(components[3].publishers.is_empty());
    assert_eq!(components[3].modified, instant(2021, 5, 1, 8, 0, 0));
}

#[test]
fn records_are_decoded_with_all_their_fields() {
    let doc = Json::parse(PROFILE).unwrap();
    let profile = Profile::decode(&doc).unwrap();
    assert_eq!(profile.os, vec![OS::new("macOS 13.2 (22D49)".to_string())]);
    assert_eq!(profile.apps.len(), 2);
    assert_eq!(profile.apps[0].arch_kind, "arch_arm_i64");
    assert_eq!(profile.apps[0].obtained_from, "apple");
    let e = &profile.drivers[0];
    assert_eq!(e.architectures, vec!["arm64e".to_string(), "x86_64".to_string()]);
    assert_eq!(e.has_64bit_intel_code, "");
    assert_eq!(e.has_all_dependencies, "spext_satisfied");
    assert_eq!(e.loadable, "spext_yes");
    assert_eq!(e.loaded, "spext_no");
    assert_eq!(e.notarized, "spext_yes");
    assert_eq!(e.obtained_from, "spext_apple");
    assert_eq!(e.runtime_environment, "");
    assert_eq!(e.spext_version, "6.1");
    assert_eq!(Collector::default().collect_from_profile(&profile), Collector::default().collect_from_json(PROFILE).unwrap());
}

#[test]
fn extension_without_bundle_identifier_is_identified_by_its_name() {
    let doc = Json::parse(PROFILE).unwrap();
    let mut extension = Profile::decode(&doc).unwrap().drivers.remove(0);
    assert_eq!(extension.id(), "com.apple.driver.AppleACPIPlatform");
    extension.bundleid = String::new();
    assert_eq!(extension.id(), "AppleACPIPlatform");
    assert_eq!(extension.id(), extension.name());
    assert_eq!(Component::from_trait(&extension).id, "AppleACPIPlatform");
}

#[test]
fn application_of_the_profiler_is_identified_by_its_name() {
    let app = Application {
        name: "Safari".to_string(),
        arch_kind: "".to_string(),
        modified: Timestamp::zero(),
        obtained_from: "".to_string(),
        path: "/a".to_string(),
        signed_by: vec![],
        version: "1".to_string(),
    };
    assert_eq!(app.id(), app.name());
    assert_eq!(Component::from_trait(&app).id, "Safari");
    assert_eq!(app.kind(), Kind::Application);
    let os = OS::new("13".to_string());
    assert_eq!(os.id(), os.name());
    assert_eq!(os.kind(), Kind::OS);
    assert_eq!(os.path(), "/");
    assert_eq!(os.publishers(), &apple_default_publishers());
}

#[test]
fn text_that_is_no_json_is_a_decode_failure() {
    match Collector::default().collect_from_json("not json") {
        Err(e @ CollectionError::SchemaDecodeFailure { .. }) => {
            assert!(e.message().starts_with("could not parse system_profiler output: "));
            assert!(matches!(e, CollectionError::SchemaDecodeFailure { ref source, .. } if source == "system_profiler"));
        }
        other => panic!("unexpected: {:?}", other),
    }
}

#[test]
fn missing_section_is_a_decode_failure() {
    let failure = |detail: &str| {
        Err(CollectionError::SchemaDecodeFailure {
            source: "system_profiler".to_string(),
            detail: format!("could not parse system_profiler output: field {}", detail),
        })
    };
    let c = Collector::default();
    assert_eq!(c.collect_from_json("{}"), failure("SPSoftwareDataType"));
    assert_eq!(c.collect_from_json(r#"{"SPSoftwareDataType": []}"#), failure("SPApplicationsDataType"));
    assert_eq!(
        c.collect_from_json(r#"{"SPSoftwareDataType": [], "SPApplicationsDataType": [], "SPExtensionsDataType": {}}"#),
        failure("SPExtensionsDataType")
    );
    assert_eq!(c.collect_from_json("[]"), failure("SPSoftwareDataType"));
    assert_eq!(
        c.collect_from_json(r#"{"SPSoftwareDataType": [], "SPApplicationsDataType": [], "SPExtensionsDataType": []}"#),
        Ok(vec![])
    );
}

#[test]
fn record_that_lacks_a_field_fails_the_profile() {
    let without = PROFILE.replace("\"spext_bundleid\" : \"com.apple.driver.AppleACPIPlatform\",", "");
    assert_eq!(
        Collector::default().collect_from_json(&without),
        Err(CollectionError::SchemaDecodeFailure {
            source: "system_profiler".to_string(),
            detail: "could not parse system_profiler output: field spext_bundleid".to_string(),
        })
    );
    let wrong = PROFILE.replace("\"version\" : \"16.3\"", "\"version\" : 16.3");
    assert_eq!(
        Collector::default().collect_from_json(&wrong),
        Err(CollectionError::SchemaDecodeFailure {
            source: "system_profiler".to_string(),
            detail: "could not parse system_profiler output: field version".to_string(),
        })
    );
    let signer = PROFILE.replace("[ \"Software Signing\", \"Apple Code Signing Certification Authority\", \"Apple Root CA\" ]", "\"Software Signing\"");
    assert_eq!(
        Collector::default().collect_from_json(&signer),
        Err(CollectionError::SchemaDecodeFailure {
            source: "system_profiler".to_string(),
            detail: "could not parse system_profiler output: field signed_by".to_string(),
        })
    );
}

#[test]
fn timestamp_that_is_no_instant_fails_the_profile() {
    let wrong = PROFILE.replace("2021-05-01T10:00:00+02:00", "last week");
    assert_eq!(
        Collector::default().collect_from_json(&wrong),
        Err(CollectionError::DateTimeParseFailure {
            raw_value: "last week".to_string(),
            detail: "could not parse system_profiler output: datetime 'last week': ParseError(Invalid)".to_string(),
        })
    );
}

#[test]
fn sections_and_lists_are_decoded_item_by_item() {
    let items = vec![object(vec![("os_version", text("macOS 12"))]), object(vec![("os_version", text("11"))])];
    assert_eq!(decode_all::<OS>(&items), Ok(vec![OS::new("macOS 12".to_string()), OS::new("11".to_string())]));
    let bad = vec![object(vec![("os_version", text("macOS 12"))]), Json::Null];
    assert_eq!(
        decode_all::<OS>(&bad),
        Err(CollectionError::SchemaDecodeFailure {
            source: "system_profiler".to_string(),
            detail: "could not parse system_profiler output: field os_version".to_string(),
        })
    );
    let doc = object(vec![("s", Json::Array(items))]);
    assert_eq!(read_section::<OS>(&doc, "s").unwrap().len(), 2);
    assert!(read_section::<OS>(&doc, "t").is_err());
    assert!(read_section::<Extension>(&doc, "s").is_err());
}

#[test]
fn inventory_is_collected_from_the_run_of_the_profiler() {
    let c = Collector::default();
    let run = ToolRun::Exited { success: true, exit_code: Some(0), stdout: PROFILE.as_bytes().to_vec(), stderr: vec![] };
    assert_eq!(c.collect(&run).unwrap().len(), 4);
    let failed = ToolRun::Exited { success: false, exit_code: Some(1), stdout: PROFILE.as_bytes().to_vec(), stderr: b"no".to_vec() };
    assert_eq!(
        c.collect(&failed),
        Err(CollectionError::ExternalToolFailure { tool: "system_profiler".to_string(), exit_status: Some(1), stderr: "no".to_string() })
    );
}
