use unisbom::component::{Component, ComponentTrait, Kind, Timestamp};
use unisbom::error::CollectionError;
use unisbom::registry::{Properties, UninstallEntry};
use unisbom::tool::ToolRun;
use unisbom::version::VersionError;
use unisbom::windows::{column_text, driver_column_names, driver_from_record, drivers_from_table, microsoft_default_publishers, os_from_banner, parse_drivers, pick_first_non_empty, position, read_fields, Application, Collector, Driver, OS};

fn props(pairs: &[(&str, &str)]) -> Properties {
    let mut p = Properties::new();
    for (k, v) in pairs {
        p.insert(k.to_string(), v.to_string());
    }
    p
}

fn strings(list: &[&str]) -> Vec<String> {
    list.iter().map(|s| s.to_string()).collect()
}

fn ok_run(stdout: &str) -> ToolRun {
    ToolRun::Exited { success: true, exit_code: Some(0), stdout: stdout.as_bytes().to_vec(), stderr: vec![] }
}

const HEADER: &str = "\"Module Name\",\"Display Name\",\"Description\",\"Driver Type\",\"Start Mode\",\"State\",\"Status\",\"Accept Stop\",\"Accept Pause\",\"Paged Pool(bytes)\",\"Code(bytes)\",\"BSS(bytes)\",\"Link Date\",\"Path\",\"Init(bytes)\"";
const ACPI: &str = "\"ACPI\",\"Microsoft ACPI Driver\",\"Microsoft ACPI Driver\",\"Kernel \",\"Boot\",\"Running\",\"OK\",\"TRUE\",\"FALSE\",\"176,128\",\"405,504\",\"0\",\"12/7/2019 9:17:08 AM\",\"C:\\Windows\\system32\\drivers\\ACPI.sys\",\"8,192\"";
const NODATE: &str = "\"afunix\",\"afunix\",\"AF_UNIX socket provider\",\"Kernel \",\"System\",\"Running\",\"OK\",\"TRUE\",\"FALSE\",\"0\",\"0\",\"0\",\"\",\"C:\\Windows\\system32\\drivers\\afunix.sys\",\"0\"";

fn table(rows: &[&str]) -> String {
    let mut t = String::new();
    for r in rows {
        t.push_str(r);
        t.push_str("\r\n");
    }
    t
}

#[test]
fn version_is_read_out_of_the_banner() {
    let os = os_from_banner("\r\nMicrosoft Windows [Version 10.0.19045.3803]\r\n").unwrap();
    assert_eq!(os.name, "Microsoft Windows");
    assert_eq!(os.version, "10.0.19045.3803");
    assert_eq!(os.publishers, vec!["Microsoft".to_string()]);
}

#[test]
fn banner_is_cut_at_the_second_marker() {
    assert_eq!(os_from_banner("x [Version 1.2] y [Version 3.4]").unwrap().version, "1.2 y ");
    assert_eq!(os_from_banner("[Version ]]a]b  ").unwrap().version, "ab");
    assert_eq!(os_from_banner("[Version [Version 7").unwrap().version, "");
    assert!(os_from_banner("[Version ").is_err());
}

#[test]
fn banner_without_marker_is_a_decode_failure() {
    assert_eq!(
        os_from_banner("Microsoft Windows 10"),
        Err(CollectionError::SchemaDecodeFailure {
            source: "ver".to_string(),
            detail: "could not parse ver output: Microsoft Windows 10".to_string(),
        })
    );
    assert!(os_from_banner("").is_err());
}

#[test]
fn system_is_a_component_of_its_own() {
    let os = OS::new("10.0".to_string());
    assert_eq!(os.kind(), Kind::OS);
    assert_eq!(os.name(), "Microsoft Windows");
    assert_eq!(os.id(), "Microsoft Windows");
    assert_eq!(os.version(), "10.0");
    assert_eq!(os.path(), "/");
    assert_eq!(os.modified(), Timestamp::zero());
    assert_eq!(os.publishers(), &microsoft_default_publishers());
}

#[test]
fn system_is_collected_from_the_run_of_ver() {
    let c = Collector::default();
    assert_eq!(c.collect_os(&ok_run("Microsoft Windows [Version 6.1.7601]")).unwrap().version, "6.1.7601");
    let failed = ToolRun::Exited { success: false, exit_code: Some(1), stdout: vec![], stderr: b"bad".to_vec() };
    assert_eq!(
        c.collect_os(&failed),
        Err(CollectionError::ExternalToolFailure { tool: "ver".to_string(), exit_status: Some(1), stderr: "bad".to_string() })
    );
}

#[test]
fn path_is_the_first_candidate_that_is_not_empty() {
    let app = Application::new(
        "{K}".to_string(),
        Timestamp::zero(),
        props(&[("InstallLocation", ""), ("InstallSource", "C:\\src"), ("BundleCachePath", "C:\\cache")]),
    );
    assert_eq!(app.path, "C:\\src");
}

#[test]
fn path_candidates_are_tried_in_their_order() {
    let p = props(&[("BundleCachePath", "C:\\cache"), ("InstallLocation", "C:\\loc"), ("InstallSource", "C:\\src")]);
    assert_eq!(Application::new("k".to_string(), Timestamp::zero(), p).path, "C:\\loc");
    let p = props(&[("BundleCachePath", "C:\\cache")]);
    assert_eq!(Application::new("k".to_string(), Timestamp::zero(), p).path, "C:\\cache");
    let p = props(&[("InstallLocation", ""), ("InstallSource", "")]);
    assert_eq!(Application::new("k".to_string(), Timestamp::zero(), p).path, "");
    let p = props(&[("a", "1"), ("b", ""), ("c", "3")]);
    assert_eq!(pick_first_non_empty(&p, &vec!["b", "x", "c", "a"]), "3");
    assert_eq!(pick_first_non_empty(&p, &vec![]), "");
}

#[test]
fn application_takes_its_fields_from_the_properties() {
    let t = Timestamp { secs: 1_650_000_000, nanos: 0 };
    let p = props(&[
        ("DisplayName", "Contoso Tool"),
        ("DisplayVersion", "2.5"),
        ("Version", "33882112"),
        ("Publisher", "Contoso, Ltd.; Fabrikam"),
        ("InstallLocation", "C:\\Program Files\\Contoso"),
    ]);
    let app = Application::new("{GUID}".to_string(), t, p.clone());
    assert_eq!(app.key, "{GUID}");
    assert_eq!(app.modified, t);
    assert_eq!(app.properties, p);
    assert_eq!(app.name, "Contoso Tool");
    assert_eq!(app.version, "2.5");
    assert_eq!(app.path, "C:\\Program Files\\Contoso");
    assert_eq!(app.publishers, vec!["Contoso, Ltd.; Fabrikam".to_string()]);
    assert_eq!(app.kind(), Kind::Application);
    assert_eq!(app.id(), "{GUID}");
    assert_eq!(app.name(), "Contoso Tool");
    assert_eq!(app.modified(), t);
}

#[test]
fn application_version_falls_back_to_the_version_field() {
    let app = Application::new("k".to_string(), Timestamp::zero(), props(&[("Version", "7")]));
    assert_eq!(app.version, "7");
    let app = Application::new("k".to_string(), Timestamp::zero(), props(&[("DisplayVersion", ""), ("Version", "7")]));
    assert_eq!(app.version, "");
    let app = Application::new("k".to_string(), Timestamp::zero(), props(&[]));
    assert_eq!(app.version, "");
    assert_eq!(app.name, "");
    assert!(app.publishers.is_empty());
}

#[test]
fn entries_without_display_name_are_no_applications() {
    let entries = vec![
        UninstallEntry { key_name: "a".to_string(), modified: Timestamp::zero(), properties: props(&[("DisplayName", "A")]) },
        UninstallEntry { key_name: "b".to_string(), modified: Timestamp::zero(), properties: props(&[("Publisher", "P")]) },
        UninstallEntry { key_name: "c".to_string(), modified: Timestamp::zero(), properties: props(&[("DisplayName", "")]) },
    ];
    let apps = Collector::default().collect_apps(entries);
    assert_eq!(apps.len(), 2);
    assert_eq!(apps[0].key, "a");
    assert_eq!(apps[0].name, "A");
    assert_eq!(apps[1].key, "c");
    assert_eq!(apps[1].name, "");
}

#[test]
fn empty_uninstall_root_gives_no_applications() {
    assert!(Collector::default().collect_apps(vec![]).is_empty());
}

#[test]
fn columns_are_found_by_their_names() {
    let header = strings(&["A", "B", "A", "C"]);
    let record = strings(&["1", "2", "3"]);
    assert_eq!(position(&header, "A", 0), Some(0));
    assert_eq!(position(&header, "A", 1), Some(2));
    assert_eq!(position(&header, "A", 3), None);
    assert_eq!(position(&header, "Z", 0), None);
    assert_eq!(column_text(&header, &record, "B"), Some("2".to_string()));
    assert_eq!(column_text(&header, &record, "A"), None);
    assert_eq!(column_text(&header, &record, "C"), None);
    assert_eq!(column_text(&header, &record, "Z"), None);
    assert_eq!(read_fields(&header, &record, &vec!["B"]), Ok(strings(&["2"])));
    assert_eq!(read_fields(&header, &record, &vec!["B", "C", "A"]), Err("C".to_string()));
    assert_eq!(read_fields(&header, &record, &vec![]), Ok(vec![]));
}

#[test]
fn drivers_are_read_from_the_table() {
    let drivers = parse_drivers(&table(&[HEADER, ACPI, NODATE])).unwrap();
    assert_eq!(drivers.len(), 2);
    let d = &drivers[0];
    assert_eq!(d.module_name, "ACPI");
    assert_eq!(d.display_name, "Microsoft ACPI Driver");
    assert_eq!(d.description, "Microsoft ACPI Driver");
    assert_eq!(d.driver_type, "Kernel ");
    assert_eq!(d.start_mode, "Boot");
    assert_eq!(d.state, "Running");
    assert_eq!(d.status, "OK");
    assert_eq!(d.accept_stop, "TRUE");
    assert_eq!(d.accept_pause, "FALSE");
    assert_eq!(d.paged_pool_size, "176,128");
    assert_eq!(d.code_size, "405,504");
    assert_eq!(d.bss_size, "0");
    assert_eq!(d.link_date_string, "12/7/2019 9:17:08 AM");
    assert_eq!(d.path, "C:\\Windows\\system32\\drivers\\ACPI.sys");
    assert_eq!(d.init_size, "8,192");
    assert_eq!(d.version, "");
    assert!(d.publishers.is_empty());
    let expected = chrono::NaiveDate::from_ymd_opt(2019, 12, 7).unwrap().and_hms_opt(9, 17, 8).unwrap().and_utc();
    assert_eq!(d.link_date, Timestamp { secs: expected.timestamp(), nanos: 0 });
    assert_eq!(d.link_date.secs, 1_575_710_228);
    assert_eq!(drivers[1].link_date, Timestamp::zero());
    assert_eq!(drivers[1].module_name, "afunix");
}

#[test]
fn afternoon_hours_are_read_by_the_twelve_hour_clock() {
    let row = ACPI.replace("12/7/2019 9:17:08 AM", "1/15/2021 11:05:09 PM");
    let drivers = parse_drivers(&table(&[HEADER, &row])).unwrap();
    let expected = chrono::NaiveDate::from_ymd_opt(2021, 1, 15).unwrap().and_hms_opt(23, 5, 9).unwrap().and_utc();
    assert_eq!(drivers[0].link_date, Timestamp { secs: expected.timestamp(), nanos: 0 });
}

#[test]
fn columns_may_come_in_any_order_and_with_others() {
    let t = "Path,Extra,Module Name,Display Name,Description,Driver Type,Start Mode,State,Status,Accept Stop,Accept Pause,Paged Pool(bytes),Code(bytes),BSS(bytes),Link Date,Init(bytes)\nC:\\x.sys,zzz,m,d,e,t,s,st,ok,T,F,1,2,3,,4\n";
    let drivers = parse_drivers(t).unwrap();
    assert_eq!(drivers.len(), 1);
    assert_eq!(drivers[0].path, "C:\\x.sys");
    assert_eq!(drivers[0].module_name, "m");
    assert_eq!(drivers[0].init_size, "4");
    assert_eq!(drivers[0].link_date_string, "");
}

#[test]
fn table_without_records_holds_no_driver() {
    assert_eq!(parse_drivers(&table(&[HEADER])), Ok(vec![]));
    assert_eq!(parse_drivers(""), Ok(vec![]));
    assert_eq!(drivers_from_table(&vec![]), Ok(vec![]));
    assert_eq!(drivers_from_table(&vec![strings(&["anything"])]), Ok(vec![]));
}

#[test]
fn record_that_lacks_a_column_fails_the_table() {
    let header = HEADER.replace("\"Path\",", "");
    let row = ACPI.replace("\"C:\\Windows\\system32\\drivers\\ACPI.sys\",", "");
    assert_eq!(
        parse_drivers(&table(&[&header, &row])),
        Err(CollectionError::SchemaDecodeFailure {
            source: "driverquery".to_string(),
            detail: "could not deserialize driver record: column Path".to_string(),
        })
    );
}

#[test]
fn column_that_is_named_twice_fails_the_table() {
    let header = format!("{},\"State\"", HEADER);
    let row = format!("{},\"Stopped\"", ACPI);
    assert_eq!(
        parse_drivers(&table(&[&header, &row])),
        Err(CollectionError::SchemaDecodeFailure {
            source: "driverquery".to_string(),
            detail: "could not deserialize driver record: column State".to_string(),
        })
    );
}

#[test]
fn link_date_that_is_no_date_fails_the_table() {
    let row = ACPI.replace("12/7/2019 9:17:08 AM", "yesterday");
    assert_eq!(
        parse_drivers(&table(&[HEADER, NODATE, &row, ACPI])),
        Err(CollectionError::DateTimeParseFailure {
            raw_value: "yesterday".to_string(),
            detail: "could not parse driver datetime 'yesterday': ParseError(Invalid)".to_string(),
        })
    );
    let failure = parse_drivers(&table(&[HEADER, &row])).unwrap_err();
    assert!(failure.message().starts_with("could not parse driver datetime 'yesterday': "));
}

#[test]
fn record_of_another_length_fails_the_table() {
    let short = "\"ACPI\",\"Microsoft ACPI Driver\"";
    match parse_drivers(&table(&[HEADER, ACPI, short])) {
        Err(e @ CollectionError::SchemaDecodeFailure { .. }) => {
            assert!(e.message().starts_with("could not deserialize driver record: "));
            assert!(matches!(e, CollectionError::SchemaDecodeFailure { ref source, .. } if source == "driverquery"));
        }
        other => panic!("unexpected: {:?}", other),
    }
}

#[test]
fn one_record_is_read_against_the_header() {
    let header = strings(&driver_column_names());
    let mut record = strings(&["m", "d", "e", "t", "s", "st", "ok", "T", "F", "1", "2", "3", "", "p", "4"]);
    let driver = driver_from_record(&header, &record).unwrap();
    assert_eq!(Some(driver), Driver::from_fields(&record));
    record[12] = "13/45/2020 1:00:00 AM".to_string();
    assert_eq!(
        driver_from_record(&header, &record),
        Err(CollectionError::DateTimeParseFailure {
            raw_value: "13/45/2020 1:00:00 AM".to_string(),
            detail: "could not parse driver datetime '13/45/2020 1:00:00 AM': ParseError(OutOfRange)".to_string(),
        })
    );
    record.truncate(14);
    assert_eq!(
        driver_from_record(&header, &record),
        Err(CollectionError::SchemaDecodeFailure {
            source: "driverquery".to_string(),
            detail: "could not deserialize driver record: column Init(bytes)".to_string(),
        })
    );
}

#[test]
fn link_date_is_set_from_what_the_reading_gave() {
    let record = strings(&["m", "d", "e", "t", "s", "st", "ok", "T", "F", "1", "2", "3", "1/1/2020 1:00:00 AM", "p", "4"]);
    let mut driver = Driver::from_fields(&record).unwrap();
    let t = Timestamp { secs: 42, nanos: 7 };
    assert_eq!(driver.set_link_date(Ok(t)), Ok(()));
    assert_eq!(driver.link_date, t);
    assert_eq!(
        driver.set_link_date(Err("no date".to_string())),
        Err(CollectionError::DateTimeParseFailure {
            raw_value: "1/1/2020 1:00:00 AM".to_string(),
            detail: "could not parse driver datetime '1/1/2020 1:00:00 AM': no date".to_string(),
        })
    );
    assert_eq!(driver.link_date, t);
    driver.link_date_string = String::new();
    assert_eq!(driver.set_link_date(Err("no date".to_string())), Ok(()));
    assert_eq!(driver.set_link_date(Ok(Timestamp::zero())), Ok(()));
    assert_eq!(driver.link_date, t);
    assert_eq!(driver.parse(), Ok(()));
    assert_eq!(driver.link_date, t);
}

#[test]
fn failed_version_lookup_leaves_the_version_empty() {
    let mut drivers = parse_drivers(&table(&[HEADER, ACPI, NODATE])).unwrap();
    let failure = VersionError::VersionInfoSizeUnavailable { path: drivers[0].path.clone(), native_error_code: 2 };
    assert_eq!(drivers[0].apply_version(Err(failure.clone())), Some(failure));
    assert_eq!(drivers[1].apply_version(Ok("10.0.19041.1".to_string())), None);
    let os = OS::new("10.0".to_string());
    let apps = vec![Application::new("k".to_string(), Timestamp::zero(), props(&[("DisplayName", "A")]))];
    let components = Collector::default().collect(&os, &drivers, &apps);
    assert_eq!(components.len(), 4);
    assert_eq!(components[0].kind, Kind::Driver);
    assert_eq!(components[0].name, "Microsoft ACPI Driver");
    assert_eq!(components[0].id, "ACPI");
    assert_eq!(components[0].path, "C:\\Windows\\system32\\drivers\\ACPI.sys");
    assert_eq!(components[0].version, "");
    assert_eq!(components[0].modified.secs, 1_575_710_228);
    assert_eq!(components[1].kind, Kind::Driver);
    assert_eq!(components[1].version, "10.0.19041.1");
    assert_eq!(components[2], Component::from_trait(&os));
    assert_eq!(components[2].kind, Kind::OS);
    assert_eq!(components[2].id, "Microsoft Windows");
    assert_eq!(components[2].path, "/");
    assert_eq!(components[2].publishers, vec!["Microsoft".to_string()]);
    assert_eq!(components[3].kind, Kind::Application);
    assert_eq!(components[3].id, "k");
}

#[test]
fn driver_without_module_name_is_identified_by_its_display_name() {
    let record = strings(&["", "Display", "e", "t", "s", "st", "ok", "T", "F", "1", "2", "3", "", "p", "4"]);
    let driver = Driver::from_fields(&record).unwrap();
    assert_eq!(driver.id(), "Display");
    assert_eq!(driver.id(), driver.name());
    assert_eq!(Driver::from_fields(&record[..14].to_vec()), None);
    let c = Component::from_trait(&driver);
    assert_eq!(c.id, "Display");
    assert_eq!(c.name, "Display");
}

#[test]
fn drivers_are_collected_from_the_run_of_driverquery() {
    let c = Collector::default();
    assert_eq!(c.collect_drivers(&ok_run(&table(&[HEADER, ACPI]))).unwrap().len(), 1);
    let failed = ToolRun::Exited { success: false, exit_code: Some(5), stdout: table(&[HEADER, ACPI]).into_bytes(), stderr: b"x".to_vec() };
    assert_eq!(
        c.collect_drivers(&failed),
        Err(CollectionError::ExternalToolFailure { tool: "driverquery".to_string(), exit_status: Some(5), stderr: "x".to_string() })
    );
    let missing = ToolRun::NotStarted { detail: "not found".to_string() };
    assert_eq!(c.collect_drivers(&missing).unwrap_err().message(), "could not execute driverquery.exe: not found");
    assert_eq!(c.collect_os(&missing).unwrap_err().message(), "could not execute ver: not found");
}

#[test]
fn application_without_key_name_is_identified_by_its_name() {
    let app = Application::new("".to_string(), Timestamp::zero(), props(&[("DisplayName", "Tool")]));
    assert_eq!(app.id(), "Tool");
    let app = Application::new("{K}".to_string(), Timestamp::zero(), props(&[("DisplayName", "Tool")]));
    assert_eq!(app.id(), "{K}");
}

#[test]
fn inventory_is_not_read_from_json_on_this_platform() {
    let failure = Collector::default().collect_from_json("{}").unwrap_err();
    assert_eq!(failure.message(), "not implemented");
    assert_eq!(Collector::default().collect_from_json("not json").unwrap_err(), failure);
}
