use vswhere::decode::{
    check_url, decode_records, parse_loose_bool, record_from_fields, FieldValue, NestedField,
    PropertiesFields, RecordFields,
};
use vswhere::{Error, Version};

fn minimal_fields() -> RecordFields {
    RecordFields {
        instance_id: FieldValue::Text(String::from("x")),
        install_date: FieldValue::Missing,
        update_date: FieldValue::Missing,
        display_name: FieldValue::Missing,
        description: FieldValue::Missing,
        installation_path: FieldValue::Text(String::from("C:\\VS")),
        product_path: FieldValue::Missing,
        installation_version: FieldValue::Text(String::from("16.0")),
        product_id: FieldValue::Missing,
        is_prerelease: FieldValue::Flag(false),
        channel_uri: FieldValue::Missing,
        release_notes: FieldValue::Missing,
        third_party_notices: FieldValue::Missing,
        catalog: NestedField::Missing,
        properties: NestedField::Missing,
    }
}

#[test]
fn loose_bool_accepts_either_case_and_whitespace() {
    assert_eq!(parse_loose_bool("True"), Some(true));
    assert_eq!(parse_loose_bool("False"), Some(false));
    assert_eq!(parse_loose_bool(" \tTRUE "), Some(true));
    assert_eq!(parse_loose_bool("fAlSe\r\n"), Some(false));
    assert_eq!(parse_loose_bool("true"), Some(true));
}

#[test]
fn loose_bool_rejects_anything_else() {
    assert_eq!(parse_loose_bool("yes"), None);
    assert_eq!(parse_loose_bool(""), None);
    assert_eq!(parse_loose_bool("truth"), None);
    assert_eq!(parse_loose_bool("tru e"), None);
    assert_eq!(parse_loose_bool("0"), None);
}

#[test]
fn url_check_requires_scheme_and_remainder() {
    assert!(check_url("https://aka.ms/vs/16/release/channel"));
    assert!(check_url("file+x-y.z://host"));
    assert!(!check_url("not a url"));
    assert!(!check_url("://missing-scheme"));
    assert!(!check_url("1http://bad-head"));
    assert!(!check_url("https://"));
    assert!(!check_url("https:/one-slash"));
}

#[test]
fn nonzero_exit_reports_code_without_decoding() {
    // The payload is not even JSON; a non-zero exit must win regardless.
    match decode_records(1, b"*** certainly not JSON ***") {
        Err(Error::NonZeroExit(code)) => assert_eq!(code, 1),
        other => panic!("expected NonZeroExit: {:?}", other),
    }
    assert!(matches!(decode_records(-7, b"[]"), Err(Error::NonZeroExit(-7))));
}

#[test]
fn invalid_json_is_malformed_output() {
    assert!(matches!(decode_records(0, b"not json"), Err(Error::MalformedOutput(_))));
}

#[test]
fn non_array_payload_is_malformed_output() {
    match decode_records(0, br#"{"instanceId": "x"}"#) {
        Err(Error::MalformedOutput(reason)) => assert_eq!(reason, "expected a JSON array"),
        other => panic!("expected MalformedOutput: {:?}", other),
    }
}

#[test]
fn empty_array_decodes_to_no_records() {
    let records = decode_records(0, b"[]").unwrap();
    assert!(records.is_empty());
}

#[test]
fn prerelease_string_false_decodes_to_false() {
    let payload = br#"[{
        "instanceId": "i",
        "installationPath": "C:\\VS",
        "installationVersion": "16.0",
        "isPrerelease": "False"
    }]"#;
    let records = decode_records(0, payload).unwrap();
    assert_eq!(records.len(), 1);
    assert!(!records[0].is_prerelease);
}

#[test]
fn prerelease_mixed_case_with_whitespace_decodes_to_true() {
    let payload = br#"[{
        "instanceId": "i",
        "installationPath": "C:\\VS",
        "installationVersion": "16.0",
        "isPrerelease": " TRUE "
    }]"#;
    let records = decode_records(0, payload).unwrap();
    assert!(records[0].is_prerelease);
}

#[test]
fn prerelease_other_string_fails_decode() {
    let payload = br#"[{
        "instanceId": "i",
        "installationPath": "C:\\VS",
        "installationVersion": "16.0",
        "isPrerelease": "yes"
    }]"#;
    match decode_records(0, payload) {
        Err(Error::MalformedOutput(reason)) => {
            assert_eq!(reason, "isPrerelease: not a boolean literal: yes")
        }
        other => panic!("expected MalformedOutput: {:?}", other),
    }
}

#[test]
fn missing_required_field_fails_decode() {
    let payload = br#"[{
        "installationPath": "C:\\VS",
        "installationVersion": "16.0",
        "isPrerelease": false
    }]"#;
    match decode_records(0, payload) {
        Err(Error::MalformedOutput(reason)) => assert_eq!(reason, "instanceId: expected a string: missing"),
        other => panic!("expected MalformedOutput: {:?}", other),
    }
}

#[test]
fn bad_version_string_fails_decode() {
    let payload = br#"[{
        "instanceId": "i",
        "installationPath": "C:\\VS",
        "installationVersion": "16.0.0.0.0",
        "isPrerelease": false
    }]"#;
    match decode_records(0, payload) {
        Err(Error::MalformedOutput(reason)) => {
            assert_eq!(reason, "installationVersion: not a version string: 16.0.0.0.0")
        }
        other => panic!("expected MalformedOutput: {:?}", other),
    }
}

#[test]
fn malformed_url_aborts_whole_decode() {
    // Two records; the second holds a bad URL, so no partial results.
    let payload = br#"[
        {
            "instanceId": "a",
            "installationPath": "C:\\VS",
            "installationVersion": "16.0",
            "isPrerelease": false
        },
        {
            "instanceId": "b",
            "installationPath": "C:\\VS",
            "installationVersion": "16.1",
            "isPrerelease": false,
            "releaseNotes": "not a url"
        }
    ]"#;
    match decode_records(0, payload) {
        Err(Error::MalformedOutput(reason)) => assert_eq!(reason, "releaseNotes: not a URL: not a url"),
        other => panic!("expected MalformedOutput: {:?}", other),
    }
}

#[test]
fn full_record_decodes_with_optionals_present_and_absent() {
    let payload = br#"[{
        "instanceId": "a1b2c3d4",
        "installDate": "2021-03-04T12:00:00Z",
        "updateDate": null,
        "displayName": "Visual Studio Community 2019",
        "description": null,
        "installationPath": "C:\\Program Files (x86)\\Microsoft Visual Studio\\2019\\Community",
        "productPath": "C:\\VS\\Common7\\IDE\\devenv.exe",
        "installationVersion": "16.9.31025.194",
        "productId": "Microsoft.VisualStudio.Product.Community",
        "isPrerelease": false,
        "channelUri": "https://aka.ms/vs/16/release/channel",
        "releaseNotes": "https://docs.microsoft.com/visualstudio/releases/2019/release-notes",
        "thirdPartyNotices": null,
        "catalog": {
            "buildVersion": "16.9.31025.194",
            "id": "VisualStudio/16.9.2+31025.194",
            "productName": "Visual Studio",
            "productLineVersion": "2019",
            "productSemanticVersion": "16.9.2+31025.194"
        },
        "properties": {
            "campaignId": "",
            "nickname": "",
            "setupEngineFilePath": "C:\\VS Installer\\vs_installershell.exe"
        }
    }]"#;
    let records = decode_records(0, payload).unwrap();
    assert_eq!(records.len(), 1);
    let r = &records[0];
    assert_eq!(r.instance_id, "a1b2c3d4");
    assert_eq!(r.install_date.as_deref(), Some("2021-03-04T12:00:00Z"));
    assert_eq!(r.update_date, None);
    assert_eq!(r.display_name.as_deref(), Some("Visual Studio Community 2019"));
    assert_eq!(r.description, None);
    assert_eq!(
        r.installation_path,
        "C:\\Program Files (x86)\\Microsoft Visual Studio\\2019\\Community"
    );
    assert_eq!(r.product_path.as_deref(), Some("C:\\VS\\Common7\\IDE\\devenv.exe"));
    assert_eq!(
        r.installation_version,
        Version { major: 16, minor: 9, revision: 31025, build: 194 }
    );
    assert_eq!(r.product_id.as_deref(), Some("Microsoft.VisualStudio.Product.Community"));
    assert!(!r.is_prerelease);
    assert_eq!(r.channel_uri.as_deref(), Some("https://aka.ms/vs/16/release/channel"));
    assert_eq!(
        r.release_notes.as_deref(),
        Some("https://docs.microsoft.com/visualstudio/releases/2019/release-notes")
    );
    assert_eq!(r.third_party_notices, None);

    let catalog = r.catalog.as_ref().expect("catalog should be present");
    assert_eq!(
        catalog.build_version,
        Some(Version { major: 16, minor: 9, revision: 31025, build: 194 })
    );
    assert_eq!(catalog.id.as_deref(), Some("VisualStudio/16.9.2+31025.194"));
    assert_eq!(catalog.product_name.as_deref(), Some("Visual Studio"));
    assert_eq!(catalog.product_line_version.as_deref(), Some("2019"));
    assert_eq!(catalog.product_semantic_version.as_deref(), Some("16.9.2+31025.194"));

    let properties = r.properties.as_ref().expect("properties should be present");
    // An empty string is present-but-empty, never "absent".
    assert_eq!(properties.campaign_id.as_deref(), Some(""));
    assert_eq!(properties.nickname.as_deref(), Some(""));
    assert_eq!(properties.channel_manifest_id, None);
    assert_eq!(
        properties.setup_engine_file_path.as_deref(),
        Some("C:\\VS Installer\\vs_installershell.exe")
    );
}

#[test]
fn record_assembly_from_plain_fields() {
    let record = record_from_fields(minimal_fields()).unwrap();
    assert_eq!(record.instance_id, "x");
    assert_eq!(record.installation_version, Version { major: 16, minor: 0, revision: 0, build: 0 });
    assert_eq!(record.catalog.is_some(), false);
}

#[test]
fn record_assembly_rejects_null_where_text_required() {
    let mut fields = minimal_fields();
    fields.installation_path = FieldValue::Null;
    match record_from_fields(fields) {
        Err(Error::MalformedOutput(reason)) => {
            assert_eq!(reason, "installationPath: expected a string: null")
        }
        other => panic!("expected MalformedOutput: {:?}", other),
    }
}

#[test]
fn record_assembly_rejects_non_object_properties() {
    let mut fields = minimal_fields();
    fields.properties = NestedField::Other;
    match record_from_fields(fields) {
        Err(Error::MalformedOutput(reason)) => {
            assert_eq!(reason, "properties: expected an object or null")
        }
        other => panic!("expected MalformedOutput: {:?}", other),
    }
}

#[test]
fn record_assembly_accepts_nested_loose_bool_free_fields() {
    let mut fields = minimal_fields();
    fields.is_prerelease = FieldValue::Text(String::from("True"));
    fields.properties = NestedField::Object(PropertiesFields {
        campaign_id: FieldValue::Null,
        channel_manifest_id: FieldValue::Missing,
        nickname: FieldValue::Text(String::from("main")),
        setup_engine_file_path: FieldValue::Missing,
    });
    let record = record_from_fields(fields).unwrap();
    assert!(record.is_prerelease);
    let properties = record.properties.unwrap();
    assert_eq!(properties.campaign_id, None);
    assert_eq!(properties.nickname.as_deref(), Some("main"));
}
