use nixpkgs_db::json::{json_to_text, JsonVal};
use nixpkgs_db::normalize::decode_manifest;
use nixpkgs_db::parse::parse_json;
use nixpkgs_db::pipeline::{init, step, Action, Event, State};
use nixpkgs_db::resolve::{canonical_version, last_path_segment, up_to_date};
use nixpkgs_db::rows::{build_plan, create_pkgs_table_sql, create_pname_index_sql};
use nixpkgs_db::PipeError;

fn decode(text: &str) -> Vec<nixpkgs_db::normalize::PackageRecord> {
    let tree = parse_json(text).expect("well-formed JSON");
    decode_manifest(&tree).expect("decodable manifest")
}

#[test]
fn canonical_version_strips_nixos_prefix() {
    assert_eq!(canonical_version("nixos-23.11"), "23.11");
}

#[test]
fn canonical_version_strips_nixpkgs_prefix() {
    assert_eq!(canonical_version("nixpkgs-23.11-darwin"), "23.11-darwin");
}

#[test]
fn canonical_version_keeps_unprefixed_input() {
    assert_eq!(canonical_version("unstable"), "unstable");
}

#[test]
fn last_segment_of_resolved_url() {
    assert_eq!(
        last_path_segment("https://channels.nixos.org/nixos-23.11"),
        Some("nixos-23.11".to_string())
    );
}

#[test]
fn last_segment_ignores_query_and_fragment() {
    assert_eq!(
        last_path_segment("https://host/a/b?x=1#frag"),
        Some("b".to_string())
    );
}

#[test]
fn last_segment_requires_a_path() {
    assert_eq!(last_path_segment("not a url"), None);
}

#[test]
fn up_to_date_needs_matching_marker_and_db() {
    let v = "23.11".to_string();
    assert!(up_to_date(&Some("23.11".to_string()), &v, true));
    assert!(!up_to_date(&Some("23.11".to_string()), &v, false));
    assert!(!up_to_date(&Some("23.05".to_string()), &v, true));
    assert!(!up_to_date(&None, &v, true));
}

#[test]
fn serializer_escapes_like_json() {
    let v = JsonVal::Str("a\"b\\c\nd".to_string());
    assert_eq!(json_to_text(&v), "\"a\\\"b\\\\c\\nd\"");
    let c = JsonVal::Str("\u{1}".to_string());
    assert_eq!(json_to_text(&c), "\"\\u0001\"");
}

#[test]
fn serializer_output_parses_back() {
    let v = JsonVal::Arr(vec![
        JsonVal::Null,
        JsonVal::Bool(true),
        JsonVal::Num("1.5".to_string()),
        JsonVal::Str("x".to_string()),
        JsonVal::Obj(vec![("k".to_string(), JsonVal::Num("2".to_string()))]),
    ]);
    let text = json_to_text(&v);
    assert_eq!(text, "[null,true,1.5,\"x\",{\"k\":2}]");
    let back: serde_json::Value = serde_json::from_str(&text).unwrap();
    assert_eq!(back, serde_json::from_str::<serde_json::Value>("[null, true, 1.5, \"x\", {\"k\": 2}]").unwrap());
}

#[test]
fn parser_reads_the_document() {
    let t = parse_json("{\"a\": [1, \"b\"]}").expect("parses");
    match t {
        JsonVal::Obj(entries) => {
            assert_eq!(entries.len(), 1);
            assert_eq!(entries[0].0, "a");
            match &entries[0].1 {
                JsonVal::Arr(items) => {
                    assert_eq!(items.len(), 2);
                    assert!(matches!(&items[0], JsonVal::Num(n) if n == "1"));
                    assert!(matches!(&items[1], JsonVal::Str(s) if s == "b"));
                },
                other => panic!("expected array, got {:?}", other),
            }
        },
        other => panic!("expected object, got {:?}", other),
    }
    assert!(parse_json("{not json").is_none());
}

#[test]
fn homepage_list_keeps_first_element() {
    let recs = decode(
        "{\"packages\":{\"a\":{\"pname\":\"a\",\"version\":\"1\",\"system\":\"s\",\
         \"meta\":{\"homepage\":[\"https://a\",\"https://b\"]}}}}",
    );
    let plan = build_plan(&recs);
    assert_eq!(plan.metas[0].homepage, Some("https://a".to_string()));
}

#[test]
fn homepage_single_string_is_kept() {
    let recs = decode(
        "{\"packages\":{\"a\":{\"pname\":\"a\",\"version\":\"1\",\"system\":\"s\",\
         \"meta\":{\"homepage\":\"https://only\"}}}}",
    );
    let plan = build_plan(&recs);
    assert_eq!(plan.metas[0].homepage, Some("https://only".to_string()));
}

#[test]
fn homepage_empty_list_is_absent() {
    let recs = decode(
        "{\"packages\":{\"a\":{\"pname\":\"a\",\"version\":\"1\",\"system\":\"s\",\
         \"meta\":{\"homepage\":[]}}}}",
    );
    let plan = build_plan(&recs);
    assert_eq!(plan.metas[0].homepage, None);
}

#[test]
fn unrecognized_platforms_shape_is_stored_absent() {
    let recs = decode(
        "{\"packages\":{\"a\":{\"pname\":\"a\",\"version\":\"1\",\"system\":\"s\",\
         \"meta\":{\"platforms\":5}}}}",
    );
    let plan = build_plan(&recs);
    assert_eq!(plan.metas[0].platforms, None);
}

#[test]
fn recognized_platforms_are_stored_verbatim() {
    let recs = decode(
        "{\"packages\":{\"a\":{\"pname\":\"a\",\"version\":\"1\",\"system\":\"s\",\
         \"meta\":{\"platforms\":[\"x86_64-linux\",\"aarch64-linux\"]}}}}",
    );
    let plan = build_plan(&recs);
    assert_eq!(
        plan.metas[0].platforms,
        Some("[\"x86_64-linux\",\"aarch64-linux\"]".to_string())
    );
}

#[test]
fn absent_broken_flag_is_stored_as_zero() {
    let recs = decode(
        "{\"packages\":{\"a\":{\"pname\":\"a\",\"version\":\"1\",\"system\":\"s\",\"meta\":{}}}}",
    );
    let plan = build_plan(&recs);
    assert_eq!(plan.metas[0].broken, 0);
}

#[test]
fn bad_license_shape_fails_the_decode() {
    let tree = parse_json(
        "{\"packages\":{\"a\":{\"pname\":\"a\",\"version\":\"1\",\"system\":\"s\",\
         \"meta\":{\"license\":5}}}}",
    )
    .unwrap();
    assert!(matches!(decode_manifest(&tree), Err(PipeError::DecodeFailed)));
}

#[test]
fn mixed_license_shapes_are_stored_verbatim() {
    let recs = decode(
        "{\"packages\":{\"a\":{\"pname\":\"a\",\"version\":\"1\",\"system\":\"s\",\
         \"meta\":{\"license\":[\"MIT\",{\"fullName\":\"X License\",\"free\":true,\"extra\":1}]}}}}",
    );
    let plan = build_plan(&recs);
    let lic = plan.metas[0].license.as_ref().unwrap();
    let back: serde_json::Value = serde_json::from_str(lic).unwrap();
    assert_eq!(back[0], serde_json::Value::String("MIT".to_string()));
    assert_eq!(back[1]["fullName"], serde_json::Value::String("X License".to_string()));
    assert_eq!(back[1]["extra"], serde_json::from_str::<serde_json::Value>("1").unwrap());
}

#[test]
fn license_object_with_wrongly_typed_field_fails() {
    let tree = parse_json(
        "{\"packages\":{\"a\":{\"pname\":\"a\",\"version\":\"1\",\"system\":\"s\",\
         \"meta\":{\"license\":{\"free\":3}}}}}",
    )
    .unwrap();
    assert!(matches!(decode_manifest(&tree), Err(PipeError::DecodeFailed)));
}

#[test]
fn maintainers_are_stored_verbatim() {
    let recs = decode(
        "{\"packages\":{\"a\":{\"pname\":\"a\",\"version\":\"1\",\"system\":\"s\",\
         \"meta\":{\"maintainers\":[{\"github\":\"who\",\"name\":\"W. Ho\"}]}}}}",
    );
    let plan = build_plan(&recs);
    let m = plan.metas[0].maintainers.as_ref().unwrap();
    let back: serde_json::Value = serde_json::from_str(m).unwrap();
    assert_eq!(back[0]["github"], serde_json::Value::String("who".to_string()));
}

#[test]
fn missing_pname_fails_the_decode() {
    let tree = parse_json(
        "{\"packages\":{\"a\":{\"version\":\"1\",\"system\":\"s\",\"meta\":{}}}}",
    )
    .unwrap();
    assert!(matches!(decode_manifest(&tree), Err(PipeError::DecodeFailed)));
}

#[test]
fn row_counts_match_attribute_count() {
    let recs = decode(
        "{\"packages\":{\
         \"a\":{\"pname\":\"a\",\"version\":\"1\",\"system\":\"s\",\"meta\":{}},\
         \"b\":{\"pname\":\"b\",\"version\":\"2\",\"system\":\"s\",\"meta\":{}},\
         \"c\":{\"pname\":\"c\",\"version\":\"3\",\"system\":\"s\",\"meta\":{}}}}",
    );
    let plan = build_plan(&recs);
    assert_eq!(plan.pkgs.len(), 3);
    assert_eq!(plan.metas.len(), 3);
    assert_eq!(plan.versions.len(), 3);
    for i in 0..3 {
        assert_eq!(plan.pkgs[i].attribute, plan.metas[i].attribute);
        assert_eq!(plan.pkgs[i].attribute, plan.versions[i].attribute);
    }
}

#[test]
fn init_probes_the_requested_channel() {
    let (s, a) = init("nixos-23.11");
    assert!(matches!(s, State::ProbingPrimary { ref channel } if channel == "nixos-23.11"));
    assert!(matches!(a, Action::Probe { ref url } if url == "https://channels.nixos.org/nixos-23.11"));
}

#[test]
fn failed_primary_probe_falls_back_to_unstable() {
    let (s, _) = init("nixos-23.11");
    let (s2, a2) = step(s, Event::ProbeDone { final_url: None });
    assert!(matches!(s2, State::ProbingFallback));
    assert!(matches!(a2, Action::Probe { ref url } if url == "https://channels.nixos.org/nixos-unstable"));
}

#[test]
fn failed_fallback_probe_is_resolution_failure() {
    let (s2, a2) = step(State::ProbingFallback, Event::ProbeDone { final_url: None });
    assert!(matches!(s2, State::Failed { error: PipeError::ResolutionFailed }));
    assert!(matches!(a2, Action::Report { result: Err(PipeError::ResolutionFailed) }));
}

#[test]
fn second_run_with_same_version_short_circuits() {
    let s = State::Checking { channel: "nixos-23.11".to_string(), version: "23.11".to_string() };
    let e = Event::DirReady { marker: Some("23.11".to_string()), db_exists: true };
    let (s2, a2) = step(s, e);
    assert!(matches!(s2, State::Done));
    assert!(matches!(a2, Action::Report { result: Ok(()) }));
}

#[test]
fn stale_marker_fetches_the_manifest() {
    let s = State::Checking { channel: "nixos-23.11".to_string(), version: "23.11".to_string() };
    let e = Event::DirReady { marker: Some("23.05".to_string()), db_exists: true };
    let (s2, a2) = step(s, e);
    assert!(matches!(s2, State::Fetching { .. }));
    assert!(matches!(a2, Action::Fetch { ref url } if url == "https://channels.nixos.org/nixos-23.11/packages.json.br"));
}

#[test]
fn dir_failure_is_io_failure() {
    let s = State::Checking { channel: "c".to_string(), version: "1".to_string() };
    let (s2, _) = step(s, Event::DirFailed);
    assert!(matches!(s2, State::Failed { error: PipeError::IoFailed }));
}

#[test]
fn failed_load_is_load_failure() {
    let s = State::Loading { version: "1".to_string() };
    let (s2, a2) = step(s, Event::LoadDone { ok: false });
    assert!(matches!(s2, State::Failed { error: PipeError::LoadFailed }));
    assert!(matches!(a2, Action::Report { result: Err(PipeError::LoadFailed) }));
}

#[test]
fn failed_fetch_preserves_existing_state() {
    let s = State::Fetching { channel: "nixos-23.11".to_string(), version: "23.11".to_string() };
    let (s2, a2) = step(s, Event::FetchDone { body: None });
    assert!(matches!(s2, State::Failed { error: PipeError::FetchFailed }));
    assert!(matches!(a2, Action::Report { result: Err(PipeError::FetchFailed) }));
    let (s3, a3) = step(s2, Event::LoadDone { ok: true });
    assert!(matches!(s3, State::Failed { error: PipeError::FetchFailed }));
    assert!(matches!(a3, Action::Report { result: Err(PipeError::FetchFailed) }));
}

#[test]
fn end_to_end_synthetic_manifest() {
    let manifest = "{\"packages\":{\
        \"foo\":{\"pname\":\"foo\",\"version\":\"1.0\",\"system\":\"x86_64-linux\",\"meta\":{}},\
        \"bar\":{\"pname\":\"bar\",\"version\":\"2.0\",\"system\":\"x86_64-linux\",\
        \"meta\":{\"broken\":true,\"license\":\"MIT\"}}}}";
    let s = State::Fetching { channel: "nixos-23.11".to_string(), version: "23.11".to_string() };
    let (s2, a2) = step(s, Event::FetchDone { body: Some(manifest.to_string()) });
    assert!(matches!(s2, State::Loading { .. }));
    let plan = match a2 {
        Action::ReplaceDb { plan } => plan,
        other => panic!("expected a database replacement, got {:?}", other),
    };
    assert_eq!(plan.pkgs.len(), 2);
    assert_eq!(plan.metas.len(), 2);
    // serde_json's maps iterate in ascending key order: "bar" before "foo".
    assert_eq!(plan.pkgs[0].attribute, "bar");
    assert_eq!(plan.pkgs[0].pname, "bar");
    assert_eq!(plan.pkgs[0].version, "2.0");
    assert_eq!(plan.pkgs[0].system, "x86_64-linux");
    assert_eq!(plan.pkgs[1].attribute, "foo");
    assert_eq!(plan.metas[0].broken, 1);
    assert_eq!(plan.metas[1].broken, 0);
    let lic = plan.metas[0].license.as_ref().expect("bar has a license");
    let back: serde_json::Value = serde_json::from_str(lic).unwrap();
    assert_eq!(back, serde_json::Value::String("MIT".to_string()));
    let (s3, a3) = step(s2, Event::LoadDone { ok: true });
    assert!(matches!(s3, State::Committing { .. }));
    assert!(matches!(a3, Action::WriteMarker { ref version } if version == "23.11"));
    let (s4, a4) = step(s3, Event::MarkerDone { ok: true });
    assert!(matches!(s4, State::Done));
    assert!(matches!(a4, Action::Report { result: Ok(()) }));
}

#[test]
fn undecodable_manifest_fails_the_run() {
    let s = State::Fetching { channel: "c".to_string(), version: "1".to_string() };
    let (s2, _) = step(s, Event::FetchDone { body: Some("[1,2,3]".to_string()) });
    assert!(matches!(s2, State::Failed { error: PipeError::DecodeFailed }));
}

#[test]
fn schema_text_matches_the_design() {
    assert!(create_pkgs_table_sql().contains("\"attribute\" TEXT NOT NULL UNIQUE"));
    assert_eq!(
        create_pname_index_sql(),
        "CREATE INDEX \"pnames\" ON \"pkgs\" (\"pname\")"
    );
}
