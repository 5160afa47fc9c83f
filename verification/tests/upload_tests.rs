use b2upload::credentials::B2Credentials;
use b2upload::error::PipelineError;
use b2upload::object_key::CalendarDate;
use b2upload::settings::Settings;
use b2upload::upload::{
    connection_result, plan_upload, test_connection, upload_file, upload_step, FolderChoice,
    ProbeOutcome, SourceFile, SourceKind, UploadEvent, UploadOptions, UploadPlan, UploadStep,
    WriteOutcome,
};
use b2upload::url::TokenMode;
use std::collections::HashSet;

const ID: &str = "123e4567-e89b-42d3-a456-426614174000";

fn config_of(pairs: &[(&str, &str)]) -> Settings {
    let mut settings = Settings::new();
    for (k, v) in pairs {
        settings.insert(k.to_string(), v.to_string());
    }
    settings
}

fn base_config() -> Vec<(&'static str, &'static str)> {
    vec![
        ("S3_ENDPOINT", "s3.us-west-004.backblazeb2.com"),
        ("BUCKET_NAME", "bucket"),
        ("DOMAIN", "cdn.example.com"),
        ("FOLDER_1", "docs"),
        ("FOLDER_2", "private"),
    ]
}

fn config_with(extra: &[(&'static str, &'static str)]) -> Settings {
    let mut pairs = base_config();
    pairs.extend_from_slice(extra);
    config_of(&pairs)
}

fn report_pdf() -> SourceFile {
    SourceFile {
        path: "/home/u/report.pdf".to_string(),
        kind: SourceKind::File,
        file_name: Some("report.pdf".to_string()),
        extension: Some("pdf".to_string()),
    }
}

fn bundle() -> B2Credentials {
    B2Credentials {
        key_id: "id-1".to_string(),
        app_key: "key-1".to_string(),
        folder_1_token: "T1".to_string(),
        folder_2_token: "T2".to_string(),
        token_secret: "s3cr3t".to_string(),
    }
}

fn jan_5() -> CalendarDate {
    CalendarDate::new(2024, 1, 5).unwrap()
}

/// A store that records what is asked of it.
struct FakeStore {
    objects: HashSet<String>,
    probes: usize,
    writes: usize,
    fail_probes: bool,
    fail_writes: bool,
}

impl FakeStore {
    fn new() -> FakeStore {
        FakeStore { objects: HashSet::new(), probes: 0, writes: 0, fail_probes: false, fail_writes: false }
    }

    fn probe(&mut self, plan: &UploadPlan) -> ProbeOutcome {
        self.probes += 1;
        if self.fail_probes {
            ProbeOutcome::Failed("probe refused".to_string())
        } else if self.objects.contains(&plan.object_key) {
            ProbeOutcome::Exists
        } else {
            ProbeOutcome::NotFound
        }
    }

    fn write(&mut self, plan: &UploadPlan) -> WriteOutcome {
        self.writes += 1;
        if self.fail_writes {
            WriteOutcome::Rejected("503".to_string())
        } else {
            self.objects.insert(plan.object_key.clone());
            WriteOutcome::Written
        }
    }
}

fn drive(first: UploadStep, creds: &B2Credentials, store: &mut FakeStore, now: u64) -> Result<String, PipelineError> {
    let mut step = first;
    loop {
        let event = match &step {
            UploadStep::Probe(plan) => UploadEvent::Probed(store.probe(plan)),
            UploadStep::Write(plan) => UploadEvent::Wrote(store.write(plan)),
            UploadStep::ReadClock(_) => UploadEvent::Clock(Ok(now)),
            UploadStep::Done(_) => break,
        };
        step = upload_step(step, event, creds);
    }
    match step {
        UploadStep::Done(result) => result,
        _ => unreachable!(),
    }
}

fn plan_of(step: UploadStep) -> UploadPlan {
    match step {
        UploadStep::Probe(plan) | UploadStep::Write(plan) | UploadStep::ReadClock(plan) => plan,
        UploadStep::Done(result) => panic!("no plan: {:?}", result),
    }
}

fn failure_of(step: UploadStep) -> PipelineError {
    match step {
        UploadStep::Done(Err(e)) => e,
        other => panic!("no failure: {:?}", other),
    }
}

#[test]
fn missing_path_is_not_found() {
    let file = SourceFile {
        path: "/nowhere/x.png".to_string(),
        kind: SourceKind::Missing,
        file_name: Some("x.png".to_string()),
        extension: Some("png".to_string()),
    };
    let e = failure_of(upload_file(&file, "folder1", &config_with(&[]), None));
    assert_eq!(e, PipelineError::NotFound("/nowhere/x.png".to_string()));
    assert_eq!(e.message(), "File not found: /nowhere/x.png");
}

#[test]
fn directory_is_unsupported_input() {
    let file = SourceFile {
        path: "/home/u/pics".to_string(),
        kind: SourceKind::Directory,
        file_name: Some("pics".to_string()),
        extension: None,
    };
    let e = failure_of(upload_file(&file, "folder1", &config_with(&[]), None));
    assert_eq!(e, PipelineError::UnsupportedInput);
    assert_eq!(e.message(), "Directories are not supported. Drop individual files instead.");
}

#[test]
fn path_is_checked_before_config() {
    let file = SourceFile {
        path: "/nowhere".to_string(),
        kind: SourceKind::Missing,
        file_name: None,
        extension: None,
    };
    let e = failure_of(upload_file(&file, "folder1", &Settings::new(), None));
    assert_eq!(e, PipelineError::NotFound("/nowhere".to_string()));
}

#[test]
fn missing_config_is_reported_in_order() {
    let file = report_pdf();
    let e = failure_of(upload_file(&file, "folder1", &Settings::new(), None));
    assert_eq!(e, PipelineError::MissingConfig("S3_ENDPOINT".to_string()));
    assert_eq!(e.message(), "Missing S3_ENDPOINT");
    let e = failure_of(upload_file(&file, "folder1", &config_of(&[("S3_ENDPOINT", "e")]), None));
    assert_eq!(e, PipelineError::MissingConfig("BUCKET_NAME".to_string()));
    let e = failure_of(upload_file(
        &file,
        "folder1",
        &config_of(&[("S3_ENDPOINT", "e"), ("BUCKET_NAME", "b")]),
        None,
    ));
    assert_eq!(e, PipelineError::MissingConfig("DOMAIN".to_string()));
    let e = failure_of(upload_file(&file, "folder1", &config_of(&[("DOMAIN", "d"), ("BUCKET_NAME", "b")]), None));
    assert_eq!(e, PipelineError::MissingConfig("S3_ENDPOINT".to_string()));
}

#[test]
fn present_but_empty_config_is_accepted() {
    let config = config_of(&[("S3_ENDPOINT", ""), ("BUCKET_NAME", ""), ("DOMAIN", "")]);
    let plan = plan_of(upload_file(&report_pdf(), "folder1", &config, None));
    assert_eq!(plan.endpoint, "");
    assert_eq!(plan.bucket, "");
    assert_eq!(plan.domain, "");
}

#[test]
fn options_default_to_date_and_generated_names_without_overwrite() {
    let options = UploadOptions::resolve("folder1", &config_with(&[]), Some(60));
    assert_eq!(options.choice, FolderChoice::Primary);
    assert_eq!(options.folder, "docs");
    assert!(options.date_folders);
    assert!(options.uuid_names);
    assert!(!options.allow_overwrite);
    assert_eq!(options.token_mode, TokenMode::Static);
    assert_eq!(options.ttl, Some(60));
}

#[test]
fn options_follow_the_configuration() {
    let config = config_with(&[
        ("DATE_FOLDERS", "off"),
        ("UUID_FILENAMES", "off"),
        ("OVERWRITE_UPLOADS", "yes"),
        ("TOKEN_MODE", "dynamic"),
    ]);
    let options = UploadOptions::resolve("folder2", &config, None);
    assert_eq!(options.choice, FolderChoice::Secondary);
    assert_eq!(options.folder, "private");
    assert!(!options.date_folders);
    assert!(!options.uuid_names);
    assert!(options.allow_overwrite);
    assert_eq!(options.token_mode, TokenMode::Dynamic);
    assert_eq!(options.ttl, None);
}

#[test]
fn options_read_toggles_literally() {
    let config = config_with(&[
        ("DATE_FOLDERS", "no"),
        ("UUID_FILENAMES", "OFF"),
        ("OVERWRITE_UPLOADS", "on"),
        ("TOKEN_MODE", "Dynamic"),
    ]);
    let options = UploadOptions::resolve("FOLDER2", &config, None);
    assert_eq!(options.choice, FolderChoice::Primary);
    assert!(options.date_folders);
    assert!(options.uuid_names);
    assert!(!options.allow_overwrite);
    assert_eq!(options.token_mode, TokenMode::Static);
}

#[test]
fn unknown_mode_selects_first_folder() {
    for mode in ["", "folder1", "folder3", "Folder2", "anything"] {
        let options = UploadOptions::resolve(mode, &config_with(&[]), None);
        assert_eq!(options.choice, FolderChoice::Primary, "{}", mode);
        assert_eq!(options.folder, "docs");
    }
    let options = UploadOptions::resolve("folder2", &config_of(&[]), None);
    assert_eq!(options.choice, FolderChoice::Secondary);
    assert_eq!(options.folder, "");
}

#[test]
fn plan_with_fixed_date_and_kept_name() {
    let config = config_with(&[("UUID_FILENAMES", "off")]);
    let step = plan_upload(&report_pdf(), "folder1", &config, None, &jan_5(), ID);
    assert!(matches!(step, UploadStep::Probe(_)));
    let plan = plan_of(step);
    assert_eq!(plan.object_key, "docs/2024/01/05/report.pdf");
    assert_eq!(plan.endpoint, "s3.us-west-004.backblazeb2.com");
    assert_eq!(plan.bucket, "bucket");
    assert_eq!(plan.domain, "cdn.example.com");
    assert_eq!(plan.content_type, "application/pdf");
    assert_eq!(plan.choice, FolderChoice::Primary);
    assert_eq!(plan.token_mode, TokenMode::Static);
    assert_eq!(plan.ttl, None);
}

#[test]
fn plan_with_fixed_date_and_identifier() {
    let step = plan_upload(&report_pdf(), "folder2", &config_with(&[]), Some(30), &jan_5(), ID);
    assert!(matches!(step, UploadStep::Write(_)));
    let plan = plan_of(step);
    assert_eq!(plan.object_key, "private/2024/01/05/123e4567-e89b-42d3-a456-426614174000.pdf");
    assert_eq!(plan.choice, FolderChoice::Secondary);
    assert_eq!(plan.ttl, Some(30));
}

#[test]
fn plan_without_date_folders_or_folder() {
    let config = config_of(&[
        ("S3_ENDPOINT", "e"),
        ("BUCKET_NAME", "b"),
        ("DOMAIN", "d"),
        ("DATE_FOLDERS", "off"),
        ("UUID_FILENAMES", "off"),
    ]);
    let plan = plan_of(plan_upload(&report_pdf(), "folder1", &config, None, &jan_5(), ID));
    assert_eq!(plan.object_key, "report.pdf");
}

#[test]
fn content_type_is_guessed_from_the_extension() {
    let cases = [
        (Some("png"), "image/png"),
        (Some("PNG"), "image/png"),
        (Some("jpg"), "image/jpeg"),
        (Some("txt"), "text/plain"),
        (Some("html"), "text/html"),
        (Some("json"), "application/json"),
        (Some("no-such-extension"), "application/octet-stream"),
        (Some(""), "application/octet-stream"),
        (None, "application/octet-stream"),
    ];
    for (ext, expected) in cases {
        let file = SourceFile {
            path: "/x".to_string(),
            kind: SourceKind::File,
            file_name: Some("x".to_string()),
            extension: ext.map(|e| e.to_string()),
        };
        let plan = plan_of(plan_upload(&file, "folder1", &config_with(&[]), None, &jan_5(), ID));
        assert_eq!(plan.content_type, expected, "{:?}", ext);
    }
}

#[test]
fn guard_applies_only_to_kept_names_without_overwrite() {
    let date = jan_5();
    let file = report_pdf();
    let cases = [
        ("off", "no", true),
        ("off", "yes", false),
        ("on", "no", false),
        ("on", "yes", false),
    ];
    for (uuid, overwrite, probes) in cases {
        let config = config_with(&[("UUID_FILENAMES", uuid), ("OVERWRITE_UPLOADS", overwrite)]);
        let step = plan_upload(&file, "folder1", &config, None, &date, ID);
        assert_eq!(matches!(step, UploadStep::Probe(_)), probes, "{} {}", uuid, overwrite);
        assert_eq!(matches!(step, UploadStep::Write(_)), !probes, "{} {}", uuid, overwrite);
    }
}

#[test]
fn generated_names_never_invoke_the_guard() {
    for overwrite in ["no", "yes"] {
        let config = config_with(&[("UUID_FILENAMES", "on"), ("OVERWRITE_UPLOADS", overwrite)]);
        let mut store = FakeStore::new();
        store.fail_probes = true;
        let url = drive(upload_file(&report_pdf(), "folder1", &config, None), &bundle(), &mut store, 0);
        let url = url.unwrap();
        assert_eq!(store.probes, 0);
        assert_eq!(store.writes, 1);
        assert!(url.starts_with("https://cdn.example.com/docs/"));
        assert!(url.ends_with(".pdf?token=T1"));
    }
}

#[test]
fn upload_with_kept_name_succeeds_when_nothing_is_there() {
    let config = config_with(&[("UUID_FILENAMES", "off"), ("DATE_FOLDERS", "off")]);
    let mut store = FakeStore::new();
    let url = drive(upload_file(&report_pdf(), "folder1", &config, None), &bundle(), &mut store, 0);
    assert_eq!(url, Ok("https://cdn.example.com/docs/report.pdf?token=T1".to_string()));
    assert_eq!(store.probes, 1);
    assert_eq!(store.writes, 1);
    assert!(store.objects.contains("docs/report.pdf"));
}

#[test]
fn existing_object_aborts_before_any_write() {
    let config = config_with(&[("UUID_FILENAMES", "off"), ("DATE_FOLDERS", "off")]);
    let mut store = FakeStore::new();
    store.objects.insert("docs/report.pdf".to_string());
    let result = drive(upload_file(&report_pdf(), "folder1", &config, None), &bundle(), &mut store, 0);
    assert_eq!(result, Err(PipelineError::AlreadyExists));
    assert_eq!(result.unwrap_err().message(), "File already exists (overwrite is disabled)");
    assert_eq!(store.probes, 1);
    assert_eq!(store.writes, 0);
}

#[test]
fn overwrite_allowed_skips_the_guard() {
    let config = config_with(&[("UUID_FILENAMES", "off"), ("DATE_FOLDERS", "off"), ("OVERWRITE_UPLOADS", "yes")]);
    let mut store = FakeStore::new();
    store.objects.insert("docs/report.pdf".to_string());
    let result = drive(upload_file(&report_pdf(), "folder1", &config, None), &bundle(), &mut store, 0);
    assert_eq!(result, Ok("https://cdn.example.com/docs/report.pdf?token=T1".to_string()));
    assert_eq!(store.probes, 0);
    assert_eq!(store.writes, 1);
}

#[test]
fn failed_probe_aborts_before_any_write() {
    let config = config_with(&[("UUID_FILENAMES", "off")]);
    let mut store = FakeStore::new();
    store.fail_probes = true;
    let result = drive(upload_file(&report_pdf(), "folder1", &config, None), &bundle(), &mut store, 0);
    assert_eq!(result, Err(PipelineError::ProbeFailed("probe refused".to_string())));
    assert_eq!(result.unwrap_err().message(), "Failed to check existing file: probe refused");
    assert_eq!(store.writes, 0);
}

#[test]
fn rejected_write_is_upload_failed() {
    let mut store = FakeStore::new();
    store.fail_writes = true;
    let result = drive(upload_file(&report_pdf(), "folder1", &config_with(&[]), None), &bundle(), &mut store, 0);
    assert_eq!(result, Err(PipelineError::UploadFailed("503".to_string())));
    assert_eq!(result.unwrap_err().message(), "Upload failed: 503");
    assert!(store.objects.is_empty());
}

#[test]
fn unreadable_source_ends_the_upload() {
    let step = upload_file(&report_pdf(), "folder1", &config_with(&[]), None);
    assert!(matches!(step, UploadStep::Write(_)));
    let next = upload_step(step, UploadEvent::Wrote(WriteOutcome::Unreadable("permission denied".to_string())), &bundle());
    let e = failure_of(next);
    assert_eq!(e, PipelineError::SourceUnreadable("permission denied".to_string()));
    assert_eq!(e.message(), "Failed to read file: permission denied");
}

#[test]
fn second_folder_uses_its_own_token() {
    let config = config_with(&[("UUID_FILENAMES", "off"), ("DATE_FOLDERS", "off")]);
    let mut store = FakeStore::new();
    let url = drive(upload_file(&report_pdf(), "folder2", &config, None), &bundle(), &mut store, 0);
    assert_eq!(url, Ok("https://cdn.example.com/private/report.pdf?token=T2".to_string()));
}

#[test]
fn static_mode_without_token_gives_bare_url() {
    let config = config_with(&[("UUID_FILENAMES", "off"), ("DATE_FOLDERS", "off")]);
    let mut store = FakeStore::new();
    let url = drive(upload_file(&report_pdf(), "folder1", &config, Some(60)), &B2Credentials::empty(), &mut store, 0);
    assert_eq!(url, Ok("https://cdn.example.com/docs/report.pdf".to_string()));
}

#[test]
fn dynamic_mode_signs_after_reading_the_clock() {
    let config = config_of(&[
        ("S3_ENDPOINT", "e"),
        ("BUCKET_NAME", "b"),
        ("DOMAIN", "cdn.example.com"),
        ("FOLDER_1", "a"),
        ("UUID_FILENAMES", "off"),
        ("DATE_FOLDERS", "off"),
        ("OVERWRITE_UPLOADS", "yes"),
        ("TOKEN_MODE", "dynamic"),
    ]);
    let file = SourceFile {
        path: "/tmp/b c.png".to_string(),
        kind: SourceKind::File,
        file_name: Some("b c.png".to_string()),
        extension: Some("png".to_string()),
    };
    let step = upload_file(&file, "folder1", &config, Some(3600));
    assert!(matches!(step, UploadStep::Write(_)));
    let step = upload_step(step, UploadEvent::Wrote(WriteOutcome::Written), &bundle());
    assert!(matches!(step, UploadStep::ReadClock(_)));
    let step = upload_step(step, UploadEvent::Clock(Ok(1_699_996_400)), &bundle());
    match step {
        UploadStep::Done(url) => assert_eq!(
            url,
            Ok("https://cdn.example.com/a/b%20c.png?token=VXdeFnnS6knk4H_WvtT0xntYQzXVuViXZfPMD1S4bDE&expires=1700000000"
                .to_string())
        ),
        other => panic!("{:?}", other),
    }
}

#[test]
fn dynamic_mode_without_ttl_reads_no_clock() {
    let config = config_with(&[("TOKEN_MODE", "dynamic"), ("UUID_FILENAMES", "off"), ("DATE_FOLDERS", "off")]);
    let step = upload_file(&report_pdf(), "folder1", &config, None);
    let step = upload_step(step, UploadEvent::Probed(ProbeOutcome::NotFound), &bundle());
    let step = upload_step(step, UploadEvent::Wrote(WriteOutcome::Written), &bundle());
    match step {
        UploadStep::Done(url) => assert_eq!(url, Ok("https://cdn.example.com/docs/report.pdf".to_string())),
        other => panic!("{:?}", other),
    }
}

#[test]
fn dynamic_mode_without_secret_fails_after_the_write() {
    let config = config_with(&[("TOKEN_MODE", "dynamic")]);
    let mut creds = bundle();
    creds.token_secret = String::new();
    let mut store = FakeStore::new();
    let result = drive(upload_file(&report_pdf(), "folder1", &config, Some(60)), &creds, &mut store, 100);
    assert_eq!(result, Err(PipelineError::MissingSigningSecret));
    assert_eq!(result.unwrap_err().message(), "TOKEN_SECRET is required for dynamic token mode");
    assert_eq!(store.writes, 1);
}

#[test]
fn unreadable_clock_ends_the_upload() {
    let config = config_with(&[("TOKEN_MODE", "dynamic")]);
    let step = upload_file(&report_pdf(), "folder1", &config, Some(60));
    let step = upload_step(step, UploadEvent::Wrote(WriteOutcome::Written), &bundle());
    assert!(matches!(step, UploadStep::ReadClock(_)));
    let step = upload_step(step, UploadEvent::Clock(Err("clock went backwards".to_string())), &bundle());
    let e = failure_of(step);
    assert_eq!(e, PipelineError::ClockFailed("clock went backwards".to_string()));
    assert_eq!(e.message(), "clock went backwards");
}

#[test]
fn events_that_do_not_answer_the_step_change_nothing() {
    let config = config_with(&[("UUID_FILENAMES", "off"), ("DATE_FOLDERS", "off")]);
    let step = upload_file(&report_pdf(), "folder1", &config, None);
    assert!(matches!(step, UploadStep::Probe(_)));
    let step = upload_step(step, UploadEvent::Wrote(WriteOutcome::Written), &bundle());
    assert!(matches!(step, UploadStep::Probe(_)));
    let step = upload_step(step, UploadEvent::Clock(Ok(5)), &bundle());
    assert!(matches!(step, UploadStep::Probe(_)));
    let step = upload_step(step, UploadEvent::Probed(ProbeOutcome::NotFound), &bundle());
    assert!(matches!(step, UploadStep::Write(_)));
    let step = upload_step(step, UploadEvent::Probed(ProbeOutcome::Exists), &bundle());
    assert!(matches!(step, UploadStep::Write(_)));
    assert_eq!(plan_of(step).object_key, "docs/report.pdf");
}

#[test]
fn finished_upload_stays_finished() {
    let done = UploadStep::Done(Ok("https://x/y".to_string()));
    let step = upload_step(done, UploadEvent::Wrote(WriteOutcome::Rejected("late".to_string())), &bundle());
    match step {
        UploadStep::Done(url) => assert_eq!(url, Ok("https://x/y".to_string())),
        other => panic!("{:?}", other),
    }
}

#[test]
fn upload_file_uses_todays_date_and_a_fresh_identifier() {
    let before = chrono::Local::now().format("%Y/%m/%d").to_string();
    let plan = plan_of(upload_file(&report_pdf(), "folder1", &config_with(&[]), None));
    let after = chrono::Local::now().format("%Y/%m/%d").to_string();
    let key = plan.object_key;
    assert!(key.starts_with("docs/"));
    assert!(key.ends_with(".pdf"));
    let middle = &key["docs/".len()..key.len() - ".pdf".len()];
    let (date, id) = middle.split_at(middle.len() - 37);
    assert!(date == before || date == after, "{}", date);
    let id = &id[1..];
    assert_eq!(id.len(), 36);
    for (i, c) in id.chars().enumerate() {
        if i == 8 || i == 13 || i == 18 || i == 23 {
            assert_eq!(c, '-');
        } else {
            assert!(c.is_ascii_digit() || ('a'..='f').contains(&c), "{}", id);
        }
    }
    assert_eq!(id.as_bytes()[14], b'4');
    assert!(b"89ab".contains(&id.as_bytes()[19]));
}

#[test]
fn ten_thousand_generated_names_are_distinct() {
    let config = config_with(&[("DATE_FOLDERS", "off")]);
    let file = report_pdf();
    let mut names: HashSet<String> = HashSet::new();
    let mut n = 0;
    while n < 10_000 {
        let plan = plan_of(upload_file(&file, "folder1", &config, None));
        let name = plan.object_key.strip_prefix("docs/").unwrap().to_string();
        assert!(name.ends_with(".pdf"));
        assert_eq!(name.len(), 40);
        names.insert(name);
        n += 1;
    }
    assert_eq!(names.len(), 10_000);
}

#[test]
fn generated_names_without_extension_end_in_bin() {
    let file = SourceFile {
        path: "/home/u/README".to_string(),
        kind: SourceKind::File,
        file_name: Some("README".to_string()),
        extension: None,
    };
    let plan = plan_of(upload_file(&file, "folder1", &config_with(&[("DATE_FOLDERS", "off")]), None));
    assert!(plan.object_key.ends_with(".bin"));
    assert_eq!(plan.content_type, "application/octet-stream");
}

#[test]
fn test_connection_names_endpoint_and_bucket() {
    let target = test_connection(&config_with(&[])).unwrap();
    assert_eq!(target.endpoint, "s3.us-west-004.backblazeb2.com");
    assert_eq!(target.bucket, "bucket");
}

#[test]
fn test_connection_reports_missing_settings() {
    assert_eq!(
        test_connection(&Settings::new()).unwrap_err(),
        PipelineError::MissingConfig("S3_ENDPOINT".to_string())
    );
    assert_eq!(
        test_connection(&config_of(&[("S3_ENDPOINT", "e"), ("DOMAIN", "d")])).unwrap_err(),
        PipelineError::MissingConfig("BUCKET_NAME".to_string())
    );
    assert!(test_connection(&config_of(&[("S3_ENDPOINT", "e"), ("BUCKET_NAME", "b")])).is_ok());
}

#[test]
fn connection_result_maps_any_failure() {
    assert_eq!(connection_result(Ok(())), Ok("Connection successful".to_string()));
    let failed = connection_result(Err("403 Forbidden".to_string()));
    assert_eq!(failed, Err(PipelineError::ConnectionFailed("403 Forbidden".to_string())));
    assert_eq!(failed.unwrap_err().message(), "Connection failed: 403 Forbidden");
}

#[test]
fn keyring_error_message_is_the_store_message() {
    assert_eq!(PipelineError::KeyringError("Keyring set error: denied".to_string()).message(), "Keyring set error: denied");
    assert_eq!(PipelineError::MissingConfig("DOMAIN".to_string()).message(), "Missing DOMAIN");
}
