//! The upload itself, as a sequence of steps. The library decides what is
//! done next; whoever drives it does the work on the file system and the
//! network and reports what came of it.

use vstd::prelude::*;

use crate::credentials::{B2Credentials, CredentialsView};
use crate::error::{outcome, Failure, PipelineError};
use crate::object_key::{
    date_path, date_segment, derive_object_key, is_calendar_date, is_uuid_text, object_key,
    random_uuid, stored_file_name, text_of, CalendarDate,
};
use crate::settings::Settings;
use crate::text::str_eq;
use crate::url::{build_url, url_for, TokenMode};

verus! {

/// What a path names on the file system.
#[derive(Debug, Clone, Copy, PartialEq, Eq)]
pub enum SourceKind {
    /// Nothing is there.
    Missing,
    /// A directory.
    Directory,
    /// Anything else that exists.
    File,
}

/// The file to upload, as found on the file system.
#[derive(Debug)]
pub struct SourceFile {
    /// The path as the user gave it.
    pub path: String,
    pub kind: SourceKind,
    /// The last component of the path, where it has one that is text.
    pub file_name: Option<String>,
    /// The extension of the file name, without the dot.
    pub extension: Option<String>,
}

/// Which of the two folders, with its token, an upload uses.
#[derive(Debug, Clone, Copy, PartialEq, Eq)]
pub enum FolderChoice {
    Primary,
    Secondary,
}

/// The text of an optional string.
pub open spec fn opt_text(s: Option<String>) -> Option<Seq<char>> {
    match s {
        Some(s) => Some(s@),
        None => None,
    }
}

/// The folder choice of a mode tag: `folder2` selects the second folder,
/// anything else the first.
pub open spec fn folder_choice(mode: Seq<char>) -> FolderChoice {
    if mode == "folder2"@ {
        FolderChoice::Secondary
    } else {
        FolderChoice::Primary
    }
}

/// Whether `key` is set, and to exactly `value`.
pub open spec fn is_set_to(
    config: Map<Seq<char>, Seq<char>>,
    key: Seq<char>,
    value: Seq<char>,
) -> bool {
    config.contains_key(key) && config[key] == value
}

/// The value under `key`, or the empty text where there is none.
pub open spec fn setting_or_empty(config: Map<Seq<char>, Seq<char>>, key: Seq<char>) -> Seq<char> {
    if config.contains_key(key) {
        config[key]
    } else {
        Seq::empty()
    }
}

/// The options of one upload as plain values.
pub ghost struct OptionsView {
    pub choice: FolderChoice,
    pub folder: Seq<char>,
    pub date_folders: bool,
    pub uuid_names: bool,
    pub allow_overwrite: bool,
    pub token_mode: TokenMode,
    pub ttl: Option<u64>,
}

/// The options that mode, configuration and time-to-live give. Date
/// folders and generated names are on unless set to `off`; overwriting is
/// off unless set to `yes`; tokens are static unless set to `dynamic`.
pub open spec fn resolved_options(
    mode: Seq<char>,
    config: Map<Seq<char>, Seq<char>>,
    ttl: Option<u64>,
) -> OptionsView {
    let choice = folder_choice(mode);
    OptionsView {
        choice,
        folder: match choice {
            FolderChoice::Primary => setting_or_empty(config, "FOLDER_1"@),
            FolderChoice::Secondary => setting_or_empty(config, "FOLDER_2"@),
        },
        date_folders: !is_set_to(config, "DATE_FOLDERS"@, "off"@),
        uuid_names: !is_set_to(config, "UUID_FILENAMES"@, "off"@),
        allow_overwrite: is_set_to(config, "OVERWRITE_UPLOADS"@, "yes"@),
        token_mode: if is_set_to(config, "TOKEN_MODE"@, "dynamic"@) {
            TokenMode::Dynamic
        } else {
            TokenMode::Static
        },
        ttl,
    }
}

/// Where the configuration is silent, date folders and generated names
/// are on, overwriting is off and tokens are static.
pub proof fn lemma_default_options(
    mode: Seq<char>,
    config: Map<Seq<char>, Seq<char>>,
    ttl: Option<u64>,
)
    requires
        !config.contains_key("DATE_FOLDERS"@),
        !config.contains_key("UUID_FILENAMES"@),
        !config.contains_key("OVERWRITE_UPLOADS"@),
        !config.contains_key("TOKEN_MODE"@),
    ensures
        resolved_options(mode, config, ttl).date_folders,
        resolved_options(mode, config, ttl).uuid_names,
        !resolved_options(mode, config, ttl).allow_overwrite,
        resolved_options(mode, config, ttl).token_mode == TokenMode::Static,
        resolved_options(mode, config, ttl).ttl == ttl,
{
}

/// The options of one upload. A plain value, made anew for every call.
#[derive(Debug)]
pub struct UploadOptions {
    pub choice: FolderChoice,
    pub folder: String,
    pub date_folders: bool,
    pub uuid_names: bool,
    pub allow_overwrite: bool,
    pub token_mode: TokenMode,
    pub ttl: Option<u64>,
}

impl View for UploadOptions {
    type V = OptionsView;

    open spec fn view(&self) -> OptionsView {
        OptionsView {
            choice: self.choice,
            folder: self.folder@,
            date_folders: self.date_folders,
            uuid_names: self.uuid_names,
            allow_overwrite: self.allow_overwrite,
            token_mode: self.token_mode,
            ttl: self.ttl,
        }
    }
}

fn set_to(config: &Settings, key: &str, value: &str) -> (set: bool)
    ensures
        set == is_set_to(config@, key@, value@),
{
    match config.get(key) {
        Some(v) => str_eq(v, value),
        None => false,
    }
}

fn folder_of(config: &Settings, key: &str) -> (folder: String)
    ensures
        folder@ == setting_or_empty(config@, key@),
{
    match config.get(key) {
        Some(v) => v.to_owned(),
        None => String::new(),
    }
}

impl UploadOptions {
    /// Reads the options off the mode tag and the configuration.
    pub fn resolve(mode: &str, config: &Settings, ttl: Option<u64>) -> (options: UploadOptions)
        ensures
            options@ == resolved_options(mode@, config@, ttl),
    {
        let choice = if str_eq(mode, "folder2") {
            FolderChoice::Secondary
        } else {
            FolderChoice::Primary
        };
        let folder = match choice {
            FolderChoice::Primary => folder_of(config, "FOLDER_1"),
            FolderChoice::Secondary => folder_of(config, "FOLDER_2"),
        };
        let token_mode = if set_to(config, "TOKEN_MODE", "dynamic") {
            TokenMode::Dynamic
        } else {
            TokenMode::Static
        };
        UploadOptions {
            choice,
            folder,
            date_folders: !set_to(config, "DATE_FOLDERS", "off"),
            uuid_names: !set_to(config, "UUID_FILENAMES", "off"),
            allow_overwrite: set_to(config, "OVERWRITE_UPLOADS", "yes"),
            token_mode,
            ttl,
        }
    }
}

/// The media type that the `mime_guess` crate's table gives for an
/// extension, `application/octet-stream` where it has none.
pub uninterp spec fn guessed_media_type(extension: Seq<char>) -> Seq<char>;

/// `mime_guess::from_ext(..).first_or_octet_stream()` rendered as text: a
/// lookup in the crate's table by the extension alone, and the generic
/// octet stream for the empty extension.
#[verifier::external_body]
fn media_type_for(extension: &str) -> (media_type: String)
    ensures
        media_type@ == guessed_media_type(extension@),
        extension@.len() == 0 ==> media_type@ == "application/octet-stream"@,
{
    mime_guess::from_ext(extension).first_or_octet_stream().to_string()
}

/// The media type sent with a file of the given extension.
pub open spec fn content_type_of(extension: Option<Seq<char>>) -> Seq<char> {
    match extension {
        Some(e) => guessed_media_type(e),
        None => guessed_media_type(Seq::empty()),
    }
}

/// What is settled about an upload before anything is sent. It holds
/// nothing sensitive.
#[derive(Debug)]
pub struct UploadPlan {
    pub endpoint: String,
    pub bucket: String,
    pub domain: String,
    /// The key under which the object is stored, unencoded.
    pub object_key: String,
    pub content_type: String,
    pub choice: FolderChoice,
    pub token_mode: TokenMode,
    pub ttl: Option<u64>,
}

/// A plan as plain values.
pub ghost struct PlanView {
    pub endpoint: Seq<char>,
    pub bucket: Seq<char>,
    pub domain: Seq<char>,
    pub object_key: Seq<char>,
    pub content_type: Seq<char>,
    pub choice: FolderChoice,
    pub token_mode: TokenMode,
    pub ttl: Option<u64>,
}

impl View for UploadPlan {
    type V = PlanView;

    open spec fn view(&self) -> PlanView {
        PlanView {
            endpoint: self.endpoint@,
            bucket: self.bucket@,
            domain: self.domain@,
            object_key: self.object_key@,
            content_type: self.content_type@,
            choice: self.choice,
            token_mode: self.token_mode,
            ttl: self.ttl,
        }
    }
}

/// Where an upload stands: what its driver has to do next, or how it ended.
#[derive(Debug)]
pub enum UploadStep {
    /// Ask the store whether an object exists under the plan's key.
    Probe(UploadPlan),
    /// Send the file's bytes to the plan's bucket and key.
    Write(UploadPlan),
    /// Read the clock, for the expiry of a signed URL.
    ReadClock(UploadPlan),
    /// The upload is over: the URL, or why there is none.
    Done(Result<String, PipelineError>),
}

/// A step as plain values.
pub ghost enum StepView {
    Probe(PlanView),
    Write(PlanView),
    ReadClock(PlanView),
    Done(Result<Seq<char>, Failure>),
}

impl View for UploadStep {
    type V = StepView;

    open spec fn view(&self) -> StepView {
        match *self {
            UploadStep::Probe(plan) => StepView::Probe(plan@),
            UploadStep::Write(plan) => StepView::Write(plan@),
            UploadStep::ReadClock(plan) => StepView::ReadClock(plan@),
            UploadStep::Done(result) => StepView::Done(outcome(result)),
        }
    }
}

/// What an existence probe for the plan's key came to.
#[derive(Debug)]
pub enum ProbeOutcome {
    /// An object is there.
    Exists,
    /// The store answered that none is there.
    NotFound,
    /// Anything else. Holds the cause.
    Failed(String),
}

/// What sending the file came to.
#[derive(Debug)]
pub enum WriteOutcome {
    /// The object was written.
    Written,
    /// The file could not be read. Holds the cause.
    Unreadable(String),
    /// The store did not take the object. Holds the cause.
    Rejected(String),
}

/// What the driver reports back.
#[derive(Debug)]
pub enum UploadEvent {
    Probed(ProbeOutcome),
    Wrote(WriteOutcome),
    /// The time in Unix seconds, or why the clock could not be read.
    Clock(Result<u64, String>),
}

/// The first of the three connection settings that is absent.
pub open spec fn missing_setting(config: Map<Seq<char>, Seq<char>>) -> Option<Seq<char>> {
    if !config.contains_key("S3_ENDPOINT"@) {
        Some("S3_ENDPOINT"@)
    } else if !config.contains_key("BUCKET_NAME"@) {
        Some("BUCKET_NAME"@)
    } else if !config.contains_key("DOMAIN"@) {
        Some("DOMAIN"@)
    } else {
        None
    }
}

/// What is reported where the clock shows a moment of which no date is
/// made.
pub open spec fn clock_failure() -> Seq<char> {
    "System clock gives no calendar date"@
}

/// The first step of an upload, given the identifier that is used where
/// generated names are on and the date segment that is used where date
/// folders are on, or no date where the clock gave none. The file is
/// looked at first, then the connection settings, then the date. Nothing
/// is probed where names are generated, whatever the overwrite setting:
/// such names do not collide.
pub open spec fn first_step(
    file: SourceFile,
    mode: Seq<char>,
    config: Map<Seq<char>, Seq<char>>,
    ttl: Option<u64>,
    id: Seq<char>,
    date: Option<Seq<char>>,
) -> StepView {
    let options = resolved_options(mode, config, ttl);
    if file.kind == SourceKind::Missing {
        StepView::Done(Err(Failure::NotFound(file.path@)))
    } else if file.kind == SourceKind::Directory {
        StepView::Done(Err(Failure::UnsupportedInput))
    } else if missing_setting(config) is Some {
        StepView::Done(Err(Failure::MissingConfig(missing_setting(config).unwrap())))
    } else if options.date_folders && date is None {
        StepView::Done(Err(Failure::ClockFailed(clock_failure())))
    } else {
        let plan = PlanView {
            endpoint: config["S3_ENDPOINT"@],
            bucket: config["BUCKET_NAME"@],
            domain: config["DOMAIN"@],
            object_key: object_key(
                options.folder,
                if options.date_folders {
                    date
                } else {
                    None
                },
                stored_file_name(
                    opt_text(file.file_name),
                    opt_text(file.extension),
                    if options.uuid_names {
                        Some(id)
                    } else {
                        None
                    },
                ),
            ),
            content_type: content_type_of(opt_text(file.extension)),
            choice: options.choice,
            token_mode: options.token_mode,
            ttl,
        };
        if !options.allow_overwrite && !options.uuid_names {
            StepView::Probe(plan)
        } else {
            StepView::Write(plan)
        }
    }
}

/// The token of the chosen folder.
pub open spec fn folder_token(creds: CredentialsView, choice: FolderChoice) -> Seq<char> {
    match choice {
        FolderChoice::Primary => creds.folder_1_token,
        FolderChoice::Secondary => creds.folder_2_token,
    }
}

/// How the upload ends once the object is written and, where the URL is
/// signed, the time is known.
pub open spec fn finished(plan: PlanView, creds: CredentialsView, now: u64) -> StepView {
    StepView::Done(
        url_for(
            plan.domain,
            plan.object_key,
            plan.token_mode,
            folder_token(creds, plan.choice),
            plan.ttl,
            creds.token_secret,
            now,
        ),
    )
}

/// Whether the URL of a plan carries an expiry, so that the clock is
/// needed.
pub open spec fn needs_clock(plan: PlanView, creds: CredentialsView) -> bool {
    plan.token_mode == TokenMode::Dynamic && plan.ttl is Some && creds.token_secret.len() > 0
}

/// The step that follows `step` on `event`. An existing object ends the
/// upload before anything is written, and so does a probe that fails
/// otherwise; a probe that finds nothing leads to the write. A failed
/// write ends the upload. After the write the URL is built, with the time
/// where it is signed. An event that does not answer the step changes
/// nothing.
pub open spec fn next_step(step: UploadStep, event: UploadEvent, creds: CredentialsView) -> StepView {
    match (step, event) {
        (UploadStep::Probe(plan), UploadEvent::Probed(ProbeOutcome::Exists)) => StepView::Done(
            Err(Failure::AlreadyExists),
        ),
        (UploadStep::Probe(plan), UploadEvent::Probed(ProbeOutcome::NotFound)) => StepView::Write(
            plan@,
        ),
        (UploadStep::Probe(plan), UploadEvent::Probed(ProbeOutcome::Failed(cause))) =>
            StepView::Done(Err(Failure::ProbeFailed(cause@))),
        (UploadStep::Write(plan), UploadEvent::Wrote(WriteOutcome::Written)) => if needs_clock(
            plan@,
            creds,
        ) {
            StepView::ReadClock(plan@)
        } else {
            finished(plan@, creds, 0)
        },
        (UploadStep::Write(plan), UploadEvent::Wrote(WriteOutcome::Unreadable(cause))) =>
            StepView::Done(Err(Failure::SourceUnreadable(cause@))),
        (UploadStep::Write(plan), UploadEvent::Wrote(WriteOutcome::Rejected(cause))) =>
            StepView::Done(Err(Failure::UploadFailed(cause@))),
        (UploadStep::ReadClock(plan), UploadEvent::Clock(Ok(now))) => finished(plan@, creds, now),
        (UploadStep::ReadClock(plan), UploadEvent::Clock(Err(cause))) => StepView::Done(
            Err(Failure::ClockFailed(cause@)),
        ),
        _ => step@,
    }
}

fn opt_str(s: &Option<String>) -> (r: Option<&str>)
    ensures
        text_of(r) == opt_text(*s),
{
    match s {
        Some(s) => Some(s.as_str()),
        None => None,
    }
}

fn failed(error: PipelineError) -> (step: UploadStep)
    ensures
        step@ == StepView::Done(Err(error@)),
{
    UploadStep::Done(Err(error))
}

/// Where the file is none that can be sent, the step that says so.
fn rejected(file: &SourceFile) -> (step: Option<UploadStep>)
    ensures
        match step {
            Some(s) => file.kind != SourceKind::File && forall|
                mode: Seq<char>,
                config: Map<Seq<char>, Seq<char>>,
                ttl: Option<u64>,
                id: Seq<char>,
                date: Option<Seq<char>>,
            | s@ == #[trigger] first_step(*file, mode, config, ttl, id, date),
            None => file.kind == SourceKind::File,
        },
{
    match file.kind {
        SourceKind::Missing => Some(failed(PipelineError::NotFound(file.path.clone()))),
        SourceKind::Directory => Some(failed(PipelineError::UnsupportedInput)),
        SourceKind::File => None,
    }
}

/// Endpoint, bucket and domain, or the step that names the first of them
/// that is missing.
fn connection<'a>(config: &'a Settings) -> (found: Result<(&'a str, &'a str, &'a str), UploadStep>)
    ensures
        match found {
            Ok((endpoint, bucket, domain)) => {
                &&& missing_setting(config@) is None
                &&& endpoint@ == config@["S3_ENDPOINT"@]
                &&& bucket@ == config@["BUCKET_NAME"@]
                &&& domain@ == config@["DOMAIN"@]
            },
            Err(step) => missing_setting(config@) matches Some(field) && step@ == StepView::Done(
                Err(Failure::MissingConfig(field)),
            ),
        },
{
    let endpoint = match config.get("S3_ENDPOINT") {
        Some(v) => v,
        None => {
            return Err(failed(PipelineError::MissingConfig("S3_ENDPOINT".to_owned())));
        },
    };
    let bucket = match config.get("BUCKET_NAME") {
        Some(v) => v,
        None => {
            return Err(failed(PipelineError::MissingConfig("BUCKET_NAME".to_owned())));
        },
    };
    let domain = match config.get("DOMAIN") {
        Some(v) => v,
        None => {
            return Err(failed(PipelineError::MissingConfig("DOMAIN".to_owned())));
        },
    };
    Ok((endpoint, bucket, domain))
}

/// The plan and its first step, once file and connection settings are
/// there, from a date and an identifier that are given exactly where the
/// options ask for them.
fn plan_with(
    file: &SourceFile,
    mode: &str,
    config: &Settings,
    ttl: Option<u64>,
    options: UploadOptions,
    found: (&str, &str, &str),
    date: Option<&CalendarDate>,
    id: Option<&str>,
) -> (step: UploadStep)
    requires
        options@ == resolved_options(mode@, config@, ttl),
        file.kind == SourceKind::File,
        missing_setting(config@) is None,
        found.0@ == config@["S3_ENDPOINT"@],
        found.1@ == config@["BUCKET_NAME"@],
        found.2@ == config@["DOMAIN"@],
        date is Some <==> options.date_folders,
        id is Some <==> options.uuid_names,
    ensures
        step@ == first_step(
            *file,
            mode@,
            config@,
            ttl,
            match id {
                Some(id) => id@,
                None => Seq::empty(),
            },
            date_segment(date),
        ),
{
    let key = derive_object_key(
        opt_str(&file.file_name),
        opt_str(&file.extension),
        options.folder.as_str(),
        date,
        id,
    );
    proof {
        reveal_strlit("");
        assert(""@ =~= Seq::<char>::empty());
    }
    let content_type = match &file.extension {
        Some(e) => media_type_for(e.as_str()),
        None => media_type_for(""),
    };
    let plan = UploadPlan {
        endpoint: found.0.to_owned(),
        bucket: found.1.to_owned(),
        domain: found.2.to_owned(),
        object_key: key,
        content_type,
        choice: options.choice,
        token_mode: options.token_mode,
        ttl,
    };
    if !options.allow_overwrite && !options.uuid_names {
        UploadStep::Probe(plan)
    } else {
        UploadStep::Write(plan)
    }
}

/// Plans an upload with a given date and identifier; `upload_file` with
/// nothing left to chance. The date is used where date folders are on, the
/// identifier where generated names are on.
pub fn plan_upload(
    file: &SourceFile,
    mode: &str,
    config: &Settings,
    ttl: Option<u64>,
    today: &CalendarDate,
    id: &str,
) -> (step: UploadStep)
    ensures
        step@ == first_step(*file, mode@, config@, ttl, id@, Some(today.path_text())),
{
    if let Some(step) = rejected(file) {
        return step;
    }
    let found = match connection(config) {
        Ok(found) => found,
        Err(step) => {
            return step;
        },
    };
    let options = UploadOptions::resolve(mode, config, ttl);
    let date = if options.date_folders {
        Some(today)
    } else {
        None
    };
    let id = if options.uuid_names {
        Some(id)
    } else {
        None
    };
    plan_with(file, mode, config, ttl, options, found, date, id)
}

/// The date segment of what the clock gave: a year, a month and a day, or
/// nothing.
pub open spec fn date_text(clock: Option<(int, int, int)>) -> Option<Seq<char>> {
    match clock {
        Some(date) => Some(date_path(date.0, date.1, date.2)),
        None => None,
    }
}

/// Begins an upload. A path that does not exist is `NotFound`, a directory
/// `UnsupportedInput`, a missing endpoint, bucket or domain
/// `MissingConfig`, in that order; where date folders are on and the
/// clock shows a moment of which no date is made, `ClockFailed`. Nothing
/// is probed or written then. Otherwise the object key is derived, with
/// today's local date where date folders are on and a fresh random
/// identifier where generated names are on, and the next step is the
/// overwrite guard's probe, or the write where the guard does not apply.
pub fn upload_file(file: &SourceFile, mode: &str, config: &Settings, ttl: Option<u64>) -> (step:
    UploadStep)
    ensures
        exists|id: Seq<char>, clock: Option<(int, int, int)>|
            {
                &&& is_uuid_text(id)
                &&& clock matches Some(date) ==> is_calendar_date(date.0, date.1, date.2)
                &&& step@ == #[trigger] first_step(
                    *file,
                    mode@,
                    config@,
                    ttl,
                    id,
                    date_text(clock),
                )
            },
{
    let ghost no_clock: Option<(int, int, int)> = None;
    if let Some(step) = rejected(file) {
        proof {
            let id = uuid_witness();
            assert(step@ == first_step(*file, mode@, config@, ttl, id, date_text(no_clock)));
        }
        return step;
    }
    let found = match connection(config) {
        Ok(found) => found,
        Err(step) => {
            proof {
                let id = uuid_witness();
                assert(step@ == first_step(*file, mode@, config@, ttl, id, date_text(no_clock)));
            }
            return step;
        },
    };
    let options = UploadOptions::resolve(mode, config, ttl);
    let today = if options.date_folders {
        match CalendarDate::today() {
            Some(today) => Some(today),
            None => {
                let step = failed(
                    PipelineError::ClockFailed("System clock gives no calendar date".to_owned()),
                );
                proof {
                    let id = uuid_witness();
                    assert(step@ == first_step(*file, mode@, config@, ttl, id, date_text(no_clock)));
                }
                return step;
            },
        }
    } else {
        None
    };
    let id = if options.uuid_names {
        Some(random_uuid())
    } else {
        None
    };
    let date = match &today {
        Some(d) => Some(d),
        None => None,
    };
    let name = match &id {
        Some(s) => Some(s.as_str()),
        None => None,
    };
    let step = plan_with(file, mode, config, ttl, options, found, date, name);
    proof {
        let id_text = match name {
            Some(s) => s@,
            None => uuid_witness(),
        };
        let clock = match date {
            Some(d) => Some((d.year(), d.month(), d.day())),
            None => no_clock,
        };
        assert(step@ == first_step(*file, mode@, config@, ttl, id_text, date_text(clock)));
    }
    step
}

/// The moment at which a URL signed at `now` expires.
pub open spec fn expiry(plan: PlanView, now: u64) -> int {
    match plan.ttl {
        Some(ttl) => now + ttl,
        None => now as int,
    }
}

/// Whether the expiry of the URL can be told in Unix seconds: asked only
/// of a clock reading that answers a signed upload.
pub open spec fn expiry_fits(step: UploadStep, event: UploadEvent, creds: CredentialsView) -> bool {
    match (step, event) {
        (UploadStep::ReadClock(plan), UploadEvent::Clock(Ok(now))) => needs_clock(plan@, creds)
            ==> expiry(plan@, now) <= u64::MAX,
        _ => true,
    }
}

fn finish(plan: &UploadPlan, creds: &B2Credentials, now: u64) -> (step: UploadStep)
    requires
        needs_clock(plan@, creds@) ==> expiry(plan@, now) <= u64::MAX,
    ensures
        step@ == finished(plan@, creds@, now),
{
    let token = match plan.choice {
        FolderChoice::Primary => creds.folder_1_token.as_str(),
        FolderChoice::Secondary => creds.folder_2_token.as_str(),
    };
    UploadStep::Done(
        build_url(
            plan.domain.as_str(),
            plan.object_key.as_str(),
            plan.token_mode,
            token,
            plan.ttl,
            creds.token_secret.as_str(),
            now,
        ),
    )
}

fn clock_needed(plan: &UploadPlan, creds: &B2Credentials) -> (needed: bool)
    ensures
        needed == needs_clock(plan@, creds@),
{
    match plan.token_mode {
        TokenMode::Dynamic => plan.ttl.is_some() && !creds.token_secret.as_str().is_empty(),
        TokenMode::Static => false,
    }
}

/// Takes an upload one step further on what its driver reports. The
/// bundle is read for the folder's token and the signing secret only when
/// the URL is built; no step holds either.
pub fn upload_step(step: UploadStep, event: UploadEvent, creds: &B2Credentials) -> (next: UploadStep)
    requires
        expiry_fits(step, event, creds@),
    ensures
        next@ == next_step(step, event, creds@),
{
    match step {
        UploadStep::Probe(plan) => match event {
            UploadEvent::Probed(ProbeOutcome::Exists) => UploadStep::Done(
                Err(PipelineError::AlreadyExists),
            ),
            UploadEvent::Probed(ProbeOutcome::NotFound) => UploadStep::Write(plan),
            UploadEvent::Probed(ProbeOutcome::Failed(cause)) => UploadStep::Done(
                Err(PipelineError::ProbeFailed(cause)),
            ),
            _ => UploadStep::Probe(plan),
        },
        UploadStep::Write(plan) => match event {
            UploadEvent::Wrote(WriteOutcome::Written) => if clock_needed(&plan, creds) {
                UploadStep::ReadClock(plan)
            } else {
                finish(&plan, creds, 0)
            },
            UploadEvent::Wrote(WriteOutcome::Unreadable(cause)) => UploadStep::Done(
                Err(PipelineError::SourceUnreadable(cause)),
            ),
            UploadEvent::Wrote(WriteOutcome::Rejected(cause)) => UploadStep::Done(
                Err(PipelineError::UploadFailed(cause)),
            ),
            _ => UploadStep::Write(plan),
        },
        UploadStep::ReadClock(plan) => match event {
            UploadEvent::Clock(Ok(now)) => finish(&plan, creds, now),
            UploadEvent::Clock(Err(cause)) => UploadStep::Done(
                Err(PipelineError::ClockFailed(cause)),
            ),
            _ => UploadStep::ReadClock(plan),
        },
        UploadStep::Done(result) => UploadStep::Done(result),
    }
}

/// With generated names on, an upload never begins with a probe, whatever
/// the overwrite setting says: the overwrite guard is skipped.
pub proof fn lemma_generated_names_skip_guard(
    file: SourceFile,
    mode: Seq<char>,
    config: Map<Seq<char>, Seq<char>>,
    ttl: Option<u64>,
    id: Seq<char>,
    date: Option<Seq<char>>,
)
    requires
        resolved_options(mode, config, ttl).uuid_names,
    ensures
        !(first_step(file, mode, config, ttl, id, date) is Probe),
{
}

/// An upload begins with a probe exactly where the file and the three
/// connection settings are there, the date is there if it is asked for,
/// overwriting is off and names are kept.
pub proof fn lemma_guard_applies(
    file: SourceFile,
    mode: Seq<char>,
    config: Map<Seq<char>, Seq<char>>,
    ttl: Option<u64>,
    id: Seq<char>,
    date: Option<Seq<char>>,
)
    ensures
        first_step(file, mode, config, ttl, id, date) is Probe <==> {
            &&& file.kind == SourceKind::File
            &&& config.contains_key("S3_ENDPOINT"@)
            &&& config.contains_key("BUCKET_NAME"@)
            &&& config.contains_key("DOMAIN"@)
            &&& date is Some || !resolved_options(mode, config, ttl).date_folders
            &&& !resolved_options(mode, config, ttl).allow_overwrite
            &&& !resolved_options(mode, config, ttl).uuid_names
        },
{
}

/// Where an upload stands once its object is written and, if the URL is
/// signed, the clock was read as `now`.
pub open spec fn after_write(plan: UploadPlan, creds: CredentialsView, now: u64) -> StepView {
    if needs_clock(plan@, creds) {
        next_step(UploadStep::ReadClock(plan), UploadEvent::Clock(Ok(now)), creds)
    } else {
        next_step(UploadStep::Write(plan), UploadEvent::Wrote(WriteOutcome::Written), creds)
    }
}

/// An upload whose object is written ends in a URL, but for one case: a
/// signed URL is asked for and no signing secret is stored. With
/// generated names, then, an upload that has its file, its settings and
/// its date succeeds whenever the write does, whatever a probe would
/// have said.
pub proof fn lemma_written_upload_ends_in_url(plan: UploadPlan, creds: CredentialsView, now: u64)
    ensures
        next_step(UploadStep::Write(plan), UploadEvent::Wrote(WriteOutcome::Written), creds)
            is ReadClock <==> needs_clock(plan@, creds),
        after_write(plan, creds, now) matches StepView::Done(result) && (result is Err <==> {
            &&& plan.token_mode == TokenMode::Dynamic
            &&& plan.ttl is Some
            &&& creds.token_secret.len() == 0
        }),
        after_write(plan, creds, now) matches StepView::Done(Err(failure)) ==> failure
            == Failure::MissingSigningSecret,
{
}

/// Nothing is written once a probe has found the object or has failed:
/// from a probe, only the answer that nothing is there leads to the write,
/// and no answer leads to a URL.
pub proof fn lemma_write_only_after_clear_probe(
    plan: UploadPlan,
    event: UploadEvent,
    creds: CredentialsView,
)
    ensures
        next_step(UploadStep::Probe(plan), event, creds) is Write <==> event
            == UploadEvent::Probed(ProbeOutcome::NotFound),
        !(next_step(UploadStep::Probe(plan), event, creds) is ReadClock),
        next_step(UploadStep::Probe(plan), event, creds) matches StepView::Done(result)
            ==> result is Err,
{
}

/// An upload that is over stays over, whatever is reported.
pub proof fn lemma_done_is_final(
    result: Result<String, PipelineError>,
    event: UploadEvent,
    creds: CredentialsView,
)
    ensures
        next_step(UploadStep::Done(result), event, creds) == UploadStep::Done(result)@,
{
}

/// A URL is handed out only from the write or from the clock read that
/// follows it: never from a probe, so never before the object is stored.
pub proof fn lemma_url_only_after_write(step: UploadStep, event: UploadEvent, creds: CredentialsView)
    requires
        next_step(step, event, creds) matches StepView::Done(Ok(_)),
        !(step is Done),
    ensures
        step is Write || step is ReadClock,
        step is Write ==> event == UploadEvent::Wrote(WriteOutcome::Written),
{
}

/// Where to look for the bucket when the stored credentials are tested.
#[derive(Debug)]
pub struct ConnectionTarget {
    pub endpoint: String,
    pub bucket: String,
}

/// The target of a connection test, or the connection setting that is
/// missing: the endpoint first, then the bucket.
pub open spec fn connection_target(config: Map<Seq<char>, Seq<char>>) -> Result<
    (Seq<char>, Seq<char>),
    Failure,
> {
    if !config.contains_key("S3_ENDPOINT"@) {
        Err(Failure::MissingConfig("S3_ENDPOINT"@))
    } else if !config.contains_key("BUCKET_NAME"@) {
        Err(Failure::MissingConfig("BUCKET_NAME"@))
    } else {
        Ok((config["S3_ENDPOINT"@], config["BUCKET_NAME"@]))
    }
}

/// Begins a test of the stored credentials: names the bucket whose
/// existence is to be probed, and the endpoint to probe it at.
pub fn test_connection(config: &Settings) -> (target: Result<ConnectionTarget, PipelineError>)
    ensures
        match connection_target(config@) {
            Ok((endpoint, bucket)) => target matches Ok(t) && t.endpoint@ == endpoint && t.bucket@
                == bucket,
            Err(failure) => target matches Err(e) && e@ == failure,
        },
{
    let endpoint = match config.get("S3_ENDPOINT") {
        Some(v) => v,
        None => {
            return Err(PipelineError::MissingConfig("S3_ENDPOINT".to_owned()));
        },
    };
    let bucket = match config.get("BUCKET_NAME") {
        Some(v) => v,
        None => {
            return Err(PipelineError::MissingConfig("BUCKET_NAME".to_owned()));
        },
    };
    Ok(ConnectionTarget { endpoint: endpoint.to_owned(), bucket: bucket.to_owned() })
}

/// What a connection test reports for what the bucket probe came to.
pub open spec fn connection_report(probe: Result<(), String>) -> Result<Seq<char>, Failure> {
    match probe {
        Ok(_) => Ok("Connection successful"@),
        Err(cause) => Err(Failure::ConnectionFailed(cause@)),
    }
}

/// Ends a connection test: any failure of the probe, whatever its kind, is
/// `ConnectionFailed` with its cause.
pub fn connection_result(probe: Result<(), String>) -> (report: Result<String, PipelineError>)
    ensures
        outcome(report) == connection_report(probe),
{
    match probe {
        Ok(_) => Ok("Connection successful".to_owned()),
        Err(cause) => Err(PipelineError::ConnectionFailed(cause)),
    }
}

/// Some text of the shape of a random UUID.
proof fn uuid_witness() -> (id: Seq<char>)
    ensures
        is_uuid_text(id),
{
    let id = Seq::new(
        36,
        |i: int|
            if i == 8 || i == 13 || i == 18 || i == 23 {
                '-'
            } else if i == 14 {
                '4'
            } else if i == 19 {
                '8'
            } else {
                '0'
            },
    );
    id
}

} // verus!
