//! What is kept of a session while no container runs: its pin and its history.

use vstd::prelude::*;

use crate::number::{decimal, decimal_text};
use crate::runtime::{ResolvedRuntime, ResolvedRuntimeView};
use crate::session_map::{key_of, SessionKey, SessionKeyView};
use crate::text::{agrees, cat2, cat3, cat4, clone_opt, opt_text, same};

verus! {

pub const SCHEMA_VERSION: i64 = 1;

/// The table of sessions.
pub const SCHEMA_SQL: &'static str = "CREATE TABLE sessions (
    runtime_arn TEXT NOT NULL,
    qualifier TEXT NOT NULL,
    runtime_session_id TEXT NOT NULL,
    catalog_generation TEXT NOT NULL,
    image TEXT NOT NULL,
    image_id TEXT NOT NULL,
    volume_name TEXT NOT NULL,
    created_at_unix_millis INTEGER NOT NULL,
    last_activity_at_unix_millis INTEGER NOT NULL,
    compute_started_at_unix_millis INTEGER,
    state TEXT NOT NULL CHECK (state IN ('ready', 'stopped')),
    last_error TEXT,
    last_stop_token TEXT,
    PRIMARY KEY (runtime_arn, qualifier, runtime_session_id)
);
CREATE INDEX sessions_state_idx ON sessions(state);";

/// Whether a session had a container when it was last written down.
#[derive(Clone, Copy, Debug, PartialEq, Eq, Structural)]
pub enum StoredSessionState {
    Ready,
    Stopped,
}

/// What can go wrong with the stored sessions.
#[derive(Debug)]
pub enum SessionStoreError {
    CreateDirectory { path: String, source: String },
    InvalidPath(String),
    LockPoisoned,
    MissingSession(String),
    InvalidState(String),
    UnsupportedSchema(i64),
    Sqlite(String),
}

#[verifier::ext_equal]
pub enum SessionStoreErrorView {
    CreateDirectory { path: Seq<char>, source: Seq<char> },
    InvalidPath(Seq<char>),
    LockPoisoned,
    MissingSession(Seq<char>),
    InvalidState(Seq<char>),
    UnsupportedSchema(i64),
    Sqlite(Seq<char>),
}

impl View for SessionStoreError {
    type V = SessionStoreErrorView;

    open spec fn view(&self) -> SessionStoreErrorView {
        match self {
            SessionStoreError::CreateDirectory { path, source } =>
                SessionStoreErrorView::CreateDirectory { path: path@, source: source@ },
            SessionStoreError::InvalidPath(m) => SessionStoreErrorView::InvalidPath(m@),
            SessionStoreError::LockPoisoned => SessionStoreErrorView::LockPoisoned,
            SessionStoreError::MissingSession(m) => SessionStoreErrorView::MissingSession(m@),
            SessionStoreError::InvalidState(m) => SessionStoreErrorView::InvalidState(m@),
            SessionStoreError::UnsupportedSchema(n) => SessionStoreErrorView::UnsupportedSchema(*n),
            SessionStoreError::Sqlite(m) => SessionStoreErrorView::Sqlite(m@),
        }
    }
}

/// A whole number in decimal, with its sign.
pub open spec fn signed_decimal(n: int) -> Seq<char> {
    if n < 0 {
        "-"@ + decimal((-n) as nat)
    } else {
        decimal(n as nat)
    }
}

pub fn signed_decimal_text(n: i64) -> (r: String)
    ensures
        r@ == signed_decimal(n as int),
{
    if n < 0 {
        let size: u64 = (-(n as i128)) as u64;
        let digits = decimal_text(size);
        cat2("-", digits.as_str())
    } else {
        decimal_text(n as u64)
    }
}

impl SessionStoreErrorView {
    pub open spec fn text(self) -> Seq<char> {
        match self {
            SessionStoreErrorView::CreateDirectory { path, source } =>
                "failed to create session state directory "@ + path + ": "@ + source,
            SessionStoreErrorView::InvalidPath(m) => "invalid session state path: "@ + m,
            SessionStoreErrorView::LockPoisoned => "session state lock was poisoned"@,
            SessionStoreErrorView::MissingSession(m) => "session "@ + m + " is not stored"@,
            SessionStoreErrorView::InvalidState(m) => "session state contains unsupported state "@
                + m,
            SessionStoreErrorView::UnsupportedSchema(n) => "session state schema version "@
                + signed_decimal(n as int) + " is newer than this Flint build supports"@,
            SessionStoreErrorView::Sqlite(m) => m,
        }
    }
}

impl SessionStoreError {
    pub fn message(&self) -> (r: String)
        ensures
            r@ == self@.text(),
    {
        match self {
            SessionStoreError::CreateDirectory { path, source } => cat4(
                "failed to create session state directory ",
                path.as_str(),
                ": ",
                source.as_str(),
            ),
            SessionStoreError::InvalidPath(m) => cat2("invalid session state path: ", m.as_str()),
            SessionStoreError::LockPoisoned => "session state lock was poisoned".to_owned(),
            SessionStoreError::MissingSession(m) => cat3("session ", m.as_str(), " is not stored"),
            SessionStoreError::InvalidState(m) => cat2(
                "session state contains unsupported state ",
                m.as_str(),
            ),
            SessionStoreError::UnsupportedSchema(n) => {
                let shown = signed_decimal_text(*n);
                cat3(
                    "session state schema version ",
                    shown.as_str(),
                    " is newer than this Flint build supports",
                )
            },
            SessionStoreError::Sqlite(m) => m.clone(),
        }
    }
}

pub open spec fn state_name(state: StoredSessionState) -> Seq<char> {
    match state {
        StoredSessionState::Ready => "ready"@,
        StoredSessionState::Stopped => "stopped"@,
    }
}

pub open spec fn state_of(name: Seq<char>) -> Result<StoredSessionState, SessionStoreErrorView> {
    if name == "ready"@ {
        Ok(StoredSessionState::Ready)
    } else if name == "stopped"@ {
        Ok(StoredSessionState::Stopped)
    } else {
        Err(SessionStoreErrorView::InvalidState(name))
    }
}

impl View for StoredSessionState {
    type V = StoredSessionState;

    open spec fn view(&self) -> StoredSessionState {
        *self
    }
}

impl StoredSessionState {
    pub fn as_str(self) -> (r: &'static str)
        ensures
            r@ == state_name(self),
    {
        match self {
            StoredSessionState::Ready => "ready",
            StoredSessionState::Stopped => "stopped",
        }
    }

    pub fn parse(value: &str) -> (r: Result<Self, SessionStoreError>)
        ensures
            agrees(r, state_of(value@)),
    {
        if same(value, "ready") {
            Ok(StoredSessionState::Ready)
        } else if same(value, "stopped") {
            Ok(StoredSessionState::Stopped)
        } else {
            Err(SessionStoreError::InvalidState(value.to_owned()))
        }
    }
}

/// A stored session: the deployment that it is pinned to, its volume and its history.
#[derive(Debug)]
pub struct SessionRecord {
    pub key: SessionKey,
    pub catalog_generation: String,
    pub image: String,
    pub image_id: String,
    pub volume_name: String,
    pub created_at_unix_millis: i64,
    pub last_activity_at_unix_millis: i64,
    pub compute_started_at_unix_millis: Option<i64>,
    pub state: StoredSessionState,
    pub last_error: Option<String>,
    pub last_stop_token: Option<String>,
}

#[verifier::ext_equal]
pub struct SessionRecordView {
    pub key: SessionKeyView,
    pub catalog_generation: Seq<char>,
    pub image: Seq<char>,
    pub image_id: Seq<char>,
    pub volume_name: Seq<char>,
    pub created_at_unix_millis: i64,
    pub last_activity_at_unix_millis: i64,
    pub compute_started_at_unix_millis: Option<i64>,
    pub state: StoredSessionState,
    pub last_error: Option<Seq<char>>,
    pub last_stop_token: Option<Seq<char>>,
}

impl View for SessionRecord {
    type V = SessionRecordView;

    open spec fn view(&self) -> SessionRecordView {
        SessionRecordView {
            key: self.key@,
            catalog_generation: self.catalog_generation@,
            image: self.image@,
            image_id: self.image_id@,
            volume_name: self.volume_name@,
            created_at_unix_millis: self.created_at_unix_millis,
            last_activity_at_unix_millis: self.last_activity_at_unix_millis,
            compute_started_at_unix_millis: self.compute_started_at_unix_millis,
            state: self.state,
            last_error: opt_text(self.last_error),
            last_stop_token: opt_text(self.last_stop_token),
        }
    }
}

impl Clone for SessionRecord {
    fn clone(&self) -> (r: Self)
        ensures
            r@ == self@,
    {
        SessionRecord {
            key: self.key.clone(),
            catalog_generation: self.catalog_generation.clone(),
            image: self.image.clone(),
            image_id: self.image_id.clone(),
            volume_name: self.volume_name.clone(),
            created_at_unix_millis: self.created_at_unix_millis,
            last_activity_at_unix_millis: self.last_activity_at_unix_millis,
            compute_started_at_unix_millis: self.compute_started_at_unix_millis,
            state: self.state,
            last_error: clone_opt(&self.last_error),
            last_stop_token: clone_opt(&self.last_stop_token),
        }
    }
}

/// A row of the table, in the order of its columns.
#[derive(Debug)]
pub struct RawRecord {
    pub runtime_arn: String,
    pub qualifier: String,
    pub runtime_session_id: String,
    pub catalog_generation: String,
    pub image: String,
    pub image_id: String,
    pub volume_name: String,
    pub created_at_unix_millis: i64,
    pub last_activity_at_unix_millis: i64,
    pub compute_started_at_unix_millis: Option<i64>,
    pub state: String,
    pub last_error: Option<String>,
    pub last_stop_token: Option<String>,
}

#[verifier::ext_equal]
pub struct RawRecordView {
    pub runtime_arn: Seq<char>,
    pub qualifier: Seq<char>,
    pub runtime_session_id: Seq<char>,
    pub catalog_generation: Seq<char>,
    pub image: Seq<char>,
    pub image_id: Seq<char>,
    pub volume_name: Seq<char>,
    pub created_at_unix_millis: i64,
    pub last_activity_at_unix_millis: i64,
    pub compute_started_at_unix_millis: Option<i64>,
    pub state: Seq<char>,
    pub last_error: Option<Seq<char>>,
    pub last_stop_token: Option<Seq<char>>,
}

impl View for RawRecord {
    type V = RawRecordView;

    open spec fn view(&self) -> RawRecordView {
        RawRecordView {
            runtime_arn: self.runtime_arn@,
            qualifier: self.qualifier@,
            runtime_session_id: self.runtime_session_id@,
            catalog_generation: self.catalog_generation@,
            image: self.image@,
            image_id: self.image_id@,
            volume_name: self.volume_name@,
            created_at_unix_millis: self.created_at_unix_millis,
            last_activity_at_unix_millis: self.last_activity_at_unix_millis,
            compute_started_at_unix_millis: self.compute_started_at_unix_millis,
            state: self.state@,
            last_error: opt_text(self.last_error),
            last_stop_token: opt_text(self.last_stop_token),
        }
    }
}

/// The session that a row stands for.
pub open spec fn record_of_row(raw: RawRecordView) -> Result<
    SessionRecordView,
    SessionStoreErrorView,
> {
    match state_of(raw.state) {
        Err(e) => Err(e),
        Ok(state) => Ok(
            SessionRecordView {
                key: SessionKeyView {
                    runtime_arn: raw.runtime_arn,
                    qualifier: raw.qualifier,
                    runtime_session_id: raw.runtime_session_id,
                },
                catalog_generation: raw.catalog_generation,
                image: raw.image,
                image_id: raw.image_id,
                volume_name: raw.volume_name,
                created_at_unix_millis: raw.created_at_unix_millis,
                last_activity_at_unix_millis: raw.last_activity_at_unix_millis,
                compute_started_at_unix_millis: raw.compute_started_at_unix_millis,
                state,
                last_error: raw.last_error,
                last_stop_token: raw.last_stop_token,
            },
        ),
    }
}

pub fn parse_record(raw: RawRecord) -> (r: Result<SessionRecord, SessionStoreError>)
    ensures
        agrees(r, record_of_row(raw@)),
{
    match StoredSessionState::parse(raw.state.as_str()) {
        Err(e) => Err(e),
        Ok(state) => Ok(
            SessionRecord {
                key: SessionKey {
                    runtime_arn: raw.runtime_arn,
                    qualifier: raw.qualifier,
                    runtime_session_id: raw.runtime_session_id,
                },
                catalog_generation: raw.catalog_generation,
                image: raw.image,
                image_id: raw.image_id,
                volume_name: raw.volume_name,
                created_at_unix_millis: raw.created_at_unix_millis,
                last_activity_at_unix_millis: raw.last_activity_at_unix_millis,
                compute_started_at_unix_millis: raw.compute_started_at_unix_millis,
                state,
                last_error: raw.last_error,
                last_stop_token: raw.last_stop_token,
            },
        ),
    }
}

/// The row of a session.
pub open spec fn row_of_record(record: SessionRecordView) -> RawRecordView {
    RawRecordView {
        runtime_arn: record.key.runtime_arn,
        qualifier: record.key.qualifier,
        runtime_session_id: record.key.runtime_session_id,
        catalog_generation: record.catalog_generation,
        image: record.image,
        image_id: record.image_id,
        volume_name: record.volume_name,
        created_at_unix_millis: record.created_at_unix_millis,
        last_activity_at_unix_millis: record.last_activity_at_unix_millis,
        compute_started_at_unix_millis: record.compute_started_at_unix_millis,
        state: state_name(record.state),
        last_error: record.last_error,
        last_stop_token: record.last_stop_token,
    }
}

pub fn raw_record(record: &SessionRecord) -> (r: RawRecord)
    ensures
        r@ == row_of_record(record@),
{
    RawRecord {
        runtime_arn: record.key.runtime_arn.clone(),
        qualifier: record.key.qualifier.clone(),
        runtime_session_id: record.key.runtime_session_id.clone(),
        catalog_generation: record.catalog_generation.clone(),
        image: record.image.clone(),
        image_id: record.image_id.clone(),
        volume_name: record.volume_name.clone(),
        created_at_unix_millis: record.created_at_unix_millis,
        last_activity_at_unix_millis: record.last_activity_at_unix_millis,
        compute_started_at_unix_millis: record.compute_started_at_unix_millis,
        state: record.state.as_str().to_owned(),
        last_error: clone_opt(&record.last_error),
        last_stop_token: clone_opt(&record.last_stop_token),
    }
}

// Changes of a stored session.

/// What is stored when a session is written: the new record, but the time of creation stays.
pub open spec fn merged(
    stored: Option<SessionRecordView>,
    record: SessionRecordView,
) -> SessionRecordView {
    match stored {
        None => record,
        Some(before) => SessionRecordView {
            created_at_unix_millis: before.created_at_unix_millis,
            ..record
        },
    }
}

pub fn upsert(stored: Option<&SessionRecord>, record: &SessionRecord) -> (r: SessionRecord)
    ensures
        r@ == merged(
            (match stored {
                Some(before) => Some(before@),
                None => None,
            }),
            record@,
        ),
{
    let mut next = record.clone();
    match stored {
        Some(before) => {
            next.created_at_unix_millis = before.created_at_unix_millis;
        },
        None => {},
    }
    next
}

/// What is stored of a session once it is recorded: a session that is stored already stays as it
/// is.
pub open spec fn kept_or(
    stored: Option<SessionRecordView>,
    record: SessionRecordView,
) -> SessionRecordView {
    match stored {
        Some(before) => before,
        None => record,
    }
}

pub fn keep_or(stored: Option<SessionRecord>, record: &SessionRecord) -> (r: SessionRecord)
    ensures
        r@ == kept_or(opt_record(stored), record@),
{
    match stored {
        Some(before) => before,
        None => upsert(None, record),
    }
}

/// A stored session in another state.
pub open spec fn in_state(
    stored: Option<SessionRecordView>,
    key: SessionKeyView,
    state: StoredSessionState,
    compute_started_at_unix_millis: Option<i64>,
    last_activity_at_unix_millis: i64,
    last_error: Option<Seq<char>>,
    last_stop_token: Option<Seq<char>>,
) -> Result<SessionRecordView, SessionStoreErrorView> {
    match stored {
        None => Err(SessionStoreErrorView::MissingSession(key.runtime_session_id)),
        Some(before) => Ok(
            SessionRecordView {
                state,
                compute_started_at_unix_millis,
                last_activity_at_unix_millis,
                last_error,
                last_stop_token,
                ..before
            },
        ),
    }
}

pub open spec fn opt_record(stored: Option<SessionRecord>) -> Option<SessionRecordView> {
    match stored {
        Some(record) => Some(record@),
        None => None,
    }
}

pub fn update_state(
    stored: Option<SessionRecord>,
    key: &SessionKey,
    state: StoredSessionState,
    compute_started_at_unix_millis: Option<i64>,
    last_activity_at_unix_millis: i64,
    last_error: Option<String>,
    last_stop_token: Option<String>,
) -> (r: Result<SessionRecord, SessionStoreError>)
    ensures
        agrees(
            r,
            in_state(
                opt_record(stored),
                key@,
                state,
                compute_started_at_unix_millis,
                last_activity_at_unix_millis,
                opt_text(last_error),
                opt_text(last_stop_token),
            ),
        ),
{
    match stored {
        None => Err(SessionStoreError::MissingSession(key.runtime_session_id.clone())),
        Some(before) => {
            let mut next = before;
            next.state = state;
            next.compute_started_at_unix_millis = compute_started_at_unix_millis;
            next.last_activity_at_unix_millis = last_activity_at_unix_millis;
            next.last_error = last_error;
            next.last_stop_token = last_stop_token;
            Ok(next)
        },
    }
}

/// The session has a container since a time.
pub open spec fn marked_ready(
    stored: Option<SessionRecordView>,
    key: SessionKeyView,
    compute_started_at_unix_millis: i64,
    last_activity_at_unix_millis: i64,
) -> Result<SessionRecordView, SessionStoreErrorView> {
    in_state(
        stored,
        key,
        StoredSessionState::Ready,
        Some(compute_started_at_unix_millis),
        last_activity_at_unix_millis,
        None,
        None,
    )
}

pub fn mark_ready(
    stored: Option<SessionRecord>,
    key: &SessionKey,
    compute_started_at_unix_millis: i64,
    last_activity_at_unix_millis: i64,
) -> (r: Result<SessionRecord, SessionStoreError>)
    ensures
        agrees(
            r,
            marked_ready(
                opt_record(stored),
                key@,
                compute_started_at_unix_millis,
                last_activity_at_unix_millis,
            ),
        ),
{
    update_state(
        stored,
        key,
        StoredSessionState::Ready,
        Some(compute_started_at_unix_millis),
        last_activity_at_unix_millis,
        None,
        None,
    )
}

/// The session has no container any more.
pub open spec fn marked_stopped(
    stored: Option<SessionRecordView>,
    key: SessionKeyView,
    last_activity_at_unix_millis: i64,
    last_error: Option<Seq<char>>,
    last_stop_token: Option<Seq<char>>,
) -> Result<SessionRecordView, SessionStoreErrorView> {
    in_state(
        stored,
        key,
        StoredSessionState::Stopped,
        None,
        last_activity_at_unix_millis,
        last_error,
        last_stop_token,
    )
}

pub fn mark_stopped(
    stored: Option<SessionRecord>,
    key: &SessionKey,
    last_activity_at_unix_millis: i64,
    last_error: Option<String>,
    last_stop_token: Option<String>,
) -> (r: Result<SessionRecord, SessionStoreError>)
    ensures
        agrees(
            r,
            marked_stopped(
                opt_record(stored),
                key@,
                last_activity_at_unix_millis,
                opt_text(last_error),
                opt_text(last_stop_token),
            ),
        ),
{
    update_state(
        stored,
        key,
        StoredSessionState::Stopped,
        None,
        last_activity_at_unix_millis,
        last_error,
        last_stop_token,
    )
}

/// The session was used.
pub open spec fn touched(
    stored: Option<SessionRecordView>,
    key: SessionKeyView,
    last_activity_at_unix_millis: i64,
) -> Result<SessionRecordView, SessionStoreErrorView> {
    match stored {
        None => Err(SessionStoreErrorView::MissingSession(key.runtime_session_id)),
        Some(before) => Ok(SessionRecordView { last_activity_at_unix_millis, ..before }),
    }
}

pub fn touch(
    stored: Option<SessionRecord>,
    key: &SessionKey,
    last_activity_at_unix_millis: i64,
) -> (r: Result<SessionRecord, SessionStoreError>)
    ensures
        agrees(r, touched(opt_record(stored), key@, last_activity_at_unix_millis)),
{
    match stored {
        None => Err(SessionStoreError::MissingSession(key.runtime_session_id.clone())),
        Some(before) => {
            let mut next = before;
            next.last_activity_at_unix_millis = last_activity_at_unix_millis;
            Ok(next)
        },
    }
}

// The database.

/// Where the database is, where that is known.
pub open spec fn located(path: Option<Seq<char>>) -> Result<Seq<char>, SessionStoreErrorView> {
    match path {
        Some(path) => Ok(path),
        None => Err(
            SessionStoreErrorView::InvalidPath("set FLINT_STATE_PATH, XDG_STATE_HOME or HOME"@),
        ),
    }
}

pub fn locate(path: Option<String>) -> (r: Result<String, SessionStoreError>)
    ensures
        agrees(r, located(opt_text(path))),
{
    match path {
        Some(path) => Ok(path),
        None => Err(
            SessionStoreError::InvalidPath(
                "set FLINT_STATE_PATH, XDG_STATE_HOME or HOME".to_owned(),
            ),
        ),
    }
}

/// What is to be done with a database of some version.
#[derive(Clone, Copy, Debug, PartialEq, Eq, Structural)]
pub enum SchemaStep {
    /// The table is to be made.
    Create,
    /// The table is there.
    Keep,
}

impl View for SchemaStep {
    type V = SchemaStep;

    open spec fn view(&self) -> SchemaStep {
        *self
    }
}

pub open spec fn schema_step(version: i64) -> Result<SchemaStep, SessionStoreErrorView> {
    if version == 0 {
        Ok(SchemaStep::Create)
    } else if version == SCHEMA_VERSION {
        Ok(SchemaStep::Keep)
    } else {
        Err(SessionStoreErrorView::UnsupportedSchema(version))
    }
}

pub fn migrate(version: i64) -> (r: Result<SchemaStep, SessionStoreError>)
    ensures
        agrees(r, schema_step(version)),
{
    if version == 0 {
        Ok(SchemaStep::Create)
    } else if version == SCHEMA_VERSION {
        Ok(SchemaStep::Keep)
    } else {
        Err(SessionStoreError::UnsupportedSchema(version))
    }
}

// New sessions.

/// The record of a session that is about to start for the first time.
pub open spec fn new_record(
    runtime: ResolvedRuntimeView,
    runtime_session_id: Seq<char>,
    volume_name: Seq<char>,
    now_unix_millis: i64,
) -> SessionRecordView {
    SessionRecordView {
        key: key_of(runtime, runtime_session_id),
        catalog_generation: runtime.catalog_generation,
        image: runtime.image,
        image_id: runtime.image_id,
        volume_name,
        created_at_unix_millis: now_unix_millis,
        last_activity_at_unix_millis: now_unix_millis,
        compute_started_at_unix_millis: None,
        state: StoredSessionState::Stopped,
        last_error: None,
        last_stop_token: None,
    }
}

pub fn record_session(
    runtime: &ResolvedRuntime,
    runtime_session_id: String,
    volume_name: String,
    now_unix_millis: i64,
) -> (r: SessionRecord)
    ensures
        r@ == new_record(runtime@, runtime_session_id@, volume_name@, now_unix_millis),
{
    SessionRecord {
        key: SessionKey::new(runtime, runtime_session_id),
        catalog_generation: runtime.catalog_generation.clone(),
        image: runtime.image.clone(),
        image_id: runtime.image_id.clone(),
        volume_name,
        created_at_unix_millis: now_unix_millis,
        last_activity_at_unix_millis: now_unix_millis,
        compute_started_at_unix_millis: None,
        state: StoredSessionState::Stopped,
        last_error: None,
        last_stop_token: None,
    }
}

// Laws.

/// What is written is what is read back.
pub proof fn law_records_survive_storage(record: SessionRecordView)
    ensures
        record_of_row(row_of_record(record)) == Ok::<SessionRecordView, SessionStoreErrorView>(
            record,
        ),
{
    reveal_strlit("ready");
    reveal_strlit("stopped");
    assert("ready"@.len() != "stopped"@.len());
    assert(record_of_row(row_of_record(record))->Ok_0 =~= record);
}

/// A name of a state that is read is the name that is written.
pub proof fn law_state_names_round_trip(name: Seq<char>)
    requires
        state_of(name) is Ok,
    ensures
        state_name(state_of(name)->Ok_0) == name,
{
}

/// The parts of a record that say which deployment the session belongs to, and where its data is.
pub open spec fn same_pin(a: SessionRecordView, b: SessionRecordView) -> bool {
    &&& a.key == b.key
    &&& a.catalog_generation == b.catalog_generation
    &&& a.image == b.image
    &&& a.image_id == b.image_id
    &&& a.volume_name == b.volume_name
    &&& a.created_at_unix_millis == b.created_at_unix_millis
}

/// Neither starting nor stopping nor using a session changes its pin or its volume.
pub proof fn law_pins_survive_transitions(
    stored: SessionRecordView,
    key: SessionKeyView,
    started: i64,
    activity: i64,
    error: Option<Seq<char>>,
    token: Option<Seq<char>>,
)
    ensures
        marked_ready(Some(stored), key, started, activity) matches Ok(r) && same_pin(stored, r),
        marked_stopped(Some(stored), key, activity, error, token) matches Ok(r) && same_pin(
            stored,
            r,
        ),
        touched(Some(stored), key, activity) matches Ok(r) && same_pin(stored, r),
{
}

/// A session that was never stored is not invented by a transition.
pub proof fn law_missing_sessions_stay_missing(
    key: SessionKeyView,
    started: i64,
    activity: i64,
    error: Option<Seq<char>>,
    token: Option<Seq<char>>,
)
    ensures
        marked_ready(None, key, started, activity) == Err::<
            SessionRecordView,
            SessionStoreErrorView,
        >(SessionStoreErrorView::MissingSession(key.runtime_session_id)),
        marked_stopped(None, key, activity, error, token) == Err::<
            SessionRecordView,
            SessionStoreErrorView,
        >(SessionStoreErrorView::MissingSession(key.runtime_session_id)),
        touched(None, key, activity) == Err::<SessionRecordView, SessionStoreErrorView>(
            SessionStoreErrorView::MissingSession(key.runtime_session_id),
        ),
{
}

/// Nothing of a runtime's environment, credentials or policies is stored: runtimes that differ only
/// there have the same record.
pub proof fn law_records_hold_no_secrets(
    a: ResolvedRuntimeView,
    b: ResolvedRuntimeView,
    runtime_session_id: Seq<char>,
    volume_name: Seq<char>,
    now_unix_millis: i64,
)
    requires
        a.runtime_arn == b.runtime_arn,
        a.qualifier == b.qualifier,
        a.catalog_generation == b.catalog_generation,
        a.image == b.image,
        a.image_id == b.image_id,
    ensures
        new_record(a, runtime_session_id, volume_name, now_unix_millis) == new_record(
            b,
            runtime_session_id,
            volume_name,
            now_unix_millis,
        ),
{
}

/// A database of a newer version is left alone.
pub proof fn law_newer_schemas_are_refused(version: i64)
    requires
        version > SCHEMA_VERSION,
    ensures
        schema_step(version) == Err::<SchemaStep, SessionStoreErrorView>(
            SessionStoreErrorView::UnsupportedSchema(version),
        ),
{
}

} // verus!
