//! The plan-execution connector's verified logic: request validation, the
//! dialect-specific EXPLAIN statement ladder, session commands, the
//! transport decision, and result normalization.

use vstd::prelude::*;
use vstd::string::StringExecFns;
use crate::json::pretty_of;
use crate::text::{
    clip, dec_str, first_line, first_line_of, strip_cr, take_chars, trim, trim_spec, u64_to_string,
};

verus! {

/// Which SQL-plan syntax and session-setting conventions the server
/// family expects.
#[derive(Clone, Copy, PartialEq, Eq, Structural, Debug)]
pub enum PlanDialect {
    /// Huawei-style distributed warehouse.
    Dws,
    /// openGauss-like variant.
    Opengauss,
    /// Plain Postgres.
    Postgres,
}

/// Whether the connection is made over TLS.
#[derive(Clone, Copy, PartialEq, Eq, Structural, Debug)]
pub enum SslMode {
    Disable,
    Require,
}

impl Default for SslMode {
    fn default() -> (r: Self)
        ensures
            r == SslMode::Disable,
    {
        SslMode::Disable
    }
}

/// The server-side plan-verbosity directive of the distributed dialects.
#[derive(Clone, Copy, PartialEq, Eq, Structural, Debug)]
pub enum PerfMode {
    Normal,
    Fast,
    Slow,
}

impl Default for PerfMode {
    fn default() -> (r: Self)
        ensures
            r == PerfMode::Normal,
    {
        PerfMode::Normal
    }
}

impl PerfMode {
    /// The value the session directive sets.
    pub open spec fn to_value_spec(&self) -> Seq<char> {
        match self {
            PerfMode::Normal => "normal"@,
            PerfMode::Fast => "fast"@,
            PerfMode::Slow => "slow"@,
        }
    }

    /// The textual value of this mode in the session directive.
    pub fn to_value(&self) -> (r: &'static str)
        ensures
            r@ == self.to_value_spec(),
    {
        match self {
            PerfMode::Normal => "normal",
            PerfMode::Fast => "fast",
            PerfMode::Slow => "slow",
        }
    }
}

/// Which EXPLAIN variant the caller asked for.
#[derive(Clone, Copy, PartialEq, Eq, Structural, Debug)]
pub enum ExplainMode {
    Normal,
    Analyze,
    Performance,
}

impl Default for ExplainMode {
    fn default() -> (r: Self)
        ensures
            r == ExplainMode::Normal,
    {
        ExplainMode::Normal
    }
}

/// The shape the plan rows come in.
#[derive(Clone, Copy, PartialEq, Eq, Structural, Debug)]
pub enum PlanFormat {
    Text,
    Json,
}

/// Options of one EXPLAIN request.
#[derive(Clone, Debug)]
pub struct ExplainOptions {
    pub statement_timeout_ms: Option<u64>,
    pub perf_mode: PerfMode,
    pub mode: ExplainMode,
}

impl Default for ExplainOptions {
    fn default() -> (r: Self)
        ensures
            r.statement_timeout_ms is None,
            r.perf_mode == PerfMode::Normal,
            r.mode == ExplainMode::Normal,
    {
        ExplainOptions { statement_timeout_ms: None, perf_mode: PerfMode::Normal, mode: ExplainMode::Normal }
    }
}

/// Where and how to connect.
#[derive(Clone, Debug)]
pub struct ConnectionConfig {
    pub host: String,
    pub port: u16,
    pub database: String,
    pub user: String,
    pub password: String,
    pub ssl_mode: SslMode,
    pub application_name: Option<String>,
    pub allow_invalid_certs: bool,
    pub ca_certificate_pem: Option<String>,
}

/// One EXPLAIN request.
#[derive(Clone, Debug)]
pub struct ExplainRequest {
    pub dialect: PlanDialect,
    pub sql: String,
    pub title: Option<String>,
    pub connection: ConnectionConfig,
    pub options: ExplainOptions,
}

/// The normalized result of one EXPLAIN request.
#[derive(Clone, Debug)]
pub struct ExplainResponse {
    pub plan_text: String,
    pub dialect: PlanDialect,
    pub title: String,
    pub captured_at: String,
    pub format: PlanFormat,
}

/// What the connector's verified logic can reject.
#[derive(Clone, Copy, PartialEq, Eq, Structural, Debug)]
pub enum DbError {
    /// The SQL is empty once trimmed and stripped of a trailing terminator.
    EmptySql,
    /// The connection names no host.
    EmptyHost,
    /// The query succeeded but returned no plan output.
    NoPlanOutput,
    /// The JSON plan value could not be rendered.
    RenderFailed,
}

impl DbError {
    /// The human-readable rendering of this error.
    pub open spec fn message_spec(&self) -> Seq<char> {
        match self {
            DbError::EmptySql => "SQL is empty"@,
            DbError::EmptyHost => "Connection host is empty"@,
            DbError::NoPlanOutput => "No plan output returned"@,
            DbError::RenderFailed => "Failed to render JSON plan"@,
        }
    }

    /// A human-readable message for the error.
    pub fn message(&self) -> (r: String)
        ensures
            r@ == self.message_spec(),
    {
        match self {
            DbError::EmptySql => "SQL is empty".to_owned(),
            DbError::EmptyHost => "Connection host is empty".to_owned(),
            DbError::NoPlanOutput => "No plan output returned".to_owned(),
            DbError::RenderFailed => "Failed to render JSON plan".to_owned(),
        }
    }
}

/// The SQL after trimming and stripping one trailing statement terminator.
pub open spec fn canonical_sql(s: Seq<char>) -> Seq<char> {
    let t = trim_spec(s);
    if t.len() > 0 && t.last() == ';' {
        t.drop_last()
    } else {
        t
    }
}

/// Validates the request's SQL before any I/O: trims it, strips a single
/// trailing `;`, and rejects an empty remainder.
pub fn prepare_sql(sql: &str) -> (r: Result<String, DbError>)
    ensures
        r matches Ok(t) ==> t@ == canonical_sql(sql@) && t@.len() > 0,
        r matches Err(e) ==> e == DbError::EmptySql && canonical_sql(sql@).len() == 0,
        canonical_sql(sql@).len() == 0 ==> r is Err,
{
    let t = trim(sql);
    let n = t.as_str().unicode_len();
    let stripped = if n > 0 && t.as_str().get_char(n - 1) == ';' {
        proof {
            assert(t@.drop_last() =~= t@.subrange(0, n - 1));
        }
        t.as_str().substring_char(0, n - 1).to_owned()
    } else {
        t
    };
    if stripped.as_str().unicode_len() == 0 {
        Err(DbError::EmptySql)
    } else {
        Ok(stripped)
    }
}

/// The derived title: the first line of the trimmed SQL, clipped to 80
/// characters.
pub open spec fn summary_spec(s: Seq<char>) -> Seq<char> {
    clip(strip_cr(first_line_of(trim_spec(s))), 80)
}

/// Derives a title from the SQL when the caller supplied none.
pub fn summarize_sql(sql: &str) -> (r: String)
    ensures
        r@ == summary_spec(sql@),
{
    let t = trim(sql);
    let line = first_line(t.as_str());
    take_chars(line.as_str(), 80)
}

/// The EXPLAIN statement that asks for a JSON-format plan.
pub open spec fn json_statement(mode: ExplainMode, sql: Seq<char>) -> Seq<char> {
    match mode {
        ExplainMode::Normal => "EXPLAIN (FORMAT JSON) "@ + sql,
        ExplainMode::Analyze => "EXPLAIN (ANALYZE, FORMAT JSON) "@ + sql,
        ExplainMode::Performance => "EXPLAIN (ANALYZE, BUFFERS, FORMAT JSON) "@ + sql,
    }
}

/// The plain-text EXPLAIN statement of a dialect and mode.
pub open spec fn text_statement(dialect: PlanDialect, mode: ExplainMode, sql: Seq<char>) -> Seq<
    char,
> {
    match dialect {
        PlanDialect::Postgres => match mode {
            ExplainMode::Normal => "EXPLAIN "@ + sql,
            ExplainMode::Analyze => "EXPLAIN ANALYZE "@ + sql,
            ExplainMode::Performance => "EXPLAIN ANALYZE "@ + sql,
        },
        _ => match mode {
            ExplainMode::Normal => "EXPLAIN "@ + sql,
            ExplainMode::Analyze => "EXPLAIN ANALYZE "@ + sql,
            ExplainMode::Performance => "EXPLAIN PERFORMANCE "@ + sql,
        },
    }
}

/// Builds the fallback ladder: the statements to try in order, each with
/// the format its rows come in. Plain Postgres first tries the JSON form
/// and falls back to text; the distributed dialects have one text form.
pub fn build_queries(dialect: &PlanDialect, mode: &ExplainMode, sql: &str) -> (r: Vec<
    (String, PlanFormat),
>)
    ensures
        dialect is Postgres ==> r@.len() == 2 && r@[0].0@ == json_statement(*mode, sql@)
            && r@[0].1 == PlanFormat::Json && r@[1].0@ == text_statement(*dialect, *mode, sql@)
            && r@[1].1 == PlanFormat::Text,
        !(dialect is Postgres) ==> r@.len() == 1 && r@[0].0@ == text_statement(
            *dialect, *mode, sql@) && r@[0].1 == PlanFormat::Text,
{
    let mut out: Vec<(String, PlanFormat)> = Vec::new();
    match dialect {
        PlanDialect::Postgres => {
            let primary = match mode {
                ExplainMode::Normal => "EXPLAIN (FORMAT JSON) ".to_owned(),
                ExplainMode::Analyze => "EXPLAIN (ANALYZE, FORMAT JSON) ".to_owned(),
                ExplainMode::Performance => "EXPLAIN (ANALYZE, BUFFERS, FORMAT JSON) ".to_owned(),
            };
            let fallback = match mode {
                ExplainMode::Normal => "EXPLAIN ".to_owned(),
                ExplainMode::Analyze => "EXPLAIN ANALYZE ".to_owned(),
                ExplainMode::Performance => "EXPLAIN ANALYZE ".to_owned(),
            };
            out.push((primary.concat(sql), PlanFormat::Json));
            out.push((fallback.concat(sql), PlanFormat::Text));
        },
        _ => {
            let only = match mode {
                ExplainMode::Normal => "EXPLAIN ".to_owned(),
                ExplainMode::Analyze => "EXPLAIN ANALYZE ".to_owned(),
                ExplainMode::Performance => "EXPLAIN PERFORMANCE ".to_owned(),
            };
            out.push((only.concat(sql), PlanFormat::Text));
        },
    }
    out
}

/// The session command that sets the statement timeout.
pub open spec fn timeout_command(ms: u64) -> Seq<char> {
    "SET statement_timeout TO '"@ + dec_str(ms as nat) + "ms'"@
}

/// The session command that sets plan verbosity for the distributed
/// dialects.
pub open spec fn perf_mode_command(m: PerfMode) -> Seq<char> {
    "SET explain_perf_mode TO "@ + m.to_value_spec()
}

/// The session commands of a request, in execution order: the statement
/// timeout when one was asked for, then the performance-mode directive for
/// the two distributed dialects only.
pub open spec fn session_commands_spec(dialect: PlanDialect, options: ExplainOptions) -> Seq<
    Seq<char>,
> {
    let base = match options.statement_timeout_ms {
        Some(ms) => seq![timeout_command(ms)],
        None => Seq::<Seq<char>>::empty(),
    };
    match dialect {
        PlanDialect::Postgres => base,
        _ => base.push(perf_mode_command(options.perf_mode)),
    }
}

/// Builds the session commands run before the plan query.
pub fn session_commands(dialect: &PlanDialect, options: &ExplainOptions) -> (r: Vec<String>)
    ensures
        r@.len() == session_commands_spec(*dialect, *options).len(),
        forall|i: int| 0 <= i < r@.len()
            ==> #[trigger] r@[i]@ == session_commands_spec(*dialect, *options)[i],
{
    let mut out: Vec<String> = Vec::new();
    match options.statement_timeout_ms {
        Some(ms) => {
            let cmd = "SET statement_timeout TO '".to_owned().concat(
                u64_to_string(ms).as_str()).concat("ms'");
            out.push(cmd);
        },
        None => {},
    }
    match dialect {
        PlanDialect::Postgres => {},
        _ => {
            let cmd = "SET explain_perf_mode TO ".to_owned().concat(options.perf_mode.to_value());
            out.push(cmd);
        },
    }
    out
}

/// The fixed connect timeout, in seconds.
pub const CONNECT_TIMEOUT_SECS: u64 = 10;

/// The application name sent on connect: the configured one, or the
/// default when none was set.
pub open spec fn app_name_spec(c: ConnectionConfig) -> Seq<char> {
    match c.application_name {
        Some(s) => s@,
        None => "PlanVisualizer"@,
    }
}

/// The application name to send on connect.
pub fn application_name(c: &ConnectionConfig) -> (r: String)
    ensures
        r@ == app_name_spec(*c),
{
    match &c.application_name {
        Some(s) => s.clone(),
        None => "PlanVisualizer".to_owned(),
    }
}

/// How the connection is to be secured.
#[derive(Clone, Debug)]
pub enum TlsDecision {
    /// Plain TCP, no TLS context at all.
    Plaintext,
    /// TLS with these settings.
    Tls { accept_invalid_certs: bool, ca_certificate_pem: Option<String> },
}

/// Decides the transport: sslMode = disable never builds a TLS context,
/// even when a CA certificate is supplied; sslMode = require carries the
/// certificate settings through unchanged.
pub fn tls_plan(connection: &ConnectionConfig) -> (r: TlsDecision)
    ensures
        connection.ssl_mode is Disable ==> r is Plaintext,
        connection.ssl_mode is Require ==> r == (TlsDecision::Tls {
            accept_invalid_certs: connection.allow_invalid_certs,
            ca_certificate_pem: connection.ca_certificate_pem,
        }),
{
    match connection.ssl_mode {
        SslMode::Disable => TlsDecision::Plaintext,
        SslMode::Require => {
            let ca = match &connection.ca_certificate_pem {
                Some(pem) => Some(pem.clone()),
                None => None,
            };
            TlsDecision::Tls {
                accept_invalid_certs: connection.allow_invalid_certs,
                ca_certificate_pem: ca,
            }
        },
    }
}

/// Relies on `chrono::Utc::now` and `DateTime::to_rfc3339`: the current
/// time as an ISO-8601 timestamp; the result depends on the clock.
#[verifier::external_body]
pub fn now_rfc3339() -> (r: String) {
    chrono::Utc::now().to_rfc3339()
}

/// Pretty-prints the single JSON plan value a JSON-format row returned.
/// Rendering a `Value` cannot fail, so success is owed.
pub fn render_json_plan(v: &serde_json::Value) -> (r: Result<String, DbError>)
    ensures
        r matches Ok(s) && s@ == pretty_of(*v),
{
    match crate::json::to_string_pretty(v) {
        Some(s) => Ok(s),
        None => Err(DbError::RenderFailed),
    }
}

/// What the connector does with the ladder after attempt `idx` came back.
#[derive(Clone, Copy, PartialEq, Eq, Structural, Debug)]
pub enum LadderStep {
    /// Accept this attempt's output, with this candidate's own format.
    Accept,
    /// Try candidate `idx + 1`.
    TryNext,
    /// No candidate is left: surface the last error.
    GiveUp,
}

/// One rung of the fallback ladder: the first attempt that succeeds is
/// accepted with its candidate's format; a failed attempt moves on to the
/// next candidate while one remains, and only exhausting the ladder
/// surfaces the error. With the plain-Postgres ladder of `build_queries`
/// this says: when the JSON primary fails, the textual fallback is
/// attempted, and its success is accepted with format text.
pub fn ladder_step(total: usize, idx: usize, attempt_ok: bool) -> (r: LadderStep)
    requires
        idx < total,
    ensures
        attempt_ok ==> r == LadderStep::Accept,
        !attempt_ok && idx + 1 < total ==> r == LadderStep::TryNext,
        !attempt_ok && idx + 1 >= total ==> r == LadderStep::GiveUp,
{
    if attempt_ok {
        LadderStep::Accept
    } else if idx + 1 < total {
        LadderStep::TryNext
    } else {
        LadderStep::GiveUp
    }
}

/// The cells of one row that are present, in order.
pub open spec fn present_cells(cells: Seq<Option<String>>) -> Seq<Seq<char>>
    decreases cells.len(),
{
    if cells.len() == 0 {
        Seq::<Seq<char>>::empty()
    } else {
        let rest = present_cells(cells.drop_first());
        match cells.first() {
            Some(s) => seq![s@] + rest,
            None => rest,
        }
    }
}

/// The pieces joined by `sep`.
pub open spec fn joined_with(xs: Seq<Seq<char>>, sep: char) -> Seq<char>
    decreases xs.len(),
{
    if xs.len() == 0 {
        Seq::<char>::empty()
    } else if xs.len() == 1 {
        xs.first()
    } else {
        xs.first() + seq![sep] + joined_with(xs.drop_first(), sep)
    }
}

/// One text line per returned row — the present cells tab-joined — each
/// line ended by a newline.
pub open spec fn messages_text(rows: Seq<Vec<Option<String>>>) -> Seq<char>
    decreases rows.len(),
{
    if rows.len() == 0 {
        Seq::<char>::empty()
    } else {
        joined_with(present_cells(rows.first()@), '\t') + seq!['\n'] + messages_text(
            rows.drop_first())
    }
}

proof fn lemma_present_cells_push(cs: Seq<Option<String>>, c: Option<String>)
    ensures
        present_cells(cs.push(c)) == present_cells(cs) + (match c {
            Some(s) => seq![s@],
            None => Seq::<Seq<char>>::empty(),
        }),
    decreases cs.len(),
{
    if cs.len() == 0 {
        assert(cs.push(c).first() == c);
        assert(cs.push(c).drop_first() =~= Seq::<Option<String>>::empty());
        match c {
            Some(s) => {
                assert(seq![s@] + present_cells(Seq::<Option<String>>::empty()) =~= present_cells(
                    cs) + seq![s@]);
            },
            None => {
                assert(present_cells(Seq::<Option<String>>::empty()) =~= present_cells(cs)
                    + Seq::<Seq<char>>::empty());
            },
        }
    } else {
        assert(cs.push(c).first() == cs.first());
        assert(cs.push(c).drop_first() =~= cs.drop_first().push(c));
        lemma_present_cells_push(cs.drop_first(), c);
        let tail = match c {
            Some(s) => seq![s@],
            None => Seq::<Seq<char>>::empty(),
        };
        match cs.first() {
            Some(s) => {
                assert(seq![s@] + (present_cells(cs.drop_first()) + tail) =~= (seq![s@]
                    + present_cells(cs.drop_first())) + tail);
            },
            None => {},
        }
    }
}

proof fn lemma_joined_with_push(xs: Seq<Seq<char>>, x: Seq<char>, sep: char)
    ensures
        joined_with(xs.push(x), sep) == if xs.len() == 0 {
            x
        } else {
            joined_with(xs, sep) + seq![sep] + x
        },
    decreases xs.len(),
{
    if xs.len() == 0 {
        assert(xs.push(x).len() == 1);
        assert(xs.push(x).first() == x);
        assert(joined_with(xs.push(x), sep) == x);
    } else if xs.len() == 1 {
        assert(xs.push(x).first() == xs.first());
        assert(xs.push(x).drop_first() =~= seq![x]);
        assert(joined_with(seq![x], sep) == x);
        assert(joined_with(xs.push(x), sep) == xs.first() + seq![sep] + x);
        assert(joined_with(xs, sep) == xs.first());
    } else {
        assert(xs.push(x).first() == xs.first());
        assert(xs.push(x).drop_first() =~= xs.drop_first().push(x));
        lemma_joined_with_push(xs.drop_first(), x, sep);
        assert(xs.first() + seq![sep] + (joined_with(xs.drop_first(), sep) + seq![sep] + x) =~= (
        xs.first() + seq![sep] + joined_with(xs.drop_first(), sep)) + seq![sep] + x);
    }
}

proof fn lemma_messages_text_push(rows: Seq<Vec<Option<String>>>, row: Vec<Option<String>>)
    ensures
        messages_text(rows.push(row)) == messages_text(rows) + joined_with(
            present_cells(row@), '\t') + seq!['\n'],
    decreases rows.len(),
{
    if rows.len() == 0 {
        assert(rows.push(row).first() == row);
        assert(rows.push(row).drop_first() =~= Seq::<Vec<Option<String>>>::empty());
        assert(joined_with(present_cells(row@), '\t') + seq!['\n'] + messages_text(
            Seq::<Vec<Option<String>>>::empty()) =~= messages_text(rows) + joined_with(
            present_cells(row@), '\t') + seq!['\n']);
    } else {
        assert(rows.push(row).first() == rows.first());
        assert(rows.push(row).drop_first() =~= rows.drop_first().push(row));
        lemma_messages_text_push(rows.drop_first(), row);
        assert(joined_with(present_cells(rows.first()@), '\t') + seq!['\n'] + (messages_text(
            rows.drop_first()) + joined_with(present_cells(row@), '\t') + seq!['\n']) =~= (
        joined_with(present_cells(rows.first()@), '\t') + seq!['\n'] + messages_text(
            rows.drop_first())) + joined_with(present_cells(row@), '\t') + seq!['\n']);
    }
}

/// Tab-joins the present cells of one row.
fn row_line(cells: &Vec<Option<String>>) -> (r: String)
    ensures
        r@ == joined_with(present_cells(cells@), '\t'),
{
    let mut out = String::new();
    let mut first: bool = true;
    let n = cells.len();
    let mut i: usize = 0;
    while i < n
        invariant
            i <= n,
            n == cells@.len(),
            out@ == joined_with(present_cells(cells@.take(i as int)), '\t'),
            first == (present_cells(cells@.take(i as int)).len() == 0),
        decreases n - i,
    {
        proof {
            reveal_strlit("\t");
            assert(cells@.take(i + 1) =~= cells@.take(i as int).push(cells@[i as int]));
            lemma_present_cells_push(cells@.take(i as int), cells@[i as int]);
        }
        match &cells[i] {
            Some(s) => {
                proof {
                    let p = present_cells(cells@.take(i as int));
                    assert(p + seq![s@] =~= p.push(s@));
                    lemma_joined_with_push(p, s@, '\t');
                    assert("\t"@ =~= seq!['\t']);
                }
                if first {
                    out.append(s.as_str());
                    proof {
                        assert(Seq::<char>::empty() + s@ =~= s@);
                    }
                } else {
                    out.append("\t");
                    out.append(s.as_str());
                }
                first = false;
            },
            None => {},
        }
        i = i + 1;
    }
    proof {
        assert(cells@.take(n as int) =~= cells@);
    }
    out
}

/// Normalizes text-format rows: one line per row, present cells tab-joined
/// within a line, every line ended by a newline.
pub fn collect_messages(rows: &Vec<Vec<Option<String>>>) -> (r: String)
    ensures
        r@ == messages_text(rows@),
{
    let mut out = String::new();
    let n = rows.len();
    let mut i: usize = 0;
    while i < n
        invariant
            i <= n,
            n == rows@.len(),
            out@ == messages_text(rows@.take(i as int)),
        decreases n - i,
    {
        let line = row_line(&rows[i]);
        out.append(line.as_str());
        out.append("\n");
        proof {
            reveal_strlit("\n");
            assert(rows@.take(i + 1) =~= rows@.take(i as int).push(rows@[i as int]));
            lemma_messages_text_push(rows@.take(i as int), rows@[i as int]);
            assert("\n"@ =~= seq!['\n']);
        }
        i = i + 1;
    }
    proof {
        assert(rows@.take(n as int) =~= rows@);
    }
    out
}

/// Assembles the response: derives the title when none was supplied and,
/// when output is required, rejects an all-whitespace plan.
pub fn make_response(
    plan_text: String,
    format: PlanFormat,
    dialect: PlanDialect,
    title: Option<String>,
    sql: &str,
    captured_at: String,
    require_output: bool,
) -> (r: Result<ExplainResponse, DbError>)
    ensures
        r matches Err(e) ==> e == DbError::NoPlanOutput && require_output
            && trim_spec(plan_text@).len() == 0,
        (require_output && trim_spec(plan_text@).len() == 0) ==> r is Err,
        r matches Ok(resp) ==> resp.plan_text == plan_text && resp.format == format
            && resp.dialect == dialect && resp.captured_at == captured_at && resp.title@ == (
        match title {
            Some(t) => t@,
            None => summary_spec(sql@),
        }),
{
    if require_output {
        let t = trim(plan_text.as_str());
        if t.as_str().unicode_len() == 0 {
            return Err(DbError::NoPlanOutput);
        }
    }
    let final_title = match title {
        Some(t) => t,
        None => summarize_sql(sql),
    };
    Ok(ExplainResponse { plan_text, dialect, title: final_title, captured_at, format })
}

/// Everything the connector decides before touching the network.
#[derive(Clone, Debug)]
pub struct ExplainPlan {
    /// The validated SQL, trimmed and stripped of one trailing `;`.
    pub sql: String,
    /// Session commands to run, in order, before the plan query.
    pub session_commands: Vec<String>,
    /// Whether to connect over TLS, and with which settings.
    pub transport: TlsDecision,
    /// The statement ladder: each candidate with its row format.
    pub queries: Vec<(String, PlanFormat)>,
}

/// The whole pre-I/O phase of one request: validates the SQL and the
/// connection, and builds the session commands, the transport decision and
/// the statement ladder.
pub fn prepare_request(req: &ExplainRequest) -> (r: Result<ExplainPlan, DbError>)
    ensures
        r matches Err(e) ==> (e == DbError::EmptySql && canonical_sql(req.sql@).len() == 0) || (
        e == DbError::EmptyHost && req.connection.host@.len() == 0),
        canonical_sql(req.sql@).len() == 0 ==> (r matches Err(e) && e == DbError::EmptySql),
        (canonical_sql(req.sql@).len() > 0 && req.connection.host@.len() == 0) ==> (
        r matches Err(e) && e == DbError::EmptyHost),
        r matches Ok(plan) ==> {
            &&& plan.sql@ == canonical_sql(req.sql@)
            &&& plan.sql@.len() > 0
            &&& plan.session_commands@.len() == session_commands_spec(
                req.dialect, req.options).len()
            &&& forall|i: int| 0 <= i < plan.session_commands@.len()
                ==> #[trigger] plan.session_commands@[i]@ == session_commands_spec(
                    req.dialect, req.options)[i]
            &&& (req.connection.ssl_mode is Disable ==> plan.transport is Plaintext)
            &&& (req.connection.ssl_mode is Require ==> plan.transport == (TlsDecision::Tls {
                accept_invalid_certs: req.connection.allow_invalid_certs,
                ca_certificate_pem: req.connection.ca_certificate_pem,
            }))
            &&& (req.dialect is Postgres ==> plan.queries@.len() == 2 && plan.queries@[0].0@
                == json_statement(req.options.mode, canonical_sql(req.sql@))
                && plan.queries@[0].1 == PlanFormat::Json && plan.queries@[1].0@
                == text_statement(req.dialect, req.options.mode, canonical_sql(req.sql@))
                && plan.queries@[1].1 == PlanFormat::Text)
            &&& (!(req.dialect is Postgres) ==> plan.queries@.len() == 1 && plan.queries@[0].0@
                == text_statement(req.dialect, req.options.mode, canonical_sql(req.sql@))
                && plan.queries@[0].1 == PlanFormat::Text)
        },
{
    let sql = match prepare_sql(req.sql.as_str()) {
        Ok(s) => s,
        Err(e) => {
            return Err(e);
        },
    };
    if req.connection.host.as_str().unicode_len() == 0 {
        return Err(DbError::EmptyHost);
    }
    let commands = session_commands(&req.dialect, &req.options);
    let transport = tls_plan(&req.connection);
    let queries = build_queries(&req.dialect, &req.options.mode, sql.as_str());
    Ok(ExplainPlan { sql, session_commands: commands, transport, queries })
}

} // verus!

