use plan_visualizer::db::{
    build_queries, collect_messages, ladder_step, make_response, prepare_request, prepare_sql,
    render_json_plan, session_commands, summarize_sql, tls_plan, ConnectionConfig, DbError,
    ExplainMode, ExplainOptions, ExplainRequest, LadderStep, PerfMode, PlanDialect, PlanFormat,
    SslMode, TlsDecision,
};

fn config(ssl_mode: SslMode, ca: Option<String>) -> ConnectionConfig {
    ConnectionConfig {
        host: "db.example".to_string(),
        port: 5432,
        database: "postgres".to_string(),
        user: "user".to_string(),
        password: "SECRET-REDACTED".to_string(),
        ssl_mode,
        application_name: None,
        allow_invalid_certs: false,
        ca_certificate_pem: ca,
    }
}

#[test]
fn prepare_sql_trims_and_strips_one_terminator() {
    assert_eq!(prepare_sql("  SELECT 1;  ").unwrap(), "SELECT 1");
    assert_eq!(prepare_sql("SELECT 1").unwrap(), "SELECT 1");
    assert_eq!(prepare_sql(";;").unwrap(), ";");
    assert_eq!(prepare_sql("   "), Err(DbError::EmptySql));
    assert_eq!(prepare_sql(" ; "), Err(DbError::EmptySql));
    assert_eq!(prepare_sql(""), Err(DbError::EmptySql));
}

#[test]
fn summarize_takes_first_line_clipped() {
    assert_eq!(summarize_sql("  SELECT *\nFROM t  "), "SELECT *");
    assert_eq!(summarize_sql("SELECT 1\r\nmore"), "SELECT 1");
    let long = "a".repeat(100);
    assert_eq!(summarize_sql(&long), "a".repeat(80));
    assert_eq!(summarize_sql("   "), "");
}

#[test]
fn postgres_normal_ladder_tries_json_then_text() {
    let queries = build_queries(&PlanDialect::Postgres, &ExplainMode::Normal, "SELECT 1");
    assert_eq!(queries.len(), 2);
    assert_eq!(queries[0].0, "EXPLAIN (FORMAT JSON) SELECT 1");
    assert_eq!(queries[0].1, PlanFormat::Json);
    assert_eq!(queries[1].0, "EXPLAIN SELECT 1");
    assert_eq!(queries[1].1, PlanFormat::Text);
}

#[test]
fn postgres_analyze_and_performance_ladders() {
    let queries = build_queries(&PlanDialect::Postgres, &ExplainMode::Analyze, "SELECT 1");
    assert_eq!(queries[0].0, "EXPLAIN (ANALYZE, FORMAT JSON) SELECT 1");
    assert_eq!(queries[1].0, "EXPLAIN ANALYZE SELECT 1");
    let queries = build_queries(&PlanDialect::Postgres, &ExplainMode::Performance, "SELECT 1");
    assert_eq!(queries[0].0, "EXPLAIN (ANALYZE, BUFFERS, FORMAT JSON) SELECT 1");
    assert_eq!(queries[0].1, PlanFormat::Json);
    assert_eq!(queries[1].0, "EXPLAIN ANALYZE SELECT 1");
}

#[test]
fn warehouse_dialects_have_one_text_statement() {
    let queries = build_queries(&PlanDialect::Dws, &ExplainMode::Performance, "SELECT 1");
    assert_eq!(queries.len(), 1);
    assert_eq!(queries[0].0, "EXPLAIN PERFORMANCE SELECT 1");
    assert_eq!(queries[0].1, PlanFormat::Text);
    let queries = build_queries(&PlanDialect::Opengauss, &ExplainMode::Analyze, "SELECT 1");
    assert_eq!(queries.len(), 1);
    assert_eq!(queries[0].0, "EXPLAIN ANALYZE SELECT 1");
    let queries = build_queries(&PlanDialect::Opengauss, &ExplainMode::Normal, "SELECT 1");
    assert_eq!(queries[0].0, "EXPLAIN SELECT 1");
}

#[test]
fn ladder_accepts_success_and_falls_back_on_failure() {
    assert_eq!(ladder_step(2, 0, true), LadderStep::Accept);
    assert_eq!(ladder_step(2, 0, false), LadderStep::TryNext);
    assert_eq!(ladder_step(2, 1, true), LadderStep::Accept);
    assert_eq!(ladder_step(2, 1, false), LadderStep::GiveUp);
    assert_eq!(ladder_step(1, 0, false), LadderStep::GiveUp);
}

#[test]
fn session_commands_follow_dialect_and_options() {
    let options = ExplainOptions {
        statement_timeout_ms: Some(5000),
        perf_mode: PerfMode::Fast,
        mode: ExplainMode::Normal,
    };
    let cmds = session_commands(&PlanDialect::Dws, &options);
    assert_eq!(
        cmds,
        vec![
            "SET statement_timeout TO '5000ms'".to_string(),
            "SET explain_perf_mode TO fast".to_string(),
        ]
    );
    let cmds = session_commands(&PlanDialect::Postgres, &options);
    assert_eq!(cmds, vec!["SET statement_timeout TO '5000ms'".to_string()]);
    let none = ExplainOptions::default();
    assert_eq!(session_commands(&PlanDialect::Postgres, &none).len(), 0);
    let cmds = session_commands(&PlanDialect::Opengauss, &none);
    assert_eq!(cmds, vec!["SET explain_perf_mode TO normal".to_string()]);
}

#[test]
fn decimal_rendering_is_exact() {
    assert_eq!(plan_visualizer::text::u64_to_string(0), "0");
    assert_eq!(plan_visualizer::text::u64_to_string(10), "10");
    assert_eq!(plan_visualizer::text::u64_to_string(5000), "5000");
    assert_eq!(
        plan_visualizer::text::u64_to_string(u64::MAX),
        "18446744073709551615"
    );
}

#[test]
fn perf_mode_values() {
    assert_eq!(PerfMode::Normal.to_value(), "normal");
    assert_eq!(PerfMode::Fast.to_value(), "fast");
    assert_eq!(PerfMode::Slow.to_value(), "slow");
    assert_eq!(PerfMode::default(), PerfMode::Normal);
    assert_eq!(SslMode::default(), SslMode::Disable);
}

#[test]
fn application_name_defaults() {
    let cfg = config(SslMode::Disable, None);
    assert_eq!(plan_visualizer::db::application_name(&cfg), "PlanVisualizer");
    let mut named = config(SslMode::Disable, None);
    named.application_name = Some("Custom".to_string());
    assert_eq!(plan_visualizer::db::application_name(&named), "Custom");
}

#[test]
fn ssl_disable_never_builds_tls_even_with_ca() {
    let cfg = config(SslMode::Disable, Some("-----BEGIN CERTIFICATE-----".to_string()));
    assert!(matches!(tls_plan(&cfg), TlsDecision::Plaintext));
}

#[test]
fn ssl_require_carries_certificate_settings() {
    let mut cfg = config(SslMode::Require, Some("pem".to_string()));
    cfg.allow_invalid_certs = true;
    match tls_plan(&cfg) {
        TlsDecision::Tls { accept_invalid_certs, ca_certificate_pem } => {
            assert!(accept_invalid_certs);
            assert_eq!(ca_certificate_pem, Some("pem".to_string()));
        }
        TlsDecision::Plaintext => panic!("expected a TLS decision"),
    }
}

#[test]
fn collect_messages_tab_joins_and_ends_lines() {
    let rows = vec![
        vec![Some("a".to_string()), None, Some("b".to_string())],
        vec![Some("c".to_string())],
        vec![],
    ];
    assert_eq!(collect_messages(&rows), "a\tb\nc\n\n");
    assert_eq!(collect_messages(&Vec::new()), "");
}

#[test]
fn render_json_plan_pretty_prints() {
    let value: serde_json::Value = serde_json::from_str("{\"a\":1}").unwrap();
    assert_eq!(render_json_plan(&value).unwrap(), "{\n  \"a\": 1\n}");
}

#[test]
fn make_response_requires_output_when_asked() {
    let r = make_response(
        "  \n ".to_string(),
        PlanFormat::Text,
        PlanDialect::Dws,
        None,
        "SELECT 1",
        "2024-01-01T00:00:00+00:00".to_string(),
        true,
    );
    assert_eq!(r.unwrap_err(), DbError::NoPlanOutput);
    let r = make_response(
        "".to_string(),
        PlanFormat::Text,
        PlanDialect::Dws,
        None,
        "SELECT 1",
        "2024-01-01T00:00:00+00:00".to_string(),
        false,
    );
    assert_eq!(r.unwrap().plan_text, "");
}

#[test]
fn make_response_derives_title_from_sql() {
    let r = make_response(
        "plan".to_string(),
        PlanFormat::Text,
        PlanDialect::Postgres,
        None,
        "  SELECT *\nFROM t",
        "now".to_string(),
        true,
    )
    .unwrap();
    assert_eq!(r.title, "SELECT *");
    assert_eq!(r.plan_text, "plan");
    assert_eq!(r.captured_at, "now");
    let r = make_response(
        "plan".to_string(),
        PlanFormat::Json,
        PlanDialect::Postgres,
        Some("my title".to_string()),
        "SELECT 1",
        "now".to_string(),
        true,
    )
    .unwrap();
    assert_eq!(r.title, "my title");
    assert_eq!(r.format, PlanFormat::Json);
}

#[test]
fn prepare_request_validates_before_io() {
    let req = ExplainRequest {
        dialect: PlanDialect::Postgres,
        sql: " SELECT 1; ".to_string(),
        title: None,
        connection: config(SslMode::Disable, None),
        options: ExplainOptions::default(),
    };
    let plan = prepare_request(&req).unwrap();
    assert_eq!(plan.sql, "SELECT 1");
    assert_eq!(plan.queries.len(), 2);
    assert_eq!(plan.queries[0].0, "EXPLAIN (FORMAT JSON) SELECT 1");
    assert!(matches!(plan.transport, TlsDecision::Plaintext));
    assert_eq!(plan.session_commands.len(), 0);

    let empty_sql = ExplainRequest { sql: " ; ".to_string(), ..req.clone() };
    assert_eq!(prepare_request(&empty_sql).unwrap_err(), DbError::EmptySql);

    let mut no_host = req.clone();
    no_host.connection.host = String::new();
    assert_eq!(prepare_request(&no_host).unwrap_err(), DbError::EmptyHost);
    assert_eq!(
        prepare_request(&no_host).unwrap_err().message(),
        "Connection host is empty"
    );
}
