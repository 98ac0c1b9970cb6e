use zcode_gateway::gateway::Settings;
use zcode_gateway::logs::{
    clear, csv_field, csv_row, is_full, push, push_debug, render_record, snapshot, to_csv, to_jsonl,
    visible_entries, GatewayLogEntry, LogRing, CAP, FILE_MAX_BYTES,
};

fn entry(status: u16) -> GatewayLogEntry {
    GatewayLogEntry {
        ts: 1,
        route: "/v1/chat/completions".into(),
        format: "openai".into(),
        model: "glm-4.6".into(),
        account: Some("A".into()),
        provider: Some("zai".into()),
        plan: Some("coding-plan".into()),
        status,
        ms: 12,
        attempts: 1,
        error: None,
    }
}

#[test]
fn ring_buffer_and_snapshot_order() {
    let mut ring = LogRing::new();
    let settings = Settings::default();
    clear(&mut ring);
    for i in 0..8 {
        let mut e = entry(200);
        e.ts = i;
        push(&mut ring, e);
    }
    let snap = snapshot(&ring, &settings, 3);
    assert_eq!(snap.len(), 3);
    assert_eq!(snap[0].ts, 7, "newest first");
    clear(&mut ring);
    assert!(snapshot(&ring, &settings, 10).is_empty());
}

#[test]
fn captcha_entries_hidden_unless_debug() {
    let mut normal = entry(200);
    normal.model = "req".into();
    let mut cap = entry(0);
    cap.route = "captcha".into();
    cap.format = "captcha".into();
    cap.model = "tick".into();

    let all = vec![normal.clone(), cap.clone()];
    let off = visible_entries(all.clone(), false, 500);
    assert_eq!(off.len(), 1, "debug off hides captcha telemetry");
    assert_eq!(off[0].route, "/v1/chat/completions");

    let on = visible_entries(all, true, 500);
    assert_eq!(on.len(), 2, "debug on shows both");
    assert_eq!(on[0].route, "captcha", "newest first");
}

#[test]
fn jsonl_export_is_one_record_per_line() {
    let mut a = entry(200);
    a.model = "m-a".into();
    let mut b = entry(403);
    b.model = "m-b".into();
    let out = to_jsonl(&vec![a, b]);
    let lines: Vec<&str> = out.lines().collect();
    assert_eq!(lines.len(), 2);
    assert!(lines[0].contains("\"model\":\"m-a\""));
    assert!(lines[1].contains("\"status\":403"));
}

#[test]
fn csv_export_escapes_and_keeps_columns_aligned() {
    let mut e = entry(500);
    e.account = Some("A, B".into());
    e.error = Some("line1\nline2 \"quoted\"".into());
    let out = to_csv(&vec![e]);
    let lines: Vec<&str> = out.lines().collect();
    assert_eq!(
        lines[0],
        "time,ts,route,format,model,account,provider,plan,status,ms,attempts,error"
    );
    let body: String = lines[1..].join("\n");
    assert!(body.contains("\"A, B\""), "comma field quoted: {body}");
    assert!(body.contains("\"line1\nline2 \"\"quoted\"\"\""), "newline+quote escaped: {body}");
    let cols = lines[1].split(',').count();
    assert!(cols >= 10, "columns present, got {cols}");
}

#[test]
fn records_keep_the_order_of_their_fields() {
    let mut e = entry(200);
    e.account = None;
    e.error = Some("a\nb".into());
    assert_eq!(
        render_record(&e),
        "{\"ts\":1,\"route\":\"/v1/chat/completions\",\"format\":\"openai\",\"model\":\"glm-4.6\",\
         \"account\":null,\"provider\":\"zai\",\"plan\":\"coding-plan\",\"status\":200,\"ms\":12,\
         \"attempts\":1,\"error\":\"a\\nb\"}"
    );
}

#[test]
fn ring_drops_the_oldest() {
    let mut ring = LogRing::new();
    for i in 0..(CAP as i64 + 2) {
        let mut e = entry(200);
        e.ts = i;
        push(&mut ring, e);
    }
    let all = snapshot(&ring, &Settings::default(), CAP);
    assert_eq!(all.len(), CAP);
    assert_eq!(all[CAP - 1].ts, 2);
    assert_eq!(all[0].ts, CAP as i64 + 1);
    assert_eq!(snapshot(&ring, &Settings::default(), 0).len(), 1);
    assert_eq!(snapshot(&ring, &Settings::default(), 9_999).len(), CAP);
}

#[test]
fn debug_entries_need_the_switch() {
    let mut ring = LogRing::new();
    let mut settings = Settings::default();
    assert!(!push_debug(&mut ring, entry(0), &settings));
    assert!(snapshot(&ring, &settings, 5).is_empty());
    settings.gateway_debug_log = Some(true);
    assert!(push_debug(&mut ring, entry(0), &settings));
    assert_eq!(snapshot(&ring, &settings, 5).len(), 1);
}

#[test]
fn fields_are_quoted_where_they_must() {
    assert_eq!(csv_field("plain"), "plain");
    assert_eq!(csv_field("a,b"), "\"a,b\"");
    assert_eq!(csv_field("a\"b"), "\"a\"\"b\"");
    assert_eq!(csv_field("a\nb"), "\"a\nb\"");
}

#[test]
fn rows_have_twelve_columns() {
    let row = csv_row(&entry(200), "T");
    assert_eq!(row, "T,1,/v1/chat/completions,openai,glm-4.6,A,zai,coding-plan,200,12,1,\n");
}

#[test]
fn times_are_written_out() {
    let mut e = entry(200);
    e.ts = 1_700_000_000_123;
    let out = to_csv(&vec![e]);
    let row = out.lines().nth(1).unwrap();
    let time = row.split(',').next().unwrap();
    assert_eq!(time.len(), 23, "{time}");
    assert!(time.starts_with("2023-11-1"));
    assert!(time.ends_with(":20.123"));
}

#[test]
fn large_files_are_set_aside() {
    assert!(!is_full(FILE_MAX_BYTES));
    assert!(is_full(FILE_MAX_BYTES + 1));
}
