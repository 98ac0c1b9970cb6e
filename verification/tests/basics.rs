use reqwest::header::{HeaderMap, HeaderValue};
use std::time::Duration;
use zcode_gateway::clock::{
    millis_after_epoch, nanos_after_epoch, seconds_after_epoch, unix_millis, unix_nanos,
    unix_seconds,
};
use zcode_gateway::flowlog::{format_line, format_line_at, is_full, log, MAX_BYTES};
use zcode_gateway::headers::{bytes_of, either_str, header_str, HeaderList};
use zcode_gateway::json::{floor_double, is_positive, parse, Json};
use zcode_gateway::text::{
    bytes_to_hex, decimal_of, decimal_of_signed, first_chars, has, hex_of_number, joined, lines_of,
    lowered, replaced, split_at_first, trimmed, trimmed_end_char, words_of,
};
use zcode_gateway::utf8::{text_of_body, text_of_utf8, Utf8Feeder};

#[test]
fn documents_are_read_and_written() {
    let j = parse(r#" {"b":[1,-2,0.5,"x",null,true],"a":{"k":"é"}} "#).unwrap();
    assert_eq!(j.render(), r#"{"a":{"k":"é"},"b":[1,-2,0.5,"x",null,true]}"#);
    let items = j.items_at("b").unwrap();
    assert_eq!(items[0].as_u64(), Some(1));
    assert_eq!(items[1].as_i64(), Some(-2));
    assert_eq!(items[1].as_u64(), None);
    assert_eq!(items[2].as_double(), Some(0.5f64.to_bits()));
    assert_eq!(items[3].as_str(), Some("x"));
    assert!(items[4].is_null());
    assert_eq!(items[5].as_bool(), Some(true));
    assert_eq!(j.str_in("a", "k"), Some("é"));
    assert!(parse("{").is_none());
    assert!(parse("").is_none());
    let twice = parse(r#"{"a":1,"a":2}"#).unwrap();
    assert_eq!(twice.u64_at("a"), Some(2));
    assert_eq!(parse("18446744073709551615").unwrap().as_u64(), Some(u64::MAX));
    assert_eq!(parse("18446744073709551615").unwrap().as_i64(), None);
}

#[test]
fn documents_are_built() {
    let j = Json::object()
        .with("a", Json::count(3))
        .with("b", Json::array(vec![Json::text("x"), Json::Null]))
        .with("a", Json::Bool(false));
    assert_eq!(j.render(), r#"{"a":false,"b":["x",null]}"#);
    assert_eq!(j.duplicate().without("a").render(), r#"{"b":["x",null]}"#);
    assert_eq!(Json::text("a\n\"b\"").render(), r#""a\n\"b\"""#);
}

#[test]
fn doubles_are_rounded_down() {
    assert_eq!(floor_double(7.9f64.to_bits()), 7);
    assert_eq!(floor_double(0.5f64.to_bits()), 0);
    assert_eq!(floor_double(1e18f64.to_bits()), 1_000_000_000_000_000_000);
    assert!(is_positive(0.1f64.to_bits()));
    assert!(!is_positive(0f64.to_bits()));
    assert!(!is_positive((-1f64).to_bits()));
}

#[test]
fn flow_lines_are_formatted() {
    assert_eq!(
        format_line_at("T", "0123456789", "start", " a\n b\t c "),
        "T [01234567] start a b c\n"
    );
    assert_eq!(format_line_at("T", "f", "end", " \n"), "T [f] end\n");
    let line = format_line("flow", "event", "detail");
    assert_eq!(line.len(), 19 + " [flow] event detail\n".len());
    assert!(line.ends_with(" [flow] event detail\n"));
    assert_eq!(line.matches('\n').count(), 1);
    assert!(log(true, "f", "e", "").is_some());
    assert!(log(false, "f", "e", "").is_none());
    assert!(is_full(MAX_BYTES + 1));
    assert!(!is_full(MAX_BYTES));
}

#[test]
fn clocks_agree() {
    let now = std::time::SystemTime::now()
        .duration_since(std::time::UNIX_EPOCH)
        .unwrap()
        .as_millis() as u64;
    assert!(unix_millis() >= now && unix_millis() < now + 10_000);
    assert!(unix_seconds() >= now / 1000);
    assert!(unix_nanos() >= now * 1_000_000);
}

#[test]
fn times_before_the_epoch_count_as_the_epoch() {
    let time = Duration::from_millis(1_700_000_000_123);
    assert_eq!(millis_after_epoch(Some(time)), 1_700_000_000_123);
    assert_eq!(nanos_after_epoch(Some(time)), 1_700_000_000_123_000_000);
    assert_eq!(nanos_after_epoch(None), 0);
    assert_eq!(nanos_after_epoch(Some(Duration::MAX)), u64::MAX);
    assert_eq!(seconds_after_epoch(Some(time)), 1_700_000_000);
    assert_eq!(millis_after_epoch(Some(Duration::MAX)), u64::MAX);
    assert_eq!(seconds_after_epoch(Some(Duration::MAX)), u64::MAX);
    assert_eq!(millis_after_epoch(None), 0);
    assert_eq!(seconds_after_epoch(None), 0);
}

#[test]
fn headers_are_looked_up() {
    let mut h = HeaderMap::new();
    h.append("x-a", HeaderValue::from_static("one"));
    h.append("x-a", HeaderValue::from_static("two"));
    h.insert("x-b", HeaderValue::from_bytes(b"\xff").unwrap());
    assert_eq!(header_str(&h, "X-A").as_deref(), Some("one"));
    assert_eq!(header_str(&h, "x-b"), None);
    assert_eq!(header_str(&h, "x-c"), None);
    assert_eq!(either_str(&h, "x-c", "x-a").as_deref(), Some("one"));
    assert_eq!(either_str(&h, "x-b", "x-a"), None);
}

#[test]
fn headers_are_listed_once() {
    let mut h = HeaderMap::new();
    h.insert("x-a", HeaderValue::from_static("up"));
    let list = HeaderList::new()
        .put_text("x-a", "own")
        .put("x-b", vec![1])
        .put_from("x-a", &h)
        .put_from("x-c", &h)
        .into_pairs();
    assert_eq!(
        list,
        vec![("x-a".to_string(), b"up".to_vec()), ("x-b".to_string(), vec![1])]
    );
    assert_eq!(bytes_of("é"), vec![0xc3, 0xa9]);
}

#[test]
fn characters_wait_for_their_bytes() {
    let mut f = Utf8Feeder::new();
    let bytes = "a你b".as_bytes();
    assert_eq!(f.feed(&bytes[..2]), "a");
    assert_eq!(f.feed(&bytes[2..3]), "");
    assert_eq!(f.feed(&bytes[3..]), "你b");
    assert_eq!(f.finish(), "");
    f.feed(&bytes[1..2]);
    assert_eq!(f.finish(), "\u{fffd}");
    assert_eq!(text_of_body(b"ok\xff!"), "ok\u{fffd}!");
    assert_eq!(text_of_utf8(&b"ok".to_vec()).as_deref(), Some("ok"));
    assert_eq!(text_of_utf8(&b"\xff".to_vec()), None);
}

#[test]
fn texts_are_cut_and_joined() {
    assert_eq!(trimmed("\u{3000} a b \n"), "a b");
    assert_eq!(trimmed_end_char("a//", '/'), "a");
    assert_eq!(lowered("ÀBc"), "Àbc");
    assert_eq!(first_chars("héllo", 2), "hé");
    assert_eq!(first_chars("h", 2), "h");
    assert!(has("abc", "bc"));
    assert!(!has("abc", "d"));
    assert_eq!(split_at_first("a.b.c", "."), Some(("a".to_string(), "b.c".to_string())));
    assert_eq!(replaced("aXbX", "X", "yy"), "ayybyy");
    assert_eq!(joined(&vec!["a".to_string(), "b".to_string()], ", "), "a, b");
    assert_eq!(lines_of("a\r\nb\n"), vec!["a", "b"]);
    assert_eq!(words_of(" a  b\tc "), vec!["a", "b", "c"]);
}

#[test]
fn numbers_are_written_out() {
    assert_eq!(decimal_of(0), "0");
    assert_eq!(decimal_of(u128::MAX), u128::MAX.to_string());
    assert_eq!(decimal_of_signed(i64::MIN), i64::MIN.to_string());
    assert_eq!(bytes_to_hex(&[0, 255, 16]), "00ff10");
    assert_eq!(hex_of_number(255, 8), "000000ff");
}

#[test]
fn pieces_make_the_whole() {
    let whole: &[u8] = b"a\xc3\xa9\xe4\xb8\xadz\xff!\xe4\xb8";
    for cut in 0..=whole.len() {
        let mut f = Utf8Feeder::new();
        let mut out = f.feed(&whole[..cut]);
        out.push_str(&f.feed(&whole[cut..]));
        out.push_str(&f.finish());
        assert_eq!(out, String::from_utf8_lossy(whole));
        assert_eq!(f.finish(), "");
    }
    assert_eq!(text_of_body(b""), "");
    assert_eq!(text_of_body(whole), String::from_utf8_lossy(whole));
}
