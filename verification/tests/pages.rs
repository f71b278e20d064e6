use expense_pages::handler::{expenses_response, index_response, FetchOutcome};
use expense_pages::html::{render_expenses_page, render_index_page};
use expense_pages::json::decode_response;
use expense_pages::model::{project_items, to_expense, Expense, ExpenseRecord};

fn reply(fetch: FetchOutcome) -> (u16, Vec<u8>) {
    let r = expenses_response(fetch);
    (r.status, r.body)
}

fn reply_for(json: &str) -> (u16, Vec<u8>) {
    reply(FetchOutcome::Body(json.as_bytes().to_vec()))
}

const ONE_RECORD: &str = r#"{"page":1,"perPage":30,"totalPages":1,"totalItems":1,"items":[{"id":"abc123","name":"Groceries","amount":42,"collectionId":"x","collectionName":"expenses","updated":"2024-01-01","created":"2024-01-01"}]}"#;

fn record_json(id: &str, name: &str, amount: &str) -> String {
    format!(
        r#"{{"id":"{}","name":"{}","amount":{},"collectionId":"x","collectionName":"expenses","updated":"2024-01-01","created":"2024-01-01"}}"#,
        id, name, amount
    )
}

fn envelope_json(items: &[String]) -> String {
    format!(
        r#"{{"page":1,"perPage":30,"totalPages":1,"totalItems":{},"items":[{}]}}"#,
        items.len(),
        items.join(",")
    )
}

#[test]
fn index_is_200_and_fixed() {
    let a = index_response();
    let b = index_response();
    assert_eq!(a.status, 200);
    assert_eq!(b.status, 200);
    assert_eq!(a.body, b.body);
    assert_eq!(a.body, render_index_page());
    let html = String::from_utf8(a.body).unwrap();
    assert_eq!(
        html,
        "<html><body><a href=\"/expenses\">Expenses</a></body></html>"
    );
}

#[test]
fn unreachable_store_is_500() {
    let (status, body) = reply(FetchOutcome::Unreachable);
    assert_eq!(status, 500);
    assert!(body.is_empty());
}

#[test]
fn malformed_json_is_500() {
    assert_eq!(reply_for("not json at all").0, 500);
    assert_eq!(reply_for("").0, 500);
    assert_eq!(reply_for("{").0, 500);
    assert_eq!(reply_for("[]").0, 500);
}

#[test]
fn missing_items_field_is_500() {
    let (status, body) =
        reply_for(r#"{"page":1,"perPage":30,"totalPages":1,"totalItems":1}"#);
    assert_eq!(status, 500);
    assert!(body.is_empty());
}

#[test]
fn one_record_scenario_renders_the_row() {
    let (status, body) = reply_for(ONE_RECORD);
    assert_eq!(status, 200);
    let html = String::from_utf8(body).unwrap();
    assert!(html.contains("<tr><td>abc123</td><td>Groceries</td><td>42</td></tr>"));
    assert_eq!(
        html,
        "<html><body><table><tr><td>abc123</td><td>Groceries</td><td>42</td></tr></table></body></html>"
    );
}

#[test]
fn decode_reads_every_field() {
    let resp = decode_response(&ONE_RECORD.as_bytes().to_vec()).unwrap();
    assert_eq!(resp.page, 1);
    assert_eq!(resp.per_page, 30);
    assert_eq!(resp.total_pages, 1);
    assert_eq!(resp.total_items, 1);
    assert_eq!(resp.items.len(), 1);
    let rec = &resp.items[0];
    assert_eq!(rec.id, b"abc123".to_vec());
    assert_eq!(rec.name, b"Groceries".to_vec());
    assert_eq!(rec.amount, 42);
    assert_eq!(rec.collection_id, b"x".to_vec());
    assert_eq!(rec.collection_name, b"expenses".to_vec());
    assert_eq!(rec.updated, b"2024-01-01".to_vec());
    assert_eq!(rec.created, b"2024-01-01".to_vec());
}

#[test]
fn amount_above_u16_range_is_500_not_truncated() {
    let over = envelope_json(&[record_json("a", "b", "65536")]);
    assert_eq!(reply_for(&over).0, 500);
    // 70000 mod 65536 is 4464; a truncating decoder would answer 200 with it.
    let far_over = envelope_json(&[record_json("a", "b", "70000")]);
    assert_eq!(reply_for(&far_over).0, 500);
}

#[test]
fn amount_at_u16_max_is_exact() {
    let max = envelope_json(&[record_json("a", "b", "65535")]);
    let (status, body) = reply_for(&max);
    assert_eq!(status, 200);
    let html = String::from_utf8(body).unwrap();
    assert!(html.contains("<td>65535</td>"));
}

#[test]
fn amount_zero_renders_one_digit() {
    let zero = envelope_json(&[record_json("a", "b", "0")]);
    let (status, body) = reply_for(&zero);
    assert_eq!(status, 200);
    assert!(String::from_utf8(body).unwrap().contains("<td>0</td>"));
}

#[test]
fn negative_or_fractional_amount_is_500() {
    assert_eq!(reply_for(&envelope_json(&[record_json("a", "b", "-1")])).0, 500);
    assert_eq!(reply_for(&envelope_json(&[record_json("a", "b", "4.2")])).0, 500);
    assert_eq!(reply_for(&envelope_json(&[record_json("a", "b", "01")])).0, 500);
}

#[test]
fn whitespace_between_tokens_is_accepted() {
    let spaced = format!(
        "  {{ \"page\" : 1 ,\n\t\"perPage\": 30, \"totalPages\": 1, \"totalItems\": 1,\r\n\"items\": [ {} ] }}  ",
        record_json("a", "b", "7")
    );
    let (status, body) = reply_for(&spaced);
    assert_eq!(status, 200);
    assert!(String::from_utf8(body).unwrap().contains("<tr><td>a</td><td>b</td><td>7</td></tr>"));
}

#[test]
fn empty_items_renders_empty_table() {
    let (status, body) =
        reply_for(r#"{"page":1,"perPage":30,"totalPages":0,"totalItems":0,"items":[]}"#);
    assert_eq!(status, 200);
    assert_eq!(
        String::from_utf8(body).unwrap(),
        "<html><body><table></table></body></html>"
    );
}

#[test]
fn rows_keep_the_store_order() {
    let json = envelope_json(&[
        record_json("first", "one", "1"),
        record_json("second", "two", "2"),
        record_json("third", "three", "3"),
    ]);
    let (status, body) = reply_for(&json);
    assert_eq!(status, 200);
    let html = String::from_utf8(body).unwrap();
    assert_eq!(
        html,
        "<html><body><table>\
         <tr><td>first</td><td>one</td><td>1</td></tr>\
         <tr><td>second</td><td>two</td><td>2</td></tr>\
         <tr><td>third</td><td>three</td><td>3</td></tr>\
         </table></body></html>"
    );
}

#[test]
fn string_escapes_are_decoded() {
    let json = envelope_json(&[record_json(r"a\\b", r#"say \"hi\"\n"#, "1")]);
    let resp = decode_response(&json.as_bytes().to_vec()).unwrap();
    assert_eq!(resp.items[0].id, b"a\\b".to_vec());
    assert_eq!(resp.items[0].name, b"say \"hi\"\n".to_vec());
}

#[test]
fn unicode_escapes_are_decoded() {
    // one-byte, two-byte and surrogate-pair code points
    let json = envelope_json(&[record_json(r"\u0041x", r"caf\u00e9 \ud83d\ude00", "1")]);
    let resp = decode_response(&json.as_bytes().to_vec()).unwrap();
    assert_eq!(resp.items[0].id, b"Ax".to_vec());
    assert_eq!(
        resp.items[0].name,
        vec![0x63, 0x61, 0x66, 0xc3, 0xa9, 0x20, 0xf0, 0x9f, 0x98, 0x80]
    );
}

#[test]
fn escaped_ampersand_is_decoded_then_html_escaped() {
    // encoders in some traditions write & < > as \u escapes
    let json = envelope_json(&[record_json("a", r"Food \u0026 Drink \u003cb\u003e", "1")]);
    let (status, body) = reply_for(&json);
    assert_eq!(status, 200);
    let html = String::from_utf8(body).unwrap();
    assert!(html.contains("<td>Food &amp; Drink &lt;b&gt;</td>"));
}

#[test]
fn bad_unicode_escape_is_rejected() {
    // a lone high surrogate, a lone low surrogate, and short or broken hex
    assert_eq!(reply_for(&envelope_json(&[record_json(r"\ud800", "b", "1")])).0, 500);
    assert_eq!(reply_for(&envelope_json(&[record_json(r"\udc00", "b", "1")])).0, 500);
    assert_eq!(reply_for(&envelope_json(&[record_json(r"\ud83dx", "b", "1")])).0, 500);
    assert_eq!(reply_for(&envelope_json(&[record_json(r"\u00zz", "b", "1")])).0, 500);
    assert_eq!(reply_for(&envelope_json(&[record_json(r"\u00", "b", "1")])).0, 500);
}

#[test]
fn control_byte_in_string_is_rejected() {
    let json = envelope_json(&[record_json("a\x01b", "b", "1")]);
    assert_eq!(reply_for(&json).0, 500);
}

#[test]
fn html_in_fields_is_escaped() {
    let json = envelope_json(&[record_json("x", "<script>&'\\\"", "1")]);
    let (status, body) = reply_for(&json);
    assert_eq!(status, 200);
    let html = String::from_utf8(body).unwrap();
    assert!(html.contains("<td>&lt;script&gt;&amp;&#39;&quot;</td>"));
    assert!(!html.contains("<script>"));
}

#[test]
fn trailing_text_is_rejected() {
    let mut json = String::from(ONE_RECORD);
    json.push_str("x");
    assert_eq!(reply_for(&json).0, 500);
}

#[test]
fn unknown_fields_are_skipped() {
    let extra =
        r#"{"page":1,"perPage":30,"totalPages":1,"totalItems":1,"extra":2,"items":[]}"#;
    assert_eq!(reply_for(extra).0, 200);
    let nested = r#"{"page":1,"meta":{"a":[1,-2.5e3,true,false,null,"x"],"b":{}},"perPage":30,"totalPages":1,"totalItems":1,"items":[]}"#;
    assert_eq!(reply_for(nested).0, 200);
    let in_record = envelope_json(&[record_json("a", "b", "1")
        .replace(r#""amount":1"#, r#""amount":1,"expand":{"tags":["t1","t2"]}"#)]);
    let (status, body) = reply_for(&in_record);
    assert_eq!(status, 200);
    assert!(String::from_utf8(body).unwrap().contains("<tr><td>a</td><td>b</td><td>1</td></tr>"));
}

#[test]
fn malformed_unknown_value_is_rejected() {
    let bad = r#"{"page":1,"extra":tru,"perPage":30,"totalPages":1,"totalItems":1,"items":[]}"#;
    assert_eq!(reply_for(bad).0, 500);
    let unclosed = r#"{"page":1,"extra":{"a":1,"perPage":30,"totalPages":1,"totalItems":1,"items":[]}"#;
    assert_eq!(reply_for(unclosed).0, 500);
}

#[test]
fn fields_may_come_in_any_order() {
    let envelope = r#"{"totalItems":1,"items":[{"amount":42,"collectionId":"x","collectionName":"expenses","created":"2024-01-01","id":"abc123","name":"Groceries","updated":"2024-01-01"}],"page":1,"perPage":30,"totalPages":1}"#;
    let (status, body) = reply_for(envelope);
    assert_eq!(status, 200);
    assert!(String::from_utf8(body)
        .unwrap()
        .contains("<tr><td>abc123</td><td>Groceries</td><td>42</td></tr>"));
}

#[test]
fn repeated_field_is_rejected() {
    let twice =
        r#"{"page":1,"page":2,"perPage":30,"totalPages":1,"totalItems":1,"items":[]}"#;
    assert_eq!(reply_for(twice).0, 500);
    let twice_in_record = envelope_json(&[record_json("a", "b", "1").replace(
        r#""amount":1"#,
        r#""amount":1,"amount":2"#,
    )]);
    assert_eq!(reply_for(&twice_in_record).0, 500);
}

#[test]
fn missing_record_field_is_rejected() {
    let no_created = r#"{"page":1,"perPage":30,"totalPages":1,"totalItems":1,"items":[{"id":"a","name":"b","amount":1,"collectionId":"x","collectionName":"expenses","updated":"2024-01-01"}]}"#;
    assert_eq!(reply_for(no_created).0, 500);
}

#[test]
fn envelope_counter_above_u32_range_is_rejected() {
    let big = r#"{"page":4294967296,"perPage":30,"totalPages":1,"totalItems":1,"items":[]}"#;
    assert_eq!(reply_for(big).0, 500);
    let ok = r#"{"page":4294967295,"perPage":30,"totalPages":1,"totalItems":1,"items":[]}"#;
    assert_eq!(reply_for(ok).0, 200);
}

#[test]
fn projection_keeps_the_displayed_fields() {
    let rec = ExpenseRecord {
        id: b"r1".to_vec(),
        name: b"lunch".to_vec(),
        amount: 9,
        collection_id: b"c".to_vec(),
        collection_name: b"expenses".to_vec(),
        updated: b"u".to_vec(),
        created: b"c".to_vec(),
    };
    let e = to_expense(&rec);
    assert_eq!(e.id, b"r1".to_vec());
    assert_eq!(e.name, b"lunch".to_vec());
    assert_eq!(e.amount, 9);
    let all = project_items(&vec![rec]);
    assert_eq!(all.len(), 1);
    assert_eq!(all[0].name, b"lunch".to_vec());
}

#[test]
fn render_page_directly() {
    let items = vec![Expense { id: b"i".to_vec(), name: b"n".to_vec(), amount: 65535 }];
    let page = render_expenses_page(&items);
    assert_eq!(
        String::from_utf8(page).unwrap(),
        "<html><body><table><tr><td>i</td><td>n</td><td>65535</td></tr></table></body></html>"
    );
}
