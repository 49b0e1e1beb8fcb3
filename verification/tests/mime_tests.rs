use mail_imap_mcp_rs::errors::AppError;
use mail_imap_mcp_rs::mime::{
    assemble_message, curated_headers, header_value, note_extracted_text, parse_header_bytes,
    parse_message, truncate_chars, wants_pdf_text, FlatPart,
};

#[test]
fn truncates_unicode_by_character() {
    let input = "a😀b😀c".to_owned();
    let out = truncate_chars(input, 4);
    assert_eq!(out, "a😀b😀");
}

#[test]
fn curated_headers_filters_unless_include_all() {
    let headers = vec![
        (
            "Date".to_owned(),
            "Wed, 1 Jan 2025 00:00:00 +0000".to_owned(),
        ),
        ("From".to_owned(), "sender@example.com".to_owned()),
        ("X-Custom".to_owned(), "value".to_owned()),
    ];

    let curated = curated_headers(&headers, false);
    assert_eq!(curated.len(), 2);
    assert!(curated.iter().any(|(k, _)| k.eq_ignore_ascii_case("date")));
    assert!(curated.iter().any(|(k, _)| k.eq_ignore_ascii_case("from")));

    let all = curated_headers(&headers, true);
    assert_eq!(all.len(), 3);
}

#[test]
fn parses_simple_plain_text_message() {
    let raw = b"From: sender@example.com\r\nTo: user@example.com\r\nSubject: Hi\r\nDate: Wed, 1 Jan 2025 00:00:00 +0000\r\n\r\nHello there";
    let parsed = parse_message(raw, 2000, false, false).expect("parse should succeed");

    assert_eq!(parsed.subject.as_deref(), Some("Hi"));
    assert_eq!(parsed.from.as_deref(), Some("sender@example.com"));
    assert_eq!(parsed.to.as_deref(), Some("user@example.com"));
    assert_eq!(parsed.body_text.as_deref(), Some("Hello there"));
    assert!(parsed.attachments.is_empty());
}

#[test]
fn truncation_counts_characters() {
    assert_eq!(truncate_chars("héllo".to_owned(), 0), "");
    assert_eq!(truncate_chars("héllo".to_owned(), 2), "hé");
    assert_eq!(truncate_chars("héllo".to_owned(), 5), "héllo");
    assert_eq!(truncate_chars("héllo".to_owned(), 9), "héllo");
    assert_eq!(truncate_chars("日本語のテキスト".to_owned(), 3).chars().count(), 3);
    assert_eq!(truncate_chars("日本語のテキスト".to_owned(), 3), "日本語");
}

#[test]
fn header_value_takes_the_first_match_in_any_case() {
    let headers = vec![
        ("SUBJECT".to_owned(), "first".to_owned()),
        ("Subject".to_owned(), "second".to_owned()),
        ("Cc".to_owned(), "c@example.com".to_owned()),
    ];
    assert_eq!(header_value(&headers, "subject").as_deref(), Some("first"));
    assert_eq!(header_value(&headers, "CC").as_deref(), Some("c@example.com"));
    assert_eq!(header_value(&headers, "date"), None);
}

#[test]
fn curated_headers_keep_order_and_message_id() {
    let headers = vec![
        ("Received".to_owned(), "r".to_owned()),
        ("MESSAGE-ID".to_owned(), "<1@x>".to_owned()),
        ("to".to_owned(), "t".to_owned()),
        ("Cc".to_owned(), "c".to_owned()),
        ("Subject".to_owned(), "s".to_owned()),
        ("Bcc".to_owned(), "b".to_owned()),
    ];
    let curated = curated_headers(&headers, false);
    let keys: Vec<&str> = curated.iter().map(|(k, _)| k.as_str()).collect();
    assert_eq!(keys, vec!["MESSAGE-ID", "to", "Cc", "Subject"]);
}

#[test]
fn reads_header_blocks() {
    let headers = parse_header_bytes(b"Subject: Hello\r\nFrom: a@example.com\r\n\r\n")
        .expect("headers parse");
    assert_eq!(
        headers,
        vec![
            ("Subject".to_owned(), "Hello".to_owned()),
            ("From".to_owned(), "a@example.com".to_owned()),
        ]
    );
    let err = parse_header_bytes(b"\rSubject: x").err().expect("must fail");
    assert!(err.to_string().starts_with("internal error: failed to parse message headers: "));
}

#[test]
fn reads_parts_bodies_and_attachments() {
    let raw = concat_lines(&[
        "From: a@example.com",
        "Subject: Parts",
        "Content-Type: multipart/mixed; boundary=\"b1\"",
        "",
        "--b1",
        "Content-Type: multipart/alternative; boundary=\"b2\"",
        "",
        "--b2",
        "Content-Type: text/plain; charset=utf-8",
        "",
        "plain body",
        "--b2",
        "Content-Type: text/html; charset=utf-8",
        "",
        "<p>html <script>alert(1)</script>body</p>",
        "--b2--",
        "--b1",
        "Content-Type: application/pdf; name=\"doc.pdf\"",
        "Content-Disposition: attachment; filename=\"report.pdf\"",
        "Content-Transfer-Encoding: base64",
        "",
        "JVBERi0=",
        "--b1",
        "Content-Type: text/plain; name=\"notes.txt\"",
        "",
        "named",
        "--b1--",
        "",
    ]);
    let parsed = parse_message(raw.as_bytes(), 5, true, true).expect("parse should succeed");
    assert_eq!(parsed.subject.as_deref(), Some("Parts"));
    assert_eq!(parsed.body_text.as_deref(), Some("plain"));
    assert_eq!(parsed.body_html_sanitized.as_deref(), Some("<p>ht"));
    assert_eq!(parsed.attachments.len(), 2);
    assert_eq!(parsed.attachments[0].filename.as_deref(), Some("report.pdf"));
    assert_eq!(parsed.attachments[0].content_type, "application/pdf");
    assert_eq!(parsed.attachments[0].size_bytes, 5);
    assert_eq!(parsed.attachments[0].part_id, "1.2");
    assert_eq!(parsed.attachments[0].extracted_text, None);
    assert_eq!(parsed.attachments[1].filename.as_deref(), Some("notes.txt"));
    assert_eq!(parsed.attachments[1].content_type, "text/plain");
    assert_eq!(parsed.attachments[1].part_id, "1.3");
    assert_eq!(parsed.pdf_sources.len(), 1);
    assert_eq!(parsed.pdf_sources[0].attachment, 0);
    assert_eq!(parsed.pdf_sources[0].content, b"%PDF-".to_vec());

    let full = parse_message(raw.as_bytes(), 2000, true, false).expect("parse should succeed");
    assert_eq!(full.body_html_sanitized.as_deref(), Some("<p>html body</p>"));
    assert!(full.pdf_sources.is_empty());
    let plain = parse_message(raw.as_bytes(), 2000, false, false).expect("parse should succeed");
    assert_eq!(plain.body_html_sanitized, None);
}

fn concat_lines(lines: &[&str]) -> String {
    lines.join("\r\n")
}

#[test]
fn numbers_nested_parts() {
    let raw = concat_lines(&[
        "Content-Type: multipart/mixed; boundary=\"o\"",
        "",
        "--o",
        "Content-Type: multipart/mixed; boundary=\"i\"",
        "",
        "--i",
        "Content-Disposition: attachment; filename=\"a.bin\"",
        "",
        "A",
        "--i",
        "Content-Disposition: attachment; filename=\"b.bin\"",
        "",
        "BB",
        "--i--",
        "--o",
        "Content-Disposition: attachment; filename=\"c.bin\"",
        "",
        "CCC",
        "--o--",
        "",
    ]);
    let parsed = parse_message(raw.as_bytes(), 100, false, false).expect("parse should succeed");
    let ids: Vec<&str> = parsed.attachments.iter().map(|a| a.part_id.as_str()).collect();
    assert_eq!(ids, vec!["1.1.1", "1.1.2", "1.2"]);
    let sizes: Vec<usize> = parsed.attachments.iter().map(|a| a.size_bytes).collect();
    assert_eq!(sizes, vec![1, 2, 3]);
}

#[test]
fn extracts_text_only_from_small_pdfs_on_request() {
    assert!(wants_pdf_text(true, "application/pdf", 5_000_000));
    assert!(!wants_pdf_text(true, "application/pdf", 5_000_001));
    assert!(!wants_pdf_text(false, "application/pdf", 10));
    assert!(!wants_pdf_text(true, "text/plain", 10));
}

#[test]
fn notes_extracted_text_cut_to_length() {
    let raw = concat_lines(&[
        "Content-Type: application/pdf",
        "Content-Disposition: attachment; filename=\"r.pdf\"",
        "",
        "x",
    ]);
    let mut parsed = parse_message(raw.as_bytes(), 100, false, true).expect("parse should succeed");
    assert_eq!(parsed.attachments.len(), 1);
    assert_eq!(parsed.attachments[0].part_id, "1");
    note_extracted_text(&mut parsed.attachments, 0, Some("extracted words".to_owned()), 9);
    assert_eq!(parsed.attachments[0].extracted_text.as_deref(), Some("extracted"));
    note_extracted_text(&mut parsed.attachments, 0, None, 9);
    assert_eq!(parsed.attachments[0].extracted_text.as_deref(), Some("extracted"));
    note_extracted_text(&mut parsed.attachments, 5, Some("x".to_owned()), 9);
    assert_eq!(parsed.attachments.len(), 1);
}

fn container(mimetype: &str, subparts: usize) -> FlatPart {
    FlatPart {
        mimetype: mimetype.to_owned(),
        attachment: false,
        disposition_filename: None,
        content_type_name: None,
        text: None,
        raw: Ok(Vec::new()),
        subparts,
    }
}

fn body(mimetype: &str, text: &str) -> FlatPart {
    FlatPart {
        mimetype: mimetype.to_owned(),
        attachment: false,
        disposition_filename: None,
        content_type_name: None,
        text: Some(text.to_owned()),
        raw: Ok(text.as_bytes().to_vec()),
        subparts: 0,
    }
}

fn attached(mimetype: &str, name: Option<&str>, raw: Result<Vec<u8>, String>) -> FlatPart {
    FlatPart {
        mimetype: mimetype.to_owned(),
        attachment: true,
        disposition_filename: name.map(str::to_owned),
        content_type_name: None,
        text: None,
        raw,
        subparts: 0,
    }
}

#[test]
fn assembles_a_message_from_its_parts() {
    let headers = vec![
        ("Subject".to_owned(), "first".to_owned()),
        ("subject".to_owned(), "second".to_owned()),
        ("From".to_owned(), "a@example.com".to_owned()),
    ];
    let parts = vec![
        container("multipart/mixed", 3),
        container("multipart/alternative", 2),
        body("TEXT/PLAIN", "hello world"),
        body("text/html", "<b>hi</b><script>x()</script>"),
        attached("Application/PDF", Some("a.pdf"), Ok(vec![1, 2, 3])),
        attached("image/png", None, Ok(vec![9; 10])),
    ];
    let message = assemble_message(headers, parts, 5, true, true).expect("a message");
    assert_eq!(message.subject.as_deref(), Some("first"));
    assert_eq!(message.from.as_deref(), Some("a@example.com"));
    assert_eq!(message.date, None);
    assert_eq!(message.headers_all.len(), 3);
    assert_eq!(message.body_text.as_deref(), Some("hello"));
    assert_eq!(message.body_html_sanitized.as_deref(), Some("<b>hi"));
    assert_eq!(message.attachments.len(), 2);
    assert_eq!(message.attachments[0].part_id, "1.2");
    assert_eq!(message.attachments[0].content_type, "application/pdf");
    assert_eq!(message.attachments[0].filename.as_deref(), Some("a.pdf"));
    assert_eq!(message.attachments[0].size_bytes, 3);
    assert_eq!(message.attachments[0].extracted_text, None);
    assert_eq!(message.attachments[1].part_id, "1.3");
    assert_eq!(message.attachments[1].size_bytes, 10);
    assert_eq!(message.pdf_sources.len(), 1);
    assert_eq!(message.pdf_sources[0].attachment, 0);
    assert_eq!(message.pdf_sources[0].content, vec![1, 2, 3]);
}

#[test]
fn assembling_keeps_the_first_body_and_hides_unwanted_html() {
    let parts = vec![
        container("multipart/alternative", 3),
        body("text/plain", "one"),
        body("text/plain", "two"),
        body("text/html", "<i>x</i>"),
    ];
    let message = assemble_message(Vec::new(), parts, 100, false, false).expect("a message");
    assert_eq!(message.body_text.as_deref(), Some("one"));
    assert_eq!(message.body_html_sanitized, None);
    assert!(message.attachments.is_empty());
    assert!(message.pdf_sources.is_empty());
}

#[test]
fn assembling_fails_on_an_attachment_that_cannot_be_decoded() {
    let parts = vec![
        container("multipart/mixed", 2),
        body("text/plain", "one"),
        attached("application/zip", Some("a.zip"), Err("bad base64".to_owned())),
    ];
    match assemble_message(Vec::new(), parts, 100, false, false) {
        Err(AppError::Internal(message)) => {
            assert_eq!(message, "failed decoding attachment body: bad base64")
        }
        other => panic!("unexpected: {other:?}"),
    }
}

#[test]
fn a_named_part_is_an_attachment() {
    let mut named = body("text/plain", "notes");
    named.content_type_name = Some("notes.txt".to_owned());
    let message = assemble_message(Vec::new(), vec![named], 100, false, false).expect("a message");
    assert_eq!(message.body_text, None);
    assert_eq!(message.attachments.len(), 1);
    assert_eq!(message.attachments[0].part_id, "1");
    assert_eq!(message.attachments[0].filename.as_deref(), Some("notes.txt"));
}
