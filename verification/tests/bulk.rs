use std::io::Write;

use flate2::write::GzEncoder;
use flate2::Compression;
use rustcord::bulk::decode_records;
use rustcord::bulk::decompress;
use rustcord::bulk::decompression_failure;
use rustcord::bulk::parse_bulk_cards;
use rustcord::bulk::records;
use rustcord::bulk_fetch::default_cards_uri;
use rustcord::data::BulkDataEntry;
use rustcord::data::ScryfallData;
use rustcord::error::ScryfallError;
use serde_json::Value;

const BULK_SAMPLE_JSONL: &str = "{\"object\":\"card\",\"name\":\"Forest\",\"set\":\"blb\"}\n{\"object\":\"card\",\"name\":\"Fury Sliver\",\"set\":\"tsp\"}\n";

struct Card {
    name: String,
}

fn read_card(line: &str) -> Result<Card, serde_json::Error> {
    let value: Value = serde_json::from_str(line)?;
    Ok(Card { name: value["name"].as_str().unwrap_or_default().to_string() })
}

fn gzip(bytes: &[u8]) -> Vec<u8> {
    let mut encoder = GzEncoder::new(Vec::new(), Compression::default());
    encoder.write_all(bytes).unwrap();
    encoder.finish().unwrap()
}

fn text_of(value: &Value) -> String {
    value.as_str().unwrap().to_string()
}

#[test]
fn bulk_data_entry_deserializes_current_scryfall_schema() {
    let manifest_json = r#"{
            "object": "list",
            "has_more": false,
            "data": [
                {
                    "object": "bulk_data",
                    "type": "default_cards",
                    "jsonl_download_uri": "https://data.scryfall.io/default-cards/default-cards.jsonl.gz"
                }
            ]
        }"#;

    let json: Value = serde_json::from_str(manifest_json).unwrap();
    let data: Vec<BulkDataEntry> = json["data"]
        .as_array()
        .unwrap()
        .iter()
        .map(|entry| BulkDataEntry {
            data_type: text_of(&entry["type"]),
            jsonl_download_uri: text_of(&entry["jsonl_download_uri"]),
        })
        .collect();
    let manifest: ScryfallData<BulkDataEntry> = ScryfallData { data, next_page: None };
    let entry = &manifest.data[0];

    assert_eq!(entry.data_type, "default_cards");
    assert_eq!(
        entry.jsonl_download_uri,
        "https://data.scryfall.io/default-cards/default-cards.jsonl.gz"
    );
    assert_eq!(
        default_cards_uri(&manifest.data).unwrap(),
        "https://data.scryfall.io/default-cards/default-cards.jsonl.gz"
    );
}

#[test]
fn parse_bulk_cards_reads_gzipped_jsonl() {
    let compressed = gzip(BULK_SAMPLE_JSONL.as_bytes());

    let cards = parse_bulk_cards(&compressed, read_card).unwrap();

    assert_eq!(cards.len(), 2);
    assert_eq!(cards[0].name, "Forest");
    assert_eq!(cards[1].name, "Fury Sliver");
}

#[test]
fn decompress_gives_back_what_was_compressed() {
    let text = "caf\u{e9} \u{1f332}\nline";
    assert_eq!(decompress(&gzip(text.as_bytes())).unwrap(), text);
    assert_eq!(decompress(&gzip(b"")).unwrap(), "");
}

#[test]
fn bytes_that_are_no_gzip_are_a_parse_error() {
    assert!(matches!(decompress(b""), Err(ScryfallError::ParseError)));
    assert!(matches!(decompress(b"{\"name\":\"Forest\"}"), Err(ScryfallError::ParseError)));
    let outcome = parse_bulk_cards(b"plain text", read_card);
    assert!(matches!(outcome, Err(ScryfallError::ParseError)));
}

#[test]
fn a_truncated_download_is_a_parse_error() {
    let mut compressed = gzip(BULK_SAMPLE_JSONL.as_bytes());
    compressed.pop();
    let outcome = parse_bulk_cards(&compressed, read_card);
    assert!(matches!(outcome, Err(ScryfallError::ParseError)));
}

#[test]
fn text_that_is_not_utf8_is_a_parse_error() {
    assert!(matches!(decompress(&gzip(&[0xff, 0xfe])), Err(ScryfallError::ParseError)));
}

#[test]
fn one_refused_record_refuses_all() {
    let compressed = gzip(b"{\"name\":\"Forest\"}\nnot json\n{\"name\":\"Fury Sliver\"}\n");
    let outcome = parse_bulk_cards(&compressed, read_card);
    assert!(matches!(outcome, Err(ScryfallError::ParseError)));
}

#[test]
fn decoding_stops_at_the_first_refused_record() {
    let calls = std::cell::Cell::new(0);
    let lines = vec!["1".to_string(), "x".to_string(), "3".to_string()];
    let outcome = decode_records(&lines, |line: &str| {
        calls.set(calls.get() + 1);
        line.parse::<u8>()
    });
    assert!(matches!(outcome, Err(ScryfallError::ParseError)));
    assert_eq!(calls.get(), 2);
}

#[test]
fn a_download_without_records_has_no_cards() {
    assert_eq!(parse_bulk_cards(&gzip(b""), read_card).unwrap().len(), 0);
    assert_eq!(parse_bulk_cards(&gzip(b"\n\r\n\n"), read_card).unwrap().len(), 0);
}

#[test]
fn records_are_the_lines_that_are_not_empty() {
    assert_eq!(records("a\r\n\nb"), vec!["a", "b"]);
    assert_eq!(records("\n\na\n\n"), vec!["a"]);
    assert_eq!(records("foo\nbar\n\r\nbaz\r"), vec!["foo", "bar", "baz\r"]);
    assert_eq!(records("a\r\r\nb"), vec!["a\r", "b"]);
    assert_eq!(records(" \n"), vec![" "]);
    assert_eq!(records("\r"), vec!["\r"]);
    assert!(records("").is_empty());
}

#[test]
fn records_are_what_std_makes_of_lines() {
    let samples = ["", "\n", "\r\n", "\r", "a", "a\n", "a\r", "a\r\n", "a\n\rb\r\n\r\nc", "\u{e9}\n\u{85}x"];
    for text in samples {
        let expected: Vec<&str> = text.lines().filter(|line| !line.is_empty()).collect();
        assert_eq!(records(text), expected);
    }
}

#[test]
fn written_records_are_read_back() {
    let lines = vec!["{}", "[1, 2]", "\"x y\""];
    let mut text = String::new();
    for line in &lines {
        text.push_str(line);
        text.push('\n');
    }
    assert_eq!(records(&text), lines);
}

#[test]
fn the_last_line_feed_is_optional() {
    for text in ["", "a", "a\nb", "a\n", "a\r\nb"] {
        assert_eq!(records(&format!("{text}\n")), records(text));
    }
    assert_eq!(records("a\r"), vec!["a\r"]);
    assert_eq!(records("a\r\n"), vec!["a"]);
}

#[test]
fn a_failure_to_decompress_is_explained() {
    assert!(decompression_failure(&gzip(b"{}")).is_none());
    let mut compressed = gzip(b"{}");
    compressed.pop();
    let why = decompression_failure(&compressed).unwrap();
    assert_eq!(why.kind(), std::io::ErrorKind::UnexpectedEof);
    let why = decompression_failure(&gzip(&[0xff, 0xfe])).unwrap();
    assert_eq!(why.kind(), std::io::ErrorKind::InvalidData);
}

#[test]
fn joined_texts_join_their_records() {
    let texts = ["", "a", "a\nb", "a\n", "\n\na", "a\r\nb\r\n", "\r\n"];
    for first in texts {
        for second in texts {
            let mut parts = records(first);
            parts.extend(records(second));
            assert_eq!(records(&format!("{first}\n{second}")), parts);
        }
    }
    assert_eq!(records("a\r\nb"), vec!["a", "b"]);
}

#[test]
fn joined_downloads_join_their_cards() {
    let names = |text: &str| -> Vec<String> {
        let cards = parse_bulk_cards(&gzip(text.as_bytes()), read_card).unwrap();
        cards.into_iter().map(|card| card.name).collect()
    };
    let first = "{\"name\":\"Forest\"}\n{\"name\":\"Island\"}";
    let second = "{\"name\":\"Fury Sliver\"}\n";
    assert_eq!(names(&format!("{first}\n{second}")), vec!["Forest", "Island", "Fury Sliver"]);
    assert_eq!(names(&format!("{first}\r\n{second}")), vec!["Forest", "Island", "Fury Sliver"]);
    assert_eq!(names(&format!("{first}\r")), vec!["Forest", "Island"]);
    assert_eq!(names(&format!("{second}\n{first}")), vec!["Fury Sliver", "Forest", "Island"]);
}
