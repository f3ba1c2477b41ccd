use engineqa_backend::chunker::{create_overlapping_chunks, parse_and_chunk, parse_sections, Chunk, Section};
use engineqa_backend::indexer::compute_doc_id;

const HELLO_SHA256: &str = "2cf24dba5fb0a30e26e83b2ac5b9e29e1b161e5c1fa7425e73043362938b9824";

fn section(text: &str) -> Section {
    Section { title_path: "T".to_string(), section: "S".to_string(), text: text.to_string() }
}

fn windows(text: &str, size: usize, overlap: usize) -> Vec<Chunk> {
    let mut out = Vec::new();
    create_overlapping_chunks("doc", "doc.md", &section(text), size, overlap, &mut out);
    out
}

#[test]
fn short_content_is_one_chunk() {
    let out = windows("hello", 5, 2);
    assert_eq!(out.len(), 1);
    assert_eq!(out[0].text, "hello");
    assert_eq!(out[0].chunk_id, "doc_chunk_0");
    assert_eq!(out[0].hash, HELLO_SHA256);
}

#[test]
fn long_content_is_split_into_overlapping_windows() {
    let out = windows("abcdefghij", 4, 1);
    let texts: Vec<&str> = out.iter().map(|c| c.text.as_str()).collect();
    assert_eq!(texts, vec!["abcd", "defg", "ghij"]);
    let ids: Vec<&str> = out.iter().map(|c| c.chunk_id.as_str()).collect();
    assert_eq!(ids, vec!["doc_chunk_0", "doc_chunk_1", "doc_chunk_2"]);
    assert!(out.iter().all(|c| c.title_path == "T" && c.section == "S"));
}

#[test]
fn windows_end_exactly_at_end_of_text() {
    let out = windows("abcdefgh", 4, 0);
    let texts: Vec<&str> = out.iter().map(|c| c.text.as_str()).collect();
    assert_eq!(texts, vec!["abcd", "efgh"]);
}

#[test]
fn windows_count_characters_not_bytes() {
    let out = windows("一二三四五六", 4, 2);
    let texts: Vec<&str> = out.iter().map(|c| c.text.as_str()).collect();
    assert_eq!(texts, vec!["一二三四", "三四五六"]);
}

#[test]
fn headings_build_breadcrumbs() {
    let doc = "# Guide\nintro text\n## Setup\nsetup text\n### Details\ndetail text\n## Usage\nusage text\n";
    let sections = parse_sections(doc);
    let got: Vec<(&str, &str, &str)> = sections
        .iter()
        .map(|s| (s.title_path.as_str(), s.section.as_str(), s.text.as_str()))
        .collect();
    assert_eq!(
        got,
        vec![
            ("Guide", "Guide", "intro text"),
            ("Guide / Setup", "Setup", "setup text"),
            ("Guide / Setup > Details", "Details", "detail text"),
            ("Guide / Setup > Details / Usage", "Usage", "usage text"),
        ]
    );
}

#[test]
fn level_one_heading_replaces_breadcrumb() {
    let sections = parse_sections("## A\none\n# B\ntwo\n#### C\nthree");
    let got: Vec<(&str, &str)> = sections.iter().map(|s| (s.title_path.as_str(), s.section.as_str())).collect();
    assert_eq!(got, vec![("A", "A"), ("B", "B"), ("B", "C")]);
}

#[test]
fn document_without_headings_is_one_section() {
    let sections = parse_sections("line one\r\n  line two  \n");
    assert_eq!(sections.len(), 1);
    assert_eq!(sections[0].title_path, "");
    assert_eq!(sections[0].section, "");
    assert_eq!(sections[0].text, "line one\n  line two");
}

#[test]
fn headings_without_body_yield_no_chunk() {
    let sections = parse_sections("# A\n\n## B\n   \n");
    assert!(sections.is_empty());
    assert!(parse_and_chunk("# A\n\n## B\n", "a.md", "a", 10, 2).is_empty());
}

#[test]
fn parse_and_chunk_expands_each_section() {
    let chunks = parse_and_chunk("# H\nhello\n# Long\nabcdefghij", "dir/x.md", "dir_x.md", 5, 1);
    let got: Vec<(&str, &str, &str)> = chunks
        .iter()
        .map(|c| (c.section.as_str(), c.chunk_id.as_str(), c.text.as_str()))
        .collect();
    assert_eq!(
        got,
        vec![
            ("H", "dir_x.md_chunk_0", "hello"),
            ("Long", "dir_x.md_chunk_0", "abcde"),
            ("Long", "dir_x.md_chunk_1", "efghi"),
            ("Long", "dir_x.md_chunk_2", "ij"),
        ]
    );
    assert!(chunks.iter().all(|c| c.doc_id == "dir_x.md" && c.path == "dir/x.md"));
    assert_eq!(chunks[0].hash, HELLO_SHA256);
}

#[test]
fn doc_ids_replace_separators() {
    assert_eq!(compute_doc_id("guides/setup.md"), "guides_setup.md");
    assert_eq!(compute_doc_id("a\\b/c.md"), "a_b_c.md");
    assert_eq!(compute_doc_id("plain.md"), "plain.md");
}

#[test]
fn scan_stops_at_first_window_reaching_the_end() {
    let text: String = std::iter::repeat('x').take(1800).collect();
    let out = windows(&text, 1000, 125);
    assert_eq!(out.len(), 2);
    assert_eq!(out[0].text.chars().count(), 1000);
    assert_eq!(out[1].text.chars().count(), 925);
}
