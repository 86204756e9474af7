use bundle_repo::classify::is_binary_sample;
use bundle_repo::document::{
    structure_section, BundleError, Document, FileBody, Sink, report, persisted_metrics,
};
use bundle_repo::filelist::group_files_by_directory;
use bundle_repo::tokenizer::Model;

fn body_of(bytes: &[u8]) -> FileBody {
    if is_binary_sample(bytes) {
        FileBody::Binary
    } else {
        FileBody::Text(bytes.to_vec())
    }
}

fn bundle(paths: &[&str], contents: &[&[u8]], line_numbers: bool, force_utf8: bool) -> String {
    let tree = group_files_by_directory(paths.iter().map(|p| p.to_string()).collect());
    let structure = structure_section(&tree.folder_node).unwrap();
    let mut doc = Document::begin(line_numbers, force_utf8, &structure);
    for (path, bytes) in tree.file_paths.iter().zip(contents.iter()) {
        doc.add_file(path, bytes.len() as u64, body_of(bytes));
    }
    doc.finish()
}

#[test]
fn text_and_binary_files_get_their_blocks() {
    let xml = bundle(&["a.txt", "b.bin"], &[b"hi", &[0u8, 1, 2, 3]], false, false);
    assert!(xml.contains("<file path=\"a.txt\" size=\"2\" lines=\"1\">\nhi</file>\n\n"));
    assert!(xml.contains(
        "<file path=\"b.bin\" size=\"4\" lines=\"0\">\n<!-- This file is a binary file and not included -->\n</file>\n\n"
    ));
    assert!(!xml.contains("\u{0}\u{1}"));
}

#[test]
fn document_has_its_sections_in_order() {
    let xml = bundle(&["test.txt"], &[b"Test content"], false, false);
    assert!(xml.starts_with("<?xml version=\"1.0\" encoding=\"utf-8\"?>\n<repository>\n<file_summary>"));
    let structure = xml.find("<repository_structure>").unwrap();
    let files = xml.find("<repository_files>").unwrap();
    assert!(structure < files);
    assert!(xml.contains("<file path=\"test.txt\""));
    assert!(xml.contains("Test content"));
    assert!(xml.ends_with("</repository_files>\n</repository>\n"));
    assert!(!xml.contains("Line numbers have been added"));
}

#[test]
fn numbered_files_mention_line_numbers() {
    let xml = bundle(&["test.txt"], &[b"Line 1\nLine 2\nLine 3"], true, false);
    assert!(xml.contains("1  Line 1"));
    assert!(xml.contains("2  Line 2"));
    assert!(xml.contains("3  Line 3"));
    assert!(xml.contains("lines=\"3\""));
    assert!(xml.contains("Line numbers have been added to the code for reference."));
}

#[test]
fn invalid_utf8_is_replaced_when_forced() {
    let xml = bundle(&["test.txt"], &[b"Hello \xFF World"], false, true);
    assert!(xml.contains("<file path=\"test.txt\""));
    assert!(xml.contains("Hello \u{FFFD} World"));
}

#[test]
fn unreadable_file_gets_a_failure_note() {
    let mut doc = Document::begin(false, false, "");
    doc.add_file("gone.txt", 12, FileBody::Unreadable("permission denied".to_string()));
    assert_eq!(doc.files, 1);
    let xml = doc.finish();
    assert!(xml.contains(
        "<file path=\"gone.txt\" size=\"0\" lines=\"0\"><!-- Failed to read file: permission denied -->\n</file>\n\n"
    ));
}

#[test]
fn structure_lists_folders_in_name_order() {
    let tree = group_files_by_directory(vec![
        "top.txt".to_string(),
        "zeta/z.rs".to_string(),
        "alpha/a.rs".to_string(),
    ]);
    let structure = structure_section(&tree.folder_node).unwrap();
    assert!(structure.contains("<repository_structure>"));
    assert!(structure.contains("<file path=\"top.txt\""));
    let alpha = structure.find("<folder name=\"alpha\">").unwrap();
    let zeta = structure.find("<folder name=\"zeta\">").unwrap();
    assert!(alpha < zeta);
    assert!(structure.contains("This node contains the hierarchical structure"));
}

#[test]
fn failed_delivery_is_fatal() {
    let tokenizer = Model::GPT4o.to_tokenizer(None).unwrap();
    let xml = bundle(&[], &[], false, false);
    let result = report(
        0,
        &xml,
        Sink::Persisted,
        Err("No such file or directory".to_string()),
        &tokenizer,
    );
    assert_eq!(result, Err(BundleError::Sink("No such file or directory".to_string())));
}

#[test]
fn displayed_document_reports_no_metrics() {
    let tokenizer = Model::GPT4.to_tokenizer(None).unwrap();
    let xml = bundle(&["test.txt"], &[b"Test content"], false, false);
    let result = report(1, &xml, Sink::Display, Ok(()), &tokenizer);
    assert_eq!(result, Ok((1, 0, 0)));
}

#[test]
fn persisted_document_reports_size_and_tokens() {
    let tokenizer = Model::GPT4.to_tokenizer(None).unwrap();
    let xml = bundle(&["test.txt"], &[b"Test content"], false, false);
    let (files, size, tokens) = report(1, &xml, Sink::Persisted, Ok(()), &tokenizer).unwrap();
    assert_eq!(files, 1);
    assert_eq!(size, xml.len() as u64);
    assert!(tokens > 0);
}

#[test]
fn tokenizer_failure_is_fatal() {
    assert_eq!(
        persisted_metrics(3, "abc", Err("boom".to_string())),
        Err(BundleError::Tokenizer("boom".to_string()))
    );
    assert_eq!(persisted_metrics(3, "abc", Ok(7)), Ok((3, 3, 7)));
}

#[test]
fn document_for_a_tree_holds_summary_then_structure() {
    let tree = group_files_by_directory(vec!["src/lib.rs".to_string()]);
    let doc = Document::for_tree(&tree.folder_node, false, false).unwrap();
    assert_eq!(doc.files, 0);
    let text = doc.finish();
    let summary = text.find("</file_summary>").unwrap();
    let structure = text.find("<repository_structure>").unwrap();
    assert!(summary < structure);
    assert!(text.contains("<folder name=\"src\">"));
    assert!(text.contains("<file path=\"lib.rs\""));
}
