//! The bundle document: declaration, preamble, the folder structure written
//! by an XML emitter, and one block per file with its raw contents inlined
//! without escaping.
use vstd::prelude::*;
use vstd::string::StringSliceAdditionalSpecFns;
use crate::content::{decode_content, decoded_text};
use crate::classify::opt_view;
use crate::filelist::{folder_steps, step_models, structure_steps, FolderNode, StepModel, StructureStep};
use crate::numbering::{add_line_numbers, line_count, line_numbered};
use crate::text::{decimal, decimal_string, lines_of};
use crate::tokenizer::TokenizerType;

verus! {

/// The document declaration and the opening of the root element.
pub const DOCUMENT_START: &'static str = "<?xml version=\"1.0\" encoding=\"utf-8\"?>\n<repository>\n";

/// The preamble up to the instruction on line numbers.
pub const SUMMARY_HEAD: &'static str = "<file_summary>\n  <purpose>\n    This file contains a packed representation of the entire repository's contents.\n    It is designed to be easily consumable by AI systems for analysis, code review,\n    or other automated processes.\n  </purpose>\n\n  <file_format>\n    The content is organized as follows:\n    1. This summary section\n    2. Repository structure: A hierarchical listing of all folders and files in the repository.\n    3. Repository files: Each file is listed with:\n      - File path as an attribute\n      - Full contents of the file, excluding binary files.\n  </file_format>\n\n  <instructions>\n    - The LLM is instructed to focus solely on the repository's contents, including\n      the code, file structure, and purpose of the files.\n    - Do not comment on the XML format, structure, or encoding of THIS FILE. Focus\n      your analysis on the functionality, structure, and organization of the\n      repository contents.";

/// The instruction that is present when lines are numbered.
pub const SUMMARY_LINE_NUMBERS: &'static str = "\n    - Line numbers have been added to the code for reference. Please use them for\n      referring to specific lines of code when needed. However, do NOT include line\n      numbers when outputting or displaying code in responses.";

/// The preamble after the instruction on line numbers.
pub const SUMMARY_TAIL: &'static str = "\n    - Each <file> should be interpreted based on its file extension. For example:\n      - \".py\" for Python\n      - \".md\" for Markdown\n      - \".rs\" for Rust\n      - \".cpp\" for C++\n  </instructions>\n\n  <usage_guidelines>\n    - This file should be treated as read-only. Any changes should be made to the\n      original repository files, not this packed version.\n    - When processing this file, use the file path to distinguish\n      between different files in the repository.\n    - Be aware that this file may contain sensitive information. Handle it with\n      the same level of security as you would the original repository.\n  </usage_guidelines>\n\n  <notes>\n    - Some files may have been excluded based on .gitignore rules and bundlerepo's\n      configuration.\n    - Binary files are not included in this packed representation. Please refer to\n      the Repository Structure section for a complete list of file paths, including\n      binary files.\n  </notes>\n\n  <additional_info>\n    For more information about bundlerepo, visit: https://github.com/seapagan/bundle-repo\n  </additional_info>\n</file_summary>\n";

/// The text of the structure section's summary element.
pub const STRUCTURE_SUMMARY: &'static str = "This node contains the hierarchical structure of the repository's files and folders.";

/// What stands between the structure section and the first file block.
pub const FILES_START: &'static str = "\n\n<repository_files>\n<summary>This node contains a list of files with their full paths and raw contents.</summary>\n";

/// The closing of the files section and of the root element.
pub const DOCUMENT_END: &'static str = "</repository_files>\n</repository>\n";

/// The body of a binary file's block.
pub const BINARY_NOTE: &'static str = "\n<!-- This file is a binary file and not included -->\n</file>\n\n";

/// The preamble, with the line-number instruction only when lines are numbered.
pub open spec fn summary_text(line_numbers: bool) -> Seq<char> {
    SUMMARY_HEAD@ + (if line_numbers {
        SUMMARY_LINE_NUMBERS@
    } else {
        Seq::empty()
    }) + SUMMARY_TAIL@
}

/// Everything before the structure section.
pub open spec fn document_head(line_numbers: bool) -> Seq<char> {
    DOCUMENT_START@ + summary_text(line_numbers)
}

/// Writes the preamble; only the line-number instruction depends on the flag.
pub fn append_file_summary(out: &mut String, line_numbers: bool)
    ensures
        final(out)@ == old(out)@ + summary_text(line_numbers),
{
    out.append(SUMMARY_HEAD);
    if line_numbers {
        out.append(SUMMARY_LINE_NUMBERS);
    }
    out.append(SUMMARY_TAIL);
    assert(final(out)@ =~= old(out)@ + summary_text(line_numbers));
}

/// What a file's block holds, as the caller found it on disk.
pub enum FileBody {
    /// The file was classified as binary.
    Binary,
    /// The file's bytes.
    Text(Vec<u8>),
    /// The file could not be read; the description of the failure.
    Unreadable(String),
}

/// The opening tag of a file block.
pub open spec fn open_tag(path: Seq<char>, size: nat, lines: nat) -> Seq<char> {
    "<file path=\""@ + path + "\" size=\""@ + decimal(size) + "\" lines=\""@ + decimal(lines)
        + "\">"@
}

/// The text inlined for a file's bytes: decoded, and numbered when asked.
pub open spec fn shown_text(bytes: Seq<u8>, line_numbers: bool, force_utf8: bool) -> Seq<char> {
    if line_numbers {
        line_numbered(decoded_text(bytes, force_utf8))
    } else {
        decoded_text(bytes, force_utf8)
    }
}

/// The block of one file: a binary file gets a placeholder and no lines,
/// a text file its (possibly numbered) contents and their line count, and an
/// unreadable one the failure with size and line count zero.
pub open spec fn file_block(path: Seq<char>, size: nat, body: FileBody, line_numbers: bool, force_utf8: bool) -> Seq<char> {
    match body {
        FileBody::Binary => open_tag(path, size, 0) + BINARY_NOTE@,
        FileBody::Text(bytes) => {
            let shown = shown_text(bytes@, line_numbers, force_utf8);
            open_tag(path, size, lines_of(shown).len()) + "\n"@ + shown + "</file>\n\n"@
        },
        FileBody::Unreadable(message) => open_tag(path, 0, 0) + "<!-- Failed to read file: "@
            + message@ + " -->\n</file>\n\n"@,
    }
}

fn append_open_tag(out: &mut String, path: &str, size: u64, lines: u64)
    ensures
        final(out)@ == old(out)@ + open_tag(path@, size as nat, lines as nat),
{
    out.append("<file path=\"");
    out.append(path);
    out.append("\" size=\"");
    let size_text = decimal_string(size);
    out.append(size_text.as_str());
    out.append("\" lines=\"");
    let lines_text = decimal_string(lines);
    out.append(lines_text.as_str());
    out.append("\">");
    assert(final(out)@ =~= old(out)@ + open_tag(path@, size as nat, lines as nat));
}

/// Writes the block of one file.
pub fn append_file_block(out: &mut String, path: &str, size: u64, body: FileBody, line_numbers: bool, force_utf8: bool)
    ensures
        final(out)@ == old(out)@ + file_block(path@, size as nat, body, line_numbers, force_utf8),
{
    let ghost b = body;
    match body {
        FileBody::Binary => {
            append_open_tag(out, path, size, 0);
            out.append(BINARY_NOTE);
        },
        FileBody::Text(bytes) => {
            let decoded = decode_content(bytes, force_utf8);
            let shown = if line_numbers {
                add_line_numbers(decoded.as_str())
            } else {
                decoded
            };
            let lines = line_count(shown.as_str());
            append_open_tag(out, path, size, lines as u64);
            out.append("\n");
            out.append(shown.as_str());
            out.append("</file>\n\n");
        },
        FileBody::Unreadable(message) => {
            append_open_tag(out, path, 0, 0);
            out.append("<!-- Failed to read file: ");
            out.append(message.as_str());
            out.append(" -->\n</file>\n\n");
        },
    }
    assert(final(out)@ =~= old(out)@ + file_block(path@, size as nat, b, line_numbers, force_utf8));
}

/// One event handed to the XML emitter.
pub enum XmlEvent {
    /// Opens an element without attributes.
    Open(String),
    /// Opens an element with one attribute (element, attribute, value).
    OpenWith(String, String, String),
    /// Text inside the current element.
    Text(String),
    /// Closes the innermost open element.
    Close,
}

/// An emitter event over character sequences.
pub enum XmlEventModel {
    Open(Seq<char>),
    OpenWith(Seq<char>, Seq<char>, Seq<char>),
    Text(Seq<char>),
    Close,
}

impl XmlEvent {
    pub open spec fn model(self) -> XmlEventModel {
        match self {
            XmlEvent::Open(n) => XmlEventModel::Open(n@),
            XmlEvent::OpenWith(n, k, v) => XmlEventModel::OpenWith(n@, k@, v@),
            XmlEvent::Text(t) => XmlEventModel::Text(t@),
            XmlEvent::Close => XmlEventModel::Close,
        }
    }
}

/// The models of a sequence of events.
pub open spec fn event_models(events: Seq<XmlEvent>) -> Seq<XmlEventModel> {
    events.map_values(|e: XmlEvent| e.model())
}

/// The text that the indenting XML emitter, writing no declaration, makes of
/// `events`; nothing when it refuses them.
pub uninterp spec fn xml_emitted(events: Seq<XmlEventModel>) -> Option<Seq<char>>;

/// Relies on `xml::writer::EmitterConfig` (`new`, `perform_indent`,
/// `write_document_declaration`, `create_writer`), `xml::writer::EventWriter`
/// (`write` with `start_element`, `attr`, `characters`, `end_element`;
/// `into_inner`) and `String::from_utf8`: the text the emitter writes for the
/// events, which depends on the events alone.
#[verifier::external_body]
fn emit_xml(events: &Vec<XmlEvent>) -> (r: Option<String>)
    ensures
        opt_view(r) == xml_emitted(event_models(events@)),
{
    let mut w = xml::writer::EmitterConfig::new().perform_indent(true).write_document_declaration(false).create_writer(Vec::new());
    for e in events.iter() {
        let written = match e {
            XmlEvent::Open(n) => w.write(xml::writer::XmlEvent::start_element(n.as_str())),
            XmlEvent::OpenWith(n, k, v) => w.write(xml::writer::XmlEvent::start_element(n.as_str()).attr(k.as_str(), v)),
            XmlEvent::Text(t) => w.write(xml::writer::XmlEvent::characters(t)),
            XmlEvent::Close => w.write(xml::writer::XmlEvent::end_element()),
        };
        if written.is_err() {
            return None;
        }
    }
    String::from_utf8(w.into_inner()).ok()
}

/// The events of one step of writing out a folder tree: an empty `file`
/// element per file, a `folder` element opened and closed around a child.
pub open spec fn step_events(step: StepModel) -> Seq<XmlEventModel> {
    match step {
        StepModel::File(n) => seq![XmlEventModel::OpenWith("file"@, "path"@, n), XmlEventModel::Close],
        StepModel::OpenFolder(n) => seq![XmlEventModel::OpenWith("folder"@, "name"@, n)],
        StepModel::CloseFolder => seq![XmlEventModel::Close],
    }
}

/// The events of a sequence of steps, one after the other.
pub open spec fn steps_events(steps: Seq<StepModel>) -> Seq<XmlEventModel>
    decreases steps.len(),
{
    if steps.len() == 0 {
        Seq::empty()
    } else {
        steps_events(steps.drop_last()) + step_events(steps.last())
    }
}

/// The events of the structure section: the `repository_structure` element
/// holding the `summary` element and the folder tree below `root`.
pub open spec fn structure_events(root: FolderNode) -> Seq<XmlEventModel> {
    seq![
        XmlEventModel::Open("repository_structure"@),
        XmlEventModel::Open("summary"@),
        XmlEventModel::Text(STRUCTURE_SUMMARY@),
        XmlEventModel::Close,
    ] + steps_events(folder_steps(root)) + seq![XmlEventModel::Close]
}

proof fn lemma_event_models_push(v: Seq<XmlEvent>, x: XmlEvent)
    ensures
        event_models(v.push(x)) == event_models(v).push(x.model()),
{
    assert(event_models(v.push(x)) =~= event_models(v).push(x.model()));
}

/// Appends the events of the tree below `node`: each file of a folder as an
/// empty `file` element in order, then each child folder, in name order, as
/// a `folder` element around its own events.
pub fn write_folder_to_xml(events: &mut Vec<XmlEvent>, node: &FolderNode)
    ensures
        event_models(final(events)@) == event_models(old(events)@) + steps_events(folder_steps(*node)),
{
    let steps = structure_steps(node);
    let ghost start = event_models(events@);
    let ghost all = step_models(steps@);
    let mut i: usize = 0;
    while i < steps.len()
        invariant
            i <= steps@.len(),
            all == step_models(steps@),
            event_models(events@) == start + steps_events(all.take(i as int)),
        decreases steps@.len() - i,
    {
        let ghost before = event_models(events@);
        proof {
            assert(all.take(i + 1).drop_last() =~= all.take(i as int));
            assert(all.take(i + 1).last() == steps@[i as int].model());
        }
        match &steps[i] {
            StructureStep::File(name) => {
                let e1 = XmlEvent::OpenWith(String::from_str("file"), String::from_str("path"), name.clone());
                proof { lemma_event_models_push(events@, e1); }
                events.push(e1);
                proof { lemma_event_models_push(events@, XmlEvent::Close); }
                events.push(XmlEvent::Close);
            },
            StructureStep::OpenFolder(name) => {
                let e1 = XmlEvent::OpenWith(String::from_str("folder"), String::from_str("name"), name.clone());
                proof { lemma_event_models_push(events@, e1); }
                events.push(e1);
            },
            StructureStep::CloseFolder => {
                proof { lemma_event_models_push(events@, XmlEvent::Close); }
                events.push(XmlEvent::Close);
            },
        }
        assert(event_models(events@) =~= before + step_events(steps@[i as int].model()));
        i = i + 1;
    }
    assert(all.take(steps@.len() as int) =~= all);
}

/// The structure section as the XML emitter writes it: a
/// `repository_structure` element holding its summary and the folder tree
/// (see `structure_events`). Fails only where the emitter does.
pub fn structure_section(root: &FolderNode) -> (r: Result<String, String>)
    ensures
        match xml_emitted(structure_events(*root)) {
            Some(t) => r is Ok && r->Ok_0@ == t,
            None => r is Err && r->Err_0@ == "the XML emitter refused the structure section"@,
        },
{
    let mut events: Vec<XmlEvent> = Vec::new();
    events.push(XmlEvent::Open(String::from_str("repository_structure")));
    events.push(XmlEvent::Open(String::from_str("summary")));
    events.push(XmlEvent::Text(String::from_str(STRUCTURE_SUMMARY)));
    events.push(XmlEvent::Close);
    let ghost head = event_models(events@);
    write_folder_to_xml(&mut events, root);
    let ghost mid = event_models(events@);
    proof { lemma_event_models_push(events@, XmlEvent::Close); }
    events.push(XmlEvent::Close);
    assert(event_models(events@) =~= structure_events(*root));
    match emit_xml(&events) {
        Some(s) => Ok(s),
        None => Err(String::from_str("the XML emitter refused the structure section")),
    }
}

/// A document being written: its text so far and how many file blocks it
/// holds, with the options that shape the file blocks.
pub struct Document {
    pub text: String,
    pub files: usize,
    pub line_numbers: bool,
    pub force_utf8: bool,
}

impl Document {
    /// Starts a document: declaration, root element, preamble, the given
    /// structure section, and the opening of the files section.
    pub fn begin(line_numbers: bool, force_utf8: bool, structure: &str) -> (d: Document)
        ensures
            d.text@ == document_head(line_numbers) + structure@ + FILES_START@,
            d.files == 0,
            d.line_numbers == line_numbers,
            d.force_utf8 == force_utf8,
    {
        let mut text = String::from_str(DOCUMENT_START);
        append_file_summary(&mut text, line_numbers);
        text.append(structure);
        text.append(FILES_START);
        Document { text, files: 0, line_numbers, force_utf8 }
    }

    /// Starts the document of a folder tree, its structure section written by
    /// the XML emitter; fails only where the emitter does.
    pub fn for_tree(root: &FolderNode, line_numbers: bool, force_utf8: bool) -> (r: Result<Document, BundleError>)
        ensures
            match xml_emitted(structure_events(*root)) {
                Some(t) => r matches Ok(d) && d.text@ == document_head(line_numbers) + t + FILES_START@
                    && d.files == 0 && d.line_numbers == line_numbers && d.force_utf8 == force_utf8,
                None => r is Err && r->Err_0 is Structure,
            },
    {
        match structure_section(root) {
            Ok(structure) => Ok(Document::begin(line_numbers, force_utf8, structure.as_str())),
            Err(e) => Err(BundleError::Structure(e)),
        }
    }

    /// Appends the block of the next file.
    pub fn add_file(&mut self, path: &str, size: u64, body: FileBody)
        requires
            old(self).files < usize::MAX,
        ensures
            final(self).text@ == old(self).text@ + file_block(
                path@,
                size as nat,
                body,
                old(self).line_numbers,
                old(self).force_utf8,
            ),
            final(self).files == old(self).files + 1,
            final(self).line_numbers == old(self).line_numbers,
            final(self).force_utf8 == old(self).force_utf8,
    {
        append_file_block(&mut self.text, path, size, body, self.line_numbers, self.force_utf8);
        self.files = self.files + 1;
    }

    /// Closes the files section and the root element.
    pub fn finish(self) -> (r: String)
        ensures
            r@ == self.text@ + DOCUMENT_END@,
    {
        let mut text = self.text;
        text.append(DOCUMENT_END);
        text
    }
}

/// Where the finished document goes.
#[derive(PartialEq, Eq, Structural, Clone, Copy, Debug)]
pub enum Sink {
    /// Shown once and not kept (standard output): no metrics are reported.
    Display,
    /// Kept (a file or the clipboard): size and token count are reported.
    Persisted,
}

/// The fatal errors of a run.
#[derive(PartialEq, Eq, Debug)]
pub enum BundleError {
    /// The destination could not be written.
    Sink(String),
    /// The tokenizer could not count the document's tokens.
    Tokenizer(String),
    /// The XML emitter failed on the structure section.
    Structure(String),
}

/// The metrics of a persisted document once its tokens were counted:
/// file count, byte size and token count, or the tokenizer's failure.
pub fn persisted_metrics(file_count: usize, document: &str, counted: Result<usize, String>) -> (r: Result<(usize, u64, usize), BundleError>)
    ensures
        match counted {
            Ok(tokens) => r == Ok::<(usize, u64, usize), BundleError>((file_count, document.len() as u64, tokens)),
            Err(e) => r == Err::<(usize, u64, usize), BundleError>(BundleError::Tokenizer(e)),
        },
{
    match counted {
        Ok(tokens) => Ok((file_count, document.len() as u64, tokens)),
        Err(e) => Err(BundleError::Tokenizer(e)),
    }
}

/// The result of a run once the document was handed to its sink: a failed
/// delivery is fatal; a displayed document reports its file count and zero
/// size and tokens; a persisted one has its tokens counted.
pub fn report(
    file_count: usize,
    document: &str,
    sink: Sink,
    delivered: Result<(), String>,
    tokenizer: &TokenizerType,
) -> (r: Result<(usize, u64, usize), BundleError>)
    ensures
        delivered matches Err(e) ==> r == Err::<(usize, u64, usize), BundleError>(BundleError::Sink(e)),
        delivered is Ok && sink == Sink::Display ==> r == Ok::<(usize, u64, usize), BundleError>((file_count, 0u64, 0usize)),
        delivered is Ok && sink == Sink::Persisted ==> match r {
            Ok((n, size, _)) => n == file_count && size == document.len() as u64,
            Err(e) => e is Tokenizer,
        },
{
    match delivered {
        Err(e) => Err(BundleError::Sink(e)),
        Ok(()) => match sink {
            Sink::Display => Ok((file_count, 0, 0)),
            Sink::Persisted => persisted_metrics(file_count, document, tokenizer.count_tokens(document)),
        },
    }
}

} // verus!
