use xpdf_tools::xpdf_info::{parse_info_text, pdf_info, PdfInfo};
use xpdf_tools::xpdf_text::{pdf_to_binary, pdf_to_text};
use xpdf_tools::{args_parser, PdfErrorKind, ProcessOutcome, XpdfTools};
use xpdf_tools::types::XpdfArgs;

const KEYS: [&str; 17] = [
    "Title",
    "Subject",
    "Keywords",
    "Author",
    "Creator",
    "Producer",
    "CreationDate",
    "ModDate",
    "Tagged",
    "Form",
    "Pages",
    "Encrypted",
    "Page size",
    "File size",
    "Optimized",
    "PDF version",
    "Metadata",
];

#[test]
fn no_colon_lines_leave_all_fields_absent() {
    let map = parse_info_text("a document\nwith no labeled lines\n\njust prose\n", false);
    for key in KEYS {
        assert_eq!(map.get(key), Some(&None));
    }
}

#[test]
fn title_line_is_extracted_and_trimmed() {
    let map = parse_info_text("Title: Example Doc\n", false);
    assert_eq!(map.get("Title"), Some(&Some("Example Doc".to_string())));

    let map = parse_info_text("Title:   Example Doc   \nPages: 2\n", false);
    assert_eq!(map.get("Title"), Some(&Some("Example Doc".to_string())));
    assert_eq!(map.get("Pages"), Some(&Some("2".to_string())));
    assert_eq!(map.get("Author"), Some(&None));
}

#[test]
fn labels_match_exactly() {
    // A label with a leading space is not a predeclared key.
    let map = parse_info_text("12 Title: X\n", false);
    assert_eq!(map.get("Title"), Some(&None));

    // Keys holding a space are matched too.
    let map = parse_info_text("Page size: 612 x 792 pts (letter)\n", false);
    assert_eq!(map.get("Page size"), Some(&Some("612 x 792 pts (letter)".to_string())));

    // Unknown labels are ignored without error.
    let map = parse_info_text("Dimensions: 10 x 10\nPages: 3\n", false);
    assert_eq!(map.get("Pages"), Some(&Some("3".to_string())));
}

#[test]
fn empty_value_after_colon() {
    // A space after the colon yields a present-but-empty value, distinct
    // from absent.
    let map = parse_info_text("Title: \n", false);
    assert_eq!(map.get("Title"), Some(&Some("".to_string())));

    // Nothing at all after the colon also yields the empty value.
    let map = parse_info_text("Title:\n", false);
    assert_eq!(map.get("Title"), Some(&Some("".to_string())));
}

#[test]
fn last_match_wins() {
    let map = parse_info_text("Title: first\nTitle: second\n", false);
    assert_eq!(map.get("Title"), Some(&Some("second".to_string())));
}

#[test]
fn crlf_lines_are_handled() {
    let map = parse_info_text("Title: Example\r\nPages: 7\r\n", false);
    assert_eq!(map.get("Title"), Some(&Some("Example".to_string())));
    assert_eq!(map.get("Pages"), Some(&Some("7".to_string())));
}

#[test]
fn metadata_block_extracted_when_requested() {
    let text = "Title: T\n<?xpacket begin=\"a\" id=\"b\"?>\nline one\n   \n\nline two\n<?xpacket end=\"r\"?>\ntrailer\n";
    let map = parse_info_text(text, true);
    assert_eq!(
        map.get("Metadata"),
        Some(&Some(
            "<?xpacket begin=\"a\" id=\"b\"?>\nline one\nline two\n<?xpacket end=\"r\"?>".to_string()
        ))
    );

    // The same text without the flag: the block is not extracted.
    let map = parse_info_text(text, false);
    assert_eq!(map.get("Metadata"), Some(&None));
}

#[test]
fn metadata_block_requires_both_markers() {
    let map = parse_info_text("<?xpacket begin=\"a\"?>\nno end marker\n", true);
    assert_eq!(map.get("Metadata"), Some(&None));

    let map = parse_info_text("no begin marker\n<?xpacket end=\"r\"?>\n", true);
    assert_eq!(map.get("Metadata"), Some(&None));
}

#[test]
fn pdf_info_spawn_failure() {
    let tools = XpdfTools::builder("./tools".to_string(), Some(vec!["pdfinfo".to_string()]))
        .unwrap()
        .build();
    let outcome = ProcessOutcome::SpawnFailed {
        description: "No such file or directory (os error 2)".to_string(),
    };
    let e = pdf_info(&tools, &outcome).unwrap_err();
    assert_eq!(e.error_kind, PdfErrorKind::PdfInfoError);
    assert_eq!(e.message, "pdf_info error");
    assert_eq!(e.process_message, "No such file or directory (os error 2)");
}

#[test]
fn pdf_info_parses_stdout() {
    let tools = XpdfTools::builder("./tools".to_string(), Some(vec!["pdfinfo".to_string()]))
        .unwrap()
        .build();
    let outcome = ProcessOutcome::Spawned {
        stdout: b"Title: Example Doc\nPages: 4\n".to_vec(),
        stderr: Vec::new(),
    };
    let info: PdfInfo = pdf_info(&tools, &outcome).unwrap();
    assert_eq!(info.raw, "Title: Example Doc\nPages: 4\n");
    assert_eq!(info.info_map.get("Title"), Some(&Some("Example Doc".to_string())));
    assert_eq!(info.info_map.get("Pages"), Some(&Some("4".to_string())));
}

#[test]
fn empty_output_is_distinct_from_spawn_failure() {
    // A tool that ran but emitted nothing.
    let ran_empty = ProcessOutcome::Spawned {
        stdout: Vec::new(),
        stderr: b"Syntax Error: bad xref\n".to_vec(),
    };
    let e1 = pdf_to_binary("./doc.pdf", &ran_empty).unwrap_err();
    assert_eq!(e1.error_kind, PdfErrorKind::PdfToTextErrorNoOutput);
    assert_eq!(e1.message, "pdf_to_text parse error: ./doc.pdf");
    assert_eq!(e1.process_message, "Syntax Error: bad xref\n");

    // A tool that could not run at all.
    let failed = ProcessOutcome::SpawnFailed {
        description: "permission denied".to_string(),
    };
    let e2 = pdf_to_binary("./doc.pdf", &failed).unwrap_err();
    assert_eq!(e2.error_kind, PdfErrorKind::PdfToTextError);
    assert_eq!(e2.message, "pdf_to_text parse error: ./doc.pdf");
    assert_eq!(e2.process_message, "permission denied");

    assert_ne!(e1.error_kind, e2.error_kind);
}

#[test]
fn nonempty_output_is_success_as_bytes_and_text() {
    let outcome = ProcessOutcome::Spawned {
        stdout: b"some extracted text".to_vec(),
        stderr: b"a warning".to_vec(),
    };
    assert_eq!(
        pdf_to_binary("./doc.pdf", &outcome).unwrap(),
        b"some extracted text".to_vec()
    );
    assert_eq!(pdf_to_text("./doc.pdf", &outcome).unwrap(), "some extracted text");
}

#[test]
fn valid_utf8_output_decodes_losslessly() {
    // Non-ASCII but valid UTF-8 comes through unchanged.
    let outcome = ProcessOutcome::Spawned {
        stdout: "h\u{e9}llo \u{2014} texte".as_bytes().to_vec(),
        stderr: Vec::new(),
    };
    let text = pdf_to_text("./doc.pdf", &outcome).unwrap();
    assert_eq!(text, "h\u{e9}llo \u{2014} texte");
    assert_eq!(text.as_bytes(), "h\u{e9}llo \u{2014} texte".as_bytes());
}

#[test]
fn lossy_decoding_replaces_invalid_bytes() {
    // The decoded form really is the lossy UTF-8 decoding, not the raw bytes.
    let outcome = ProcessOutcome::Spawned {
        stdout: vec![0xff, b'a'],
        stderr: Vec::new(),
    };
    assert_eq!(pdf_to_text("./doc.pdf", &outcome).unwrap(), "\u{FFFD}a");
}

#[test]
fn compile_filters_per_tool() {
    let args = vec![
        XpdfArgs::FirstPage(2),
        XpdfArgs::Metadata,
        XpdfArgs::Encoding("UTF-8".into()),
        XpdfArgs::Layout,
        XpdfArgs::RawDates,
    ];
    assert_eq!(
        args_parser(&args, "pdfinfo"),
        vec!["-f", "2", "-meta", "-enc", "UTF-8", "-rawdates"]
    );
    assert_eq!(
        args_parser(&args, "pdftotext"),
        vec!["-f", "2", "-enc", "UTF-8", "-layout"]
    );
    // An unrecognized tool keeps nothing.
    assert_eq!(args_parser(&args, "pdftoWindmill"), Vec::<String>::new());
    // Identical inputs yield identical output.
    assert_eq!(args_parser(&args, "pdfinfo"), args_parser(&args, "pdfinfo"));
}

#[test]
fn compile_splits_on_every_space() {
    // Operand strings are inserted verbatim; spaces inside them split into
    // further tokens, and an empty operand yields an empty token.
    let args = vec![XpdfArgs::Encoding("a b".into()), XpdfArgs::Eol("".into())];
    assert_eq!(args_parser(&args, "pdftotext"), vec!["-enc", "a", "b", "-eol", ""]);
}

#[test]
fn pdf_info_without_meta_flag_skips_block() {
    let tools = XpdfTools::builder("./tools".to_string(), Some(vec!["pdfinfo".to_string()]))
        .unwrap()
        .extra_args(vec![XpdfArgs::RawDates])
        .build();
    let outcome = ProcessOutcome::Spawned {
        stdout: b"Title: T\n<?xpacket begin=\"a\"?>\n<x/>\n<?xpacket end=\"r\"?>\n".to_vec(),
        stderr: Vec::new(),
    };
    let info = pdf_info(&tools, &outcome).unwrap();
    assert_eq!(info.info_map.get("Title"), Some(&Some("T".to_string())));
    assert_eq!(info.info_map.get("Metadata"), Some(&None));
}
