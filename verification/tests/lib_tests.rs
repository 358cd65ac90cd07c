use xpdf_tools::types::XpdfArgs;
use xpdf_tools::{PdfErrorKind, ProcessOutcome, XpdfTools, XpdfToolsBuilder};

fn bin_tester_listing() -> Option<Vec<String>> {
    Some(vec![
        "pdfinfo.exe".to_string(),
        "pdftotext".to_string(),
        "readme.txt".to_string(),
    ])
}

#[test]
fn test_builder_errors() {
    // The path does not exist (or is not a directory): the scan yields no
    // listing at all.
    let tools_result = XpdfTools::builder("./folder/not/there".to_string(), None);
    assert_eq!(
        tools_result.unwrap_err().error_kind,
        PdfErrorKind::NoXpdfToolsDirectory
    );

    let tools_result = XpdfTools::builder("./testData/binTester".to_string(), bin_tester_listing());
    assert!(tools_result.unwrap().available_tools().len() == 2);
}

#[test]
fn test_tool_available() {
    let tools_result = XpdfTools::builder("./testData/binTester".to_string(), bin_tester_listing())
        .unwrap()
        .build();
    assert_eq!(tools_result.pdf_check_tool("pdfinfo"), Ok(true));
    assert_eq!(tools_result.pdf_check_tool("pdftotext"), Ok(true));
    assert_eq!(
        tools_result.pdf_check_tool("pdftoWindmill").unwrap_err().kind(),
        PdfErrorKind::ToolNotAvailable
    );
}

#[test]
fn lib_test_arguments() {
    let tools_result = XpdfTools::builder("./testData/binTester".to_string(), bin_tester_listing())
        .unwrap()
        .extra_args(vec![XpdfArgs::RawDates, XpdfArgs::Metadata])
        .build();

    // What pdfinfo -rawdates -meta emits for such a document.
    let stdout = b"Title: A pdf\nPages: 2\n<?xpacket begin=\"x\" id=\"y\"?>\n<meta/>\n<?xpacket end=\"w\"?>\n".to_vec();
    let outcome = ProcessOutcome::Spawned {
        stdout,
        stderr: Vec::new(),
    };
    let result = tools_result.pdf_info(&outcome);

    assert!(result.as_ref().unwrap().info_map.get("Metadata").is_some());
    let info = result.unwrap();
    assert_eq!(
        info.info_map.get("Metadata"),
        Some(&Some(
            "<?xpacket begin=\"x\" id=\"y\"?>\n<meta/>\n<?xpacket end=\"w\"?>".to_string()
        ))
    );
}

#[test]
fn test_pdf_text() {
    let tools_result = XpdfTools::builder("./testData/binTester".to_string(), bin_tester_listing())
        .unwrap()
        .extra_args(vec![XpdfArgs::Encoding("UTF-8".into())])
        .build();

    let outcome = ProcessOutcome::Spawned {
        stdout: b"THE AUTHOR HIMSELF SAID".to_vec(),
        stderr: Vec::new(),
    };
    let pdf_text = tools_result.pdf_text("./testData/sample_text.pdf", &outcome);
    assert!(pdf_text.is_ok());
    let text = pdf_text.unwrap();
    assert_eq!(text, b"THE AUTHOR HIMSELF SAID".to_vec());
}

#[test]
fn test_args_parser() {
    let tools_result = XpdfTools::builder("./testData/binTester".to_string(), bin_tester_listing())
        .unwrap()
        .extra_args(vec![
            XpdfArgs::FirstPage(2),
            XpdfArgs::Metadata,
            XpdfArgs::Encoding("UTF-8".into()),
            XpdfArgs::RawDates,
        ])
        .build();

    let args = tools_result.extra_args().clone().unwrap();
    let args_strings: Vec<_> = XpdfToolsBuilder::args_parser(&args);
    println!("args_string: {:?}", args_strings);
    assert_eq!(args_strings, vec!["-f", "2", "-meta", "-enc", "UTF-8", "-rawdates"]);
}

#[test]
fn version_banner() {
    assert_eq!(xpdf_tools::get_version(), "XpdfTools version: 0.1.0");
}

#[test]
fn tool_not_available_error_text() {
    let tools = XpdfTools::builder("./tools".to_string(), Some(vec!["pdftotext".to_string()]))
        .unwrap()
        .build();
    let e = tools.pdf_check_tool("pdfinfo").unwrap_err();
    assert_eq!(e.message, "pdfinfo not found in tools folder");
    assert_eq!(e.process_message, "");
    assert_eq!(e.error_kind, PdfErrorKind::ToolNotAvailable);
}

#[test]
fn builder_error_text() {
    let e = XpdfTools::builder("./nowhere".to_string(), None).unwrap_err();
    assert_eq!(e.message, "Specified tools folder not found");
    assert_eq!(e.process_message, "");
    assert_eq!(e.error_kind, PdfErrorKind::NoXpdfToolsDirectory);
}

#[test]
fn availability_scan_stems() {
    // Stems are matched against the recognized tool names; unrecognized
    // stems are silently excluded.
    let b = XpdfTools::builder(
        "./tools".to_string(),
        Some(vec![
            "pdfinfo.exe".to_string(),
            "pdftotext".to_string(),
            "readme.txt".to_string(),
            "pdftops.tar.gz".to_string(),
            ".pdffonts".to_string(),
            "pdftoppm.bin".to_string(),
        ]),
    )
    .unwrap();
    assert_eq!(
        b.available_tools(),
        &vec!["pdfinfo".to_string(), "pdftotext".to_string(), "pdftoppm".to_string()]
    );
}

#[test]
fn unavailable_tool_produces_no_invocation() {
    // The availability check fails before anything could be spawned: no
    // invocation value exists, so a spawning collaborator is never handed
    // work.
    let tools = XpdfTools::builder("./tools".to_string(), Some(vec!["pdftotext".to_string()]))
        .unwrap()
        .build();
    let r = tools.pdf_info_invocation("./doc.pdf");
    assert_eq!(r.unwrap_err().error_kind, PdfErrorKind::ToolNotAvailable);
}

#[test]
fn invocation_token_order() {
    let tools = XpdfTools::builder(
        "./tools".to_string(),
        Some(vec!["pdfinfo".to_string(), "pdftotext".to_string()]),
    )
    .unwrap()
    .extra_args(vec![
        XpdfArgs::FirstPage(2),
        XpdfArgs::Metadata,
        XpdfArgs::Encoding("UTF-8".into()),
        XpdfArgs::Layout,
    ])
    .build();

    let info = tools.pdf_info_invocation("./doc.pdf").unwrap();
    assert_eq!(info.tools_folder, "./tools");
    assert_eq!(info.tool, "pdfinfo");
    assert_eq!(info.args, vec!["-f", "2", "-meta", "-enc", "UTF-8", "./doc.pdf"]);

    let text = tools.pdf_text_invocation("./doc.pdf").unwrap();
    assert_eq!(text.tool, "pdftotext");
    assert_eq!(text.args, vec!["-f", "2", "-enc", "UTF-8", "-layout", "./doc.pdf", "-"]);
}
