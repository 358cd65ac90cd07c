use xpdf_tools::types::{XpdfArgs, XpdfInfoMap};

#[test]
fn types_test_arguments() {
    let args = vec![
        XpdfArgs::FirstPage(1),
        XpdfArgs::Metadata,
        XpdfArgs::MarginBottom(10),
    ];
    let info_args: Vec<_> = args.iter().filter(|&arg| arg.is_valid_info_arg()).collect();
    let text_args: Vec<_> = args.iter().filter(|&arg| arg.is_valid_totext_arg()).collect();

    assert_eq!(info_args, vec![&XpdfArgs::FirstPage(1), &XpdfArgs::Metadata]);
    assert_eq!(text_args, vec![&XpdfArgs::FirstPage(1), &XpdfArgs::MarginBottom(10)]);
}

#[test]
fn serialized_forms() {
    assert_eq!(XpdfArgs::FirstPage(12).to_str(), "-f 12");
    assert_eq!(XpdfArgs::LastPage(3).to_str(), "-l 3");
    assert_eq!(XpdfArgs::Eol("unix".into()).to_str(), "-eol unix");
    assert_eq!(XpdfArgs::Metadata.to_str(), "-meta");
    assert_eq!(XpdfArgs::RawDates.to_str(), "-rawdates");
    assert_eq!(XpdfArgs::Encoding("UTF-8".into()).to_str(), "-enc UTF-8");
    assert_eq!(XpdfArgs::OwnerPassword("secret".into()).to_str(), "-opw secret");
    assert_eq!(XpdfArgs::Config("./xpdfrc".into()).to_str(), "-cfg ./xpdfrc");
    assert_eq!(XpdfArgs::MarginBottom(10).to_str(), "-marginb 10");
    assert_eq!(XpdfArgs::Linespacing(250).to_str(), "-linespacing 250");
    assert_eq!(XpdfArgs::Quit.to_str(), "-q");
    assert_eq!(XpdfArgs::Verbose.to_str(), "-verbos");
    assert_eq!(XpdfArgs::Listencodings.to_str(), "-listencodings");
}

#[test]
fn validity_is_fail_closed() {
    assert!(XpdfArgs::Metadata.is_valid_for("pdfinfo"));
    assert!(!XpdfArgs::Metadata.is_valid_for("pdftotext"));
    assert!(XpdfArgs::Layout.is_valid_for("pdftotext"));
    assert!(!XpdfArgs::Layout.is_valid_for("pdfinfo"));
    assert!(XpdfArgs::Encoding("L1".into()).is_valid_for("pdfinfo"));
    assert!(XpdfArgs::Encoding("L1".into()).is_valid_for("pdftotext"));
    // Recognized by neither validity table.
    assert!(!XpdfArgs::Version.is_valid_for("pdfinfo"));
    assert!(!XpdfArgs::Version.is_valid_for("pdftotext"));
    // Any other tool name is invalid for every option.
    assert!(!XpdfArgs::Metadata.is_valid_for("pdftoppm"));
    assert!(!XpdfArgs::Metadata.is_valid_for(""));
    assert!(!XpdfArgs::FirstPage(1).is_valid_for("pdfinfo "));
}

#[test]
fn info_map_fixed_keys() {
    let map = XpdfInfoMap::create();
    assert_eq!(map.len(), 17);
    assert!(map.contains_key("Title"));
    assert!(map.contains_key("Page size"));
    assert!(map.contains_key("PDF version"));
    assert!(map.contains_key("Metadata"));
    assert!(!map.contains_key("some random key"));
    assert_eq!(map.get("Title"), Some(&None));
    assert_eq!(map.get("not a key"), None);
}

#[test]
fn info_map_set_value() {
    let mut map = XpdfInfoMap::create();
    map.set_value("Title", "A document");
    assert_eq!(map.get("Title"), Some(&Some("A document".to_string())));
    // Setting a key that is not in the map changes nothing.
    map.set_value("newKey", "newValue");
    assert_eq!(map.get("newKey"), None);
    assert_eq!(map.len(), 17);
}
