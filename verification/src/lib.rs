//! A typed front-end over the xpdf command-line tools.
//!
//! The library models correct invocation of, and correct output extraction
//! from, the external xpdf executables. It compiles a validated option list
//! into the exact token sequence a tool expects, decides whether a tool may
//! be invoked at all, and classifies a finished process's raw output into a
//! typed result. The caller performs the actual directory scan and process
//! spawn and hands the raw results back as plain values.

use vstd::prelude::*;

pub mod text;
pub mod types;
pub mod xpdf_info;
pub mod xpdf_text;

use crate::text::{spec_split_sp, split_spaces, str_eq};
use crate::types::{spec_is_valid_for, spec_serialize, XpdfArgs};

verus! {

/// Classification of a failed (or gated) invocation.
#[derive(Debug, Clone, Copy, PartialEq, Eq, Structural)]
pub enum PdfErrorKind {
    NoXpdfToolsDirectory,
    ToolNotAvailable,
    PdfInfoError,
    PdfToTextError,
    PdfToTextErrorNoOutput,
}

/// A typed failure: a stable machine-checkable kind, a human-facing summary,
/// and the raw diagnostic text of the external collaborator when available.
#[derive(Debug, Clone, PartialEq)]
pub struct PdfError {
    pub message: String,
    pub process_message: String,
    pub error_kind: PdfErrorKind,
}

impl PdfError {
    pub fn kind(&self) -> (k: PdfErrorKind)
        ensures
            k == self.error_kind,
    {
        self.error_kind
    }
}

/// The tokens of one serialized option, split at each internal space.
pub open spec fn spec_tokens(a: XpdfArgs) -> Seq<Seq<char>> {
    spec_split_sp(spec_serialize(a))
}

/// The compiled token sequence for an option list and a tool: options valid
/// for the tool, in their given order, each serialized and split into tokens.
pub open spec fn spec_compile(args: Seq<XpdfArgs>, tool: Seq<char>) -> Seq<Seq<char>>
    decreases args.len(),
{
    if args.len() == 0 {
        Seq::empty()
    } else {
        spec_compile(args.drop_last(), tool) + (if spec_is_valid_for(args.last(), tool) {
            spec_tokens(args.last())
        } else {
            Seq::empty()
        })
    }
}

/// The token sequence of every option in order, without any validity filter.
pub open spec fn spec_tokens_all(args: Seq<XpdfArgs>) -> Seq<Seq<char>>
    decreases args.len(),
{
    if args.len() == 0 {
        Seq::empty()
    } else {
        spec_tokens_all(args.drop_last()) + spec_tokens(args.last())
    }
}

/// Compile an option list for one tool: filter to the options valid for that
/// tool (preserving input order), serialize each, and split multi-token forms
/// into separate entries. A pure function of its inputs.
pub fn args_parser(args: &Vec<XpdfArgs>, tool: &str) -> (r: Vec<String>)
    ensures
        r.deep_view() == spec_compile(args@, tool@),
{
    let mut r: Vec<String> = Vec::new();
    let n = args.len();
    let mut i: usize = 0;
    while i < n
        invariant
            n == args@.len(),
            i <= n,
            r.deep_view() == spec_compile(args@.subrange(0, i as int), tool@),
        decreases n - i,
    {
        proof {
            assert(args@.subrange(0, i + 1).drop_last() =~= args@.subrange(0, i as int));
            assert(args@.subrange(0, i + 1).last() == args@[i as int]);
        }
        if args[i].is_valid_for(tool) {
            let s = args[i].to_str();
            let mut toks = split_spaces(s.as_str());
            let ghost old_r = r.deep_view();
            let ghost toks_view = toks.deep_view();
            r.append(&mut toks);
            proof {
                assert(r.deep_view() =~= old_r + toks_view);
            }
        }
        i = i + 1;
    }
    proof {
        assert(args@.subrange(0, n as int) =~= args@);
    }
    r
}

/// The nine recognized tool names.
pub open spec fn spec_is_valid_tool(n: Seq<char>) -> bool {
    n == "pdfdetach"@ || n == "pdffonts"@ || n == "pdfimages"@ || n == "pdfinfo"@
        || n == "pdftohtml"@ || n == "pdftopng"@ || n == "pdftoppm"@ || n == "pdftops"@
        || n == "pdftotext"@
}

fn is_valid_tool(name: &str) -> (r: bool)
    ensures
        r == spec_is_valid_tool(name@),
{
    str_eq(name, "pdfdetach") || str_eq(name, "pdffonts") || str_eq(name, "pdfimages") || str_eq(
        name,
        "pdfinfo",
    ) || str_eq(name, "pdftohtml") || str_eq(name, "pdftopng") || str_eq(name, "pdftoppm")
        || str_eq(name, "pdftops") || str_eq(name, "pdftotext")
}

/// The index just past the last `.` strictly before `i`, minus one; `-1` when
/// no `.` occurs before `i`.
pub open spec fn spec_last_dot(s: Seq<char>, i: int) -> int
    decreases i,
{
    if i <= 0 || i > s.len() {
        -1
    } else if s[i - 1] == '.' {
        i - 1
    } else {
        spec_last_dot(s, i - 1)
    }
}

/// The stem of a file name: everything before the last `.`, except that a
/// leading `.` does not begin an extension.
pub open spec fn spec_stem(s: Seq<char>) -> Seq<char> {
    let d = spec_last_dot(s, s.len() as int);
    if d <= 0 {
        s
    } else {
        s.subrange(0, d)
    }
}

/// The stem of a file name.
pub fn stem_of(name: &str) -> (r: String)
    ensures
        r@ == spec_stem(name@),
{
    let n = name.unicode_len();
    let mut j: usize = n;
    while j > 0 && name.get_char(j - 1) != '.'
        invariant
            n == name@.len(),
            j <= n,
            spec_last_dot(name@, n as int) == spec_last_dot(name@, j as int),
        decreases j,
    {
        j = j - 1;
    }
    if j <= 1 {
        name.to_owned()
    } else {
        assert(spec_last_dot(name@, j as int) == j - 1);
        name.substring_char(0, j - 1).to_owned()
    }
}

/// The availability set computed from a directory listing: the stem of each
/// file name, kept when it is one of the nine recognized tool names, in
/// encounter order. Unrecognized stems are silently excluded.
pub open spec fn spec_scan(names: Seq<Seq<char>>) -> Seq<Seq<char>>
    decreases names.len(),
{
    if names.len() == 0 {
        Seq::empty()
    } else {
        spec_scan(names.drop_last()) + (if spec_is_valid_tool(spec_stem(names.last())) {
            seq![spec_stem(names.last())]
        } else {
            Seq::empty()
        })
    }
}

/// Whether the availability set holds the named tool.
pub open spec fn spec_contains_tool(avail: Seq<Seq<char>>, tool: Seq<char>) -> bool {
    exists|i: int| 0 <= i < avail.len() && avail[i] == tool
}

/// What one process-spawn attempt yielded: the captured raw output of a
/// process that ran, or the description of the spawn failure.
#[derive(Debug, Clone, PartialEq)]
pub enum ProcessOutcome {
    Spawned { stdout: Vec<u8>, stderr: Vec<u8> },
    SpawnFailed { description: String },
}

/// One fully compiled invocation: the tools directory, the tool to run from
/// it, and the ordered argument tokens for the process.
#[derive(Debug, Clone, PartialEq)]
pub struct ToolInvocation {
    pub tools_folder: String,
    pub tool: String,
    pub args: Vec<String>,
}

/// A configuration under construction: the designated tools directory (as its
/// display form), the optional ordered option list, and the availability set
/// computed from the directory listing.
#[derive(Debug)]
pub struct XpdfToolsBuilder {
    tools_folder: String,
    extra_args: Option<Vec<XpdfArgs>>,
    available_tools: Vec<String>,
}

impl XpdfToolsBuilder {
    /// The designated tools directory, in display form.
    pub closed spec fn spec_folder(&self) -> Seq<char> {
        self.tools_folder@
    }

    /// The configured option list, when one was supplied.
    pub closed spec fn spec_extra(&self) -> Option<Seq<XpdfArgs>> {
        match self.extra_args {
            Some(ref v) => Some(v@),
            None => None,
        }
    }

    /// The availability set.
    pub closed spec fn spec_available(&self) -> Seq<Seq<char>> {
        self.available_tools.deep_view()
    }

    fn new(tools_folder: String, listing: Option<Vec<String>>) -> (r: Result<
        XpdfToolsBuilder,
        PdfError,
    >)
        ensures
            match listing {
                Some(names) => match r {
                    Ok(b) => b.spec_folder() == tools_folder@ && b.spec_extra().is_none()
                        && b.spec_available() == spec_scan(names.deep_view()),
                    Err(_) => false,
                },
                None => match r {
                    Ok(_) => false,
                    Err(e) => e.error_kind == PdfErrorKind::NoXpdfToolsDirectory && e.message@
                        == "Specified tools folder not found"@ && e.process_message@
                        == Seq::<char>::empty(),
                },
            },
    {
        match listing {
            Some(names) => {
                let mut avail: Vec<String> = Vec::new();
                let n = names.len();
                let mut i: usize = 0;
                while i < n
                    invariant
                        n == names@.len(),
                        i <= n,
                        avail.deep_view() == spec_scan(names.deep_view().subrange(0, i as int)),
                    decreases n - i,
                {
                    proof {
                        assert(names.deep_view().subrange(0, i + 1).drop_last()
                            =~= names.deep_view().subrange(0, i as int));
                        assert(names.deep_view().subrange(0, i + 1).last()
                            == names.deep_view()[i as int]);
                    }
                    let stem = stem_of(names[i].as_str());
                    if is_valid_tool(stem.as_str()) {
                        avail.push(stem);
                        proof {
                            assert(avail.deep_view() =~= avail.deep_view().drop_last().push(
                                spec_stem(names.deep_view()[i as int]),
                            ));
                        }
                    }
                    i = i + 1;
                }
                proof {
                    assert(names.deep_view().subrange(0, n as int) =~= names.deep_view());
                }
                Ok(XpdfToolsBuilder { tools_folder, extra_args: None, available_tools: avail })
            },
            None => {
                proof {
                    reveal_strlit("");
                }
                Err(
                    PdfError {
                        message: "Specified tools folder not found".to_owned(),
                        process_message: "".to_owned(),
                        error_kind: PdfErrorKind::NoXpdfToolsDirectory,
                    },
                )
            },
        }
    }

    /// Supply extra arguments for the tool process; options invalid for a
    /// tool are filtered out when the invocation is compiled.
    pub fn extra_args(self, extra_args: Vec<XpdfArgs>) -> (r: Self)
        ensures
            r.spec_folder() == self.spec_folder(),
            r.spec_extra() == Some(extra_args@),
            r.spec_available() == self.spec_available(),
    {
        XpdfToolsBuilder {
            tools_folder: self.tools_folder,
            extra_args: Some(extra_args),
            available_tools: self.available_tools,
        }
    }

    /// Finish the configuration.
    pub fn build(self) -> (t: XpdfTools)
        ensures
            t.spec_folder() == self.spec_folder(),
            t.spec_extra() == (match self.spec_extra() {
                Some(s) => s,
                None => Seq::<XpdfArgs>::empty(),
            }),
            t.spec_available() == self.spec_available(),
    {
        XpdfTools {
            tools_folder: self.tools_folder,
            extra_args: self.extra_args,
            available_tools: self.available_tools,
        }
    }

    /// The availability set, as computed from the directory listing.
    pub fn available_tools(&self) -> (r: &Vec<String>)
        ensures
            r.deep_view() == self.spec_available(),
    {
        &self.available_tools
    }

    /// Serialize every option and split multi-token forms, without any
    /// per-tool validity filter.
    pub fn args_parser(args: &Vec<XpdfArgs>) -> (r: Vec<String>)
        ensures
            r.deep_view() == spec_tokens_all(args@),
    {
        let mut r: Vec<String> = Vec::new();
        let n = args.len();
        let mut i: usize = 0;
        while i < n
            invariant
                n == args@.len(),
                i <= n,
                r.deep_view() == spec_tokens_all(args@.subrange(0, i as int)),
            decreases n - i,
        {
            proof {
                assert(args@.subrange(0, i + 1).drop_last() =~= args@.subrange(0, i as int));
                assert(args@.subrange(0, i + 1).last() == args@[i as int]);
            }
            let s = args[i].to_str();
            let mut toks = split_spaces(s.as_str());
            let ghost old_r = r.deep_view();
            let ghost toks_view = toks.deep_view();
            r.append(&mut toks);
            proof {
                assert(r.deep_view() =~= old_r + toks_view);
            }
            i = i + 1;
        }
        proof {
            assert(args@.subrange(0, n as int) =~= args@);
        }
        r
    }
}

/// A usable configuration: built only after the tools directory was listed,
/// immutable afterwards, safe to consult before every invocation.
#[derive(Debug)]
pub struct XpdfTools {
    tools_folder: String,
    extra_args: Option<Vec<XpdfArgs>>,
    available_tools: Vec<String>,
}

impl XpdfTools {
    /// The designated tools directory, in display form.
    pub closed spec fn spec_folder(&self) -> Seq<char> {
        self.tools_folder@
    }

    /// The configured option list; an absent list is the empty list.
    pub closed spec fn spec_extra(&self) -> Seq<XpdfArgs> {
        match self.extra_args {
            Some(ref v) => v@,
            None => Seq::empty(),
        }
    }

    /// The availability set.
    pub closed spec fn spec_available(&self) -> Seq<Seq<char>> {
        self.available_tools.deep_view()
    }

    /// Begin a configuration. `listing` is what the external directory scan
    /// of the designated tools folder yielded: the names of its immediate
    /// entries, or nothing at all when the path does not exist or is not a
    /// directory — in which case no usable configuration can be built.
    pub fn builder(tools_folder: String, listing: Option<Vec<String>>) -> (r: Result<
        XpdfToolsBuilder,
        PdfError,
    >)
        ensures
            match listing {
                Some(names) => match r {
                    Ok(b) => b.spec_folder() == tools_folder@ && b.spec_extra().is_none()
                        && b.spec_available() == spec_scan(names.deep_view()),
                    Err(_) => false,
                },
                None => match r {
                    Ok(_) => false,
                    Err(e) => e.error_kind == PdfErrorKind::NoXpdfToolsDirectory && e.message@
                        == "Specified tools folder not found"@ && e.process_message@
                        == Seq::<char>::empty(),
                },
            },
    {
        XpdfToolsBuilder::new(tools_folder, listing)
    }

    /// The configured option list, when one was supplied.
    pub fn extra_args(&self) -> (r: &Option<Vec<XpdfArgs>>)
        ensures
            match r {
                Some(v) => self.spec_extra() == v@,
                None => self.spec_extra() == Seq::<XpdfArgs>::empty(),
            },
    {
        &self.extra_args
    }

    /// The availability set.
    pub fn available_tools(&self) -> (r: &Vec<String>)
        ensures
            r.deep_view() == self.spec_available(),
    {
        &self.available_tools
    }

    /// Check tool presence before an invocation: `Ok(true)` exactly when the
    /// tool is in the availability set, and the tool-not-available error
    /// otherwise. This check precedes every process spawn.
    pub fn pdf_check_tool(&self, tool: &str) -> (r: Result<bool, PdfError>)
        ensures
            match r {
                Ok(b) => b && spec_contains_tool(self.spec_available(), tool@),
                Err(e) => !spec_contains_tool(self.spec_available(), tool@) && e.error_kind
                    == PdfErrorKind::ToolNotAvailable && e.message@ == tool@
                    + " not found in tools folder"@ && e.process_message@
                    == Seq::<char>::empty(),
            },
    {
        let n = self.available_tools.len();
        let mut i: usize = 0;
        while i < n
            invariant
                n == self.spec_available().len(),
                i <= n,
                forall|j: int| 0 <= j < i ==> self.spec_available()[j] != tool@,
            decreases n - i,
        {
            let hit = str_eq(self.available_tools[i].as_str(), tool);
            proof {
                assert(self.spec_available()[i as int] == self.available_tools@[i as int]@);
            }
            if hit {
                return Ok(true);
            }
            i = i + 1;
        }
        Err(Self::tool_not_available(tool))
    }

    fn tool_not_available(tool: &str) -> (e: PdfError)
        ensures
            e.error_kind == PdfErrorKind::ToolNotAvailable,
            e.message@ == tool@ + " not found in tools folder"@,
            e.process_message@ == Seq::<char>::empty(),
    {
        proof {
            reveal_strlit("");
        }
        PdfError {
            message: tool.to_owned().concat(" not found in tools folder"),
            process_message: "".to_owned(),
            error_kind: PdfErrorKind::ToolNotAvailable,
        }
    }

    /// The pdfinfo invocation for a document: compiled options in
    /// configuration order, then the document path — or the
    /// tool-not-available error, before any process is spawned.
    pub fn pdf_info_invocation(&self, pdf_file: &str) -> (r: Result<ToolInvocation, PdfError>)
        ensures
            match r {
                Ok(inv) => spec_contains_tool(self.spec_available(), "pdfinfo"@)
                    && inv.tools_folder@ == self.spec_folder() && inv.tool@ == "pdfinfo"@
                    && inv.args.deep_view() == spec_compile(self.spec_extra(), "pdfinfo"@).push(
                    pdf_file@,
                ),
                Err(e) => !spec_contains_tool(self.spec_available(), "pdfinfo"@) && e.error_kind
                    == PdfErrorKind::ToolNotAvailable && e.message@ == "pdfinfo"@
                    + " not found in tools folder"@ && e.process_message@
                    == Seq::<char>::empty(),
            },
    {
        match self.pdf_check_tool("pdfinfo") {
            Ok(_) => {
                let mut args = self.compiled_args("pdfinfo");
                args.push(pdf_file.to_owned());
                proof {
                    assert(args.deep_view() =~= spec_compile(self.spec_extra(), "pdfinfo"@).push(
                        pdf_file@,
                    ));
                }
                Ok(
                    ToolInvocation {
                        tools_folder: self.tools_folder.clone(),
                        tool: "pdfinfo".to_owned(),
                        args,
                    },
                )
            },
            Err(e) => Err(e),
        }
    }

    /// The pdftotext invocation for a document: compiled options, the
    /// document path, then the literal `-` token directing the tool to emit
    /// to standard output — or the tool-not-available error.
    pub fn pdf_text_invocation(&self, pdf_file: &str) -> (r: Result<ToolInvocation, PdfError>)
        ensures
            match r {
                Ok(inv) => spec_contains_tool(self.spec_available(), "pdftotext"@)
                    && inv.tools_folder@ == self.spec_folder() && inv.tool@ == "pdftotext"@
                    && inv.args.deep_view() == spec_compile(self.spec_extra(), "pdftotext"@).push(
                    pdf_file@,
                ).push("-"@),
                Err(e) => !spec_contains_tool(self.spec_available(), "pdftotext"@) && e.error_kind
                    == PdfErrorKind::ToolNotAvailable && e.message@ == "pdftotext"@
                    + " not found in tools folder"@ && e.process_message@
                    == Seq::<char>::empty(),
            },
    {
        match self.pdf_check_tool("pdftotext") {
            Ok(_) => {
                let mut args = self.compiled_args("pdftotext");
                args.push(pdf_file.to_owned());
                args.push("-".to_owned());
                proof {
                    assert(args.deep_view() =~= spec_compile(self.spec_extra(), "pdftotext"@).push(
                        pdf_file@,
                    ).push("-"@));
                }
                Ok(
                    ToolInvocation {
                        tools_folder: self.tools_folder.clone(),
                        tool: "pdftotext".to_owned(),
                        args,
                    },
                )
            },
            Err(e) => Err(e),
        }
    }

    /// Run the full pdfinfo pipeline decision for one spawn attempt: the
    /// availability check first, then classification of the outcome. The
    /// check agrees with what `pdf_info_invocation` answered before the
    /// caller spawned the process.
    pub fn pdf_info(&self, outcome: &ProcessOutcome) -> (r: Result<
        crate::xpdf_info::PdfInfo,
        PdfError,
    >)
        ensures
            !spec_contains_tool(self.spec_available(), "pdfinfo"@) ==> (r matches Err(e)
                && e.error_kind == PdfErrorKind::ToolNotAvailable && e.message@ == "pdfinfo"@
                + " not found in tools folder"@ && e.process_message@ == Seq::<char>::empty()),
            spec_contains_tool(self.spec_available(), "pdfinfo"@) ==> match outcome {
                ProcessOutcome::Spawned { stdout, stderr } => r matches Ok(info) && info.raw@
                    == crate::text::lossy_decode(stdout@) && (vstd::utf8::valid_utf8(stdout@)
                    ==> vstd::utf8::encode_utf8(info.raw@) == stdout@) && info.info_map@
                    == crate::xpdf_info::spec_parse_info(
                    crate::text::lossy_decode(stdout@),
                    crate::xpdf_info::spec_want_meta(self.spec_extra()),
                ),
                ProcessOutcome::SpawnFailed { description } => r matches Err(e) && e.error_kind
                    == PdfErrorKind::PdfInfoError && e.message@ == "pdf_info error"@
                    && e.process_message@ == description@,
            },
    {
        match self.pdf_check_tool("pdfinfo") {
            Ok(_) => crate::xpdf_info::pdf_info(self, outcome),
            Err(e) => Err(e),
        }
    }

    /// Run the full pdftotext pipeline decision for one spawn attempt,
    /// yielding the raw extracted bytes.
    pub fn pdf_text(&self, pdf_file: &str, outcome: &ProcessOutcome) -> (r: Result<
        Vec<u8>,
        PdfError,
    >)
        ensures
            !spec_contains_tool(self.spec_available(), "pdftotext"@) ==> (r matches Err(e)
                && e.error_kind == PdfErrorKind::ToolNotAvailable && e.message@ == "pdftotext"@
                + " not found in tools folder"@ && e.process_message@ == Seq::<char>::empty()),
            spec_contains_tool(self.spec_available(), "pdftotext"@) ==> match outcome {
                ProcessOutcome::Spawned { stdout, stderr } => {
                    if stdout@.len() == 0 {
                        r matches Err(e) && e.error_kind == PdfErrorKind::PdfToTextErrorNoOutput
                            && e.message@ == crate::xpdf_text::spec_text_error_message(pdf_file@)
                            && e.process_message@ == crate::text::lossy_decode(stderr@)
                    } else {
                        r matches Ok(v) && v@ == stdout@
                    }
                },
                ProcessOutcome::SpawnFailed { description } => r matches Err(e) && e.error_kind
                    == PdfErrorKind::PdfToTextError && e.message@
                    == crate::xpdf_text::spec_text_error_message(pdf_file@) && e.process_message@
                    == description@,
            },
    {
        match self.pdf_check_tool("pdftotext") {
            Ok(_) => crate::xpdf_text::pdf_to_binary(pdf_file, outcome),
            Err(e) => Err(e),
        }
    }

    /// Run the full pdftotext pipeline decision for one spawn attempt,
    /// yielding the extracted text lossily decoded.
    pub fn pdf_text_as_string(&self, pdf_file: &str, outcome: &ProcessOutcome) -> (r: Result<
        String,
        PdfError,
    >)
        ensures
            !spec_contains_tool(self.spec_available(), "pdftotext"@) ==> (r matches Err(e)
                && e.error_kind == PdfErrorKind::ToolNotAvailable && e.message@ == "pdftotext"@
                + " not found in tools folder"@ && e.process_message@ == Seq::<char>::empty()),
            spec_contains_tool(self.spec_available(), "pdftotext"@) ==> match outcome {
                ProcessOutcome::Spawned { stdout, stderr } => {
                    if stdout@.len() == 0 {
                        r matches Err(e) && e.error_kind == PdfErrorKind::PdfToTextErrorNoOutput
                            && e.message@ == crate::xpdf_text::spec_text_error_message(pdf_file@)
                            && e.process_message@ == crate::text::lossy_decode(stderr@)
                    } else {
                        r matches Ok(s) && s@ == crate::text::lossy_decode(stdout@) && (
                        vstd::utf8::valid_utf8(stdout@) ==> vstd::utf8::encode_utf8(s@)
                            == stdout@)
                    }
                },
                ProcessOutcome::SpawnFailed { description } => r matches Err(e) && e.error_kind
                    == PdfErrorKind::PdfToTextError && e.message@
                    == crate::xpdf_text::spec_text_error_message(pdf_file@) && e.process_message@
                    == description@,
            },
    {
        match self.pdf_check_tool("pdftotext") {
            Ok(_) => crate::xpdf_text::pdf_to_text(pdf_file, outcome),
            Err(e) => Err(e),
        }
    }

    /// The compiled option tokens for one tool.
    pub(crate) fn compiled_args(&self, tool: &str) -> (r: Vec<String>)
        ensures
            r.deep_view() == spec_compile(self.spec_extra(), tool@),
    {
        match &self.extra_args {
            Some(v) => args_parser(v, tool),
            None => Vec::new(),
        }
    }
}

/// Law: compilation filters and preserves order. The compiled output for a
/// tool is exactly the token sequence of the options whose validity predicate
/// is true for that tool, in their original relative order; invalid options
/// contribute nothing.
pub proof fn lemma_compile_filters_and_preserves_order(args: Seq<XpdfArgs>, tool: Seq<char>)
    ensures
        spec_compile(args, tool) == spec_tokens_all(
            args.filter(|a: XpdfArgs| spec_is_valid_for(a, tool)),
        ),
    decreases args.len(),
{
    reveal(Seq::filter);
    let pred = |a: XpdfArgs| spec_is_valid_for(a, tool);
    if args.len() == 0 {
        assert(spec_compile(args, tool) =~= spec_tokens_all(args.filter(pred)));
    } else {
        lemma_compile_filters_and_preserves_order(args.drop_last(), tool);
        let f = args.filter(pred);
        let fd = args.drop_last().filter(pred);
        if spec_is_valid_for(args.last(), tool) {
            assert(f == fd.push(args.last()));
            assert(f.drop_last() =~= fd);
            assert(f.last() == args.last());
        } else {
            assert(f == fd);
            assert(spec_compile(args, tool) =~= spec_compile(args.drop_last(), tool));
        }
    }
}

/// Law: compilation is pure and deterministic — the output token sequence is
/// a function of the option list and the tool name alone, so identical inputs
/// always yield identical output.
pub proof fn lemma_compile_deterministic(
    args1: Seq<XpdfArgs>,
    tool1: Seq<char>,
    args2: Seq<XpdfArgs>,
    tool2: Seq<char>,
)
    requires
        args1 == args2,
        tool1 == tool2,
    ensures
        spec_compile(args1, tool1) == spec_compile(args2, tool2),
{
}

/// The library's version banner.
pub fn get_version() -> (r: String)
    ensures
        r@ == "XpdfTools version: 0.1.0"@,
{
    "XpdfTools version: 0.1.0".to_owned()
}

} // verus!
