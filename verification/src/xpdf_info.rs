//! The metadata field parser and the pdfinfo invocation outcome.
//!
//! pdfinfo emits line-oriented `label: value` text and, on request, one
//! embedded multi-line metadata block. The parser fills the fixed-key field
//! map from that text with an exact extraction grammar: on each line the
//! first maximal run of letters and spaces that is followed by a colon names
//! the field, and the remainder of the line, trimmed, is its value — possibly
//! empty, which is distinct from absent.

use vstd::prelude::*;

use crate::text::{
    chars_of, find_char_from, find_from, is_blank, join_nl, lossy_decode, spec_find_from,
    spec_is_blank, spec_join_nl, spec_lines, spec_lines_from, spec_trim, split_lines, trim_str,
    utf8_lossy,
};
use crate::types::{assoc_set, spec_initial_map, XpdfArgs, XpdfInfoMap};
use crate::{spec_compile, PdfError, PdfErrorKind, ProcessOutcome};

verus! {

/// The decoded pdfinfo output: the raw text, and the field map extracted
/// from it.
#[derive(Debug)]
pub struct PdfInfo {
    pub raw: String,
    pub info_map: XpdfInfoMap,
}

/// A character that may appear in a field label: a letter or a space.
pub open spec fn is_label_char(c: char) -> bool {
    c == ' ' || ('a' <= c && c <= 'z') || ('A' <= c && c <= 'Z')
}

fn is_label_char_e(c: char) -> (r: bool)
    ensures
        r == is_label_char(c),
{
    c == ' ' || ('a' <= c && c <= 'z') || ('A' <= c && c <= 'Z')
}

/// The end of the maximal run of label characters starting at `i`.
pub open spec fn run_end(line: Seq<char>, i: int) -> int
    decreases line.len() - i,
{
    if i < 0 || i >= line.len() {
        line.len() as int
    } else if is_label_char(line[i]) {
        run_end(line, i + 1)
    } else {
        i
    }
}

pub proof fn lemma_run_end_bounds(line: Seq<char>, i: int)
    requires
        0 <= i <= line.len(),
    ensures
        i <= run_end(line, i) <= line.len(),
    decreases line.len() - i,
{
    if i < line.len() && is_label_char(line[i]) {
        lemma_run_end_bounds(line, i + 1);
    }
}

/// The first label match at or after `i`: the bounds `(p, q)` of a maximal
/// run of label characters followed by a colon at `q`. A colon is not a label
/// character, so the leftmost match always starts at the beginning of such a
/// run.
pub open spec fn find_label_from(line: Seq<char>, i: int) -> Option<(int, int)>
    decreases line.len() + 1 - i,
    via find_label_from_dec
{
    if i < 0 || i >= line.len() {
        None
    } else if is_label_char(line[i]) {
        let q = run_end(line, i);
        if q < line.len() && line[q] == ':' {
            Some((i, q))
        } else {
            find_label_from(line, q + 1)
        }
    } else {
        find_label_from(line, i + 1)
    }
}

#[via_fn]
proof fn find_label_from_dec(line: Seq<char>, i: int) {
    if 0 <= i <= line.len() {
        lemma_run_end_bounds(line, i);
    }
}

/// The label and the trimmed value of a line, when the line has the
/// `label: value` shape. A value that is empty after the colon, or trims to
/// nothing, is the empty string: present, not absent.
pub open spec fn spec_line_kv(line: Seq<char>) -> Option<(Seq<char>, Seq<char>)> {
    match find_label_from(line, 0) {
        Some((p, q)) => Some(
            (line.subrange(p, q), spec_trim(line.subrange(q + 1, line.len() as int))),
        ),
        None => None,
    }
}

/// Extract the label and the trimmed value from one line, when it matches.
pub fn line_label_value(line: &str) -> (r: Option<(String, String)>)
    ensures
        match spec_line_kv(line@) {
            Some(kv) => r matches Some(x) && x.0@ == kv.0 && x.1@ == kv.1,
            None => r.is_none(),
        },
{
    let chars = chars_of(line);
    let n = chars.len();
    let mut i: usize = 0;
    loop
        invariant
            chars@ == line@,
            n == line@.len(),
            i <= n,
            find_label_from(line@, 0) == find_label_from(line@, i as int),
        decreases n - i,
    {
        if i >= n {
            return None;
        }
        if is_label_char_e(chars[i]) {
            let mut q: usize = i;
            while q < n && is_label_char_e(chars[q])
                invariant
                    chars@ == line@,
                    n == line@.len(),
                    i <= q <= n,
                    run_end(line@, i as int) == run_end(line@, q as int),
                decreases n - q,
            {
                q = q + 1;
            }
            assert(run_end(line@, i as int) == q as int);
            if q < n && chars[q] == ':' {
                let label = line.substring_char(i, q).to_owned();
                let rest = line.substring_char(q + 1, n);
                let value = trim_str(rest);
                return Some((label, value));
            }
            if q >= n {
                proof {
                    assert(find_label_from(line@, q as int + 1).is_none());
                }
                return None;
            }
            i = q + 1;
        } else {
            i = i + 1;
        }
    }
}

/// One line applied to the field map: a matching line whose label is a key
/// sets that key's value; every other line leaves the map unchanged.
pub open spec fn spec_apply_line(
    m: Seq<(Seq<char>, Option<Seq<char>>)>,
    line: Seq<char>,
) -> Seq<(Seq<char>, Option<Seq<char>>)> {
    match spec_line_kv(line) {
        Some(kv) => assoc_set(m, kv.0, kv.1),
        None => m,
    }
}

/// The line-oriented pass: every line applied in order, last match winning.
pub open spec fn spec_pass1(
    m0: Seq<(Seq<char>, Option<Seq<char>>)>,
    lines: Seq<Seq<char>>,
) -> Seq<(Seq<char>, Option<Seq<char>>)>
    decreases lines.len(),
{
    if lines.len() == 0 {
        m0
    } else {
        spec_apply_line(spec_pass1(m0, lines.drop_last()), lines.last())
    }
}

/// The metadata block of the raw text: from the first `<?xpacket begin=`
/// through the first `<?xpacket end=` after it and on to the next `>`.
pub open spec fn spec_meta_block(s: Seq<char>) -> Option<Seq<char>> {
    match spec_find_from(s, "<?xpacket begin="@, 0) {
        Some(b) => match spec_find_from(s, "<?xpacket end="@, b) {
            Some(e) => {
                let g = find_char_from(s, '>', e + "<?xpacket end="@.len());
                if g < s.len() {
                    Some(s.subrange(b, g + 1))
                } else {
                    None
                }
            },
            None => None,
        },
        None => None,
    }
}

/// The metadata value: the block's lines with every all-whitespace line
/// removed, rejoined with single newlines.
pub open spec fn spec_meta_value(s: Seq<char>) -> Option<Seq<char>> {
    match spec_meta_block(s) {
        Some(blk) => Some(spec_join_nl(spec_lines(blk).filter(|l: Seq<char>| !spec_is_blank(l)))),
        None => None,
    }
}

/// Extract and normalize the metadata block, when the text holds one.
pub fn find_meta_value(text: &str) -> (r: Option<String>)
    ensures
        match spec_meta_value(text@) {
            Some(v) => r matches Some(s) && s@ == v,
            None => r.is_none(),
        },
{
    let chars = chars_of(text);
    let n = chars.len();
    let open_pat = chars_of("<?xpacket begin=");
    let close_pat = chars_of("<?xpacket end=");
    let b = match find_from(&chars, &open_pat, 0) {
        Some(b) => b,
        None => {
            return None;
        },
    };
    let e = match find_from(&chars, &close_pat, b) {
        Some(e) => e,
        None => {
            return None;
        },
    };
    proof {
        crate::text::lemma_find_from_occurs(text@, close_pat@, b as int, e as int);
    }
    let start = e + close_pat.len();
    let mut g: usize = start;
    while g < n && chars[g] != '>'
        invariant
            chars@ == text@,
            n == text@.len(),
            start <= g <= n,
            find_char_from(text@, '>', start as int) == find_char_from(text@, '>', g as int),
        decreases n - g,
    {
        g = g + 1;
    }
    assert(find_char_from(text@, '>', start as int) == g as int);
    if g >= n {
        return None;
    }
    let block = text.substring_char(b, g + 1);
    let block_lines = split_lines(block);
    let m = block_lines.len();
    let mut kept: Vec<String> = Vec::new();
    let mut k: usize = 0;
    while k < m
        invariant
            m == block_lines@.len(),
            k <= m,
            block_lines.deep_view() == spec_lines(block@),
            kept.deep_view() == block_lines.deep_view().subrange(0, k as int).filter(
                |l: Seq<char>| !spec_is_blank(l),
            ),
        decreases m - k,
    {
        proof {
            reveal(Seq::filter);
            let pfx = block_lines.deep_view().subrange(0, k + 1);
            assert(pfx.drop_last() =~= block_lines.deep_view().subrange(0, k as int));
            assert(pfx.last() == block_lines.deep_view()[k as int]);
            assert(block_lines.deep_view()[k as int] == block_lines@[k as int]@);
        }
        let blank = is_blank(block_lines[k].as_str());
        if !blank {
            let l = block_lines[k].clone();
            kept.push(l);
            proof {
                assert(kept.deep_view() =~= kept.deep_view().drop_last().push(
                    block_lines.deep_view()[k as int],
                ));
            }
        }
        k = k + 1;
        proof {
            reveal(Seq::filter);
            let pfx = block_lines.deep_view().subrange(0, k as int);
            assert(pfx.last() == block_lines.deep_view()[k - 1]);
            assert(kept.deep_view() =~= pfx.filter(|l: Seq<char>| !spec_is_blank(l)));
        }
    }
    proof {
        assert(block_lines.deep_view().subrange(0, m as int) =~= block_lines.deep_view());
    }
    Some(join_nl(&kept))
}

/// The full parse of decoded pdfinfo output: the line-oriented pass, then,
/// exactly when the metadata flag was requested and the text holds a block,
/// the metadata value overwriting the `Metadata` key.
pub open spec fn spec_parse_info(s: Seq<char>, want_meta: bool) -> Seq<
    (Seq<char>, Option<Seq<char>>),
> {
    let m1 = spec_pass1(spec_initial_map(), spec_lines(s));
    if want_meta {
        match spec_meta_value(s) {
            Some(v) => assoc_set(m1, "Metadata"@, v),
            None => m1,
        }
    } else {
        m1
    }
}

/// Parse decoded pdfinfo output into a fresh field map.
pub fn parse_info_text(text: &str, want_meta: bool) -> (m: XpdfInfoMap)
    ensures
        m@ == spec_parse_info(text@, want_meta),
{
    let lines = split_lines(text);
    let n = lines.len();
    let mut map = XpdfInfoMap::create();
    let mut i: usize = 0;
    while i < n
        invariant
            n == lines@.len(),
            i <= n,
            lines.deep_view() == spec_lines(text@),
            map@ == spec_pass1(spec_initial_map(), lines.deep_view().subrange(0, i as int)),
        decreases n - i,
    {
        proof {
            let pfx = lines.deep_view().subrange(0, i + 1);
            assert(pfx.drop_last() =~= lines.deep_view().subrange(0, i as int));
            assert(pfx.last() == lines.deep_view()[i as int]);
        }
        match line_label_value(lines[i].as_str()) {
            Some(kv) => {
                map.set_value(kv.0.as_str(), kv.1.as_str());
            },
            None => {},
        }
        i = i + 1;
    }
    proof {
        assert(lines.deep_view().subrange(0, n as int) =~= lines.deep_view());
    }
    if want_meta {
        match find_meta_value(text) {
            Some(v) => {
                map.set_value("Metadata", v.as_str());
            },
            None => {},
        }
    }
    map
}

/// Whether the compiled pdfinfo arguments include the metadata-request flag.
pub open spec fn spec_want_meta(extra: Seq<XpdfArgs>) -> bool {
    spec_compile(extra, "pdfinfo"@).contains("-meta"@)
}

/// Whether the compiled token list holds the `-meta` token.
pub fn tokens_want_meta(tokens: &Vec<String>) -> (r: bool)
    ensures
        r == tokens.deep_view().contains("-meta"@),
{
    let n = tokens.len();
    let mut i: usize = 0;
    while i < n
        invariant
            n == tokens@.len(),
            i <= n,
            forall|j: int| 0 <= j < i ==> tokens.deep_view()[j] != "-meta"@,
        decreases n - i,
    {
        let hit = crate::text::str_eq(tokens[i].as_str(), "-meta");
        proof {
            assert(tokens.deep_view()[i as int] == tokens@[i as int]@);
        }
        if hit {
            return true;
        }
        i = i + 1;
    }
    false
}

proof fn lemma_pass1_no_matches(
    m0: Seq<(Seq<char>, Option<Seq<char>>)>,
    lines: Seq<Seq<char>>,
)
    requires
        forall|i: int| 0 <= i < lines.len() ==> spec_line_kv(#[trigger] lines[i]).is_none(),
    ensures
        spec_pass1(m0, lines) == m0,
    decreases lines.len(),
{
    if lines.len() > 0 {
        assert(forall|i: int|
            0 <= i < lines.drop_last().len() ==> #[trigger] lines.drop_last()[i] == lines[i]);
        lemma_pass1_no_matches(m0, lines.drop_last());
    }
}

/// Law: text in which no line has the `label: value` shape parses, without
/// the metadata pass, to the field map with every value absent.
pub proof fn lemma_no_matches_all_absent(s: Seq<char>)
    requires
        forall|i: int| 0 <= i < spec_lines(s).len() ==> spec_line_kv(
            #[trigger] spec_lines(s)[i],
        ).is_none(),
    ensures
        spec_parse_info(s, false) == spec_initial_map(),
{
    lemma_pass1_no_matches(spec_initial_map(), spec_lines(s));
}

proof fn lemma_no_colon_no_label(line: Seq<char>, i: int)
    requires
        forall|k: int| 0 <= k < line.len() ==> line[k] != ':',
    ensures
        find_label_from(line, i).is_none(),
    decreases line.len() + 1 - i,
{
    if 0 <= i < line.len() {
        if is_label_char(line[i]) {
            lemma_run_end_bounds(line, i);
            let q = run_end(line, i);
            if !(q < line.len() && line[q] == ':') {
                lemma_no_colon_no_label(line, q + 1);
            }
        } else {
            lemma_no_colon_no_label(line, i + 1);
        }
    }
}

proof fn lemma_lines_avoid_char(s: Seq<char>, c: char, i: int)
    requires
        forall|k: int| 0 <= k < s.len() ==> s[k] != c,
    ensures
        forall|li: int, k: int|
            0 <= li < spec_lines_from(s, i).len() && 0 <= k < spec_lines_from(s, i)[li].len()
                ==> #[trigger] spec_lines_from(s, i)[li][k] != c,
    decreases s.len() + 1 - i,
{
    if 0 <= i < s.len() {
        let j = find_char_from(s, '\n', i);
        crate::text::lemma_find_char_from_bounds(s, '\n', i);
        lemma_lines_avoid_char(s, c, j + 1);
        assert forall|li: int, k: int|
            0 <= li < spec_lines_from(s, i).len() && 0 <= k < spec_lines_from(s, i)[li].len()
                implies #[trigger] spec_lines_from(s, i)[li][k] != c by {
            if li == 0 {
                assert(spec_lines_from(s, i)[0][k] == s[i + k]);
            } else {
                assert(spec_lines_from(s, i)[li] == spec_lines_from(s, j + 1)[li - 1]);
            }
        }
    }
}

/// Law: text holding no colon at all — so with no colon-delimited line —
/// parses, without the metadata pass, to the field map with every value
/// absent. That outcome is success, not an error.
pub proof fn lemma_no_colon_all_absent(s: Seq<char>)
    requires
        forall|k: int| 0 <= k < s.len() ==> s[k] != ':',
    ensures
        spec_parse_info(s, false) == spec_initial_map(),
{
    lemma_lines_avoid_char(s, ':', 0);
    assert forall|i: int| 0 <= i < spec_lines(s).len() implies spec_line_kv(
        #[trigger] spec_lines(s)[i],
    ).is_none() by {
        let line = spec_lines(s)[i];
        assert(forall|k: int| 0 <= k < line.len() ==> line[k] != ':');
        lemma_no_colon_no_label(line, 0);
    }
    lemma_no_matches_all_absent(s);
}

/// Law: when the metadata flag was not requested, the metadata block is never
/// extracted, even when the text holds one — the parse is the line-oriented
/// pass alone.
pub proof fn lemma_meta_not_requested(s: Seq<char>)
    ensures
        spec_parse_info(s, false) == spec_pass1(spec_initial_map(), spec_lines(s)),
{
}

proof fn lemma_pass1_keys(m0: Seq<(Seq<char>, Option<Seq<char>>)>, lines: Seq<Seq<char>>)
    ensures
        spec_pass1(m0, lines).len() == m0.len(),
        forall|i: int| 0 <= i < m0.len() ==> #[trigger] spec_pass1(m0, lines)[i].0 == m0[i].0,
    decreases lines.len(),
{
    if lines.len() > 0 {
        lemma_pass1_keys(m0, lines.drop_last());
        match spec_line_kv(lines.last()) {
            Some(kv) => {
                crate::types::lemma_assoc_set_keys(spec_pass1(m0, lines.drop_last()), kv.0, kv.1);
            },
            None => {},
        }
    }
}

/// Law: when the metadata flag was requested and the text holds a well-formed
/// metadata block, the parsed map's `Metadata` field holds exactly that block
/// with its blank lines removed.
pub proof fn lemma_meta_requested(s: Seq<char>)
    requires
        spec_meta_value(s).is_some(),
    ensures
        crate::types::assoc_find(spec_parse_info(s, true), "Metadata"@) == Some(
            Some(spec_meta_value(s).unwrap()),
        ),
{
    let m1 = spec_pass1(spec_initial_map(), spec_lines(s));
    lemma_pass1_keys(spec_initial_map(), spec_lines(s));
    assert(spec_initial_map()[16].0 == "Metadata"@);
    assert(m1[16].0 == "Metadata"@);
    assert(crate::types::assoc_has(m1, "Metadata"@));
    crate::types::lemma_assoc_find_set(m1, "Metadata"@, spec_meta_value(s).unwrap());
}

/// Classify a completed pdfinfo spawn attempt: a spawn failure becomes the
/// info-extraction failure carrying the spawn error's description; a process
/// that ran has its standard output decoded and parsed, whatever its exit
/// status or content.
pub fn pdf_info(tools: &crate::XpdfTools, outcome: &ProcessOutcome) -> (r: Result<
    PdfInfo,
    PdfError,
>)
    ensures
        match outcome {
            ProcessOutcome::Spawned { stdout, stderr } => match r {
                Ok(info) => info.raw@ == lossy_decode(stdout@) && (vstd::utf8::valid_utf8(stdout@)
                    ==> vstd::utf8::encode_utf8(info.raw@) == stdout@) && info.info_map@
                    == spec_parse_info(
                    lossy_decode(stdout@),
                    spec_want_meta(tools.spec_extra()),
                ),
                Err(_) => false,
            },
            ProcessOutcome::SpawnFailed { description } => match r {
                Ok(_) => false,
                Err(e) => e.error_kind == PdfErrorKind::PdfInfoError && e.message@
                    == "pdf_info error"@ && e.process_message@ == description@,
            },
        },
{
    match outcome {
        ProcessOutcome::Spawned { stdout, stderr: _ } => {
            let raw = utf8_lossy(stdout.as_slice());
            let compiled = tools.compiled_args("pdfinfo");
            let want_meta = tokens_want_meta(&compiled);
            let info_map = parse_info_text(raw.as_str(), want_meta);
            Ok(PdfInfo { raw, info_map })
        },
        ProcessOutcome::SpawnFailed { description } => Err(
            PdfError {
                message: "pdf_info error".to_owned(),
                process_message: description.clone(),
                error_kind: PdfErrorKind::PdfInfoError,
            },
        ),
    }
}

} // verus!
