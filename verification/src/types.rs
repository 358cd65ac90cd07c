//! The argument catalog and the fixed-key metadata field map.

use vstd::prelude::*;

use crate::text::{spec_decimal, str_eq, usize_to_string};

verus! {

/// Every recognized command-line option for the xpdf tools, together with its
/// typed operand where the flag takes one.
#[derive(Debug, Clone, PartialEq)]
pub enum XpdfArgs {
    /// Specifies the first page to examine; pdfinfo and pdftotext.
    FirstPage(usize),
    /// Specifies the last page to examine; pdfinfo and pdftotext.
    LastPage(usize),
    /// pdfinfo only.
    Box,
    /// Requests the embedded metadata block; pdfinfo only.
    Metadata,
    /// pdfinfo only.
    RawDates,
    /// pdfinfo only.
    Custom,
    /// Output text encoding; pdfinfo and pdftotext.
    Encoding(String),
    /// pdfinfo and pdftotext.
    OwnerPassword(String),
    /// pdfinfo and pdftotext.
    UserPassword(String),
    /// Configuration file path, in display form; pdfinfo and pdftotext.
    Config(String),
    /// Recognized by neither validity table.
    Version,
    /// pdftotext only.
    Layout,
    /// pdftotext only.
    Simple,
    /// pdftotext only.
    Simple2,
    /// pdftotext only.
    Table,
    /// pdftotext only.
    Lineprinter,
    /// pdftotext only.
    Raw,
    /// pdftotext only.
    Fixed(usize),
    /// pdftotext only.
    Linespacing(usize),
    /// pdftotext only.
    Clip,
    /// pdftotext only.
    NoDiag,
    /// pdftotext only.
    Eol(String),
    /// pdftotext only.
    NoPgBrk,
    /// pdftotext only.
    Bom,
    /// pdftotext only.
    MarginLeft(usize),
    /// pdftotext only.
    MarginRight(usize),
    /// pdftotext only.
    MarginTop(usize),
    /// pdftotext only.
    MarginBottom(usize),
    /// pdftotext only.
    Verbose,
    /// pdftotext only.
    Quit,
    /// pdftotext only.
    Listencodings,
}

/// The canonical serialized form of one option: either a single bare token,
/// or a flag and its operand joined by one space.
pub open spec fn spec_serialize(a: XpdfArgs) -> Seq<char> {
    match a {
        XpdfArgs::FirstPage(n) => "-f "@ + spec_decimal(n as nat),
        XpdfArgs::LastPage(n) => "-l "@ + spec_decimal(n as nat),
        XpdfArgs::Box => "-box"@,
        XpdfArgs::Metadata => "-meta"@,
        XpdfArgs::RawDates => "-rawdates"@,
        XpdfArgs::Custom => "-custom"@,
        XpdfArgs::Encoding(s) => "-enc "@ + s@,
        XpdfArgs::OwnerPassword(s) => "-opw "@ + s@,
        XpdfArgs::UserPassword(s) => "-upw "@ + s@,
        XpdfArgs::Config(s) => "-cfg "@ + s@,
        XpdfArgs::Version => "-v"@,
        XpdfArgs::Layout => "-layout"@,
        XpdfArgs::Simple => "-simple"@,
        XpdfArgs::Simple2 => "-simple2"@,
        XpdfArgs::Table => "-table"@,
        XpdfArgs::Lineprinter => "-lineprinter"@,
        XpdfArgs::Raw => "-raw"@,
        XpdfArgs::Fixed(n) => "-fixed "@ + spec_decimal(n as nat),
        XpdfArgs::Linespacing(n) => "-linespacing "@ + spec_decimal(n as nat),
        XpdfArgs::Clip => "-clip"@,
        XpdfArgs::NoDiag => "-nodiag"@,
        XpdfArgs::Eol(s) => "-eol "@ + s@,
        XpdfArgs::NoPgBrk => "-nopgbrk"@,
        XpdfArgs::Bom => "-bom"@,
        XpdfArgs::MarginLeft(n) => "-marginl "@ + spec_decimal(n as nat),
        XpdfArgs::MarginRight(n) => "-marginr "@ + spec_decimal(n as nat),
        XpdfArgs::MarginTop(n) => "-margint "@ + spec_decimal(n as nat),
        XpdfArgs::MarginBottom(n) => "-marginb "@ + spec_decimal(n as nat),
        XpdfArgs::Verbose => "-verbos"@,
        XpdfArgs::Quit => "-q"@,
        XpdfArgs::Listencodings => "-listencodings"@,
    }
}

/// Membership of an option in the valid-argument set of pdfinfo.
pub open spec fn spec_valid_info(a: XpdfArgs) -> bool {
    match a {
        XpdfArgs::FirstPage(_) => true,
        XpdfArgs::LastPage(_) => true,
        XpdfArgs::Box => true,
        XpdfArgs::Metadata => true,
        XpdfArgs::RawDates => true,
        XpdfArgs::Custom => true,
        XpdfArgs::Encoding(_) => true,
        XpdfArgs::OwnerPassword(_) => true,
        XpdfArgs::UserPassword(_) => true,
        XpdfArgs::Config(_) => true,
        _ => false,
    }
}

/// Membership of an option in the valid-argument set of pdftotext.
pub open spec fn spec_valid_totext(a: XpdfArgs) -> bool {
    match a {
        XpdfArgs::FirstPage(_) => true,
        XpdfArgs::LastPage(_) => true,
        XpdfArgs::Layout => true,
        XpdfArgs::Simple => true,
        XpdfArgs::Simple2 => true,
        XpdfArgs::Table => true,
        XpdfArgs::Lineprinter => true,
        XpdfArgs::Raw => true,
        XpdfArgs::Fixed(_) => true,
        XpdfArgs::Linespacing(_) => true,
        XpdfArgs::Clip => true,
        XpdfArgs::NoDiag => true,
        XpdfArgs::Eol(_) => true,
        XpdfArgs::NoPgBrk => true,
        XpdfArgs::Bom => true,
        XpdfArgs::MarginLeft(_) => true,
        XpdfArgs::MarginRight(_) => true,
        XpdfArgs::MarginTop(_) => true,
        XpdfArgs::MarginBottom(_) => true,
        XpdfArgs::Verbose => true,
        XpdfArgs::Quit => true,
        XpdfArgs::Listencodings => true,
        XpdfArgs::Encoding(_) => true,
        XpdfArgs::OwnerPassword(_) => true,
        XpdfArgs::UserPassword(_) => true,
        XpdfArgs::Config(_) => true,
        _ => false,
    }
}

/// Per-tool validity: exactly two tool identifiers are recognized; any other
/// tool name is invalid for every option (fail-closed).
pub open spec fn spec_is_valid_for(a: XpdfArgs, tool: Seq<char>) -> bool {
    if tool == "pdfinfo"@ {
        spec_valid_info(a)
    } else if tool == "pdftotext"@ {
        spec_valid_totext(a)
    } else {
        false
    }
}

impl XpdfArgs {
    /// The serialized form: a bare token, or a `flag operand` pair joined by
    /// one space. Operand strings are inserted verbatim, without escaping;
    /// the caller is responsible for supplying safe values.
    pub fn to_str(&self) -> (r: String)
        ensures
            r@ == spec_serialize(*self),
    {
        match self {
            XpdfArgs::FirstPage(n) => "-f ".to_owned().concat(usize_to_string(*n).as_str()),
            XpdfArgs::LastPage(n) => "-l ".to_owned().concat(usize_to_string(*n).as_str()),
            XpdfArgs::Box => "-box".to_owned(),
            XpdfArgs::Metadata => "-meta".to_owned(),
            XpdfArgs::RawDates => "-rawdates".to_owned(),
            XpdfArgs::Custom => "-custom".to_owned(),
            XpdfArgs::Encoding(s) => "-enc ".to_owned().concat(s.as_str()),
            XpdfArgs::OwnerPassword(s) => "-opw ".to_owned().concat(s.as_str()),
            XpdfArgs::UserPassword(s) => "-upw ".to_owned().concat(s.as_str()),
            XpdfArgs::Config(s) => "-cfg ".to_owned().concat(s.as_str()),
            XpdfArgs::Version => "-v".to_owned(),
            XpdfArgs::Layout => "-layout".to_owned(),
            XpdfArgs::Simple => "-simple".to_owned(),
            XpdfArgs::Simple2 => "-simple2".to_owned(),
            XpdfArgs::Table => "-table".to_owned(),
            XpdfArgs::Lineprinter => "-lineprinter".to_owned(),
            XpdfArgs::Raw => "-raw".to_owned(),
            XpdfArgs::Fixed(n) => "-fixed ".to_owned().concat(usize_to_string(*n).as_str()),
            XpdfArgs::Linespacing(n) => "-linespacing ".to_owned().concat(
                usize_to_string(*n).as_str(),
            ),
            XpdfArgs::Clip => "-clip".to_owned(),
            XpdfArgs::NoDiag => "-nodiag".to_owned(),
            XpdfArgs::Eol(s) => "-eol ".to_owned().concat(s.as_str()),
            XpdfArgs::NoPgBrk => "-nopgbrk".to_owned(),
            XpdfArgs::Bom => "-bom".to_owned(),
            XpdfArgs::MarginLeft(n) => "-marginl ".to_owned().concat(usize_to_string(*n).as_str()),
            XpdfArgs::MarginRight(n) => "-marginr ".to_owned().concat(
                usize_to_string(*n).as_str(),
            ),
            XpdfArgs::MarginTop(n) => "-margint ".to_owned().concat(usize_to_string(*n).as_str()),
            XpdfArgs::MarginBottom(n) => "-marginb ".to_owned().concat(
                usize_to_string(*n).as_str(),
            ),
            XpdfArgs::Verbose => "-verbos".to_owned(),
            XpdfArgs::Quit => "-q".to_owned(),
            XpdfArgs::Listencodings => "-listencodings".to_owned(),
        }
    }

    /// Whether this option is valid for the named tool; unrecognized tool
    /// names yield false unconditionally.
    pub fn is_valid_for(&self, tool: &str) -> (r: bool)
        ensures
            r == spec_is_valid_for(*self, tool@),
    {
        if str_eq(tool, "pdfinfo") {
            self.is_valid_info_arg()
        } else if str_eq(tool, "pdftotext") {
            self.is_valid_totext_arg()
        } else {
            false
        }
    }

    /// Whether this option is valid for pdfinfo.
    pub fn is_valid_info_arg(&self) -> (r: bool)
        ensures
            r == spec_valid_info(*self),
    {
        match self {
            XpdfArgs::FirstPage(_) | XpdfArgs::LastPage(_) | XpdfArgs::Box | XpdfArgs::Metadata
                | XpdfArgs::RawDates | XpdfArgs::Custom | XpdfArgs::Encoding(_)
                | XpdfArgs::OwnerPassword(_) | XpdfArgs::UserPassword(_)
                | XpdfArgs::Config(_) => true,
            _ => false,
        }
    }

    /// Whether this option is valid for pdftotext.
    pub fn is_valid_totext_arg(&self) -> (r: bool)
        ensures
            r == spec_valid_totext(*self),
    {
        match self {
            XpdfArgs::FirstPage(_) | XpdfArgs::LastPage(_) | XpdfArgs::Layout | XpdfArgs::Simple
                | XpdfArgs::Simple2 | XpdfArgs::Table | XpdfArgs::Lineprinter | XpdfArgs::Raw
                | XpdfArgs::Fixed(_) | XpdfArgs::Linespacing(_) | XpdfArgs::Clip
                | XpdfArgs::NoDiag | XpdfArgs::Eol(_) | XpdfArgs::NoPgBrk | XpdfArgs::Bom
                | XpdfArgs::MarginLeft(_) | XpdfArgs::MarginRight(_) | XpdfArgs::MarginBottom(_)
                | XpdfArgs::MarginTop(_) | XpdfArgs::Verbose | XpdfArgs::Quit
                | XpdfArgs::Listencodings | XpdfArgs::Encoding(_) | XpdfArgs::OwnerPassword(_)
                | XpdfArgs::UserPassword(_) | XpdfArgs::Config(_) => true,
            _ => false,
        }
    }
}

/// The entries of an association list whose key equals `key`, each updated to
/// hold `val`; entries with other keys are unchanged.
pub open spec fn assoc_set(
    m: Seq<(Seq<char>, Option<Seq<char>>)>,
    key: Seq<char>,
    val: Seq<char>,
) -> Seq<(Seq<char>, Option<Seq<char>>)> {
    m.map_values(
        |p: (Seq<char>, Option<Seq<char>>)|
            if p.0 == key {
                (p.0, Some(val))
            } else {
                p
            },
    )
}

/// Whether the association list holds an entry for `key`.
pub open spec fn assoc_has(m: Seq<(Seq<char>, Option<Seq<char>>)>, key: Seq<char>) -> bool {
    exists|i: int| 0 <= i < m.len() && m[i].0 == key
}

/// The value of the first entry for `key`, or `None` when there is no entry.
pub open spec fn assoc_find(
    m: Seq<(Seq<char>, Option<Seq<char>>)>,
    key: Seq<char>,
) -> Option<Option<Seq<char>>>
    decreases m.len(),
{
    if m.len() == 0 {
        None
    } else if m[0].0 == key {
        Some(m[0].1)
    } else {
        assoc_find(m.drop_first(), key)
    }
}

pub proof fn lemma_assoc_find_at(m: Seq<(Seq<char>, Option<Seq<char>>)>, key: Seq<char>, i: int)
    requires
        0 <= i < m.len(),
        m[i].0 == key,
        forall|j: int| 0 <= j < i ==> m[j].0 != key,
    ensures
        assoc_find(m, key) == Some(m[i].1),
    decreases i,
{
    if i > 0 {
        lemma_assoc_find_at(m.drop_first(), key, i - 1);
    }
}

/// Setting a key that the list holds makes that key's first entry hold the
/// value, whatever it held before.
pub proof fn lemma_assoc_find_set(
    m: Seq<(Seq<char>, Option<Seq<char>>)>,
    key: Seq<char>,
    val: Seq<char>,
)
    requires
        assoc_has(m, key),
    ensures
        assoc_find(assoc_set(m, key, val), key) == Some(Some(val)),
    decreases m.len(),
{
    let m2 = assoc_set(m, key, val);
    if m[0].0 == key {
        assert(m2[0] == (m[0].0, Some(val)));
    } else {
        let i = choose|i: int| 0 <= i < m.len() && m[i].0 == key;
        assert(m.drop_first()[i - 1].0 == key);
        lemma_assoc_find_set(m.drop_first(), key, val);
        assert(m2.drop_first() =~= assoc_set(m.drop_first(), key, val));
        assert(m2[0].0 != key);
    }
}

/// Updating values never changes the key at any position.
pub proof fn lemma_assoc_set_keys(
    m: Seq<(Seq<char>, Option<Seq<char>>)>,
    key: Seq<char>,
    val: Seq<char>,
)
    ensures
        assoc_set(m, key, val).len() == m.len(),
        forall|i: int| 0 <= i < m.len() ==> #[trigger] assoc_set(m, key, val)[i].0 == m[i].0,
{
}

pub proof fn lemma_assoc_find_none(m: Seq<(Seq<char>, Option<Seq<char>>)>, key: Seq<char>)
    requires
        forall|j: int| 0 <= j < m.len() ==> m[j].0 != key,
    ensures
        assoc_find(m, key).is_none(),
    decreases m.len(),
{
    if m.len() > 0 {
        lemma_assoc_find_none(m.drop_first(), key);
    }
}

/// The predeclared field names, in their fixed order.
pub open spec fn spec_info_keys() -> Seq<Seq<char>> {
    seq![
        "Title"@,
        "Subject"@,
        "Keywords"@,
        "Author"@,
        "Creator"@,
        "Producer"@,
        "CreationDate"@,
        "ModDate"@,
        "Tagged"@,
        "Form"@,
        "Pages"@,
        "Encrypted"@,
        "Page size"@,
        "File size"@,
        "Optimized"@,
        "PDF version"@,
        "Metadata"@,
    ]
}

/// The freshly created field map: every predeclared key mapped to absent.
pub open spec fn spec_initial_map() -> Seq<(Seq<char>, Option<Seq<char>>)> {
    spec_info_keys().map_values(|k: Seq<char>| (k, None::<Seq<char>>))
}

/// An ordered mapping from the fixed, predeclared set of field names to an
/// optional extracted value. The key set is fixed at creation and never grows
/// or shrinks; only values transition from absent to present.
#[derive(Debug, PartialEq)]
pub struct XpdfInfoMap {
    entries: Vec<(String, Option<String>)>,
}

impl View for XpdfInfoMap {
    type V = Seq<(Seq<char>, Option<Seq<char>>)>;

    closed spec fn view(&self) -> Seq<(Seq<char>, Option<Seq<char>>)> {
        self.entries.deep_view()
    }
}

impl XpdfInfoMap {
    /// The field map with every predeclared key present and every value
    /// absent.
    pub fn create() -> (m: XpdfInfoMap)
        ensures
            m@ == spec_initial_map(),
    {
        let mut entries: Vec<(String, Option<String>)> = Vec::new();
        entries.push(("Title".to_owned(), None));
        entries.push(("Subject".to_owned(), None));
        entries.push(("Keywords".to_owned(), None));
        entries.push(("Author".to_owned(), None));
        entries.push(("Creator".to_owned(), None));
        entries.push(("Producer".to_owned(), None));
        entries.push(("CreationDate".to_owned(), None));
        entries.push(("ModDate".to_owned(), None));
        entries.push(("Tagged".to_owned(), None));
        entries.push(("Form".to_owned(), None));
        entries.push(("Pages".to_owned(), None));
        entries.push(("Encrypted".to_owned(), None));
        entries.push(("Page size".to_owned(), None));
        entries.push(("File size".to_owned(), None));
        entries.push(("Optimized".to_owned(), None));
        entries.push(("PDF version".to_owned(), None));
        entries.push(("Metadata".to_owned(), None));
        let m = XpdfInfoMap { entries };
        proof {
            assert(m@ =~= spec_initial_map());
        }
        m
    }

    /// The number of entries.
    pub fn len(&self) -> (n: usize)
        ensures
            n == self@.len(),
    {
        self.entries.len()
    }

    /// Whether the map holds an entry for `key`.
    pub fn contains_key(&self, key: &str) -> (r: bool)
        ensures
            r == assoc_has(self@, key@),
    {
        let n = self.entries.len();
        let mut i: usize = 0;
        while i < n
            invariant
                n == self@.len(),
                i <= n,
                forall|j: int| 0 <= j < i ==> self@[j].0 != key@,
            decreases n - i,
        {
            let hit = str_eq(self.entries[i].0.as_str(), key);
            proof {
                assert(self@[i as int] == self.entries@[i as int].deep_view());
            }
            if hit {
                return true;
            }
            i = i + 1;
        }
        false
    }

    /// The value stored for the first entry with this key, or `None` when the
    /// key is not in the map.
    pub fn get(&self, key: &str) -> (r: Option<&Option<String>>)
        ensures
            match r {
                Some(v) => assoc_find(self@, key@) == Some(v.deep_view()),
                None => assoc_find(self@, key@).is_none(),
            },
    {
        let n = self.entries.len();
        let mut i: usize = 0;
        while i < n
            invariant
                n == self@.len(),
                i <= n,
                forall|j: int| 0 <= j < i ==> self@[j].0 != key@,
            decreases n - i,
        {
            if str_eq(self.entries[i].0.as_str(), key) {
                proof {
                    lemma_assoc_find_at(self@, key@, i as int);
                }
                return Some(&self.entries[i].1);
            }
            i = i + 1;
        }
        proof {
            lemma_assoc_find_none(self@, key@);
        }
        None
    }

    /// Store `value` for every entry whose key equals `key`; entries with
    /// other keys, and a missing key, are left unchanged.
    pub fn set_value(&mut self, key: &str, value: &str)
        ensures
            final(self)@ == assoc_set(old(self)@, key@, value@),
    {
        let ghost target = assoc_set(old(self)@, key@, value@);
        let n = self.entries.len();
        let mut out: Vec<(String, Option<String>)> = Vec::new();
        let mut i: usize = 0;
        while i < n
            invariant
                *self == *old(self),
                n == self@.len(),
                i <= n,
                target == assoc_set(self@, key@, value@),
                target.len() == n,
                out.deep_view() == target.subrange(0, i as int),
            decreases n - i,
        {
            proof {
                assert(self@[i as int] == self.entries@[i as int].deep_view());
                assert(self@[i as int].0 == self.entries@[i as int].0@);
                assert(target[i as int] == (if self@[i as int].0 == key@ {
                    (self@[i as int].0, Some(value@))
                } else {
                    self@[i as int]
                }));
            }
            let k = self.entries[i].0.clone();
            let e: (String, Option<String>) = if str_eq(self.entries[i].0.as_str(), key) {
                (k, Some(value.to_owned()))
            } else {
                let nv = match &self.entries[i].1 {
                    Some(s) => Some(s.clone()),
                    None => None,
                };
                proof {
                    assert(nv.deep_view() == self@[i as int].1);
                }
                (k, nv)
            };
            proof {
                assert(e.deep_view() == target[i as int]);
            }
            let ghost old_out = out.deep_view();
            out.push(e);
            i = i + 1;
            proof {
                assert(out.deep_view() =~= out.deep_view().drop_last().push(e.deep_view()));
                assert(out.deep_view().drop_last() =~= old_out);
                assert(target.subrange(0, i as int) =~= target.subrange(0, i - 1).push(
                    target[i - 1],
                ));
            }
        }
        self.entries = out;
        proof {
            assert(final(self)@ =~= target);
        }
    }
}

} // verus!
