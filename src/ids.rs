//! Import identifiers and the directory layout that they determine.
use crate::text::{is_digit, lemma_padded_decimal_injective, padded_decimal, push_padded_decimal};
use vstd::prelude::*;

verus! {

/// Exactly six decimal digits (`ddmmyy`).
pub open spec fn is_full_date_text(s: Seq<char>) -> bool {
    s.len() == 6 && forall|i: int| 0 <= i < 6 ==> is_digit(#[trigger] s[i])
}

/// Three groups of three decimal digits separated by `/` (`AAA/BBB/CCC`).
pub open spec fn is_delta_text(s: Seq<char>) -> bool {
    &&& s.len() == 11
    &&& forall|i: int|
        0 <= i < 11 ==> if i == 3 || i == 7 {
            #[trigger] s[i] == '/'
        } else {
            is_digit(s[i])
        }
}

/// The text with every `/` replaced by `_`.
pub open spec fn underscored(s: Seq<char>) -> Seq<char> {
    s.map_values(|c: char|
        if c == '/' {
            '_'
        } else {
            c
        })
}

pub open spec fn full_date_error(s: Seq<char>) -> Seq<char> {
    "Invalid date format: "@ + s + " (expected ddmmyy)"@
}

pub open spec fn delta_error(s: Seq<char>) -> Seq<char> {
    "Invalid ABC format: "@ + s + " (expected AAA/BBB/CCC)"@
}

/// The date of a full snapshot.
#[derive(Debug)]
pub struct FullDate(String);

/// The sequence triple of a delta.
#[derive(Debug)]
pub struct DeltaAbc(String);

impl View for FullDate {
    type V = Seq<char>;

    closed spec fn view(&self) -> Seq<char> {
        self.0@
    }
}

impl View for DeltaAbc {
    type V = Seq<char>;

    closed spec fn view(&self) -> Seq<char> {
        self.0@
    }
}

impl Clone for FullDate {
    fn clone(&self) -> (r: Self)
        ensures
            r@ == self@,
    {
        proof {
            use_type_invariant(self);
        }
        FullDate(self.0.clone())
    }
}

impl Clone for DeltaAbc {
    fn clone(&self) -> (r: Self)
        ensures
            r@ == self@,
    {
        proof {
            use_type_invariant(self);
        }
        DeltaAbc(self.0.clone())
    }
}

fn is_full_date(s: &str) -> (r: bool)
    ensures
        r == is_full_date_text(s@),
{
    if s.unicode_len() != 6 {
        return false;
    }
    let mut i: usize = 0;
    while i < 6
        invariant
            i <= 6,
            s@.len() == 6,
            forall|j: int| 0 <= j < i ==> is_digit(#[trigger] s@[j]),
        decreases 6 - i,
    {
        let c = s.get_char(i);
        if !('0' <= c && c <= '9') {
            return false;
        }
        i = i + 1;
    }
    true
}

fn is_delta(s: &str) -> (r: bool)
    ensures
        r == is_delta_text(s@),
{
    if s.unicode_len() != 11 {
        return false;
    }
    let mut i: usize = 0;
    while i < 11
        invariant
            i <= 11,
            s@.len() == 11,
            forall|j: int|
                0 <= j < i ==> if j == 3 || j == 7 {
                    #[trigger] s@[j] == '/'
                } else {
                    is_digit(s@[j])
                },
        decreases 11 - i,
    {
        let c = s.get_char(i);
        if i == 3 || i == 7 {
            if c != '/' {
                return false;
            }
        } else if !('0' <= c && c <= '9') {
            return false;
        }
        i = i + 1;
    }
    true
}

impl FullDate {
    #[verifier::type_invariant]
    closed spec fn inv(self) -> bool {
        is_full_date_text(self.0@)
    }

    /// Accepts exactly six decimal digits; otherwise an error that names the input.
    pub fn new(date: String) -> (r: Result<Self, String>)
        ensures
            is_full_date_text(date@) ==> (r matches Ok(d) && d@ == date@),
            !is_full_date_text(date@) ==> (r matches Err(e) && e@ == full_date_error(date@)),
    {
        if is_full_date(date.as_str()) {
            Ok(FullDate(date))
        } else {
            let mut e = String::from_str("Invalid date format: ");
            e.append(date.as_str());
            e.append(" (expected ddmmyy)");
            Err(e)
        }
    }

    /// The date; always six digits.
    pub fn as_str(&self) -> (r: &str)
        ensures
            r@ == self@,
            is_full_date_text(r@),
    {
        proof {
            use_type_invariant(self);
        }
        self.0.as_str()
    }
}

impl DeltaAbc {
    #[verifier::type_invariant]
    closed spec fn inv(self) -> bool {
        is_delta_text(self.0@)
    }

    /// Accepts exactly `AAA/BBB/CCC` with decimal digits; otherwise an error that names the
    /// input.
    pub fn new(abc: String) -> (r: Result<Self, String>)
        ensures
            is_delta_text(abc@) ==> (r matches Ok(d) && d@ == abc@),
            !is_delta_text(abc@) ==> (r matches Err(e) && e@ == delta_error(abc@)),
    {
        if is_delta(abc.as_str()) {
            Ok(DeltaAbc(abc))
        } else {
            let mut e = String::from_str("Invalid ABC format: ");
            e.append(abc.as_str());
            e.append(" (expected AAA/BBB/CCC)");
            Err(e)
        }
    }

    /// The slash-separated form, as it appears in the remote location.
    pub fn as_str(&self) -> (r: &str)
        ensures
            r@ == self@,
            is_delta_text(r@),
    {
        proof {
            use_type_invariant(self);
        }
        self.0.as_str()
    }

    /// The underscore-separated form, as it appears in local paths.
    pub fn as_underscore(&self) -> (r: String)
        ensures
            r@ == underscored(self@),
    {
        let s = self.0.as_str();
        let mut out = String::new();
        for c in it: s.chars()
            invariant
                it.seq() == s@,
                out@ == underscored(it.seq().take(it.index() as int)),
        {
            assert(underscored(it.seq().take(it.index() + 1)) =~= underscored(
                it.seq().take(it.index() as int),
            ).push(if c == '/' { '_' } else { c }));
            if c == '/' {
                out.push('_');
            } else {
                out.push(c);
            }
        }
        assert(s@.take(s@.len() as int) == s@);
        out
    }
}

/// What is imported: a full snapshot of one day, or one delta.
#[derive(Debug, Clone)]
pub enum OsmFileType {
    Full(FullDate),
    Delta(DeltaAbc),
}

/// One import, which keys one preparation and its directory.
#[derive(Debug, Clone)]
pub struct ImportOptions {
    pub osm_file_type: OsmFileType,
    pub base_path: String,
}

/// One of the three kinds of element that are batched.
#[derive(Debug, Clone, Copy, PartialEq, Eq, Structural)]
pub enum ElementKind {
    Node,
    Way,
    Relation,
}

impl ElementKind {
    pub open spec fn spec_name(self) -> Seq<char> {
        match self {
            ElementKind::Node => "node"@,
            ElementKind::Way => "way"@,
            ElementKind::Relation => "relation"@,
        }
    }

    /// The element's tag name, which also names its batch directory.
    pub fn name(&self) -> (r: &'static str)
        ensures
            r@ == self.spec_name(),
    {
        match self {
            ElementKind::Node => "node",
            ElementKind::Way => "way",
            ElementKind::Relation => "relation",
        }
    }
}

/// Width of the batch number in batch file names.
pub const BATCH_NUMBER_WIDTH: u64 = 6;

impl ImportOptions {
    pub open spec fn is_delta(&self) -> bool {
        self.osm_file_type is Delta
    }

    pub open spec fn spec_import_type(&self) -> Seq<char> {
        match self.osm_file_type {
            OsmFileType::Full(_) => "full"@,
            OsmFileType::Delta(_) => "delta"@,
        }
    }

    pub open spec fn spec_import_scope(&self) -> Seq<char> {
        match self.osm_file_type {
            OsmFileType::Full(d) => d@,
            OsmFileType::Delta(abc) => underscored(abc@),
        }
    }

    pub open spec fn spec_import_dir(&self) -> Seq<char> {
        "./data/"@ + self.spec_import_type() + "/"@ + self.spec_import_scope()
    }

    pub open spec fn spec_filename_base(&self) -> Seq<char> {
        match self.osm_file_type {
            OsmFileType::Full(_) => self.spec_import_scope() + ".osm"@,
            OsmFileType::Delta(_) => self.spec_import_scope() + ".osc"@,
        }
    }

    pub open spec fn spec_lock_file(&self) -> Seq<char> {
        self.spec_import_dir() + "/lock"@
    }

    pub open spec fn spec_kind_dir(&self, element_type: Seq<char>) -> Seq<char> {
        self.spec_import_dir() + "/batches/"@ + element_type + "/"@
    }

    pub open spec fn spec_batch_file(&self, element_type: Seq<char>, batch_number: nat) -> Seq<
        char,
    > {
        self.spec_kind_dir(element_type) + self.spec_filename_base() + ".batch_"@ + padded_decimal(
            batch_number,
            BATCH_NUMBER_WIDTH as nat,
        ) + ".xml"@
    }

    pub open spec fn spec_batches_complete_file(&self, element_type: Seq<char>) -> Seq<char> {
        self.spec_kind_dir(element_type) + self.spec_filename_base() + ".batches_complete"@
    }

    /// `full` or `delta`.
    pub fn get_import_type(&self) -> (r: &'static str)
        ensures
            r@ == self.spec_import_type(),
    {
        match &self.osm_file_type {
            OsmFileType::Full(_) => "full",
            OsmFileType::Delta(_) => "delta",
        }
    }

    /// The date of a full import, or the underscore form of a delta's triple.
    pub fn get_import_scope(&self) -> (r: String)
        ensures
            r@ == self.spec_import_scope(),
    {
        match &self.osm_file_type {
            OsmFileType::Full(date) => String::from_str(date.as_str()),
            OsmFileType::Delta(abc) => abc.as_underscore(),
        }
    }

    /// `./data/<type>/<scope>`.
    pub fn get_import_dir(&self) -> (r: String)
        ensures
            r@ == self.spec_import_dir(),
    {
        let mut r = String::from_str("./data/");
        r.append(self.get_import_type());
        r.append("/");
        let scope = self.get_import_scope();
        r.append(scope.as_str());
        r
    }

    /// The name of the source document: `<scope>.osm` or `<scope>.osc`.
    pub fn get_filename_base(&self) -> (r: String)
        ensures
            r@ == self.spec_filename_base(),
    {
        let mut r = self.get_import_scope();
        match &self.osm_file_type {
            OsmFileType::Full(_) => r.append(".osm"),
            OsmFileType::Delta(_) => r.append(".osc"),
        }
        r
    }

    /// `<import_dir>/lock`.
    pub fn get_lock_file(&self) -> (r: String)
        ensures
            r@ == self.spec_lock_file(),
    {
        let mut r = self.get_import_dir();
        r.append("/lock");
        r
    }

    fn push_kind_dir(&self, out: &mut String, element_type: &str)
        ensures
            final(out)@ == old(out)@ + self.spec_kind_dir(element_type@),
    {
        let dir = self.get_import_dir();
        out.append(dir.as_str());
        out.append("/batches/");
        out.append(element_type);
        out.append("/");
    }

    /// `<import_dir>/batches/<kind>/<base>.batch_<NNNNNN>.xml`.
    pub fn get_batch_file(&self, element_type: &str, batch_number: usize) -> (r: String)
        ensures
            r@ == self.spec_batch_file(element_type@, batch_number as nat),
    {
        let mut r = String::new();
        self.push_kind_dir(&mut r, element_type);
        let base = self.get_filename_base();
        r.append(base.as_str());
        r.append(".batch_");
        push_padded_decimal(&mut r, batch_number as u64, BATCH_NUMBER_WIDTH);
        r.append(".xml");
        r
    }

    /// `<import_dir>/batches/<kind>/<base>.batches_complete`.
    pub fn get_batches_complete_file(&self, element_type: &str) -> (r: String)
        ensures
            r@ == self.spec_batches_complete_file(element_type@),
    {
        let mut r = String::new();
        self.push_kind_dir(&mut r, element_type);
        let base = self.get_filename_base();
        r.append(base.as_str());
        r.append(".batches_complete");
        r
    }
}

/// Batch numbering: different batch numbers of a kind name different files, so the
/// batches of a kind are exactly the files numbered `0..count`, each once.
pub proof fn law_batch_files_distinct(
    options: ImportOptions,
    element_type: Seq<char>,
    n: nat,
    m: nat,
)
    requires
        n != m,
    ensures
        options.spec_batch_file(element_type, n) != options.spec_batch_file(element_type, m),
{
    let pre = options.spec_kind_dir(element_type) + options.spec_filename_base() + ".batch_"@;
    let w = BATCH_NUMBER_WIDTH as nat;
    let a = options.spec_batch_file(element_type, n);
    let b = options.spec_batch_file(element_type, m);
    if a == b {
        assert(a =~= pre + padded_decimal(n, w) + ".xml"@);
        assert(b =~= pre + padded_decimal(m, w) + ".xml"@);
        assert(padded_decimal(n, w).len() == padded_decimal(m, w).len());
        let lo = pre.len() as int;
        let hi = lo + padded_decimal(n, w).len();
        assert(a.subrange(lo, hi) =~= padded_decimal(n, w));
        assert(b.subrange(lo, hi) =~= padded_decimal(m, w));
        lemma_padded_decimal_injective(n, m, w);
    }
}

} // verus!
