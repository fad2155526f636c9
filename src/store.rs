use vstd::prelude::*;

use crate::testcase::{
    allowed_priority, valid, validate_testcase, validation_error, TestCase, ValidationError,
};
use crate::text::{blank, ends_with, has_suffix, lower_of, same_ignoring_case};

verus! {

/// Why an operation on the store failed.
#[derive(Debug, Clone)]
pub enum StoreError {
    /// The document text is not well-formed, with the decoder's message.
    Parse(String),
    /// The document is well-formed but breaks a rule of the schema.
    Validation(ValidationError),
    /// A file or directory, named here, does not exist.
    NotFound(String),
    /// A file system operation failed for another reason, described here.
    Io(String),
}

/// A file name ends in one of the document extensions: `.yaml`, the default
/// one, or `.yml`.
pub open spec fn doc_name(name: Seq<char>) -> bool {
    has_suffix(name, ".yaml"@) || has_suffix(name, ".yml"@)
}

/// The file name under which a document given as `filename` is saved.
pub open spec fn target_name(filename: Seq<char>) -> Seq<char> {
    if doc_name(filename) {
        filename
    } else {
        filename + ".yaml"@
    }
}

/// Whether `name` ends in one of the document extensions.
pub fn has_doc_extension(name: &str) -> (r: bool)
    ensures
        r == doc_name(name@),
{
    ends_with(name, ".yaml") || ends_with(name, ".yml")
}

/// The file name a document is saved under: `filename` itself when it already
/// carries a document extension, else `filename` with the default one appended.
pub fn target_filename(filename: &str) -> (r: String)
    ensures
        r@ == target_name(filename@),
{
    if has_doc_extension(filename) {
        String::from_str(filename)
    } else {
        let mut s = String::from_str(filename);
        s.append(".yaml");
        s
    }
}

/// The outcome of loading a document, from what the decoder made of its text.
pub open spec fn load_result(decoded: Result<TestCase, String>) -> Result<TestCase, StoreError> {
    match decoded {
        Err(m) => Err(StoreError::Parse(m)),
        Ok(tc) => match validation_error(tc) {
            None => Ok(tc),
            Some(e) => Err(StoreError::Validation(e)),
        },
    }
}

/// Turns a decoded document into a validated test case: a decoding failure
/// becomes `Parse`, a broken rule becomes `Validation`.
pub fn parse_testcase(decoded: Result<TestCase, String>) -> (r: Result<TestCase, StoreError>)
    ensures
        r == load_result(decoded),
{
    match decoded {
        Err(m) => Err(StoreError::Parse(m)),
        Ok(tc) => match validate_testcase(&tc) {
            Ok(()) => Ok(tc),
            Err(e) => Err(StoreError::Validation(e)),
        },
    }
}

/// Decides where a document is saved: the target file name when it loads, the
/// error of loading it otherwise (and then nothing is written).
pub fn save_target(filename: &str, decoded: Result<TestCase, String>) -> (r: Result<String, StoreError>)
    ensures
        load_result(decoded) is Ok ==> r is Ok && r->Ok_0@ == target_name(filename@),
        load_result(decoded) is Err ==> r == Err::<String, StoreError>(load_result(decoded)->Err_0),
{
    match parse_testcase(decoded) {
        Ok(_) => Ok(target_filename(filename)),
        Err(e) => Err(e),
    }
}

/// Saving under the name that saving derived derives that same name again, so a
/// saved document is found at the path it was saved to and saving twice writes
/// one file.
pub proof fn lemma_target_name_stable(filename: Seq<char>)
    ensures
        doc_name(target_name(filename)),
        target_name(target_name(filename)) == target_name(filename),
{
    if !doc_name(filename) {
        let t = filename + ".yaml"@;
        assert(t.subrange(t.len() - ".yaml"@.len(), t.len() as int) =~= ".yaml"@);
    }
}

/// The texts that `v` holds, in order.
pub open spec fn texts(v: Seq<String>) -> Seq<Seq<char>> {
    v.map_values(|s: String| s@)
}

/// Lexicographic order of texts by code point, which is the byte order of
/// their UTF-8 encodings.
pub open spec fn text_le(a: Seq<char>, b: Seq<char>) -> bool
    decreases a.len(),
{
    if a.len() == 0 {
        true
    } else if b.len() == 0 {
        false
    } else if a[0] != b[0] {
        (a[0] as u32) < (b[0] as u32)
    } else {
        text_le(a.drop_first(), b.drop_first())
    }
}

/// The names among `names` that carry a document extension, in their order.
pub open spec fn doc_names(names: Seq<Seq<char>>) -> Seq<Seq<char>>
    decreases names.len(),
{
    if names.len() == 0 {
        seq![]
    } else {
        let rest = doc_names(names.drop_last());
        if doc_name(names.last()) {
            rest.push(names.last())
        } else {
            rest
        }
    }
}

/// Relies on slice::sort, through `Vec`: it reorders the items into ascending
/// order, and `String`'s order is that of the bytes.
#[verifier::external_body]
fn sort_texts(v: &mut Vec<String>)
    ensures
        texts(final(v)@).to_multiset() == texts(old(v)@).to_multiset(),
        forall|i: int, j: int|
            0 <= i < j < final(v)@.len() ==> text_le(#[trigger] final(v)@[i]@, #[trigger] final(v)@[j]@),
{
    v.sort()
}

/// The names of a directory's entries that are documents, sorted by name.
pub fn document_names(names: &Vec<String>) -> (r: Vec<String>)
    ensures
        texts(r@).to_multiset() == doc_names(texts(names@)).to_multiset(),
        forall|i: int, j: int|
            0 <= i < j < r@.len() ==> text_le(#[trigger] r@[i]@, #[trigger] r@[j]@),
{
    let mut out: Vec<String> = Vec::new();
    let n = names.len();
    let mut i: usize = 0;
    while i < n
        invariant
            n == names@.len(),
            i <= n,
            texts(out@) == doc_names(texts(names@.subrange(0, i as int))),
        decreases n - i,
    {
        let name = &names[i];
        proof {
            let pre = texts(names@.subrange(0, i as int + 1));
            assert(pre.drop_last() =~= texts(names@.subrange(0, i as int)));
            assert(pre.last() == name@);
        }
        if has_doc_extension(name.as_str()) {
            out.push(name.clone());
            assert(texts(out@) =~= doc_names(texts(names@.subrange(0, i as int + 1))));
        }
        i = i + 1;
    }
    assert(names@.subrange(0, n as int) =~= names@);
    sort_texts(&mut out);
    out
}

/// A document file of a directory, as it was read and decoded.
#[derive(Debug)]
pub struct DocEntry {
    /// The file's name within the directory.
    pub file_name: String,
    /// The file's text, as read.
    pub content: String,
    /// What the decoder made of the text: a record, or its error message.
    pub decoded: Result<TestCase, String>,
}

/// The valid test case that an entry holds, if it holds one.
pub open spec fn entry_case(e: DocEntry) -> Option<TestCase> {
    match e.decoded {
        Ok(tc) => if valid(tc) {
            Some(tc)
        } else {
            None
        },
        Err(_) => None,
    }
}

/// Whether the entry holds a valid test case.
pub fn loads(e: &DocEntry) -> (r: bool)
    ensures
        r == entry_case(*e) is Some,
{
    match &e.decoded {
        Ok(tc) => validate_testcase(tc).is_ok(),
        Err(_) => false,
    }
}

/// The texts of `s` joined with `", "` between each two.
pub open spec fn joined(s: Seq<Seq<char>>) -> Seq<char>
    decreases s.len(),
{
    if s.len() == 0 {
        seq![]
    } else if s.len() == 1 {
        s[0]
    } else {
        joined(s.drop_last()) + ", "@ + s.last()
    }
}

/// The one-line summary of a test case in a listing.
pub open spec fn summary_line(tc: TestCase) -> Seq<char> {
    "  "@ + tc.id@ + " | "@ + tc.name@ + " | "@ + tc.platform@ + " | "@ + tc.priority@ + " | ["@
        + joined(texts(tc.tags@)) + "]"@
}

/// Whether a test case passes a listing's platform filter, which ignores case.
pub open spec fn platform_matches(tc: TestCase, platform: Option<Seq<char>>) -> bool {
    match platform {
        None => true,
        Some(p) => lower_of(tc.platform@) == lower_of(p),
    }
}

/// The summary lines of a listing of `entries`: one for each entry that holds a
/// valid test case passing the filter, in the entries' order.
pub open spec fn listed(entries: Seq<DocEntry>, platform: Option<Seq<char>>) -> Seq<Seq<char>>
    decreases entries.len(),
{
    if entries.len() == 0 {
        seq![]
    } else {
        let rest = listed(entries.drop_last(), platform);
        match entry_case(entries.last()) {
            Some(tc) => if platform_matches(tc, platform) {
                rest.push(summary_line(tc))
            } else {
                rest
            },
            None => rest,
        }
    }
}

/// The tags joined with `", "`.
pub fn join_tags(tags: &Vec<String>) -> (r: String)
    ensures
        r@ == joined(texts(tags@)),
{
    let mut out = String::new();
    let n = tags.len();
    let mut i: usize = 0;
    while i < n
        invariant
            n == tags@.len(),
            i <= n,
            out@ == joined(texts(tags@.subrange(0, i as int))),
        decreases n - i,
    {
        proof {
            let pre = texts(tags@.subrange(0, i as int + 1));
            assert(pre.drop_last() =~= texts(tags@.subrange(0, i as int)));
            assert(pre.last() == tags@[i as int]@);
        }
        if i > 0 {
            out.append(", ");
        }
        out.append(tags[i].as_str());
        i = i + 1;
    }
    assert(tags@.subrange(0, n as int) =~= tags@);
    out
}

/// The summary line of a test case: id, name, platform, priority and tags.
pub fn summary(tc: &TestCase) -> (r: String)
    ensures
        r@ == summary_line(*tc),
{
    let mut s = String::from_str("  ");
    s.append(tc.id.as_str());
    s.append(" | ");
    s.append(tc.name.as_str());
    s.append(" | ");
    s.append(tc.platform.as_str());
    s.append(" | ");
    s.append(tc.priority.as_str());
    s.append(" | [");
    let t = join_tags(&tc.tags);
    s.append(t.as_str());
    s.append("]");
    assert(s@ =~= summary_line(*tc));
    s
}

/// The summary lines for a listing of `entries`, keeping only valid test cases
/// whose platform equals `platform`, ignoring case, when a filter is given.
pub fn listing(entries: &Vec<DocEntry>, platform: Option<&str>) -> (r: Vec<String>)
    ensures
        texts(r@) == listed(
            entries@,
            match platform {
                Some(p) => Some(p@),
                None => None,
            },
        ),
{
    let ghost pf = match platform {
        Some(p) => Some(p@),
        None => None,
    };
    let mut out: Vec<String> = Vec::new();
    let n = entries.len();
    let mut i: usize = 0;
    while i < n
        invariant
            n == entries@.len(),
            i <= n,
            pf == match platform {
                Some(p) => Some(p@),
                None => None::<Seq<char>>,
            },
            texts(out@) == listed(entries@.subrange(0, i as int), pf),
        decreases n - i,
    {
        let e = &entries[i];
        proof {
            let pre = entries@.subrange(0, i as int + 1);
            assert(pre.drop_last() =~= entries@.subrange(0, i as int));
            assert(pre.last() == *e);
        }
        match &e.decoded {
            Ok(tc) => {
                if validate_testcase(tc).is_ok() {
                    let keep = match platform {
                        Some(p) => same_ignoring_case(tc.platform.as_str(), p),
                        None => true,
                    };
                    if keep {
                        let line = summary(tc);
                        out.push(line);
                        assert(texts(out@) =~= listed(entries@.subrange(0, i as int + 1), pf));
                    }
                }
            },
            Err(_) => {},
        }
        i = i + 1;
    }
    assert(entries@.subrange(0, n as int) =~= entries@);
    out
}

/// A listing of no entries, as of an empty or missing directory, is empty.
pub proof fn lemma_empty_listing(platform: Option<Seq<char>>)
    ensures
        listed(seq![], platform).len() == 0,
{
}

/// One test case taken into a suite: its id, its file name and its raw text.
#[derive(Debug, Clone)]
pub struct SuiteEntry {
    pub id: String,
    pub name: String,
    pub content: String,
}

impl SuiteEntry {
    /// The entry's id, file name and text.
    pub open spec fn triple(self) -> (Seq<char>, Seq<char>, Seq<char>) {
        (self.id@, self.name@, self.content@)
    }
}

/// The position of the first entry, at `i` or after, holding a valid test case
/// whose id is `id`.
pub open spec fn first_match(entries: Seq<DocEntry>, id: Seq<char>, i: int) -> Option<int>
    decreases entries.len() - i,
{
    if i < 0 || i >= entries.len() {
        None
    } else if entry_case(entries[i]) is Some && entry_case(entries[i])->Some_0.id@ == id {
        Some(i)
    } else {
        first_match(entries, id, i + 1)
    }
}

/// A suite for `ids` over `entries`: for each id in order, the first entry
/// holding a valid test case with that id; ids that no entry holds are left out.
pub open spec fn suite_of(ids: Seq<Seq<char>>, entries: Seq<DocEntry>) -> Seq<
    (Seq<char>, Seq<char>, Seq<char>),
>
    decreases ids.len(),
{
    if ids.len() == 0 {
        seq![]
    } else {
        let rest = suite_of(ids.drop_last(), entries);
        match first_match(entries, ids.last(), 0) {
            Some(k) => rest.push((ids.last(), entries[k].file_name@, entries[k].content@)),
            None => rest,
        }
    }
}

/// The triples that a suite holds, in order.
pub open spec fn suite_view(s: Seq<SuiteEntry>) -> Seq<(Seq<char>, Seq<char>, Seq<char>)> {
    s.map_values(|e: SuiteEntry| e.triple())
}

/// The position of the first entry holding a valid test case whose id is `id`.
pub fn find_by_id(entries: &Vec<DocEntry>, id: &String) -> (r: Option<usize>)
    ensures
        match r {
            Some(k) => k < entries@.len() && first_match(entries@, id@, 0) == Some(k as int),
            None => first_match(entries@, id@, 0) is None,
        },
{
    let n = entries.len();
    let mut i: usize = 0;
    while i < n
        invariant
            n == entries@.len(),
            i <= n,
            first_match(entries@, id@, 0) == first_match(entries@, id@, i as int),
        decreases n - i,
    {
        let e = &entries[i];
        match &e.decoded {
            Ok(tc) => {
                if validate_testcase(tc).is_ok() && tc.id == *id {
                    return Some(i);
                }
            },
            Err(_) => {},
        }
        i = i + 1;
    }
    None
}

/// Gathers a suite: for each requested id, in the order given, the first of
/// `entries` that holds a valid test case with that id; unmatched ids are
/// silently left out.
pub fn assemble_suite(ids: &Vec<String>, entries: &Vec<DocEntry>) -> (r: Vec<SuiteEntry>)
    ensures
        suite_view(r@) == suite_of(texts(ids@), entries@),
{
    let mut out: Vec<SuiteEntry> = Vec::new();
    let n = ids.len();
    let mut i: usize = 0;
    while i < n
        invariant
            n == ids@.len(),
            i <= n,
            suite_view(out@) == suite_of(texts(ids@.subrange(0, i as int)), entries@),
        decreases n - i,
    {
        let id = &ids[i];
        proof {
            let pre = texts(ids@.subrange(0, i as int + 1));
            assert(pre.drop_last() =~= texts(ids@.subrange(0, i as int)));
            assert(pre.last() == id@);
        }
        match find_by_id(entries, id) {
            Some(k) => {
                let e = &entries[k];
                out.push(
                    SuiteEntry { id: id.clone(), name: e.file_name.clone(), content: e.content.clone() },
                );
                assert(suite_view(out@) =~= suite_of(texts(ids@.subrange(0, i as int + 1)), entries@));
            },
            None => {},
        }
        i = i + 1;
    }
    assert(ids@.subrange(0, n as int) =~= ids@);
    out
}

/// A document with a blank required field fails to load with a validation
/// error; the error names the first blank field in the order id, name,
/// platform, description.
pub proof fn lemma_blank_field_rejected(tc: TestCase)
    requires
        blank(tc.id@) || blank(tc.name@) || blank(tc.platform@) || blank(tc.description@),
    ensures
        load_result(Ok(tc)) is Err,
        load_result(Ok(tc))->Err_0 is Validation,
        blank(tc.id@) ==> load_result(Ok(tc)) == Err::<TestCase, StoreError>(
            StoreError::Validation(ValidationError::EmptyId),
        ),
        !blank(tc.id@) && blank(tc.name@) ==> load_result(Ok(tc)) == Err::<TestCase, StoreError>(
            StoreError::Validation(ValidationError::EmptyName),
        ),
        !blank(tc.id@) && !blank(tc.name@) && blank(tc.platform@) ==> load_result(Ok(tc))
            == Err::<TestCase, StoreError>(StoreError::Validation(ValidationError::EmptyPlatform)),
        !blank(tc.id@) && !blank(tc.name@) && !blank(tc.platform@) && blank(tc.description@)
            ==> load_result(Ok(tc)) == Err::<TestCase, StoreError>(
            StoreError::Validation(ValidationError::EmptyDescription),
        ),
{
}

/// A priority outside critical, high, medium and low (ignoring case) makes a
/// document invalid; once the text fields are filled, the error is the one whose
/// message lists the allowed priorities.
pub proof fn lemma_bad_priority_rejected(tc: TestCase)
    requires
        !allowed_priority(lower_of(tc.priority@)),
    ensures
        !valid(tc),
        !blank(tc.id@) && !blank(tc.name@) && !blank(tc.platform@) && !blank(tc.description@)
            ==> validation_error(tc) == Some(ValidationError::InvalidPriority)
            && ValidationError::InvalidPriority.spec_message()
            == "priority must be one of: critical, high, medium, low"@,
{
}

/// A document without steps is invalid; once its other fields are valid, the
/// error is that the steps must not be empty.
pub proof fn lemma_no_steps_rejected(tc: TestCase)
    requires
        tc.steps@.len() == 0,
    ensures
        !valid(tc),
        !blank(tc.id@) && !blank(tc.name@) && !blank(tc.platform@) && !blank(tc.description@)
            && allowed_priority(lower_of(tc.priority@)) ==> validation_error(tc) == Some(
            ValidationError::NoSteps,
        ) && ValidationError::NoSteps.spec_message() == "steps must not be empty"@,
{
}

/// A document whose only step has a blank action, and which is otherwise valid,
/// fails at step 1.
pub proof fn lemma_blank_first_action(tc: TestCase)
    requires
        !blank(tc.id@),
        !blank(tc.name@),
        !blank(tc.platform@),
        !blank(tc.description@),
        allowed_priority(lower_of(tc.priority@)),
        tc.steps@.len() == 1,
        blank(tc.steps@[0].action@),
    ensures
        validation_error(tc) == Some(ValidationError::EmptyAction(1)),
{
}

/// Two platform filters that agree once lower-cased select the same listing:
/// the filter ignores case.
pub proof fn lemma_filter_ignores_case(entries: Seq<DocEntry>, p: Seq<char>, q: Seq<char>)
    requires
        lower_of(p) == lower_of(q),
    ensures
        listed(entries, Some(p)) == listed(entries, Some(q)),
    decreases entries.len(),
{
    if entries.len() > 0 {
        lemma_filter_ignores_case(entries.drop_last(), p, q);
    }
}

} // verus!
