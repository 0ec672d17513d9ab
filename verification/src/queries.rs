//! Querying the documents: filter, sort, and cut out one page.

use crate::access::get_document_safe;
use crate::codec::{decode_document, decode_document_spec};
use crate::access::same_bytes;
use crate::logging::text_is;
use crate::records::{Document, DocumentType, DocumentView};
use crate::store::{Collection, Store};
use crate::text::text_bytes;
use crate::typed_map::{bytes_lt, is_listing_of, pairs_view};
use crate::validate::{trim, trimmed};
use vstd::prelude::*;
use vstd::utf8::*;

verus! {

/// What documents a query asks for.
pub ghost struct FilterView {
    pub doc_id: Option<Seq<char>>,
    pub owner: Option<Seq<u8>>,
    pub institution_id: Option<Seq<char>>,
    pub document_type: Option<Seq<char>>,
    pub quarter: Option<u8>,
    pub year: Option<u16>,
    pub start_date: Option<u64>,
    pub end_date: Option<u64>,
}

/// What an optional text holds.
pub open spec fn text_option(text: Option<String>) -> Option<Seq<char>> {
    match text {
        Some(t) => Some(t@),
        None => None,
    }
}

/// What optional bytes hold.
pub open spec fn bytes_option(bytes: Option<Vec<u8>>) -> Option<Seq<u8>> {
    match bytes {
        Some(b) => Some(b@),
        None => None,
    }
}

/// The quarter and year of a document's payload.
pub open spec fn period_of(document: DocumentView) -> (u8, u16) {
    (document.document_data->EarningRelease_0.quarter, document.document_data->EarningRelease_0.year)
}

/// Whether a document is one the query asks for. Institution ids are
/// compared trimmed; the quarter and year only count when both are given.
pub open spec fn matches(filter: FilterView, document: DocumentView) -> bool {
    &&& filter.doc_id is Some ==> document.document_id == filter.doc_id->0
    &&& filter.owner is Some ==> document.owner == filter.owner->0
    &&& filter.institution_id is Some ==> trimmed(document.institution_id) == trimmed(
        filter.institution_id->0,
    )
    &&& filter.document_type is Some ==> filter.document_type->0 == "EarningRelease"@
    &&& (filter.quarter is Some && filter.year is Some) ==> period_of(document) == (
        filter.quarter->0,
        filter.year->0,
    )
    &&& filter.start_date is Some ==> document.publication_date >= filter.start_date->0
    &&& filter.end_date is Some ==> document.publication_date <= filter.end_date->0
}

/// What the documents are sorted by.
#[derive(Clone, Copy, Debug, PartialEq, Eq, Structural)]
pub enum SortKey {
    Date,
    Name,
    Institution,
}

/// The sort key that a name stands for: the date unless it is "name" or
/// "institution".
pub open spec fn sort_key_of(sort_by: Option<Seq<char>>) -> SortKey {
    if sort_by == Some("name"@) {
        SortKey::Name
    } else if sort_by == Some("institution"@) {
        SortKey::Institution
    } else {
        SortKey::Date
    }
}

/// Whether `a` is below `b` by the key: dates as numbers, texts by their
/// bytes.
pub open spec fn key_below(key: SortKey, a: DocumentView, b: DocumentView) -> bool {
    match key {
        SortKey::Date => a.publication_date < b.publication_date,
        SortKey::Name => bytes_lt(encode_utf8(a.name), encode_utf8(b.name)),
        SortKey::Institution => bytes_lt(
            encode_utf8(a.institution_id),
            encode_utf8(b.institution_id),
        ),
    }
}

/// Whether `a` must come before `b`: below it when ascending, above it when
/// descending.
pub open spec fn before(key: SortKey, ascending: bool, a: DocumentView, b: DocumentView) -> bool {
    if ascending {
        key_below(key, a, b)
    } else {
        key_below(key, b, a)
    }
}

/// Where `x` is put into `sorted`: before the first document that it must
/// come before, so behind every document it ties with.
pub open spec fn insert_place(
    key: SortKey,
    ascending: bool,
    sorted: Seq<DocumentView>,
    x: DocumentView,
) -> int
    decreases sorted.len(),
{
    if sorted.len() == 0 || before(key, ascending, x, sorted[0]) {
        0
    } else {
        1 + insert_place(key, ascending, sorted.skip(1), x)
    }
}

/// The documents `rest` put one by one into `sorted`: a stable sort.
pub open spec fn sort_onto(
    key: SortKey,
    ascending: bool,
    sorted: Seq<DocumentView>,
    rest: Seq<DocumentView>,
) -> Seq<DocumentView>
    decreases rest.len(),
{
    if rest.len() == 0 {
        sorted
    } else {
        sort_onto(
            key,
            ascending,
            sorted.insert(insert_place(key, ascending, sorted, rest[0]), rest[0]),
            rest.skip(1),
        )
    }
}

/// The document as it is shown: with its file, or without.
pub open spec fn shown(document: DocumentView, with_file: bool) -> DocumentView {
    if with_file {
        document
    } else {
        DocumentView { file_data: Seq::empty(), ..document }
    }
}

/// The listed documents that the query asks for, as they are shown, in the
/// order of the listing.
pub open spec fn selected(
    listing: Seq<(Seq<u8>, Seq<u8>)>,
    filter: FilterView,
    with_file: bool,
) -> Seq<DocumentView>
    decreases listing.len(),
{
    if listing.len() == 0 {
        Seq::empty()
    } else {
        let document = decode_document_spec(listing.last().1);
        if matches(filter, document) {
            selected(listing.drop_last(), filter, with_file).push(shown(document, with_file))
        } else {
            selected(listing.drop_last(), filter, with_file)
        }
    }
}

/// The page of `sorted` that starts at `offset` and holds at most `limit`
/// documents.
pub open spec fn page_of(sorted: Seq<DocumentView>, offset: u64, limit: u64) -> Seq<
    DocumentView,
> {
    if offset >= sorted.len() {
        Seq::empty()
    } else if offset + limit >= sorted.len() {
        sorted.subrange(offset as int, sorted.len() as int)
    } else {
        sorted.subrange(offset as int, offset + limit)
    }
}

/// What a list of documents holds.
pub open spec fn documents_view(documents: Seq<Document>) -> Seq<DocumentView> {
    Seq::new(documents.len(), |i: int| documents[i]@)
}

/// Whether `a` is below `b` in the order of byte strings.
pub fn bytes_below(a: &[u8], b: &[u8]) -> (below: bool)
    ensures
        below == bytes_lt(a@, b@),
{
    let mut i: usize = 0;
    proof {
        assert(a@.skip(0) =~= a@);
        assert(b@.skip(0) =~= b@);
    }
    while i < a.len() && i < b.len()
        invariant
            i <= a@.len(),
            i <= b@.len(),
            bytes_lt(a@, b@) == bytes_lt(a@.skip(i as int), b@.skip(i as int)),
        decreases a@.len() - i,
    {
        proof {
            assert(a@.skip(i as int)[0] == a@[i as int]);
            assert(b@.skip(i as int)[0] == b@[i as int]);
            assert(a@.skip(i as int).skip(1) =~= a@.skip(i + 1));
            assert(b@.skip(i as int).skip(1) =~= b@.skip(i + 1));
        }
        if a[i] != b[i] {
            return a[i] < b[i];
        }
        i += 1;
    }
    i < b.len()
}

fn comes_before(key: SortKey, ascending: bool, a: &Document, b: &Document) -> (yes: bool)
    ensures
        yes == before(key, ascending, a@, b@),
{
    let (low, high) = if ascending {
        (a, b)
    } else {
        (b, a)
    };
    match key {
        SortKey::Date => low.publication_date < high.publication_date,
        SortKey::Name => bytes_below(
            text_bytes(low.name.as_str()).as_slice(),
            text_bytes(high.name.as_str()).as_slice(),
        ),
        SortKey::Institution => bytes_below(
            text_bytes(low.institution_id.as_str()).as_slice(),
            text_bytes(high.institution_id.as_str()).as_slice(),
        ),
    }
}

/// The first place at which `x` must come before the document there.
pub proof fn lemma_insert_place(
    key: SortKey,
    ascending: bool,
    sorted: Seq<DocumentView>,
    x: DocumentView,
    place: int,
)
    requires
        0 <= place <= sorted.len(),
        forall|j: int| 0 <= j < place ==> !before(key, ascending, x, sorted[j]),
        place == sorted.len() || before(key, ascending, x, sorted[place]),
    ensures
        insert_place(key, ascending, sorted, x) == place,
    decreases sorted.len(),
{
    if place > 0 {
        let rest = sorted.skip(1);
        assert forall|j: int| 0 <= j < place - 1 implies !before(key, ascending, x, rest[j]) by {
            assert(rest[j] == sorted[j + 1]);
        }
        lemma_insert_place(key, ascending, rest, x, place - 1);
    }
}

fn document_matches(
    document: &Document,
    doc_id: &Option<String>,
    owner: &Option<Vec<u8>>,
    institution_id: &Option<String>,
    document_type: &Option<String>,
    quarter: Option<u8>,
    year: Option<u16>,
    start_date: Option<u64>,
    end_date: Option<u64>,
) -> (yes: bool)
    ensures
        yes == matches(
            FilterView {
                doc_id: text_option(*doc_id),
                owner: bytes_option(*owner),
                institution_id: text_option(*institution_id),
                document_type: text_option(*document_type),
                quarter: quarter,
                year: year,
                start_date: start_date,
                end_date: end_date,
            },
            document@,
        ),
{
    if let Some(wanted) = doc_id {
        if !text_is(document.document_id.as_str(), wanted.as_str()) {
            return false;
        }
    }
    if let Some(wanted) = owner {
        if !same_bytes(document.owner.as_slice(), wanted.as_slice()) {
            return false;
        }
    }
    if let Some(wanted) = institution_id {
        if !text_is(trim(document.institution_id.as_str()), trim(wanted.as_str())) {
            return false;
        }
    }
    if let Some(wanted) = document_type {
        if !text_is(wanted.as_str(), "EarningRelease") {
            return false;
        }
    }
    if let Some(wanted_quarter) = quarter {
        if let Some(wanted_year) = year {
            match &document.document_data {
                DocumentType::EarningRelease(data) => {
                    if data.quarter != wanted_quarter || data.year != wanted_year {
                        return false;
                    }
                },
            }
        }
    }
    if let Some(start) = start_date {
        if document.publication_date < start {
            return false;
        }
    }
    if let Some(end) = end_date {
        if document.publication_date > end {
            return false;
        }
    }
    true
}

/// Finds the documents that the filters ask for, sorts them, and returns one
/// page of them with the number of all that were found. The sort is stable;
/// it is by date unless `sort_by` is "name" or "institution", and descending
/// unless `sort_order` is "asc". The page starts at `offset`, 0 if none is
/// given, and holds at most `limit` documents, 10 if none is given. Without
/// `include_file_data` the documents come without their files.
pub fn query_documents(
    store: &Store,
    doc_id: Option<String>,
    owner: Option<Vec<u8>>,
    institution_id: Option<String>,
    document_type: Option<String>,
    quarter: Option<u8>,
    year: Option<u16>,
    start_date: Option<u64>,
    end_date: Option<u64>,
    offset: Option<u64>,
    limit: Option<u64>,
    sort_by: Option<String>,
    sort_order: Option<String>,
    include_file_data: Option<bool>,
) -> (found: (Vec<Document>, u64))
    requires
        store.wf(),
    ensures
        exists|listing: Seq<(Seq<u8>, Seq<u8>)>| #[trigger]
            is_listing_of(listing, store.contents(Collection::Documents)) && ({
                let filter = FilterView {
                    doc_id: text_option(doc_id),
                    owner: bytes_option(owner),
                    institution_id: text_option(institution_id),
                    document_type: text_option(document_type),
                    quarter: quarter,
                    year: year,
                    start_date: start_date,
                    end_date: end_date,
                };
                let chosen = selected(listing, filter, include_file_data != Some(false));
                &&& found.1 == chosen.len()
                &&& documents_view(found.0@) == page_of(
                    sort_onto(
                        sort_key_of(text_option(sort_by)),
                        text_option(sort_order) == Some("asc"@),
                        Seq::empty(),
                        chosen,
                    ),
                    if offset is Some {
                        offset->0
                    } else {
                        0
                    },
                    if limit is Some {
                        limit->0
                    } else {
                        10
                    },
                )
            }),
{
    let with_file = match include_file_data {
        Some(false) => false,
        _ => true,
    };
    let from: u64 = match offset {
        Some(n) => n,
        None => 0,
    };
    let at_most: u64 = match limit {
        Some(n) => n,
        None => 10,
    };
    let key = match &sort_by {
        Some(name) => if text_is(name.as_str(), "name") {
            SortKey::Name
        } else if text_is(name.as_str(), "institution") {
            SortKey::Institution
        } else {
            SortKey::Date
        },
        None => SortKey::Date,
    };
    let ascending = match &sort_order {
        Some(order) => text_is(order.as_str(), "asc"),
        None => false,
    };
    let ghost filter = FilterView {
        doc_id: text_option(doc_id),
        owner: bytes_option(owner),
        institution_id: text_option(institution_id),
        document_type: text_option(document_type),
        quarter: quarter,
        year: year,
        start_date: start_date,
        end_date: end_date,
    };
    let entries = store.entries(Collection::Documents);
    let ghost listing = pairs_view(entries@);
    let mut chosen: Vec<Document> = Vec::new();
    let mut i: usize = 0;
    assert(documents_view(chosen@) =~= selected(listing.take(0), filter, with_file));
    while i < entries.len()
        invariant
            i <= entries@.len(),
            listing == pairs_view(entries@),
            filter == (FilterView {
                doc_id: text_option(doc_id),
                owner: bytes_option(owner),
                institution_id: text_option(institution_id),
                document_type: text_option(document_type),
                quarter: quarter,
                year: year,
                start_date: start_date,
                end_date: end_date,
            }),
            documents_view(chosen@) == selected(listing.take(i as int), filter, with_file),
        decreases entries@.len() - i,
    {
        let mut document = decode_document(entries[i].1.as_slice());
        proof {
            assert(listing.take(i + 1).drop_last() =~= listing.take(i as int));
            assert(listing.take(i + 1).last() == listing[i as int]);
            assert(listing[i as int].1 == entries@[i as int].1@);
        }
        if document_matches(
            &document,
            &doc_id,
            &owner,
            &institution_id,
            &document_type,
            quarter,
            year,
            start_date,
            end_date,
        ) {
            let ghost whole = document@;
            let ghost earlier = documents_view(chosen@);
            if !with_file {
                document.file_data = Vec::new();
            }
            assert(document@ == shown(whole, with_file));
            chosen.push(document);
            assert(documents_view(chosen@) =~= earlier.push(shown(whole, with_file)));
        }
        i += 1;
    }
    assert(listing.take(i as int) =~= listing);
    let ghost all = documents_view(chosen@);
    let total: u64 = chosen.len() as u64;
    let mut sorted: Vec<Document> = Vec::new();
    assert(documents_view(sorted@) =~= Seq::<DocumentView>::empty());
    while chosen.len() > 0
        invariant
            sort_onto(key, ascending, documents_view(sorted@), documents_view(chosen@))
                == sort_onto(key, ascending, Seq::empty(), all),
            sorted@.len() + chosen@.len() == all.len(),
        decreases chosen@.len(),
    {
        let ghost rest = documents_view(chosen@);
        let ghost placed = documents_view(sorted@);
        let document = chosen.remove(0);
        assert(documents_view(chosen@) =~= rest.skip(1));
        assert(document@ == rest[0]);
        let mut place: usize = 0;
        while place < sorted.len() && !comes_before(key, ascending, &document, &sorted[place])
            invariant
                place <= sorted@.len(),
                placed == documents_view(sorted@),
                forall|j: int| 0 <= j < place ==> !before(key, ascending, document@, placed[j]),
            decreases sorted@.len() - place,
        {
            place += 1;
        }
        proof {
            lemma_insert_place(key, ascending, placed, document@, place as int);
        }
        sorted.insert(place, document);
        assert(documents_view(sorted@) =~= placed.insert(place as int, rest[0]));
    }
    assert(documents_view(chosen@) =~= Seq::<DocumentView>::empty());
    let ghost ordered = documents_view(sorted@);
    let len = sorted.len();
    let page = if from >= len as u64 {
        let none: Vec<Document> = Vec::new();
        assert(documents_view(none@) =~= Seq::<DocumentView>::empty());
        none
    } else {
        let start: usize = from as usize;
        if at_most < (len - start) as u64 {
            sorted.truncate(start + at_most as usize);
        }
        let page = sorted.split_off(start);
        assert(documents_view(page@) =~= page_of(ordered, from, at_most));
        page
    };
    assert(is_listing_of(listing, store.contents(Collection::Documents)));
    (page, total)
}

/// A document in brief.
#[derive(Debug, Clone, Default, PartialEq, Eq)]
pub struct DocumentSummary {
    pub id: String,
    pub document_name: String,
    pub file_type: String,
    pub publication_date: u64,
}

/// What a summary holds.
pub ghost struct DocumentSummaryView {
    pub id: Seq<char>,
    pub document_name: Seq<char>,
    pub file_type: Seq<char>,
    pub publication_date: u64,
}

impl View for DocumentSummary {
    type V = DocumentSummaryView;

    open spec fn view(&self) -> DocumentSummaryView {
        DocumentSummaryView {
            id: self.id@,
            document_name: self.document_name@,
            file_type: self.file_type@,
            publication_date: self.publication_date,
        }
    }
}

/// The summary of a document.
pub open spec fn summary_of(document: DocumentView) -> DocumentSummaryView {
    DocumentSummaryView {
        id: document.document_id,
        document_name: document.name,
        file_type: document.file_type,
        publication_date: document.publication_date,
    }
}

/// The filter that asks for the documents of one owner.
pub open spec fn owned_by(owner: Seq<u8>) -> FilterView {
    FilterView {
        doc_id: None,
        owner: Some(owner),
        institution_id: None,
        document_type: None,
        quarter: None,
        year: None,
        start_date: None,
        end_date: None,
    }
}

/// The first page of the documents of `owner`, newest first, in brief.
pub fn get_documents_by_owner(store: &Store, owner: &Vec<u8>) -> (summaries: Vec<DocumentSummary>)
    requires
        store.wf(),
    ensures
        exists|listing: Seq<(Seq<u8>, Seq<u8>)>| #[trigger]
            is_listing_of(listing, store.contents(Collection::Documents)) && ({
                let page = page_of(
                    sort_onto(
                        SortKey::Date,
                        false,
                        Seq::empty(),
                        selected(listing, owned_by(owner@), false),
                    ),
                    0,
                    10,
                );
                &&& summaries@.len() == page.len()
                &&& forall|i: int|
                    0 <= i < page.len() ==> (#[trigger] summaries@[i])@ == summary_of(page[i])
            }),
{
    let wanted = vstd::slice::slice_to_vec(owner.as_slice());
    let (mut documents, _) = query_documents(
        store,
        None,
        Some(wanted),
        None,
        None,
        None,
        None,
        None,
        None,
        None,
        None,
        None,
        None,
        Some(false),
    );
    let ghost page = documents_view(documents@);
    let mut summaries: Vec<DocumentSummary> = Vec::new();
    while documents.len() > 0
        invariant
            summaries@.len() + documents@.len() == page.len(),
            forall|i: int|
                0 <= i < summaries@.len() ==> (#[trigger] summaries@[i])@ == summary_of(page[i]),
            forall|i: int|
                0 <= i < documents@.len() ==> (#[trigger] documents@[i])@ == page[summaries@.len()
                    + i],
        decreases documents@.len(),
    {
        let ghost done = summaries@.len();
        let ghost rest = documents@;
        let document = documents.remove(0);
        assert(document@ == page[done as int]);
        assert forall|i: int| 0 <= i < documents@.len() implies (#[trigger] documents@[i])@
            == page[done + 1 + i] by {
            assert(documents@[i] == rest[i + 1]);
        }
        summaries.push(
            DocumentSummary {
                id: document.document_id,
                document_name: document.name,
                file_type: document.file_type,
                publication_date: document.publication_date,
            },
        );
    }
    summaries
}

/// Whether the document `document_id` is there and owned by `owner`.
pub fn is_document_owned_by(store: &Store, document_id: &str, owner: &Vec<u8>) -> (owned: bool)
    ensures
        owned == (store.contents(Collection::Documents).contains_key(encode_utf8(document_id@))
            && decode_document_spec(
            store.contents(Collection::Documents)[encode_utf8(document_id@)],
        ).owner == owner@),
{
    match get_document_safe(store, document_id) {
        Some(document) => same_bytes(document.owner.as_slice(), owner.as_slice()),
        None => false,
    }
}

/// The file of the document `document_id`, if the document is there.
pub fn get_document_file(store: &Store, document_id: &str) -> (file: Option<Vec<u8>>)
    ensures
        file.is_some() == store.contents(Collection::Documents).contains_key(
            encode_utf8(document_id@),
        ),
        file.is_some() ==> file.unwrap()@ == decode_document_spec(
            store.contents(Collection::Documents)[encode_utf8(document_id@)],
        ).file_data,
{
    match get_document_safe(store, document_id) {
        Some(document) => Some(document.file_data),
        None => None,
    }
}

} // verus!
