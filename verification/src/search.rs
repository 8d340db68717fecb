//! The search index: a tantivy index that holds one document for each
//! indexed URL.

use crate::summary::{texts, Summary, SummaryView};
use vstd::multiset::Multiset;
use vstd::prelude::*;
use vstd::string::*;
use vstd::utf8::*;

verus! {

#[verifier::external_type_specification]
#[verifier::external_body]
pub struct ExIndex(tantivy::Index);

#[verifier::external_type_specification]
#[verifier::external_body]
pub struct ExSchema(tantivy::schema::Schema);

#[verifier::external_type_specification]
#[verifier::external_body]
pub struct ExSchemaBuilder(tantivy::schema::SchemaBuilder);

#[verifier::external_type_specification]
#[verifier::external_body]
pub struct ExIndexError(tantivy::TantivyError);

#[verifier::external_type_specification]
#[verifier::external_body]
pub struct ExQueryParserError(tantivy::query::QueryParserError);

/// The writes that are under way on an index: what tantivy's `IndexWriter`
/// has been told and has not yet committed.
#[verifier::external_body]
pub struct Staging {
    writer: tantivy::IndexWriter,
}

/// How a text field is indexed.
#[derive(Clone, Copy, Debug, PartialEq, Eq, Structural)]
pub enum FieldKind {
    /// Indexed as one term, the whole text, and stored.
    Exact,
    /// Split into words for matching, and stored.
    StoredText,
    /// Split into words for matching.
    Text,
}

/// The fields that a schema builder has been given so far, in the order of
/// their ids: the name and the kind of each.
pub uninterp spec fn builder_layout(builder: tantivy::schema::SchemaBuilder) -> Seq<
    (Seq<char>, FieldKind),
>;

/// The fields of a schema, in the order of their ids.
pub uninterp spec fn schema_layout(schema: tantivy::schema::Schema) -> Seq<(Seq<char>, FieldKind)>;

/// The fields of the schema of an index, in the order of their ids.
pub uninterp spec fn index_layout(index: tantivy::Index) -> Seq<(Seq<char>, FieldKind)>;

/// The documents that an index holds, committed: each as the texts of its
/// fields, in the order of the field ids. An index is taken to hold
/// documents as this library writes them, with a text for every field, and
/// the handle to be the only one that writes to the directory.
pub uninterp spec fn index_docs(index: tantivy::Index) -> Multiset<Seq<Seq<char>>>;

/// The index that the writes are under way on.
pub uninterp spec fn staged_index(staging: Staging) -> tantivy::Index;

/// The documents that the index will hold once the writes are committed.
pub uninterp spec fn staged_docs(staging: Staging) -> Multiset<Seq<Seq<char>>>;

/// Whether tantivy's query parser accepts `query`, for an index of the given
/// fields and the given default fields.
pub uninterp spec fn query_parses(
    layout: Seq<(Seq<char>, FieldKind)>,
    defaults: Seq<u32>,
    query: Seq<char>,
) -> bool;

/// Whether a document matches `query` as tantivy's query parser reads it,
/// for an index of the given fields and the given default fields.
pub uninterp spec fn query_matches(
    layout: Seq<(Seq<char>, FieldKind)>,
    defaults: Seq<u32>,
    query: Seq<char>,
    doc: Seq<Seq<char>>,
) -> bool;

/// Whether `name` can name a field: it is not empty and does not begin with a hyphen.
pub open spec fn is_field_name(name: Seq<char>) -> bool {
    name.len() > 0 && name[0] != '-'
}

/// Whether the layout holds a field called `name`.
pub open spec fn has_field(layout: Seq<(Seq<char>, FieldKind)>, name: Seq<char>) -> bool {
    exists|i: int| 0 <= i < layout.len() && (#[trigger] layout[i]).0 == name
}

/// The documents whose field `field` reads `text`.
pub open spec fn field_is(field: u32, text: Seq<char>) -> spec_fn(Seq<Seq<char>>) -> bool {
    |doc: Seq<Seq<char>>| field < doc.len() && doc[field as int] == text
}

/// The documents whose field `field` does not read `text`.
pub open spec fn field_is_not(field: u32, text: Seq<char>) -> spec_fn(Seq<Seq<char>>) -> bool {
    |doc: Seq<Seq<char>>| !(field < doc.len() && doc[field as int] == text)
}

/// The documents that match `query`.
pub open spec fn matching(
    layout: Seq<(Seq<char>, FieldKind)>,
    defaults: Seq<u32>,
    query: Seq<char>,
) -> spec_fn(Seq<Seq<char>>) -> bool {
    |doc: Seq<Seq<char>>| query_matches(layout, defaults, query, doc)
}

/// The smaller of two numbers.
pub open spec fn at_most(limit: nat, available: nat) -> nat {
    if limit <= available {
        limit
    } else {
        available
    }
}

/// `picked` are the best hits for `query` among `docs`: different documents
/// of `docs`, each matching the query, as many as match up to `limit`.
pub open spec fn is_selection(
    docs: Multiset<Seq<Seq<char>>>,
    layout: Seq<(Seq<char>, FieldKind)>,
    defaults: Seq<u32>,
    query: Seq<char>,
    limit: nat,
    picked: Seq<Seq<Seq<char>>>,
) -> bool {
    &&& picked.to_multiset().subset_of(docs)
    &&& forall|i: int| 0 <= i < picked.len() ==> query_matches(layout, defaults, query, #[trigger] picked[i])
    &&& picked.len() == at_most(limit, docs.filter(matching(layout, defaults, query)).len())
}

/// `Schema::builder` of tantivy: a builder that has been given no field.
#[verifier::external_body]
fn new_schema_builder() -> (builder: tantivy::schema::SchemaBuilder)
    ensures
        builder_layout(builder) == Seq::<(Seq<char>, FieldKind)>::empty(),
{
    tantivy::schema::Schema::builder()
}

/// `SchemaBuilder::add_text_field` of tantivy, with the options `STRING |
/// STORED`, `TEXT | STORED` or `TEXT` for the three kinds: the new field comes
/// last, and its id is the number of fields that the builder held before. It
/// panics on a name that is no field name or that the builder already holds.
#[verifier::external_body]
fn add_text_field(builder: &mut tantivy::schema::SchemaBuilder, name: &str, kind: FieldKind) -> (id:
    u32)
    requires
        is_field_name(name@),
        !has_field(builder_layout(*old(builder)), name@),
    ensures
        id == builder_layout(*old(builder)).len(),
        builder_layout(*final(builder)) == builder_layout(*old(builder)).push((name@, kind)),
{
    let options = match kind {
        FieldKind::Exact => tantivy::schema::STRING | tantivy::schema::STORED,
        FieldKind::StoredText => tantivy::schema::TEXT | tantivy::schema::STORED,
        FieldKind::Text => tantivy::schema::TEXT,
    };
    builder.add_text_field(name, options).field_id()
}

/// `SchemaBuilder::build` of tantivy: the schema of the fields that the builder holds.
#[verifier::external_body]
fn build_schema(builder: tantivy::schema::SchemaBuilder) -> (schema: tantivy::schema::Schema)
    ensures
        schema_layout(schema) == builder_layout(builder),
{
    builder.build()
}

/// `Index::open_or_create` of tantivy on the directory `path`, opened with
/// `MmapDirectory::open`: the index that the directory holds, or a new and
/// empty one where it holds none. An index of another schema is refused, so
/// the index that comes back has the fields of `schema`.
#[verifier::external_body]
fn open_or_create_index(path: &str, schema: tantivy::schema::Schema) -> (r: Result<
    tantivy::Index,
    tantivy::TantivyError,
>)
    ensures
        r matches Ok(index) ==> index_layout(index) == schema_layout(schema),
{
    tantivy::Index::open_or_create(tantivy::directory::MmapDirectory::open(path)?, schema)
}

/// `Index::writer` of tantivy: a writer on `index`, with nothing written yet,
/// so that a commit would leave the documents as they are.
#[verifier::external_body]
fn begin_write(index: &tantivy::Index, budget: usize) -> (r: Result<Staging, tantivy::TantivyError>)
    ensures
        r matches Ok(staging) ==> staged_index(staging) == *index && staged_docs(staging)
            == index_docs(*index),
{
    index.writer(budget).map(|writer| Staging { writer })
}

/// `IndexWriter::delete_term` of tantivy with the term that
/// `Term::from_field_text` makes of `field` and `text`: the documents that
/// hold the term leave. For a field indexed as one term these are the
/// documents whose field reads exactly `text`.
#[verifier::external_body]
fn stage_delete(staging: &mut Staging, field: u32, text: &str)
    requires
        field < index_layout(staged_index(*old(staging))).len(),
        index_layout(staged_index(*old(staging)))[field as int].1 == FieldKind::Exact,
    ensures
        staged_index(*final(staging)) == staged_index(*old(staging)),
        staged_docs(*final(staging)) == staged_docs(*old(staging)).filter(
            field_is_not(field, text@),
        ),
{
    let field = tantivy::schema::Field::from_field_id(field);
    staging.writer.delete_term(tantivy::Term::from_field_text(field, text));
}

/// `IndexWriter::add_document` of tantivy with the document that
/// `TantivyDocument::add_text` makes of `texts`, the text at each place under
/// the field of that id: on success the document has joined the others.
/// tantivy leaves a term of more than `MAX_TERM_BYTES` bytes out of the
/// index, so a text that is indexed as one term may not be longer: it
/// could not be found again.
#[verifier::external_body]
fn stage_add(staging: &mut Staging, texts: &Vec<String>) -> (r: Result<(), tantivy::TantivyError>)
    requires
        texts@.len() == index_layout(staged_index(*old(staging))).len(),
        forall|i: int|
            0 <= i < texts@.len() && (#[trigger] index_layout(staged_index(*old(staging)))[i]).1
                == FieldKind::Exact ==> encode_utf8(texts@[i]@).len() <= MAX_TERM_BYTES,
    ensures
        staged_index(*final(staging)) == staged_index(*old(staging)),
        r is Ok ==> staged_docs(*final(staging)) == staged_docs(*old(staging)).insert(
            crate::summary::texts(texts@),
        ),
{
    let mut doc = tantivy::TantivyDocument::new();
    for (id, text) in texts.iter().enumerate() {
        doc.add_text(tantivy::schema::Field::from_field_id(id as u32), text);
    }
    staging.writer.add_document(doc).map(|_| ())
}

/// `IndexWriter::commit` of tantivy: on success the index, of which `index`
/// is the handle that the writes were begun on, holds the documents as
/// written. The fields of the index stay as they are.
#[verifier::external_body]
fn publish(staging: &mut Staging, index: &mut tantivy::Index) -> (r: Result<
    (),
    tantivy::TantivyError,
>)
    requires
        staged_index(*old(staging)) == *old(index),
    ensures
        index_layout(*final(index)) == index_layout(*old(index)),
        r is Ok ==> index_docs(*final(index)) == staged_docs(*old(staging)),
{
    let _ = index;
    staging.writer.commit().map(|_| ())
}

/// `QueryParser::parse_query` of tantivy, on a parser that
/// `QueryParser::for_index` makes for `index` and the default fields
/// `defaults`: the error with which the parser refuses `query`, if it does.
#[verifier::external_body]
fn query_fault(index: &tantivy::Index, defaults: &Vec<u32>, query: &str) -> (r: Option<
    tantivy::query::QueryParserError,
>)
    requires
        forall|i: int| 0 <= i < defaults@.len() ==> defaults@[i] < index_layout(*index).len(),
    ensures
        r is None <==> query_parses(index_layout(*index), defaults@, query@),
{
    let fields = defaults.iter().map(|id| tantivy::schema::Field::from_field_id(*id)).collect();
    tantivy::query::QueryParser::for_index(index, fields).parse_query(query).err()
}

/// `Searcher::num_docs` of tantivy, on a searcher that a new reader of
/// `index` gives: the number of documents that the index holds.
#[verifier::external_body]
fn doc_count(index: &tantivy::Index) -> (r: Result<u64, tantivy::TantivyError>)
    ensures
        r matches Ok(n) ==> n == index_docs(*index).len(),
{
    index.reader().map(|reader| reader.searcher().num_docs())
}

/// `Searcher::search` of tantivy with the collector
/// `TopDocs::with_limit(limit).order_by_score()`, on a searcher that a new
/// reader of `index` gives and for `query` as the parser reads it: the best
/// hits, each handed out as the stored text of its field `shown`, read with
/// `Searcher::doc`. The hits are different documents of the index that match
/// the query, as many as match up to `limit`. `TopDocs::with_limit` panics on
/// a limit of 0, and the collector sets aside room for twice `limit` hits,
/// which is why `limit` may not go beyond the number of documents.
#[verifier::external_body]
fn ranked_texts(
    index: &tantivy::Index,
    defaults: &Vec<u32>,
    shown: u32,
    query: &str,
    limit: usize,
) -> (r: Result<Vec<Option<String>>, tantivy::TantivyError>)
    requires
        0 < limit <= index_docs(*index).len(),
        shown < index_layout(*index).len(),
        index_layout(*index)[shown as int].1 != FieldKind::Text,
        forall|i: int| 0 <= i < defaults@.len() ==> defaults@[i] < index_layout(*index).len(),
    ensures
        r matches Ok(found) ==> exists|picked: Seq<Seq<Seq<char>>>|
            {
                &&& #[trigger] shown_texts(picked, shown) == found_texts(found@)
                &&& picked.to_multiset().subset_of(index_docs(*index))
                &&& forall|i: int|
                    0 <= i < picked.len() ==> query_matches(
                        index_layout(*index),
                        defaults@,
                        query@,
                        #[trigger] picked[i],
                    )
                &&& picked.len() == at_most(
                    limit as nat,
                    index_docs(*index).filter(
                        matching(index_layout(*index), defaults@, query@),
                    ).len(),
                )
            },
{
    let fields = defaults.iter().map(|id| tantivy::schema::Field::from_field_id(*id)).collect();
    let query = tantivy::query::QueryParser::for_index(index, fields).parse_query(query)?;
    let searcher = index.reader()?.searcher();
    let best = tantivy::collector::TopDocs::with_limit(limit).order_by_score();
    let field = tantivy::schema::Field::from_field_id(shown);
    let stored = |doc: tantivy::TantivyDocument| {
        doc.get_first(field).and_then(|v| tantivy::schema::Value::as_str(&v).map(String::from))
    };
    let hits = searcher.search(&query, &best)?;
    hits.into_iter().map(|(_, at)| searcher.doc(at).map(stored)).collect()
}

/// The text of field `shown` of each picked document, where it has that field.
pub open spec fn shown_texts(picked: Seq<Seq<Seq<char>>>, shown: u32) -> Seq<Option<Seq<char>>> {
    picked.map_values(
        |doc: Seq<Seq<char>>|
            if shown < doc.len() {
                Some(doc[shown as int])
            } else {
                None
            },
    )
}

/// The texts that were found, as values.
pub open spec fn found_texts(found: Seq<Option<String>>) -> Seq<Option<Seq<char>>> {
    found.map_values(
        |text: Option<String>|
            match text {
                Some(t) => Some(t@),
                None => None,
            },
    )
}

/// The id of the field that holds the URL of a document.
pub const URL_FIELD: u32 = 0;

/// The id of the field that holds the title.
pub const TITLE_FIELD: u32 = 1;

/// The id of the field that holds the conclusion.
pub const CONCLUSION_FIELD: u32 = 2;

/// The id of the field that holds the key points.
pub const KEY_POINTS_FIELD: u32 = 3;

/// The id of the field that holds the entities.
pub const ENTITIES_FIELD: u32 = 4;

/// The id of the field that holds the action items.
pub const ACTION_ITEMS_FIELD: u32 = 5;

/// The longest term that the index keeps, in bytes of UTF-8.
pub const MAX_TERM_BYTES: usize = 65530;

/// The memory that a writer may use, in bytes.
pub const WRITER_BUDGET: usize = 50_000_000;

/// The fields of the index: the URL as one term, the other texts split into words.
pub open spec fn summary_layout() -> Seq<(Seq<char>, FieldKind)> {
    seq![
        ("url"@, FieldKind::Exact),
        ("title"@, FieldKind::StoredText),
        ("conclusion"@, FieldKind::Text),
        ("key_points"@, FieldKind::Text),
        ("entities"@, FieldKind::Text),
        ("action_items"@, FieldKind::Text),
    ]
}

/// The fields in which a query is looked for when it names none: title,
/// conclusion, key points and entities.
pub open spec fn default_fields() -> Seq<u32> {
    seq![TITLE_FIELD, CONCLUSION_FIELD, KEY_POINTS_FIELD, ENTITIES_FIELD]
}

/// The texts joined into one, with a space between each two.
pub open spec fn join_spaced(ts: Seq<Seq<char>>) -> Seq<char>
    decreases ts.len(),
{
    if ts.len() == 0 {
        Seq::empty()
    } else if ts.len() == 1 {
        ts[0]
    } else {
        join_spaced(ts.drop_last()) + seq![' '] + ts.last()
    }
}

/// The document under which a summary is indexed: the texts of its fields,
/// in the order of the field ids. The lists are joined, so where one entry
/// ends and the next begins is not kept.
pub open spec fn index_document(url: Seq<char>, summary: SummaryView) -> Seq<Seq<char>> {
    seq![
        url,
        summary.title,
        summary.conclusion,
        join_spaced(summary.key_points),
        join_spaced(summary.entities),
        join_spaced(summary.action_items),
    ]
}

/// The documents after `doc` has been indexed: those of another URL, and `doc`.
pub open spec fn reindexed(docs: Multiset<Seq<Seq<char>>>, doc: Seq<Seq<char>>) -> Multiset<
    Seq<Seq<char>>,
> {
    docs.filter(field_is_not(URL_FIELD, doc[URL_FIELD as int])).insert(doc)
}

/// `urls` is what a search for `query` returns from `docs`: the URLs of the
/// best hits, in their order.
pub open spec fn is_hit_list(
    docs: Multiset<Seq<Seq<char>>>,
    query: Seq<char>,
    limit: nat,
    urls: Seq<Seq<char>>,
) -> bool {
    exists|picked: Seq<Seq<Seq<char>>>|
        {
            &&& #[trigger] is_selection(docs, summary_layout(), default_fields(), query, limit, picked)
            &&& urls == present(shown_texts(picked, URL_FIELD))
        }
}

/// The texts that are there, in their order.
pub open spec fn present(found: Seq<Option<Seq<char>>>) -> Seq<Seq<char>>
    decreases found.len(),
{
    if found.len() == 0 {
        Seq::empty()
    } else {
        match found.last() {
            Some(t) => present(found.drop_last()).push(t),
            None => present(found.drop_last()),
        }
    }
}

/// The documents that pass a filter are no more than the documents.
pub proof fn lemma_filter_len(docs: Multiset<Seq<Seq<char>>>, keep: spec_fn(Seq<Seq<char>>) -> bool)
    ensures
        docs.filter(keep).len() <= docs.len(),
{
    broadcast use vstd::multiset::group_multiset_axioms;

    let rest = docs.filter(|doc: Seq<Seq<char>>| !keep(doc));
    assert(docs =~= docs.filter(keep).add(rest));
}

/// The texts that are there are no more than the places.
pub proof fn lemma_present_len(found: Seq<Option<Seq<char>>>)
    ensures
        present(found).len() <= found.len(),
    decreases found.len(),
{
    if found.len() > 0 {
        lemma_present_len(found.drop_last());
    }
}

/// Joins texts with a space between each two.
pub fn join_with_spaces(items: &Vec<String>) -> (joined: String)
    ensures
        joined@ == join_spaced(texts(items@)),
{
    let mut out = String::new();
    let mut i: usize = 0;
    while i < items.len()
        invariant
            i <= items@.len(),
            out@ == join_spaced(texts(items@).take(i as int)),
        decreases items@.len() - i,
    {
        proof {
            reveal_strlit(" ");
            let all = texts(items@);
            assert(all.take(i + 1).drop_last() =~= all.take(i as int));
            assert(all.take(i + 1).last() == items@[i as int]@);
            assert(" "@ =~= seq![' ']);
        }
        if i > 0 {
            out.append(" ");
        }
        out.append(items[i].as_str());
        proof {
            let all = texts(items@);
            if i == 0 {
                assert(out@ =~= all.take(1)[0]);
            }
        }
        i = i + 1;
    }
    proof {
        assert(texts(items@).take(items@.len() as int) =~= texts(items@));
    }
    out
}

/// The projection of a record that is indexed.
#[derive(Debug, Clone, PartialEq, Eq)]
pub struct IndexDocument {
    /// The URL, kept whole and stored
    pub url: String,
    pub title: String,
    pub conclusion: String,
    /// The key points, joined with spaces
    pub key_points: String,
    /// The entities, joined with spaces
    pub entities: String,
    /// The action items, joined with spaces
    pub action_items: String,
}

impl IndexDocument {
    /// The texts of the fields, in the order of the field ids.
    pub open spec fn field_texts(&self) -> Seq<Seq<char>> {
        seq![
            self.url@,
            self.title@,
            self.conclusion@,
            self.key_points@,
            self.entities@,
            self.action_items@,
        ]
    }

    /// The document under which `summary` is indexed for `url`.
    pub fn project(url: &str, summary: &Summary) -> (doc: Self)
        ensures
            doc.field_texts() == index_document(url@, summary@),
    {
        IndexDocument {
            url: url.to_owned(),
            title: summary.title.clone(),
            conclusion: summary.conclusion.clone(),
            key_points: join_with_spaces(&summary.key_points),
            entities: join_with_spaces(&summary.entities),
            action_items: join_with_spaces(&summary.action_items),
        }
    }

    /// The texts of the fields, in the order of the field ids.
    pub fn into_texts(self) -> (list: Vec<String>)
        ensures
            texts(list@) == self.field_texts(),
    {
        let list = vec![
            self.url,
            self.title,
            self.conclusion,
            self.key_points,
            self.entities,
            self.action_items,
        ];
        assert(texts(list@) =~= self.field_texts());
        list
    }
}

/// Why a query was refused.
#[derive(Debug)]
pub enum QueryIssue {
    /// The query is empty.
    Empty,
    /// The query parser does not accept the query.
    Rejected(tantivy::query::QueryParserError),
}

/// What went wrong in the search index.
#[derive(Debug)]
pub enum SearchError {
    /// The index failed.
    Backend(tantivy::TantivyError),
    /// The query is empty or cannot be parsed.
    QueryError(QueryIssue),
    /// The URL is longer than the longest term that the index keeps: a
    /// document of that URL could not be found again to be replaced.
    UrlTooLong,
}

/// Whether a query is one that a search runs: it is not empty and the parser accepts it.
pub open spec fn is_query(query: Seq<char>) -> bool {
    query.len() > 0 && query_parses(summary_layout(), default_fields(), query)
}

/// Tantivy-based search index for summaries.
pub struct SearchIndex {
    index: tantivy::Index,
}

impl SearchIndex {
    /// The documents that the index holds.
    pub closed spec fn docs(&self) -> Multiset<Seq<Seq<char>>> {
        index_docs(self.index)
    }

    /// The index has the fields that summaries are indexed under. Every
    /// index that `open` returns does.
    pub closed spec fn wf(&self) -> bool {
        index_layout(self.index) == summary_layout()
    }

    /// Open the search index in the directory `path`, or create a new and
    /// empty one if the directory holds none. The directory must exist.
    pub fn open(path: &str) -> (r: Result<Self, SearchError>)
        ensures
            match r {
                Ok(index) => index.wf(),
                Err(e) => e is Backend,
            },
    {
        let mut builder = new_schema_builder();
        proof {
            reveal_strlit("url");
            reveal_strlit("title");
            reveal_strlit("conclusion");
            reveal_strlit("key_points");
            reveal_strlit("entities");
            reveal_strlit("action_items");
        }
        add_text_field(&mut builder, "url", FieldKind::Exact);
        add_text_field(&mut builder, "title", FieldKind::StoredText);
        add_text_field(&mut builder, "conclusion", FieldKind::Text);
        assert(!has_field(builder_layout(builder), "key_points"@)) by {
            assert("conclusion"@[0] != "key_points"@[0]);
        }
        add_text_field(&mut builder, "key_points", FieldKind::Text);
        add_text_field(&mut builder, "entities", FieldKind::Text);
        add_text_field(&mut builder, "action_items", FieldKind::Text);
        assert(builder_layout(builder) =~= summary_layout());
        let schema = build_schema(builder);
        match open_or_create_index(path, schema) {
            Ok(index) => Ok(SearchIndex { index }),
            Err(e) => Err(SearchError::Backend(e)),
        }
    }

    /// Index a summary for searching: any document of the same URL leaves,
    /// the new one is added, and the change is committed. A URL of more
    /// than `MAX_TERM_BYTES` bytes is refused and the index left as it is.
    pub fn index_summary(&mut self, url: &str, summary: &Summary) -> (r: Result<(), SearchError>)
        requires
            old(self).wf(),
        ensures
            final(self).wf(),
            match r {
                Ok(()) => encode_utf8(url@).len() <= MAX_TERM_BYTES && final(self).docs()
                    == reindexed(old(self).docs(), index_document(url@, summary@)),
                Err(SearchError::UrlTooLong) => encode_utf8(url@).len() > MAX_TERM_BYTES && final(self).docs() == old(self).docs(),
                Err(SearchError::Backend(_)) => encode_utf8(url@).len() <= MAX_TERM_BYTES,
                Err(SearchError::QueryError(_)) => false,
            },
    {
        if url.as_bytes().len() > MAX_TERM_BYTES {
            return Err(SearchError::UrlTooLong);
        }
        let doc = IndexDocument::project(url, summary);
        let list = doc.into_texts();
        let mut staging = match begin_write(&self.index, WRITER_BUDGET) {
            Ok(staging) => staging,
            Err(e) => { return Err(SearchError::Backend(e)); },
        };
        stage_delete(&mut staging, URL_FIELD, url);
        assert(texts(list@).len() == list@.len());
        match stage_add(&mut staging, &list) {
            Ok(()) => {},
            Err(e) => { return Err(SearchError::Backend(e)); },
        }
        match publish(&mut staging, &mut self.index) {
            Ok(()) => Ok(()),
            Err(e) => Err(SearchError::Backend(e)),
        }
    }

    /// The URLs among the texts that the index handed out for the hits: a
    /// hit without a stored URL is passed over.
    pub fn collect_urls(found: &Vec<Option<String>>) -> (urls: Vec<String>)
        ensures
            texts(urls@) == present(found_texts(found@)),
    {
        let mut results: Vec<String> = Vec::new();
        let mut i: usize = 0;
        proof {
            assert(found_texts(found@).take(0) =~= Seq::<Option<Seq<char>>>::empty());
            assert(texts(results@) =~= Seq::<Seq<char>>::empty());
        }
        while i < found.len()
            invariant
                i <= found@.len(),
                texts(results@) == present(found_texts(found@).take(i as int)),
            decreases found@.len() - i,
        {
            proof {
                let all = found_texts(found@);
                assert(all.take(i + 1).drop_last() =~= all.take(i as int));
                assert(all.take(i + 1).last() == all[i as int]);
            }
            match &found[i] {
                Some(url) => {
                    let copy = url.clone();
                    proof {
                        assert(texts(results@.push(copy)) =~= texts(results@).push(copy@));
                    }
                    results.push(copy);
                },
                None => {},
            }
            i = i + 1;
        }
        proof {
            assert(found_texts(found@).take(found@.len() as int) =~= found_texts(found@));
        }
        results
    }

    /// Search for summaries matching the query: the URLs of up to `limit`
    /// documents, best first.
    pub fn search(&self, query_str: &str, limit: usize) -> (r: Result<Vec<String>, SearchError>)
        requires
            self.wf(),
        ensures
            match r {
                Ok(urls) => is_query(query_str@) && urls@.len() <= limit && is_hit_list(
                    self.docs(),
                    query_str@,
                    limit as nat,
                    texts(urls@),
                ),
                Err(SearchError::QueryError(QueryIssue::Empty)) => query_str@.len() == 0,
                Err(SearchError::QueryError(QueryIssue::Rejected(_))) => query_str@.len() > 0
                    && !is_query(query_str@),
                Err(SearchError::Backend(_)) => is_query(query_str@) && limit > 0,
                Err(SearchError::UrlTooLong) => false,
            },
    {
        if query_str.is_empty() {
            return Err(SearchError::QueryError(QueryIssue::Empty));
        }
        let defaults: Vec<u32> = vec![TITLE_FIELD, CONCLUSION_FIELD, KEY_POINTS_FIELD, ENTITIES_FIELD];
        assert(defaults@ =~= default_fields());
        match query_fault(&self.index, &defaults, query_str) {
            Some(e) => { return Err(SearchError::QueryError(QueryIssue::Rejected(e))); },
            None => {},
        }
        if limit == 0 {
            let none: Vec<String> = Vec::new();
            proof {
                let picked = Seq::<Seq<Seq<char>>>::empty();
                broadcast use vstd::multiset::group_multiset_axioms;
                picked.to_multiset_ensures();
                assert(picked.to_multiset().subset_of(self.docs()));
                assert(texts(none@) =~= present(shown_texts(picked, URL_FIELD)));
                assert(is_selection(self.docs(), summary_layout(), default_fields(), query_str@, 0, picked));
            }
            return Ok(none);
        }
        let count = match doc_count(&self.index) {
            Ok(count) => count,
            Err(e) => { return Err(SearchError::Backend(e)); },
        };
        if count == 0 {
            let none: Vec<String> = Vec::new();
            proof {
                let picked = Seq::<Seq<Seq<char>>>::empty();
                broadcast use vstd::multiset::group_multiset_axioms;
                picked.to_multiset_ensures();
                assert(picked.to_multiset().subset_of(self.docs()));
                lemma_filter_len(self.docs(), matching(summary_layout(), default_fields(), query_str@));
                assert(texts(none@) =~= present(shown_texts(picked, URL_FIELD)));
                assert(is_selection(
                    self.docs(),
                    summary_layout(),
                    default_fields(),
                    query_str@,
                    limit as nat,
                    picked,
                ));
            }
            return Ok(none);
        }
        let wanted: usize = if limit as u64 > count {
            count as usize
        } else {
            limit
        };
        proof {
            lemma_filter_len(self.docs(), matching(summary_layout(), default_fields(), query_str@));
        }
        match ranked_texts(&self.index, &defaults, URL_FIELD, query_str, wanted) {
            Ok(found) => {
                let urls = Self::collect_urls(&found);
                proof {
                    let picked = choose|picked: Seq<Seq<Seq<char>>>|
                        {
                            &&& #[trigger] shown_texts(picked, URL_FIELD) == found_texts(found@)
                            &&& picked.to_multiset().subset_of(index_docs(self.index))
                            &&& forall|i: int|
                                0 <= i < picked.len() ==> query_matches(
                                    index_layout(self.index),
                                    defaults@,
                                    query_str@,
                                    #[trigger] picked[i],
                                )
                            &&& picked.len() == at_most(
                                wanted as nat,
                                index_docs(self.index).filter(
                                    matching(index_layout(self.index), defaults@, query_str@),
                                ).len(),
                            )
                        };
                    assert(is_selection(
                        self.docs(),
                        summary_layout(),
                        default_fields(),
                        query_str@,
                        limit as nat,
                        picked,
                    ));
                    lemma_present_len(found_texts(found@));
                    assert(texts(urls@).len() == urls@.len());
                    assert(shown_texts(picked, URL_FIELD).len() == picked.len());
                }
                Ok(urls)
            },
            Err(e) => Err(SearchError::Backend(e)),
        }
    }
}

} // verus!
