//! The search service: what is sent to it and what is made of its answer.

use vstd::prelude::*;
use vstd::seq_lib::to_multiset_insert;
use crate::json::{items_at, json_items_at, json_text_at, plain_path, text_at};
use crate::text::{
    lemma_text_le_total, lemma_text_le_transitive, precedes, text_le, text_of, trim, trimmed,
    views_of,
};

verus! {

/// One result of a search.
#[derive(Debug, PartialEq, Eq)]
pub struct SearchHit {
    pub name: String,
    pub location: String,
    pub genre: String,
    pub url: String,
}

/// What a [`SearchHit`] holds, as mathematical values.
pub struct SearchHitView {
    pub name: Seq<char>,
    pub location: Seq<char>,
    pub genre: Seq<char>,
    pub url: Seq<char>,
}

impl View for SearchHit {
    type V = SearchHitView;

    open spec fn view(&self) -> SearchHitView {
        SearchHitView {
            name: self.name@,
            location: self.location@,
            genre: self.genre@,
            url: self.url@,
        }
    }
}

impl Clone for SearchHit {
    fn clone(&self) -> (copy: Self)
        ensures
            copy@ == self@,
    {
        SearchHit {
            name: self.name.clone(),
            location: self.location.clone(),
            genre: self.genre.clone(),
            url: self.url.clone(),
        }
    }
}

/// The views of a sequence of hits, in order.
pub open spec fn hits_view(hits: Seq<SearchHit>) -> Seq<SearchHitView> {
    hits.map_values(|hit: SearchHit| hit@)
}

/// `text` in lower case, as `str::to_lowercase` gives it: each character
/// replaced by its lower-case mapping in Unicode.
pub uninterp spec fn lowercased(text: Seq<char>) -> Seq<char>;

/// A hit with the key that it is ordered by.
#[derive(Debug, PartialEq, Eq)]
pub struct KeyedHit {
    pub key: String,
    pub hit: SearchHit,
}

/// What a [`KeyedHit`] holds, as mathematical values.
pub struct KeyedHitView {
    pub key: Seq<char>,
    pub hit: SearchHitView,
}

impl View for KeyedHit {
    type V = KeyedHitView;

    open spec fn view(&self) -> KeyedHitView {
        KeyedHitView { key: self.key@, hit: self.hit@ }
    }
}

impl Clone for KeyedHit {
    fn clone(&self) -> (copy: Self)
        ensures
            copy@ == self@,
    {
        KeyedHit { key: self.key.clone(), hit: self.hit.clone() }
    }
}

/// The views of a sequence of hits with their keys, in order.
pub open spec fn keyed_view(entries: Seq<KeyedHit>) -> Seq<KeyedHitView> {
    entries.map_values(|entry: KeyedHit| entry@)
}

/// The key by which hits are ordered: the name in lower case.
pub open spec fn sort_key(hit: SearchHitView) -> Seq<char> {
    lowercased(hit.name)
}

/// Where an entry goes into a list that is in order: behind the last entry
/// whose key does not come after its own.
pub open spec fn insert_point(sorted: Seq<KeyedHitView>, entry: KeyedHitView) -> int
    decreases sorted.len(),
{
    if sorted.len() == 0 {
        0
    } else if text_le(sorted.last().key, entry.key) {
        sorted.len() as int
    } else {
        insert_point(sorted.drop_last(), entry)
    }
}

/// The entries ordered by key, entries of the same key in the order in which
/// they came.
pub open spec fn sorted_keyed(entries: Seq<KeyedHitView>) -> Seq<KeyedHitView>
    decreases entries.len(),
{
    if entries.len() == 0 {
        Seq::empty()
    } else {
        let sorted = sorted_keyed(entries.drop_last());
        sorted.insert(insert_point(sorted, entries.last()), entries.last())
    }
}

/// Whether the keys of the entries never go down.
pub open spec fn in_order(entries: Seq<KeyedHitView>) -> bool {
    forall|i: int, j: int|
        0 <= i < j < entries.len() ==> text_le(
            (#[trigger] entries[i]).key,
            (#[trigger] entries[j]).key,
        )
}

/// Each hit with its name in lower case as its key.
pub open spec fn keyed(hits: Seq<SearchHitView>) -> Seq<KeyedHitView> {
    hits.map_values(|hit: SearchHitView| KeyedHitView { key: sort_key(hit), hit })
}

/// The hits of the entries, without their keys.
pub open spec fn unkeyed(entries: Seq<KeyedHitView>) -> Seq<SearchHitView> {
    entries.map_values(|entry: KeyedHitView| entry.hit)
}

/// The hits ordered by their name in lower case, hits whose names differ in
/// case only in the order in which they came.
pub open spec fn sorted_hits(hits: Seq<SearchHitView>) -> Seq<SearchHitView> {
    unkeyed(sorted_keyed(keyed(hits)))
}

/// Whether the names of the hits, in lower case, never go down.
pub open spec fn hits_in_order(hits: Seq<SearchHitView>) -> bool {
    forall|i: int, j: int|
        0 <= i < j < hits.len() ==> text_le(
            sort_key(#[trigger] hits[i]),
            sort_key(#[trigger] hits[j]),
        )
}

/// The hit that the JSON text `item` describes.
pub open spec fn hit_of(item: Seq<char>) -> SearchHitView {
    SearchHitView {
        name: json_text_at(item, "name"@),
        location: json_text_at(item, "location"@),
        genre: json_text_at(item, "genre_name"@),
        url: json_text_at(item, "item_url_root"@),
    }
}

/// The hits of an answer of the search service, as they stand under
/// `auto.results`.
pub open spec fn hits_of(response: Seq<char>) -> Seq<SearchHitView> {
    json_items_at(response, "auto.results"@).map_values(|item: Seq<char>| hit_of(item))
}

/// The body of a search request. The query and the filter are put between
/// quotes as they are.
pub open spec fn request_of(query: Seq<char>, filter: Seq<char>) -> Seq<char> {
    "{\"search_text\":\""@ + query + "\",\"search_filter\":\""@ + filter
        + "\",\"full_page\":true,\"fan_id\":null}"@
}

/// What `term_table` renders of a table without borders and without lines
/// between its rows, every cell one column wide and aligned to the left:
/// `rows` holds the texts of the cells, row by row.
pub uninterp spec fn table_rendered(rows: Seq<Seq<Seq<char>>>) -> Seq<char>;

/// The views of the rows of a table.
pub open spec fn rows_view(rows: Seq<Vec<String>>) -> Seq<Seq<Seq<char>>> {
    rows.map_values(|row: Vec<String>| views_of(row@))
}

/// The row of a hit: its name, location, genre and address.
pub open spec fn row_of(hit: SearchHitView) -> Seq<Seq<char>> {
    seq![hit.name, hit.location, hit.genre, hit.url]
}

/// The rows of a table of hits under a header.
pub open spec fn table_rows(header: Seq<Seq<char>>, hits: Seq<SearchHitView>) -> Seq<
    Seq<Seq<char>>,
> {
    seq![header] + hits.map_values(|hit: SearchHitView| row_of(hit))
}

/// What is shown for an answer of the search service: nothing where it holds
/// no hit, else the table of its hits in order, without the white space
/// around it.
pub open spec fn report_of(header: Seq<Seq<char>>, response: Seq<char>) -> Option<Seq<char>> {
    if hits_of(response).len() == 0 {
        None
    } else {
        Some(trimmed(table_rendered(table_rows(header, sorted_hits(hits_of(response))))))
    }
}

/// Builds a `term_table::Table` in the blank style, without lines between
/// rows, of cells made with `TableCell::new_with_alignment`, span 1 and
/// aligned left, and calls `Table::render`. Trusted: the answer is the one
/// named by [`table_rendered`].
#[verifier::external_body]
pub(crate) fn render_table(rows: &Vec<Vec<String>>) -> (text: String)
    ensures
        text@ == table_rendered(rows_view(rows@)),
{
    let mut table = term_table::Table::new();
    table.style = term_table::TableStyle::blank();
    table.separate_rows = false;
    for row in rows.iter() {
        table.add_row(term_table::row::Row::new(row.iter().map(|cell|
            term_table::table_cell::TableCell::new_with_alignment(
                cell,
                1,
                term_table::table_cell::Alignment::Left,
            )
        ).collect::<Vec<_>>()));
    }
    table.render()
}

/// Calls `str::to_lowercase`. Trusted: the answer is the one named by
/// [`lowercased`].
#[verifier::external_body]
pub(crate) fn to_lowercase(text: &str) -> (lower: String)
    ensures
        lower@ == lowercased(text@),
{
    text.to_lowercase()
}

/// The body of a search request.
pub fn search_request(query: &str, query_type: &str) -> (body: String)
    ensures
        body@ == request_of(query@, query_type@),
{
    let mut body = "{\"search_text\":\"".to_string();
    body.append(query);
    body.append("\",\"search_filter\":\"");
    body.append(query_type);
    body.append("\",\"full_page\":true,\"fan_id\":null}");
    body
}

/// The paths by which an answer of the search service is read are plain.
proof fn lemma_answer_paths_are_plain()
    ensures
        plain_path("auto.results"@),
        plain_path("name"@),
        plain_path("location"@),
        plain_path("genre_name"@),
        plain_path("item_url_root"@),
{
    reveal_strlit("auto.results");
    reveal_strlit("name");
    reveal_strlit("location");
    reveal_strlit("genre_name");
    reveal_strlit("item_url_root");
}

/// Reads the hits from an answer of the search service, in its order.
pub fn read_hits(response: &str) -> (hits: Vec<SearchHit>)
    ensures
        hits_view(hits@) == hits_of(response@),
{
    proof {
        lemma_answer_paths_are_plain();
    }
    let items = items_at(response, "auto.results");
    let mut hits: Vec<SearchHit> = Vec::new();
    let mut i: usize = 0;
    while i < items.len()
        invariant
            i <= items.len(),
            hits.len() == i,
            forall|k: int| 0 <= k < i ==> (#[trigger] hits[k])@ == hit_of(items[k]@),
        decreases items.len() - i,
    {
        proof {
            lemma_answer_paths_are_plain();
        }
        let item = items[i].as_str();
        hits.push(
            SearchHit {
                name: text_at(item, "name"),
                location: text_at(item, "location"),
                genre: text_at(item, "genre_name"),
                url: text_at(item, "item_url_root"),
            },
        );
        i += 1;
    }
    assert(hits_view(hits@) =~= views_of(items@).map_values(|item: Seq<char>| hit_of(item)));
    hits
}

/// Orders entries by their keys; entries of the same key stay in the order
/// in which they came.
pub fn sort_keyed(entries: &Vec<KeyedHit>) -> (sorted: Vec<KeyedHit>)
    ensures
        keyed_view(sorted@) == sorted_keyed(keyed_view(entries@)),
        in_order(keyed_view(sorted@)),
        keyed_view(sorted@).to_multiset() == keyed_view(entries@).to_multiset(),
{
    let mut sorted: Vec<KeyedHit> = Vec::new();
    let ghost all = keyed_view(entries@);
    let mut i: usize = 0;
    while i < entries.len()
        invariant
            i <= entries.len(),
            all == keyed_view(entries@),
            keyed_view(sorted@) == sorted_keyed(all.take(i as int)),
            sorted.len() == i,
        decreases entries.len() - i,
    {
        assert(all.take(i + 1).drop_last() =~= all.take(i as int));
        assert(all.take(i + 1).last() == entries[i as int]@);
        let entry = entries[i].clone();
        let ghost before = keyed_view(sorted@);
        let mut at: usize = sorted.len();
        assert(before.take(at as int) =~= before);
        while at > 0 && !precedes(sorted[at - 1].key.as_str(), entry.key.as_str())
            invariant
                at <= sorted.len(),
                before == keyed_view(sorted@),
                insert_point(before, entry@) == insert_point(before.take(at as int), entry@),
            decreases at,
        {
            assert(before.take(at as int).drop_last() =~= before.take(at - 1));
            assert(before.take(at as int).last() == sorted[at - 1]@);
            at -= 1;
        }
        proof {
            if at > 0 {
                assert(before.take(at as int).last() == sorted[at - 1]@);
            }
            assert(insert_point(before, entry@) == at);
        }
        sorted.insert(at, entry);
        assert(keyed_view(sorted@) =~= before.insert(at as int, entry@));
        i += 1;
    }
    assert(all.take(entries.len() as int) =~= all);
    proof {
        lemma_sorted_is_ordered(all);
        lemma_sorted_is_the_same(all);
    }
    sorted
}

/// Orders hits by their name in lower case; hits whose names differ in case
/// only stay in the order in which they came.
pub fn sort_hits(hits: &Vec<SearchHit>) -> (sorted: Vec<SearchHit>)
    ensures
        hits_view(sorted@) == sorted_hits(hits_view(hits@)),
        hits_in_order(hits_view(sorted@)),
        hits_view(sorted@).to_multiset() == hits_view(hits@).to_multiset(),
{
    let mut entries: Vec<KeyedHit> = Vec::new();
    let mut i: usize = 0;
    while i < hits.len()
        invariant
            i <= hits.len(),
            entries.len() == i,
            forall|k: int|
                0 <= k < i ==> (#[trigger] entries[k])@ == (KeyedHitView {
                    key: sort_key(hits[k]@),
                    hit: hits[k]@,
                }),
        decreases hits.len() - i,
    {
        let hit = hits[i].clone();
        let key = to_lowercase(hit.name.as_str());
        entries.push(KeyedHit { key, hit });
        i += 1;
    }
    assert(keyed_view(entries@) =~= keyed(hits_view(hits@)));
    let ordered = sort_keyed(&entries);
    let mut sorted: Vec<SearchHit> = Vec::new();
    let mut k: usize = 0;
    while k < ordered.len()
        invariant
            k <= ordered.len(),
            sorted.len() == k,
            forall|n: int| 0 <= n < k ==> (#[trigger] sorted[n])@ == ordered[n]@.hit,
        decreases ordered.len() - k,
    {
        sorted.push(ordered[k].hit.clone());
        k += 1;
    }
    assert(hits_view(sorted@) =~= unkeyed(keyed_view(ordered@)));
    proof {
        lemma_sorted_hits_are_ordered(hits_view(hits@));
        lemma_sorted_hits_are_the_same(hits_view(hits@));
    }
    sorted
}

/// The hits of an answer of the search service, ordered by name without
/// regard to case.
pub fn search_results(response: &str) -> (hits: Vec<SearchHit>)
    ensures
        hits_view(hits@) == sorted_hits(hits_of(response@)),
        hits_in_order(hits_view(hits@)),
{
    let hits = read_hits(response);
    sort_hits(&hits)
}

/// The table of hits under a header, without the white space around it.
pub fn hits_table(header: &Vec<String>, hits: &Vec<SearchHit>) -> (text: String)
    ensures
        text@ == trimmed(table_rendered(table_rows(views_of(header@), hits_view(hits@)))),
{
    let mut rows: Vec<Vec<String>> = Vec::new();
    rows.push(header.clone());
    let ghost wanted = table_rows(views_of(header@), hits_view(hits@));
    let mut i: usize = 0;
    assert(rows_view(rows@)[0] == wanted[0]);
    while i < hits.len()
        invariant
            i <= hits.len(),
            wanted == table_rows(views_of(header@), hits_view(hits@)),
            rows.len() == i + 1,
            forall|k: int| 0 <= k < rows.len() ==> (#[trigger] rows_view(rows@)[k]) == wanted[k],
        decreases hits.len() - i,
    {
        let hit = &hits[i];
        let mut row: Vec<String> = Vec::new();
        row.push(hit.name.clone());
        row.push(hit.location.clone());
        row.push(hit.genre.clone());
        row.push(hit.url.clone());
        assert(views_of(row@) =~= row_of(hit@));
        let ghost before = rows_view(rows@);
        rows.push(row);
        assert(rows_view(rows@) =~= before.push(views_of(row@)));
        i += 1;
    }
    assert(rows_view(rows@) =~= wanted);
    let rendered = render_table(&rows);
    trim(rendered.as_str())
}

/// What is shown for an answer of the search service under a header: nothing
/// where the answer holds no hit, else the table of its hits ordered by
/// name.
pub fn search_report(header: &Vec<String>, response: &str) -> (report: Option<String>)
    ensures
        text_of(report) == report_of(views_of(header@), response@),
{
    let hits = read_hits(response);
    if hits.len() == 0 {
        return None;
    }
    let sorted = sort_hits(&hits);
    Some(hits_table(header, &sorted))
}

/// In a list that is in order, every entry before the insert point has a key
/// that does not come after the new entry's, and every entry from there on
/// has a key that comes after it.
proof fn lemma_insert_point_divides(sorted: Seq<KeyedHitView>, entry: KeyedHitView)
    requires
        in_order(sorted),
    ensures
        0 <= insert_point(sorted, entry) <= sorted.len(),
        forall|k: int|
            0 <= k < insert_point(sorted, entry) ==> text_le((#[trigger] sorted[k]).key, entry.key),
        forall|k: int|
            insert_point(sorted, entry) <= k < sorted.len() ==> !text_le(
                (#[trigger] sorted[k]).key,
                entry.key,
            ),
    decreases sorted.len(),
{
    if sorted.len() > 0 {
        if text_le(sorted.last().key, entry.key) {
            assert forall|k: int| 0 <= k < sorted.len() implies text_le(
                (#[trigger] sorted[k]).key,
                entry.key,
            ) by {
                if k < sorted.len() - 1 {
                    assert(text_le(sorted[k].key, sorted[sorted.len() - 1].key));
                    lemma_text_le_transitive(sorted[k].key, sorted.last().key, entry.key);
                }
            }
        } else {
            let shorter = sorted.drop_last();
            assert forall|i: int, j: int| 0 <= i < j < shorter.len() implies text_le(
                (#[trigger] shorter[i]).key,
                (#[trigger] shorter[j]).key,
            ) by {
                assert(text_le(sorted[i].key, sorted[j].key));
            }
            lemma_insert_point_divides(shorter, entry);
            assert forall|k: int| insert_point(sorted, entry) <= k < sorted.len() implies !text_le(
                (#[trigger] sorted[k]).key,
                entry.key,
            ) by {
                if k < sorted.len() - 1 {
                    assert(sorted[k] == shorter[k]);
                }
            }
            assert forall|k: int| 0 <= k < insert_point(sorted, entry) implies text_le(
                (#[trigger] sorted[k]).key,
                entry.key,
            ) by {
                assert(sorted[k] == shorter[k]);
            }
        }
    }
}

/// Ordered entries are in order: the key of an entry never comes after the
/// key of a later one.
pub proof fn lemma_sorted_is_ordered(entries: Seq<KeyedHitView>)
    ensures
        in_order(sorted_keyed(entries)),
        sorted_keyed(entries).len() == entries.len(),
    decreases entries.len(),
{
    if entries.len() > 0 {
        lemma_sorted_is_ordered(entries.drop_last());
        let sorted = sorted_keyed(entries.drop_last());
        let entry = entries.last();
        let at = insert_point(sorted, entry);
        lemma_insert_point_divides(sorted, entry);
        let more = sorted.insert(at, entry);
        assert forall|i: int, j: int| 0 <= i < j < more.len() implies text_le(
            (#[trigger] more[i]).key,
            (#[trigger] more[j]).key,
        ) by {
            if j < at {
                assert(more[i] == sorted[i] && more[j] == sorted[j]);
            } else if j == at {
                assert(more[i] == sorted[i]);
            } else if i < at {
                assert(more[i] == sorted[i] && more[j] == sorted[j - 1]);
                assert(text_le(sorted[i].key, entry.key));
                assert(!text_le(sorted[j - 1].key, entry.key));
                lemma_text_le_total(sorted[j - 1].key, entry.key);
                lemma_text_le_transitive(sorted[i].key, entry.key, sorted[j - 1].key);
            } else if i == at {
                assert(more[j] == sorted[j - 1]);
                assert(!text_le(sorted[j - 1].key, entry.key));
                lemma_text_le_total(sorted[j - 1].key, entry.key);
            } else {
                assert(more[i] == sorted[i - 1] && more[j] == sorted[j - 1]);
            }
        }
    }
}

/// Ordering neither adds nor loses an entry.
pub proof fn lemma_sorted_is_the_same(entries: Seq<KeyedHitView>)
    ensures
        sorted_keyed(entries).to_multiset() == entries.to_multiset(),
    decreases entries.len(),
{
    broadcast use vstd::seq_lib::group_to_multiset_ensures;

    if entries.len() == 0 {
        assert(sorted_keyed(entries) =~= entries);
    } else {
        lemma_sorted_is_the_same(entries.drop_last());
        lemma_sorted_is_ordered(entries.drop_last());
        let sorted = sorted_keyed(entries.drop_last());
        lemma_insert_point_divides(sorted, entries.last());
        to_multiset_insert(sorted, insert_point(sorted, entries.last()), entries.last());
        assert(entries =~= entries.drop_last().push(entries.last()));
        assert(entries.to_multiset() =~= entries.drop_last().to_multiset().insert(entries.last()));
    }
}

/// Ordering keeps each hit with its key: where every entry has its hit's name
/// in lower case as its key, so has every entry of the ordered list.
proof fn lemma_sorted_keeps_keys(entries: Seq<KeyedHitView>)
    requires
        forall|k: int| 0 <= k < entries.len() ==> (#[trigger] entries[k]).key == sort_key(
            entries[k].hit,
        ),
    ensures
        sorted_keyed(entries).len() == entries.len(),
        forall|k: int|
            0 <= k < entries.len() ==> (#[trigger] sorted_keyed(entries)[k]).key == sort_key(
                sorted_keyed(entries)[k].hit,
            ),
    decreases entries.len(),
{
    if entries.len() > 0 {
        let shorter = entries.drop_last();
        assert forall|k: int| 0 <= k < shorter.len() implies (#[trigger] shorter[k]).key
            == sort_key(shorter[k].hit) by {
            assert(shorter[k] == entries[k]);
        }
        lemma_sorted_keeps_keys(shorter);
        lemma_sorted_is_ordered(shorter);
        let sorted = sorted_keyed(shorter);
        let at = insert_point(sorted, entries.last());
        lemma_insert_point_divides(sorted, entries.last());
        let more = sorted.insert(at, entries.last());
        assert forall|k: int| 0 <= k < entries.len() implies (#[trigger] more[k]).key == sort_key(
            more[k].hit,
        ) by {
            if k < at {
                assert(more[k] == sorted[k]);
            } else if k == at {
                assert(more[k] == entries[entries.len() - 1]);
            } else {
                assert(more[k] == sorted[k - 1]);
            }
        }
    }
}

/// Ordered hits are in order: the name of a hit, in lower case, never comes
/// after the name of a later one.
pub proof fn lemma_sorted_hits_are_ordered(hits: Seq<SearchHitView>)
    ensures
        hits_in_order(sorted_hits(hits)),
        sorted_hits(hits).len() == hits.len(),
{
    let entries = keyed(hits);
    lemma_sorted_keeps_keys(entries);
    lemma_sorted_is_ordered(entries);
    let sorted = sorted_keyed(entries);
    assert forall|i: int, j: int| 0 <= i < j < sorted_hits(hits).len() implies text_le(
        sort_key(#[trigger] sorted_hits(hits)[i]),
        sort_key(#[trigger] sorted_hits(hits)[j]),
    ) by {
        assert(sorted[i].key == sort_key(sorted[i].hit));
        assert(sorted[j].key == sort_key(sorted[j].hit));
        assert(text_le(sorted[i].key, sorted[j].key));
    }
}

/// Ordering neither adds nor loses a hit.
pub proof fn lemma_sorted_hits_are_the_same(hits: Seq<SearchHitView>)
    ensures
        sorted_hits(hits).to_multiset() == hits.to_multiset(),
    decreases hits.len(),
{
    broadcast use vstd::seq_lib::group_to_multiset_ensures;

    if hits.len() == 0 {
        assert(sorted_hits(hits) =~= hits);
    } else {
        lemma_sorted_hits_are_the_same(hits.drop_last());
        let entries = keyed(hits);
        assert(entries.drop_last() =~= keyed(hits.drop_last()));
        lemma_sorted_is_ordered(entries.drop_last());
        let sorted = sorted_keyed(entries.drop_last());
        let at = insert_point(sorted, entries.last());
        lemma_insert_point_divides(sorted, entries.last());
        assert(entries.last().hit == hits.last());
        assert(unkeyed(sorted.insert(at, entries.last())) =~= unkeyed(sorted).insert(
            at,
            hits.last(),
        ));
        to_multiset_insert(unkeyed(sorted), at, hits.last());
        assert(hits =~= hits.drop_last().push(hits.last()));
        assert(hits.to_multiset() =~= hits.drop_last().to_multiset().insert(hits.last()));
    }
}

} // verus!
