//! The event store: an append-only table of capture events.
//!
//! The table is a value. It hands out ids in increasing order, never reuses
//! one, and changes a stored event in one way only: by filling in its
//! recognised text. Selections are stated over the table's view, the sequence
//! of its rows in the order in which they were inserted.

use crate::error::{DatabaseError, OcrError};
use crate::text::{lex_le, lex_lt, starts_with, str_le};
use crate::text::{lemma_lex_le_antisymmetric, lemma_lex_le_total, lemma_lex_le_transitive};
use vstd::prelude::*;
use vstd::string::*;

verus! {

/// One capture event, as mathematical values.
pub struct RecordView {
    pub id: Option<i64>,
    pub captured_at: Seq<char>,
    pub image_path: Option<Seq<char>>,
    pub active_app: Seq<char>,
    pub window_title: Seq<char>,
    pub is_paused: bool,
    pub is_private: bool,
    pub ocr_text: Option<Seq<char>>,
}

/// One capture event: what was in the foreground at one moment.
#[derive(Debug)]
pub struct CaptureRecord {
    pub id: Option<i64>,
    pub captured_at: String,
    pub image_path: Option<String>,
    pub active_app: String,
    pub window_title: String,
    pub is_paused: bool,
    pub is_private: bool,
    pub ocr_text: Option<String>,
}

/// The characters of an optional string.
pub open spec fn text_of(s: Option<String>) -> Option<Seq<char>> {
    match s {
        Some(t) => Some(t@),
        None => None,
    }
}

impl View for CaptureRecord {
    type V = RecordView;

    open spec fn view(&self) -> RecordView {
        RecordView {
            id: self.id,
            captured_at: self.captured_at@,
            image_path: text_of(self.image_path),
            active_app: self.active_app@,
            window_title: self.window_title@,
            is_paused: self.is_paused,
            is_private: self.is_private,
            ocr_text: text_of(self.ocr_text),
        }
    }
}

/// A copy of an optional string.
fn copy_text(s: &Option<String>) -> (copy: Option<String>)
    ensures
        copy == *s,
{
    match s {
        Some(t) => Some(t.clone()),
        None => None,
    }
}

impl Clone for CaptureRecord {
    fn clone(&self) -> (copy: CaptureRecord)
        ensures
            copy == *self,
    {
        CaptureRecord {
            id: self.id,
            captured_at: self.captured_at.clone(),
            image_path: copy_text(&self.image_path),
            active_app: self.active_app.clone(),
            window_title: self.window_title.clone(),
            is_paused: self.is_paused,
            is_private: self.is_private,
            ocr_text: copy_text(&self.ocr_text),
        }
    }
}

impl CaptureRecord {
    /// Whether the event has recognised text only together with an image.
    /// The store takes no other event.
    pub fn text_has_image(&self) -> (kept: bool)
        ensures
            kept == text_has_image(self@),
    {
        self.ocr_text.is_none() || self.image_path.is_some()
    }
}

/// The views of a sequence of events.
pub open spec fn views(records: Seq<CaptureRecord>) -> Seq<RecordView> {
    records.map_values(|r: CaptureRecord| r@)
}

/// `row` with the id `id`.
pub open spec fn with_id(row: RecordView, id: i64) -> RecordView {
    RecordView { id: Some(id), ..row }
}

/// `row` with the recognised text `text`.
pub open spec fn with_ocr_text(row: RecordView, text: Seq<char>) -> RecordView {
    RecordView { ocr_text: Some(text), ..row }
}

/// Whether the event has recognised text only together with an image.
pub open spec fn text_has_image(row: RecordView) -> bool {
    row.ocr_text is Some ==> row.image_path is Some
}

/// The rows of a table: each has an id from 1 to `last_id`, ids grow
/// strictly in the order of insertion, and no row has recognised text
/// without an image.
pub open spec fn is_table(rows: Seq<RecordView>, last_id: int) -> bool {
    &&& 0 <= last_id
    &&& forall|i: int|
        0 <= i < rows.len() ==> (#[trigger] rows[i]).id is Some && 1 <= rows[i].id->0 <= last_id
            && text_has_image(rows[i])
    &&& forall|i: int, j: int|
        0 <= i < j < rows.len() ==> (#[trigger] rows[i]).id->0 < (#[trigger] rows[j]).id->0
}

/// Whether the event was captured on `day`: its stamp begins with the day.
pub open spec fn on_day(row: RecordView, day: Seq<char>) -> bool {
    day.is_prefix_of(row.captured_at)
}

/// Whether the event has an image whose text was never recognised.
pub open spec fn lacks_ocr(row: RecordView) -> bool {
    row.image_path is Some && row.ocr_text is None
}

/// `a` comes before `b` in the order of capture: by stamp in dictionary
/// order, and by id among events with the same stamp.
pub open spec fn precedes(a: RecordView, b: RecordView) -> bool {
    lex_lt(a.captured_at, b.captured_at) || (a.captured_at == b.captured_at && a.id->0 < b.id->0)
}

/// `found` holds exactly the events of `rows` captured on `day`, each once,
/// in the order of capture.
pub open spec fn is_day_selection(
    rows: Seq<RecordView>,
    day: Seq<char>,
    found: Seq<RecordView>,
) -> bool {
    &&& forall|k: int|
        0 <= k < found.len() ==> rows.contains(#[trigger] found[k]) && on_day(found[k], day)
    &&& forall|i: int|
        0 <= i < rows.len() && on_day(#[trigger] rows[i], day) ==> found.contains(rows[i])
    &&& forall|k: int, l: int|
        0 <= k < l < found.len() ==> precedes(#[trigger] found[k], #[trigger] found[l])
}

/// `found` holds the most recent events of `rows` that lack recognised text,
/// most recent first: all of them, or the `limit` most recent where there are
/// more than `limit`. A negative `limit` is no limit.
pub open spec fn is_backlog_head(rows: Seq<RecordView>, limit: int, found: Seq<RecordView>) -> bool {
    &&& forall|k: int|
        0 <= k < found.len() ==> rows.contains(#[trigger] found[k]) && lacks_ocr(found[k])
    &&& forall|k: int, l: int|
        0 <= k < l < found.len() ==> precedes(#[trigger] found[l], #[trigger] found[k])
    &&& limit >= 0 ==> found.len() <= limit
    &&& forall|i: int|
        0 <= i < rows.len() && lacks_ocr(#[trigger] rows[i]) ==> found.contains(rows[i]) || (
        found.len() == limit && forall|k: int|
            0 <= k < found.len() ==> precedes(rows[i], #[trigger] found[k]))
}

/// Positions of `rows`, each below `bound`, in growing order.
spec fn is_growing(positions: Seq<usize>, bound: int) -> bool {
    &&& forall|k: int| 0 <= k < positions.len() ==> (#[trigger] positions[k]) < bound
    &&& forall|k: int, l: int|
        0 <= k < l < positions.len() ==> (#[trigger] positions[k]) < (#[trigger] positions[l])
}

/// `ranked` holds the positions `candidates` in the order of capture of
/// their rows.
spec fn is_ranking(rows: Seq<RecordView>, candidates: Seq<usize>, ranked: Seq<usize>) -> bool {
    &&& ranked.len() == candidates.len()
    &&& forall|k: int| 0 <= k < ranked.len() ==> candidates.contains(#[trigger] ranked[k])
    &&& forall|k: int| 0 <= k < candidates.len() ==> ranked.contains(#[trigger] candidates[k])
    &&& forall|k: int, l: int|
        0 <= k < l < ranked.len() ==> precedes(
            rows[(#[trigger] ranked[k]) as int],
            rows[(#[trigger] ranked[l]) as int],
        )
}

/// Positions in growing order below a bound are at most as many as the
/// bound.
proof fn lemma_growing_len(positions: Seq<usize>, bound: int)
    requires
        is_growing(positions, bound),
    ensures
        positions.len() <= bound || positions.len() == 0,
    decreases positions.len(),
{
    if positions.len() > 0 {
        let shorter = positions.drop_last();
        let top = positions.last() as int;
        assert forall|k: int| 0 <= k < shorter.len() implies (#[trigger] shorter[k]) < top by {
            assert(positions[k] < positions[positions.len() - 1]);
        }
        assert forall|k: int, l: int| 0 <= k < l < shorter.len() implies (#[trigger] shorter[k])
            < (#[trigger] shorter[l]) by {
            assert(positions[k] < positions[l]);
        }
        lemma_growing_len(shorter, top);
    }
}

/// In a table, a row at a later position that is not stamped earlier comes
/// after.
proof fn lemma_later_row_follows(rows: Seq<RecordView>, last: int, i: int, j: int)
    requires
        is_table(rows, last),
        0 <= i < j < rows.len(),
        lex_le(rows[i].captured_at, rows[j].captured_at),
    ensures
        precedes(rows[i], rows[j]),
{
}

/// A row that is not stamped at or before another is stamped after it.
proof fn lemma_not_le_follows(a: RecordView, b: RecordView)
    requires
        !lex_le(a.captured_at, b.captured_at),
    ensures
        precedes(b, a),
        a.captured_at != b.captured_at,
{
    lemma_lex_le_total(a.captured_at, b.captured_at);
    crate::text::lemma_lex_le_reflexive(a.captured_at);
}

/// What comes before in the order of capture is stamped no later.
proof fn lemma_precedes_le(a: RecordView, b: RecordView)
    requires
        precedes(a, b),
    ensures
        lex_le(a.captured_at, b.captured_at),
{
    crate::text::lemma_lex_le_reflexive(a.captured_at);
}

/// The id of the row inserted last, 0 for no rows.
pub open spec fn newest_id(rows: Seq<RecordView>) -> int {
    if rows.len() == 0 {
        0
    } else {
        match rows.last().id {
            Some(id) => id as int,
            None => 0,
        }
    }
}

/// The append-only table of capture events.
pub struct Database {
    records: Vec<CaptureRecord>,
    last_id: i64,
}

impl View for Database {
    type V = Seq<RecordView>;

    closed spec fn view(&self) -> Seq<RecordView> {
        views(self.records@)
    }
}

impl Database {
    /// The greatest id handed out so far, 0 before the first.
    pub closed spec fn last_id(&self) -> int {
        self.last_id as int
    }

    /// The rows form a table under `last_id`. This holds of every store.
    #[verifier::type_invariant]
    pub open spec fn well_formed(&self) -> bool {
        is_table(self@, self.last_id())
    }

    /// Opens the table over rows that were stored before, oldest first.
    /// Rows that do not form a table are rejected: rows without an id or
    /// out of the order of their ids, and rows with recognised text and no
    /// image.
    pub fn open(rows: Vec<CaptureRecord>) -> (result: Result<Database, DatabaseError>)
        ensures
            result is Ok <==> is_table(views(rows@), newest_id(views(rows@))),
            match result {
                Ok(db) => {
                    &&& db@ == views(rows@)
                    &&& db.well_formed()
                    &&& db.last_id() == newest_id(views(rows@))
                },
                Err(e) => e is MigrationError,
            },
    {
        let mut last: i64 = 0;
        let mut i: usize = 0;
        while i < rows.len()
            invariant
                i <= rows.len(),
                is_table(views(rows@).take(i as int), last as int),
                last == if i == 0 {
                    0
                } else {
                    rows@[i - 1].id->0
                },
            decreases rows.len() - i,
        {
            let accepted = match rows[i].id {
                Some(id) => id > last && rows[i].text_has_image(),
                None => false,
            };
            if !accepted {
                proof {
                    let all = views(rows@);
                    if is_table(all, newest_id(all)) {
                        assert(all[i as int].id is Some);
                        if i > 0 {
                            assert(all[i - 1].id->0 < all[i as int].id->0);
                        }
                    }
                }
                return Err(
                    DatabaseError::MigrationError(
                        String::from_str("rows are not in id order, or hold text without an image"),
                    ),
                );
            }
            proof {
                let before = views(rows@).take(i as int);
                let after = views(rows@).take(i + 1);
                assert forall|k: int| 0 <= k < after.len() implies (#[trigger] after[k]).id is Some
                    && 1 <= after[k].id->0 <= rows@[i as int].id->0 && text_has_image(after[k]) by {
                    if k < i {
                        assert(before[k].id is Some);
                    }
                }
                assert forall|k: int, l: int| 0 <= k < l < after.len() implies (#[trigger] after[k]).id->0
                    < (#[trigger] after[l]).id->0 by {
                    assert(before[k].id is Some);
                    if l < i {
                        assert(before[l].id is Some);
                    }
                }
            }
            last = rows[i].id.unwrap();
            i += 1;
        }
        assert(views(rows@).take(rows@.len() as int) =~= views(rows@));
        Ok(Database { records: rows, last_id: last })
    }

    /// The number of stored events.
    pub fn len(&self) -> (n: usize)
        ensures
            n == self@.len(),
            self.well_formed(),
    {
        proof {
            use_type_invariant(self);
        }
        self.records.len()
    }

    /// Appends one event and returns the id given to it: the successor of the
    /// last id. The id that `record` carries is ignored. An event with
    /// recognised text and no image is refused; so is any event when no id
    /// is left. A refusal stores nothing.
    pub fn insert_capture(&mut self, record: &CaptureRecord) -> (result: Result<i64, DatabaseError>)
        ensures
            old(self).well_formed(),
            final(self).well_formed(),
            result is Ok <==> text_has_image(record@) && old(self).last_id() < i64::MAX,
            match result {
                Ok(id) => {
                    &&& id == old(self).last_id() + 1
                    &&& final(self).last_id() == id
                    &&& final(self)@ == old(self)@.push(with_id(record@, id))
                },
                Err(e) => {
                    &&& final(self)@ == old(self)@
                    &&& final(self).last_id() == old(self).last_id()
                    &&& if text_has_image(record@) {
                        e is IdSpaceExhausted
                    } else {
                        e is TextWithoutImage
                    }
                },
            },
    {
        proof {
            use_type_invariant(&*self);
        }
        if !record.text_has_image() {
            return Err(DatabaseError::TextWithoutImage);
        }
        if self.last_id == i64::MAX {
            return Err(DatabaseError::IdSpaceExhausted);
        }
        let id = self.last_id + 1;
        let mut stored = record.clone();
        stored.id = Some(id);
        let mut rows: Vec<CaptureRecord> = Vec::new();
        core::mem::swap(&mut self.records, &mut rows);
        rows.push(stored);
        self.last_id = id;
        proof {
            let before = old(self)@;
            let after = views(rows@);
            assert(after =~= before.push(with_id(record@, id)));
            assert forall|i: int| 0 <= i < after.len() implies (#[trigger] after[i]).id is Some && 1
                <= after[i].id->0 <= id && text_has_image(after[i]) by {
                if i < before.len() {
                    assert(before[i].id is Some);
                }
            }
            assert forall|i: int, j: int| 0 <= i < j < after.len() implies (#[trigger] after[i]).id->0
                < (#[trigger] after[j]).id->0 by {
                assert(before[i].id is Some);
                if j < before.len() {
                    assert(before[j].id is Some);
                }
            }
        }
        core::mem::swap(&mut self.records, &mut rows);
        Ok(id)
    }

    /// Puts positions of rows, given in growing order, in the order of
    /// capture of their rows.
    fn rank_by_capture(&self, candidates: &Vec<usize>) -> (ranked: Vec<usize>)
        requires
            is_growing(candidates@, self@.len() as int),
        ensures
            is_ranking(self@, candidates@, ranked@),
    {
        proof {
            use_type_invariant(self);
        }
        let ghost rows = self@;
        let mut ranked: Vec<usize> = Vec::new();
        let mut j: usize = 0;
        while j < candidates.len()
            invariant
                j <= candidates@.len(),
                rows == self@,
                is_table(rows, self.last_id()),
                is_growing(candidates@, rows.len() as int),
                is_ranking(rows, candidates@.take(j as int), ranked@),
            decreases candidates@.len() - j,
        {
            let c = candidates[j];
            let mut pos: usize = ranked.len();
            while pos > 0 && !str_le(
                self.records[ranked[pos - 1]].captured_at.as_str(),
                self.records[c].captured_at.as_str(),
            )
                invariant
                    pos <= ranked@.len(),
                    rows == self@,
                    c < rows.len(),
                    forall|k: int| 0 <= k < ranked@.len() ==> (#[trigger] ranked@[k]) < rows.len(),
                    forall|k: int|
                        pos <= k < ranked@.len() ==> !lex_le(
                            rows[(#[trigger] ranked@[k]) as int].captured_at,
                            rows[c as int].captured_at,
                        ),
                decreases pos,
            {
                pos -= 1;
            }
            let ghost before = ranked@;
            let ghost seen = candidates@.take(j as int);
            ranked.insert(pos, c);
            proof {
                let after = ranked@;
                let now_seen = candidates@.take(j + 1);
                assert(now_seen =~= seen.push(c));
                assert forall|k: int| 0 <= k < after.len() implies now_seen.contains(
                    #[trigger] after[k],
                ) by {
                    if k == pos {
                        assert(now_seen[j as int] == c);
                    } else {
                        let b = if k < pos {
                            k
                        } else {
                            k - 1
                        };
                        assert(seen.contains(before[b]));
                        let m = choose|m: int| 0 <= m < seen.len() && seen[m] == before[b];
                        assert(now_seen[m] == after[k]);
                    }
                }
                assert forall|k: int| 0 <= k < now_seen.len() implies after.contains(
                    #[trigger] now_seen[k],
                ) by {
                    if k == j {
                        assert(after[pos as int] == c);
                    } else {
                        assert(before.contains(seen[k]));
                        let m = choose|m: int| 0 <= m < before.len() && before[m] == seen[k];
                        if m < pos {
                            assert(after[m] == now_seen[k]);
                        } else {
                            assert(after[m + 1] == now_seen[k]);
                        }
                    }
                }
                assert forall|k: int| 0 <= k < pos implies precedes(
                    rows[(#[trigger] before[k]) as int],
                    rows[c as int],
                ) by {
                    assert(seen.contains(before[k]));
                    let m = choose|m: int| 0 <= m < seen.len() && seen[m] == before[k];
                    assert(candidates@[m] < candidates@[j as int]);
                    if k < pos - 1 {
                        lemma_precedes_le(rows[before[k] as int], rows[before[pos - 1] as int]);
                        lemma_lex_le_transitive(
                            rows[before[k] as int].captured_at,
                            rows[before[pos - 1] as int].captured_at,
                            rows[c as int].captured_at,
                        );
                    }
                    lemma_later_row_follows(rows, self.last_id(), before[k] as int, c as int);
                }
                assert forall|k: int| pos <= k < before.len() implies precedes(
                    rows[c as int],
                    rows[(#[trigger] before[k]) as int],
                ) by {
                    lemma_not_le_follows(rows[before[k] as int], rows[c as int]);
                }
                assert forall|k: int, l: int| 0 <= k < l < after.len() implies precedes(
                    rows[(#[trigger] after[k]) as int],
                    rows[(#[trigger] after[l]) as int],
                ) by {
                    let bk = if k < pos {
                        k
                    } else {
                        k - 1
                    };
                    let bl = if l < pos {
                        l
                    } else {
                        l - 1
                    };
                    if k != pos && l != pos {
                        assert(precedes(rows[before[bk] as int], rows[before[bl] as int]));
                    } else if k == pos {
                        assert(precedes(rows[c as int], rows[before[bl] as int]));
                    } else {
                        assert(precedes(rows[before[bk] as int], rows[c as int]));
                    }
                }
            }
            j += 1;
        }
        assert(candidates@.take(candidates@.len() as int) =~= candidates@);
        ranked
    }

    /// Copies of the rows at `positions`, in that order.
    fn copies_at(&self, positions: &Vec<usize>) -> (found: Vec<CaptureRecord>)
        requires
            forall|k: int| 0 <= k < positions@.len() ==> (#[trigger] positions@[k]) < self@.len(),
        ensures
            found@.len() == positions@.len(),
            forall|k: int|
                0 <= k < found@.len() ==> (#[trigger] views(found@)[k]) == self@[positions@[k] as int],
    {
        let mut found: Vec<CaptureRecord> = Vec::new();
        let mut k: usize = 0;
        while k < positions.len()
            invariant
                k <= positions@.len(),
                found@.len() == k,
                forall|m: int| 0 <= m < positions@.len() ==> (#[trigger] positions@[m]) < self@.len(),
                forall|m: int|
                    0 <= m < k ==> (#[trigger] views(found@)[m]) == self@[positions@[m] as int],
            decreases positions@.len() - k,
        {
            let ghost before = found@;
            found.push(self.records[positions[k]].clone());
            proof {
                assert forall|m: int| 0 <= m < k + 1 implies (#[trigger] views(found@)[m])
                    == self@[positions@[m] as int] by {
                    if m < k {
                        assert(views(before)[m] == self@[positions@[m] as int]);
                        assert(found@[m] == before[m]);
                    }
                }
            }
            k += 1;
        }
        found
    }

    /// The events captured on `date`, in the order of capture. A day without
    /// events gives an empty list.
    pub fn get_captures_by_date(&self, date: &str) -> (result: Result<
        Vec<CaptureRecord>,
        DatabaseError,
    >)
        ensures
            self.well_formed(),
            result matches Ok(found) && {
                &&& is_day_selection(self@, date@, views(found@))
                &&& found@.len() <= self@.len()
                &&& (forall|i: int| 0 <= i < self@.len() ==> !on_day(#[trigger] self@[i], date@))
                    ==> found@.len() == 0
            },
    {
        proof {
            use_type_invariant(self);
        }
        let ghost rows = self@;
        let mut candidates: Vec<usize> = Vec::new();
        let mut i: usize = 0;
        while i < self.records.len()
            invariant
                i <= rows.len(),
                rows == self@,
                is_growing(candidates@, i as int),
                forall|k: int|
                    0 <= k < candidates@.len() ==> on_day(rows[(#[trigger] candidates@[k]) as int], date@),
                forall|m: int|
                    0 <= m < i && on_day(#[trigger] rows[m], date@) ==> candidates@.contains(m as usize),
            decreases rows.len() - i,
        {
            if starts_with(self.records[i].captured_at.as_str(), date) {
                let ghost before = candidates@;
                candidates.push(i);
                proof {
                    assert forall|m: int|
                        0 <= m < i + 1 && on_day(#[trigger] rows[m], date@) implies candidates@.contains(
                        m as usize,
                    ) by {
                        if m == i {
                            assert(candidates@[before.len() as int] == i);
                        } else {
                            assert(before.contains(m as usize));
                            let w = choose|w: int| 0 <= w < before.len() && before[w] == m as usize;
                            assert(candidates@[w] == m as usize);
                        }
                    }
                }
            }
            i += 1;
        }
        let ranked = self.rank_by_capture(&candidates);
        let found = self.copies_at(&ranked);
        proof {
            lemma_growing_len(candidates@, rows.len() as int);
            let shown = views(found@);
            assert forall|k: int| 0 <= k < shown.len() implies rows.contains(#[trigger] shown[k])
                && on_day(shown[k], date@) by {
                assert(candidates@.contains(ranked@[k]));
                let w = choose|w: int| 0 <= w < candidates@.len() && candidates@[w] == ranked@[k];
                assert(rows[candidates@[w] as int] == shown[k]);
            }
            assert forall|m: int| 0 <= m < rows.len() && on_day(#[trigger] rows[m], date@) implies shown.contains(
                rows[m],
            ) by {
                assert(candidates@.contains(m as usize));
                let c = choose|c: int| 0 <= c < candidates@.len() && candidates@[c] == m as usize;
                assert(ranked@.contains(candidates@[c]));
                let w = choose|w: int| 0 <= w < ranked@.len() && ranked@[w] == candidates@[c];
                assert(shown[w] == rows[m]);
            }
            assert forall|k: int, l: int| 0 <= k < l < shown.len() implies precedes(
                #[trigger] shown[k],
                #[trigger] shown[l],
            ) by {
                assert(precedes(rows[ranked@[k] as int], rows[ranked@[l] as int]));
            }
            if forall|m: int| 0 <= m < rows.len() ==> !on_day(#[trigger] rows[m], date@) {
                if shown.len() > 0 {
                    assert(rows.contains(shown[0]));
                }
            }
        }
        Ok(found)
    }

    /// The events that have an image but no recognised text, most recent
    /// first, at most `limit` of them. A negative `limit` is no limit.
    pub fn get_captures_without_ocr(&self, limit: i64) -> (result: Result<
        Vec<CaptureRecord>,
        DatabaseError,
    >)
        ensures
            self.well_formed(),
            result matches Ok(found) && is_backlog_head(self@, limit as int, views(found@)),
    {
        proof {
            use_type_invariant(self);
        }
        let ghost rows = self@;
        let mut candidates: Vec<usize> = Vec::new();
        let mut i: usize = 0;
        while i < self.records.len()
            invariant
                i <= rows.len(),
                rows == self@,
                is_growing(candidates@, i as int),
                forall|k: int|
                    0 <= k < candidates@.len() ==> lacks_ocr(rows[(#[trigger] candidates@[k]) as int]),
                forall|m: int|
                    0 <= m < i && lacks_ocr(#[trigger] rows[m]) ==> candidates@.contains(m as usize),
            decreases rows.len() - i,
        {
            if self.records[i].image_path.is_some() && self.records[i].ocr_text.is_none() {
                let ghost before = candidates@;
                candidates.push(i);
                proof {
                    assert forall|m: int|
                        0 <= m < i + 1 && lacks_ocr(#[trigger] rows[m]) implies candidates@.contains(
                        m as usize,
                    ) by {
                        if m == i {
                            assert(candidates@[before.len() as int] == i);
                        } else {
                            assert(before.contains(m as usize));
                            let w = choose|w: int| 0 <= w < before.len() && before[w] == m as usize;
                            assert(candidates@[w] == m as usize);
                        }
                    }
                }
            }
            i += 1;
        }
        let ranked = self.rank_by_capture(&candidates);
        let n = ranked.len();
        let count: usize = if limit >= 0 && (limit as u64) < (n as u64) {
            limit as usize
        } else {
            n
        };
        let mut heads: Vec<usize> = Vec::new();
        let mut k: usize = 0;
        while k < count
            invariant
                k <= count <= n,
                n == ranked@.len(),
                heads@.len() == k,
                forall|m: int| 0 <= m < k ==> (#[trigger] heads@[m]) == ranked@[n - 1 - m],
            decreases count - k,
        {
            heads.push(ranked[n - 1 - k]);
            k += 1;
        }
        proof {
            assert forall|m: int| 0 <= m < heads@.len() implies (#[trigger] heads@[m]) < rows.len() by {
                assert(candidates@.contains(ranked@[n - 1 - m]));
            }
        }
        let found = self.copies_at(&heads);
        proof {
            let shown = views(found@);
            assert forall|m: int| 0 <= m < shown.len() implies rows.contains(#[trigger] shown[m])
                && lacks_ocr(shown[m]) by {
                assert(candidates@.contains(ranked@[n - 1 - m]));
                let w = choose|w: int|
                    0 <= w < candidates@.len() && candidates@[w] == ranked@[n - 1 - m];
                assert(rows[candidates@[w] as int] == shown[m]);
            }
            assert forall|a: int, b: int| 0 <= a < b < shown.len() implies precedes(
                #[trigger] shown[b],
                #[trigger] shown[a],
            ) by {
                assert(precedes(rows[ranked@[n - 1 - b] as int], rows[ranked@[n - 1 - a] as int]));
            }
            assert forall|m: int| 0 <= m < rows.len() && lacks_ocr(#[trigger] rows[m]) implies shown.contains(
                rows[m],
            ) || (shown.len() == limit && forall|a: int|
                0 <= a < shown.len() ==> precedes(rows[m], #[trigger] shown[a])) by {
                assert(candidates@.contains(m as usize));
                let c = choose|c: int| 0 <= c < candidates@.len() && candidates@[c] == m as usize;
                assert(ranked@.contains(candidates@[c]));
                let w = choose|w: int| 0 <= w < ranked@.len() && ranked@[w] == candidates@[c];
                if w >= n - count {
                    assert(shown[n - 1 - w] == rows[m]);
                } else {
                    assert forall|a: int| 0 <= a < shown.len() implies precedes(
                        rows[m],
                        #[trigger] shown[a],
                    ) by {
                        assert(precedes(rows[ranked@[w] as int], rows[ranked@[n - 1 - a] as int]));
                    }
                }
            }
        }
        Ok(found)
    }

    /// Sets the recognised text of the event with the given id, and changes
    /// nothing else. Fails, and changes nothing, when no event has that id,
    /// and when the event that has it has no image.
    pub fn update_ocr_text(&mut self, id: i64, ocr_text: &str) -> (result: Result<(), DatabaseError>)
        ensures
            old(self).well_formed(),
            final(self).well_formed(),
            final(self).last_id() == old(self).last_id(),
            final(self)@.len() == old(self)@.len(),
            match result {
                Ok(()) => exists|at: int|
                    {
                        &&& 0 <= at < old(self)@.len()
                        &&& (#[trigger] old(self)@[at]).id == Some(id)
                        &&& old(self)@[at].image_path is Some
                        &&& final(self)@ == old(self)@.update(
                            at,
                            with_ocr_text(old(self)@[at], ocr_text@),
                        )
                    },
                Err(DatabaseError::RowNotFound(missing)) => {
                    &&& missing == id
                    &&& final(self)@ == old(self)@
                    &&& forall|i: int|
                        0 <= i < old(self)@.len() ==> (#[trigger] old(self)@[i]).id != Some(id)
                },
                Err(DatabaseError::TextWithoutImage) => {
                    &&& final(self)@ == old(self)@
                    &&& exists|at: int|
                        0 <= at < old(self)@.len() && (#[trigger] old(self)@[at]).id == Some(id)
                            && old(self)@[at].image_path is None
                },
                Err(_) => false,
            },
    {
        proof {
            use_type_invariant(&*self);
        }
        let mut at: usize = 0;
        while at < self.records.len() && self.records[at].id != Some(id)
            invariant
                at <= self@.len(),
                self@ == old(self)@,
                forall|i: int| 0 <= i < at ==> (#[trigger] self@[i]).id != Some(id),
            decreases self@.len() - at,
        {
            at += 1;
        }
        if at == self.records.len() {
            return Err(DatabaseError::RowNotFound(id));
        }
        if self.records[at].image_path.is_none() {
            assert(self@[at as int].id == Some(id));
            return Err(DatabaseError::TextWithoutImage);
        }
        let mut changed = self.records[at].clone();
        changed.ocr_text = Some(String::from_str(ocr_text));
        let mut rows: Vec<CaptureRecord> = Vec::new();
        core::mem::swap(&mut self.records, &mut rows);
        rows[at] = changed;
        proof {
            let before = old(self)@;
            let after = views(rows@);
            assert(after =~= before.update(at as int, with_ocr_text(before[at as int], ocr_text@)));
            assert forall|i: int| 0 <= i < after.len() implies (#[trigger] after[i]).id is Some && 1
                <= after[i].id->0 <= self.last_id() && text_has_image(after[i]) by {
                assert(before[i].id is Some);
            }
            assert forall|i: int, j: int| 0 <= i < j < after.len() implies (#[trigger] after[i]).id->0
                < (#[trigger] after[j]).id->0 by {
                assert(before[i].id is Some);
                assert(before[j].id is Some);
            }
        }
        core::mem::swap(&mut self.records, &mut rows);
        Ok(())
    }
}

/// What the backfill does for one event of the backlog.
#[derive(Debug)]
pub enum BackfillStep {
    /// Store `text` as the recognised text of the event `id`.
    Fill { id: i64, text: String },
    /// Store nothing: nothing was recognised, or the event has no id or no
    /// image.
    Skip,
    /// Store nothing: recognition failed, for the reason given.
    Failed(String),
}

/// A step of the backfill, as mathematical values.
pub enum BackfillView {
    Fill { id: i64, text: Seq<char> },
    Skip,
    Failed(Seq<char>),
}

impl View for BackfillStep {
    type V = BackfillView;

    open spec fn view(&self) -> BackfillView {
        match *self {
            BackfillStep::Fill { id, text } => BackfillView::Fill { id, text: text@ },
            BackfillStep::Skip => BackfillView::Skip,
            BackfillStep::Failed(reason) => BackfillView::Failed(reason@),
        }
    }
}

/// What the backfill does for `capture`, given the outcome of recognition
/// on its image: text is stored only for an event with an id and an image,
/// and only where some text was recognised. An empty text and a failure
/// both store nothing, and are told apart.
pub open spec fn backfill_of(capture: RecordView, outcome: Result<String, OcrError>) -> BackfillView {
    if capture.id is None || capture.image_path is None {
        BackfillView::Skip
    } else {
        match outcome {
            Ok(text) => if text@.len() == 0 {
                BackfillView::Skip
            } else {
                BackfillView::Fill { id: capture.id->0, text: text@ }
            },
            Err(e) => BackfillView::Failed(e.spec_message()),
        }
    }
}

/// What the backfill does for `capture`, given the outcome of recognition
/// on its image.
pub fn backfill_step(capture: &CaptureRecord, outcome: &Result<String, OcrError>) -> (step:
    BackfillStep)
    ensures
        step@ == backfill_of(capture@, *outcome),
{
    let id = match capture.id {
        Some(id) => id,
        None => {
            return BackfillStep::Skip;
        },
    };
    if capture.image_path.is_none() {
        return BackfillStep::Skip;
    }
    match outcome {
        Ok(text) => if text.as_str().unicode_len() == 0 {
            BackfillStep::Skip
        } else {
            BackfillStep::Fill { id, text: text.clone() }
        },
        Err(e) => BackfillStep::Failed(e.message()),
    }
}

/// The rows of a store that was opened empty and then took the events
/// `records`, in that order.
pub open spec fn after_inserts(records: Seq<RecordView>) -> Seq<RecordView> {
    Seq::new(records.len(), |i: int| with_id(records[i], (i + 1) as i64))
}

/// Whatever events the store takes, starting empty, and in whatever order,
/// its rows form a table: every event has its own id, ids grow in the order
/// of insertion, and no row has text without an image.
pub proof fn lemma_inserts_form_table(records: Seq<RecordView>)
    requires
        records.len() <= i64::MAX,
        forall|i: int| 0 <= i < records.len() ==> text_has_image(#[trigger] records[i]),
    ensures
        is_table(after_inserts(records), records.len() as int),
        newest_id(after_inserts(records)) == records.len(),
{
}

/// One more insert adds one row, with the next id.
pub proof fn lemma_after_inserts_push(records: Seq<RecordView>, next: RecordView)
    requires
        records.len() < i64::MAX,
    ensures
        after_inserts(records.push(next)) == after_inserts(records).push(
            with_id(next, (records.len() + 1) as i64),
        ),
{
    assert(after_inserts(records.push(next)) =~= after_inserts(records).push(
        with_id(next, (records.len() + 1) as i64),
    ));
}

/// No two rows of a table have the same id.
pub proof fn lemma_table_ids_unique(rows: Seq<RecordView>, last_id: int, i: int, j: int)
    requires
        is_table(rows, last_id),
        0 <= i < rows.len(),
        0 <= j < rows.len(),
        i != j,
    ensures
        rows[i].id != rows[j].id,
{
    if i < j {
        assert(rows[i].id->0 < rows[j].id->0);
    } else {
        assert(rows[j].id->0 < rows[i].id->0);
    }
}

/// Nothing comes before itself in the order of capture, and no two events
/// come before each other.
pub proof fn lemma_precedes_is_strict(a: RecordView, b: RecordView)
    ensures
        !precedes(a, a),
        !(precedes(a, b) && precedes(b, a)),
{
    if precedes(a, b) && precedes(b, a) {
        lemma_precedes_le(a, b);
        lemma_precedes_le(b, a);
        lemma_lex_le_antisymmetric(a.captured_at, b.captured_at);
    }
}

/// The events of a day are one list and no other: two selections of the
/// same day from the same rows are equal.
pub proof fn lemma_day_selection_unique(
    rows: Seq<RecordView>,
    day: Seq<char>,
    first: Seq<RecordView>,
    second: Seq<RecordView>,
)
    requires
        is_day_selection(rows, day, first),
        is_day_selection(rows, day, second),
    ensures
        first == second,
{
    assert forall|k: int| 0 <= k < first.len() implies second.contains(#[trigger] first[k]) by {
        assert(rows.contains(first[k]));
        let i = choose|i: int| 0 <= i < rows.len() && rows[i] == first[k];
        assert(on_day(rows[i], day));
    }
    assert forall|k: int| 0 <= k < second.len() implies first.contains(#[trigger] second[k]) by {
        assert(rows.contains(second[k]));
        let i = choose|i: int| 0 <= i < rows.len() && rows[i] == second[k];
        assert(on_day(rows[i], day));
    }
    lemma_ranked_lists_equal(first, second);
}

/// Two lists in the order of capture that hold the same events are equal.
proof fn lemma_ranked_lists_equal(first: Seq<RecordView>, second: Seq<RecordView>)
    requires
        forall|k: int, l: int|
            0 <= k < l < first.len() ==> precedes(#[trigger] first[k], #[trigger] first[l]),
        forall|k: int, l: int|
            0 <= k < l < second.len() ==> precedes(#[trigger] second[k], #[trigger] second[l]),
        forall|k: int| 0 <= k < first.len() ==> second.contains(#[trigger] first[k]),
        forall|k: int| 0 <= k < second.len() ==> first.contains(#[trigger] second[k]),
    ensures
        first == second,
    decreases first.len(),
{
    if first.len() == 0 {
        if second.len() > 0 {
            assert(first.contains(second[0]));
        }
        assert(first =~= second);
    } else {
        assert(second.contains(first[0]));
        let j = choose|j: int| 0 <= j < second.len() && second[j] == first[0];
        assert(first.contains(second[0]));
        let i = choose|i: int| 0 <= i < first.len() && first[i] == second[0];
        lemma_precedes_is_strict(first[0], second[0]);
        if j > 0 {
            assert(precedes(second[0], second[j]));
            if i > 0 {
                assert(precedes(first[0], first[i]));
            }
        }
        assert(first[0] == second[0]);
        let first_rest = first.drop_first();
        let second_rest = second.drop_first();
        assert forall|k: int| 0 <= k < first_rest.len() implies second_rest.contains(
            #[trigger] first_rest[k],
        ) by {
            assert(first_rest[k] == first[k + 1]);
            assert(second.contains(first[k + 1]));
            let m = choose|m: int| 0 <= m < second.len() && second[m] == first[k + 1];
            lemma_precedes_is_strict(first[0], first[0]);
            assert(precedes(first[0], first[k + 1]));
            assert(m > 0);
            assert(second_rest[m - 1] == first_rest[k]);
        }
        assert forall|k: int| 0 <= k < second_rest.len() implies first_rest.contains(
            #[trigger] second_rest[k],
        ) by {
            assert(second_rest[k] == second[k + 1]);
            assert(first.contains(second[k + 1]));
            let m = choose|m: int| 0 <= m < first.len() && first[m] == second[k + 1];
            lemma_precedes_is_strict(second[0], second[0]);
            assert(precedes(second[0], second[k + 1]));
            assert(m > 0);
            assert(first_rest[m - 1] == second_rest[k]);
        }
        assert forall|k: int, l: int| 0 <= k < l < first_rest.len() implies precedes(
            #[trigger] first_rest[k],
            #[trigger] first_rest[l],
        ) by {
            assert(precedes(first[k + 1], first[l + 1]));
        }
        assert forall|k: int, l: int| 0 <= k < l < second_rest.len() implies precedes(
            #[trigger] second_rest[k],
            #[trigger] second_rest[l],
        ) by {
            assert(precedes(second[k + 1], second[l + 1]));
        }
        lemma_ranked_lists_equal(first_rest, second_rest);
        assert(first =~= seq![first[0]] + first_rest);
        assert(second =~= seq![second[0]] + second_rest);
    }
}

/// The events of a day do not depend on the order in which the rows were
/// inserted: rows that hold the same events give the same selection.
pub proof fn lemma_day_selection_ignores_insertion_order(
    rows: Seq<RecordView>,
    shuffled: Seq<RecordView>,
    day: Seq<char>,
    found: Seq<RecordView>,
)
    requires
        is_day_selection(rows, day, found),
        forall|i: int| 0 <= i < rows.len() ==> shuffled.contains(#[trigger] rows[i]),
        forall|i: int| 0 <= i < shuffled.len() ==> rows.contains(#[trigger] shuffled[i]),
    ensures
        is_day_selection(shuffled, day, found),
{
    assert forall|k: int| 0 <= k < found.len() implies shuffled.contains(#[trigger] found[k]) by {
        assert(rows.contains(found[k]));
        let i = choose|i: int| 0 <= i < rows.len() && rows[i] == found[k];
        assert(shuffled.contains(rows[i]));
    }
    assert forall|i: int| 0 <= i < shuffled.len() && on_day(#[trigger] shuffled[i], day) implies found.contains(
        shuffled[i],
    ) by {
        assert(rows.contains(shuffled[i]));
        let m = choose|m: int| 0 <= m < rows.len() && rows[m] == shuffled[i];
        assert(on_day(rows[m], day));
    }
}

/// Filling in the text of an event from the backlog takes it out of the
/// backlog and leaves it with an image for its text.
pub proof fn lemma_filled_row_leaves_backlog(row: RecordView, text: Seq<char>)
    requires
        lacks_ocr(row),
    ensures
        !lacks_ocr(with_ocr_text(row, text)),
        with_ocr_text(row, text).image_path is Some,
{
}

} // verus!
