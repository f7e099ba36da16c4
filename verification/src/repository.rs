//! The repository over the `crossword` table: an explicitly passed store of
//! rows, with the four operations and the laws that hold of them.

use vstd::prelude::*;

use crate::guardian::doc_conforms;
use crate::guardian::guardian_matches_doc;
use crate::guardian::parse_guardian_crossword;
use crate::guardian::GuardianCrossword;
use crate::models::AppError;
use crate::models::Crossword;
use crate::models::CrosswordMetadata;

verus! {

/// The rows of `rows` whose series equals `s`, in storage order.
pub open spec fn rows_for_series(rows: Seq<Crossword>, s: Seq<char>) -> Seq<Crossword>
    decreases rows.len(),
{
    if rows.len() == 0 {
        Seq::empty()
    } else if rows.last().series@ == s {
        rows_for_series(rows.drop_last(), s).push(rows.last())
    } else {
        rows_for_series(rows.drop_last(), s)
    }
}

/// The first row of `rows` that carries both the id and the series, if any.
pub open spec fn find_row(rows: Seq<Crossword>, id: Seq<char>, s: Seq<char>) -> Option<Crossword>
    decreases rows.len(),
{
    if rows.len() == 0 {
        None
    } else if rows.first().id@ == id && rows.first().series@ == s {
        Some(rows.first())
    } else {
        find_row(rows.drop_first(), id, s)
    }
}

/// No two rows share an id: the table's primary-key invariant.
pub open spec fn ids_unique(rows: Seq<Crossword>) -> bool {
    forall|i: int, j: int|
        0 <= i < j < rows.len() ==> rows[i].id@ != rows[j].id@
}

/// A bulk insert of `new` into a table holding `rows` respects the key
/// invariant: the new ids are pairwise distinct and none of them is already
/// present.
pub open spec fn insert_allowed(rows: Seq<Crossword>, new: Seq<Crossword>) -> bool {
    &&& ids_unique(new)
    &&& forall|i: int, j: int|
        0 <= i < rows.len() && 0 <= j < new.len() ==> rows[i].id@ != new[j].id@
}

/// The facade over the `crossword` table. It holds the rows in storage
/// order; every id is unique across the table.
pub struct CrosswordRepository {
    rows: Vec<Crossword>,
}

impl View for CrosswordRepository {
    type V = Seq<Crossword>;

    closed spec fn view(&self) -> Seq<Crossword> {
        self.rows@
    }
}

impl CrosswordRepository {
    /// The table's invariant: ids are unique across the rows.
    pub open spec fn well_formed(&self) -> bool {
        ids_unique(self@)
    }

    /// An empty table.
    pub fn new() -> (r: CrosswordRepository)
        ensures
            r@ == Seq::<Crossword>::empty(),
            r.well_formed(),
    {
        CrosswordRepository { rows: Vec::new() }
    }

    /// Lists the ids of every row of the given series, in storage order.
    /// Never fails: a series without rows yields the empty list.
    pub fn get_crossword_ids_for_series(&self, series_for: String) -> (r: Result<
        Vec<String>,
        AppError,
    >)
        ensures
            r is Ok,
            r matches Ok(ids) ==> {
                let f = rows_for_series(self@, series_for@);
                &&& ids@.len() == f.len()
                &&& forall|k: int| 0 <= k < f.len() ==> #[trigger] ids@[k]@ == f[k].id@
            },
    {
        let mut out: Vec<String> = Vec::new();
        let mut i: usize = 0;
        while i < self.rows.len()
            invariant
                i <= self.rows.len(),
                out@.len() == rows_for_series(self@.take(i as int), series_for@).len(),
                forall|k: int|
                    0 <= k < out@.len() ==> #[trigger] out@[k]@ == rows_for_series(
                        self@.take(i as int),
                        series_for@,
                    )[k].id@,
            decreases self.rows.len() - i,
        {
            proof {
                assert(self@.take(i + 1).drop_last() =~= self@.take(i as int));
                assert(self@.take(i + 1).last() == self@[i as int]);
            }
            if self.rows[i].series == series_for {
                out.push(self.rows[i].id.clone());
            }
            i = i + 1;
        }
        proof {
            assert(self@.take(self.rows@.len() as int) =~= self@);
        }
        Ok(out)
    }

    /// Lists the id, series and date of every row of the given series, in
    /// storage order. Never fails: a series without rows yields the empty
    /// list.
    pub fn get_crossword_metadata_for_series(&self, series_for: String) -> (r: Result<
        Vec<CrosswordMetadata>,
        AppError,
    >)
        ensures
            r is Ok,
            r matches Ok(metas) ==> {
                let f = rows_for_series(self@, series_for@);
                &&& metas@.len() == f.len()
                &&& forall|k: int|
                    0 <= k < f.len() ==> {
                        &&& (#[trigger] metas@[k]).id@ == f[k].id@
                        &&& metas@[k].series@ == f[k].series@
                        &&& metas@[k].date == f[k].date
                    }
            },
    {
        let mut out: Vec<CrosswordMetadata> = Vec::new();
        let mut i: usize = 0;
        while i < self.rows.len()
            invariant
                i <= self.rows.len(),
                out@.len() == rows_for_series(self@.take(i as int), series_for@).len(),
                forall|k: int|
                    0 <= k < out@.len() ==> {
                        let f = rows_for_series(self@.take(i as int), series_for@);
                        &&& (#[trigger] out@[k]).id@ == f[k].id@
                        &&& out@[k].series@ == f[k].series@
                        &&& out@[k].date == f[k].date
                    },
            decreases self.rows.len() - i,
        {
            proof {
                assert(self@.take(i + 1).drop_last() =~= self@.take(i as int));
                assert(self@.take(i + 1).last() == self@[i as int]);
            }
            if self.rows[i].series == series_for {
                out.push(
                    CrosswordMetadata {
                        id: self.rows[i].id.clone(),
                        series: self.rows[i].series.clone(),
                        date: self.rows[i].date,
                    },
                );
            }
            i = i + 1;
        }
        proof {
            assert(self@.take(self.rows@.len() as int) =~= self@);
        }
        Ok(out)
    }

    /// Fetches the one row carrying both the id and the series, and parses
    /// its document into the typed puzzle shape.
    ///
    /// An absent (id, series) pair fails with `CrosswordNotFound` carrying
    /// the queried id; a present pair whose document does not conform to the
    /// schema fails with `InternalServerError`; otherwise the document's own
    /// fields are returned.
    pub fn get_crossword_for_series_and_id(&self, id_for: String, series_for: String) -> (r: Result<
        GuardianCrossword,
        AppError,
    >)
        ensures
            find_row(self@, id_for@, series_for@) is None ==> (r matches Err(
                AppError::CrosswordNotFound(missing),
            ) && missing@ == id_for@),
            find_row(self@, id_for@, series_for@) matches Some(c) ==> {
                &&& doc_conforms(c.crossword_json) ==> (r matches Ok(g) && guardian_matches_doc(
                    g,
                    c.crossword_json,
                ))
                &&& !doc_conforms(c.crossword_json) ==> (r matches Err(e) && e
                    is InternalServerError)
            },
    {
        let mut i: usize = 0;
        proof {
            assert(self@.skip(0) =~= self@);
        }
        while i < self.rows.len()
            invariant
                i <= self.rows.len(),
                find_row(self@, id_for@, series_for@) == find_row(
                    self@.skip(i as int),
                    id_for@,
                    series_for@,
                ),
            decreases self.rows.len() - i,
        {
            proof {
                assert(self@.skip(i as int).first() == self@[i as int]);
                assert(self@.skip(i as int).drop_first() =~= self@.skip(i + 1));
            }
            if self.rows[i].id == id_for && self.rows[i].series == series_for {
                return parse_guardian_crossword(&self.rows[i].crossword_json);
            }
            i = i + 1;
        }
        Err(AppError::CrosswordNotFound(id_for))
    }

    /// Bulk-inserts the given rows with a single all-or-nothing statement.
    ///
    /// When every incoming id is fresh — pairwise distinct and absent from
    /// the table — all rows are appended in order and the count of inserted
    /// rows (the input length) is returned. A key collision fails with
    /// `InternalServerError` and leaves the table exactly as it was: no
    /// partial insert, no overwrite.
    pub fn store_crosswords(&mut self, crosswords: Vec<Crossword>) -> (r: Result<usize, AppError>)
        requires
            old(self).well_formed(),
        ensures
            final(self).well_formed(),
            insert_allowed(old(self)@, crosswords@) ==> (r matches Ok(n) && n == crosswords@.len()
                && final(self)@ == old(self)@ + crosswords@),
            !insert_allowed(old(self)@, crosswords@) ==> (r matches Err(e) && e
                is InternalServerError && final(self)@ == old(self)@),
    {
        let n = crosswords.len();
        let mut i: usize = 0;
        while i < n
            invariant
                self@ == old(self)@,
                old(self).well_formed(),
                n == crosswords@.len(),
                i <= n,
                forall|p: int, q: int|
                    0 <= p < q < i ==> crosswords@[p].id@ != crosswords@[q].id@,
                forall|p: int, q: int|
                    0 <= p < self@.len() && 0 <= q < i ==> self@[p].id@ != crosswords@[q].id@,
            decreases n - i,
        {
            let mut j: usize = 0;
            while j < self.rows.len()
                invariant
                    self@ == old(self)@,
                    old(self).well_formed(),
                    n == crosswords@.len(),
                    i < n,
                    j <= self@.len(),
                    forall|p: int| 0 <= p < j ==> self@[p].id@ != crosswords@[i as int].id@,
                decreases self.rows.len() - j,
            {
                if self.rows[j].id == crosswords[i].id {
                    proof {
                        assert(old(self)@[j as int].id@ == crosswords@[i as int].id@);
                        assert(!insert_allowed(old(self)@, crosswords@));
                    }
                    return Err(AppError::InternalServerError(duplicate_id_message()));
                }
                j = j + 1;
            }
            let mut k: usize = 0;
            while k < i
                invariant
                    self@ == old(self)@,
                    old(self).well_formed(),
                    n == crosswords@.len(),
                    i < n,
                    k <= i,
                    forall|p: int| 0 <= p < k ==> crosswords@[p].id@ != crosswords@[i as int].id@,
                decreases i - k,
            {
                if crosswords[k].id == crosswords[i].id {
                    proof {
                        assert(crosswords@[k as int].id@ == crosswords@[i as int].id@);
                        assert(!ids_unique(crosswords@));
                        assert(!insert_allowed(old(self)@, crosswords@));
                    }
                    return Err(AppError::InternalServerError(duplicate_id_message()));
                }
                k = k + 1;
            }
            i = i + 1;
        }
        proof {
            assert(insert_allowed(old(self)@, crosswords@));
        }
        let mut incoming = crosswords;
        self.rows.append(&mut incoming);
        proof {
            assert forall|p: int, q: int| 0 <= p < q < self@.len() implies self@[p].id@
                != self@[q].id@ by {
                let earlier = old(self)@.len() as int;
                if q < earlier {
                    assert(old(self).well_formed());
                } else if p >= earlier {
                    assert(self@[p] == crosswords@[p - earlier]);
                    assert(self@[q] == crosswords@[q - earlier]);
                } else {
                    assert(self@[p] == old(self)@[p]);
                    assert(self@[q] == crosswords@[q - earlier]);
                }
            }
        }
        Ok(n)
    }
}

/// The diagnostic text used when a bulk insert collides with an existing or
/// repeated id.
fn duplicate_id_message() -> String {
    "insert failed: duplicate crossword id".to_owned()
}

/// A series with no matching rows lists as the empty sequence: together with
/// the listing operations' own contracts, listing such a series returns an
/// empty `Ok`, never an error.
pub proof fn lemma_series_without_rows_is_empty(rows: Seq<Crossword>, s: Seq<char>)
    requires
        forall|i: int| 0 <= i < rows.len() ==> (#[trigger] rows[i]).series@ != s,
    ensures
        rows_for_series(rows, s).len() == 0,
    decreases rows.len(),
{
    if rows.len() > 0 {
        assert(rows.last().series@ != s);
        assert(forall|i: int|
            0 <= i < rows.drop_last().len() ==> (#[trigger] rows.drop_last()[i]).series@ != s);
        lemma_series_without_rows_is_empty(rows.drop_last(), s);
    }
}

/// The ids listed for a series and the metadata listed for the same series
/// name the same set of ids: each id from the one appears in the other, and
/// vice versa. The premises are exactly what the two listing operations
/// ensure of their results.
pub proof fn lemma_ids_match_metadata(
    rows: Seq<Crossword>,
    s: Seq<char>,
    ids: Seq<Seq<char>>,
    metas: Seq<CrosswordMetadata>,
)
    requires
        ids.len() == rows_for_series(rows, s).len(),
        forall|k: int| 0 <= k < ids.len() ==> #[trigger] ids[k] == rows_for_series(rows, s)[k].id@,
        metas.len() == rows_for_series(rows, s).len(),
        forall|k: int|
            0 <= k < metas.len() ==> (#[trigger] metas[k]).id@ == rows_for_series(rows, s)[k].id@,
    ensures
        forall|x: Seq<char>|
            #[trigger] ids.contains(x) ==> exists|k: int|
                0 <= k < metas.len() && (#[trigger] metas[k]).id@ == x,
        forall|k: int| 0 <= k < metas.len() ==> ids.contains((#[trigger] metas[k]).id@),
{
    assert forall|x: Seq<char>| #[trigger] ids.contains(x) implies exists|k: int|
        0 <= k < metas.len() && (#[trigger] metas[k]).id@ == x by {
        let i = choose|i: int| 0 <= i < ids.len() && ids[i] == x;
        assert(metas[i].id@ == x);
    }
    assert forall|k: int| 0 <= k < metas.len() implies ids.contains((#[trigger] metas[k]).id@) by {
        assert(ids[k] == metas[k].id@);
    }
}

/// A pair that no row carries is not found: looking it up fails with
/// `CrosswordNotFound` by the lookup operation's own contract.
pub proof fn lemma_find_row_absent(rows: Seq<Crossword>, id: Seq<char>, s: Seq<char>)
    requires
        forall|i: int|
            0 <= i < rows.len() ==> !((#[trigger] rows[i]).id@ == id && rows[i].series@ == s),
    ensures
        find_row(rows, id, s) is None,
    decreases rows.len(),
{
    if rows.len() > 0 {
        assert(rows.first() == rows[0]);
        assert(forall|i: int|
            0 <= i < rows.drop_first().len() ==> !((#[trigger] rows.drop_first()[i]).id@ == id
                && rows.drop_first()[i].series@ == s));
        lemma_find_row_absent(rows.drop_first(), id, s);
    }
}

/// A found row carries exactly the queried id and series, and stands in the
/// table.
pub proof fn lemma_find_row_found(rows: Seq<Crossword>, id: Seq<char>, s: Seq<char>)
    requires
        find_row(rows, id, s) is Some,
    ensures
        find_row(rows, id, s)->Some_0.id@ == id,
        find_row(rows, id, s)->Some_0.series@ == s,
        rows.contains(find_row(rows, id, s)->Some_0),
    decreases rows.len(),
{
    if rows.first().id@ == id && rows.first().series@ == s {
        assert(rows[0] == rows.first());
    } else {
        lemma_find_row_found(rows.drop_first(), id, s);
        let c = find_row(rows.drop_first(), id, s)->Some_0;
        let i = choose|i: int| 0 <= i < rows.drop_first().len() && rows.drop_first()[i] == c;
        assert(rows[i + 1] == c);
    }
}

/// A successful lookup returns the queried id as the puzzle's own id,
/// provided the found row's document names the row's id — the integrity the
/// writer of the table is expected to keep.
pub proof fn lemma_found_crossword_has_queried_id(
    rows: Seq<Crossword>,
    id: Seq<char>,
    s: Seq<char>,
    g: GuardianCrossword,
)
    requires
        find_row(rows, id, s) is Some,
        doc_conforms(find_row(rows, id, s)->Some_0.crossword_json),
        guardian_matches_doc(g, find_row(rows, id, s)->Some_0.crossword_json),
        crate::json::obj_str_fields(find_row(rows, id, s)->Some_0.crossword_json)["id"@]
            == find_row(rows, id, s)->Some_0.id@,
    ensures
        g.id@ == id,
{
    lemma_find_row_found(rows, id, s);
}

/// The first matching row is the one found.
proof fn lemma_find_row_first_match(rows: Seq<Crossword>, id: Seq<char>, s: Seq<char>, m: int)
    requires
        0 <= m < rows.len(),
        rows[m].id@ == id,
        rows[m].series@ == s,
        forall|i: int|
            0 <= i < m ==> !((#[trigger] rows[i]).id@ == id && rows[i].series@ == s),
    ensures
        find_row(rows, id, s) == Some(rows[m]),
    decreases m,
{
    assert(rows.first() == rows[0]);
    if m == 0 {
    } else {
        assert(forall|i: int|
            0 <= i < m - 1 ==> !((#[trigger] rows.drop_first()[i]).id@ == id
                && rows.drop_first()[i].series@ == s));
        assert(rows.drop_first()[m - 1] == rows[m]);
        lemma_find_row_first_match(rows.drop_first(), id, s, m - 1);
    }
}

/// Round trip: after a successful bulk insert, looking up any inserted
/// (id, series) pair finds exactly the row that was handed in, its document
/// untouched — together with the lookup's contract, the puzzle returned is
/// the one that was stored.
pub proof fn lemma_store_then_lookup(rows: Seq<Crossword>, new: Seq<Crossword>, k: int)
    requires
        insert_allowed(rows, new),
        0 <= k < new.len(),
    ensures
        find_row(rows + new, new[k].id@, new[k].series@) == Some(new[k]),
{
    let all = rows + new;
    let m = rows.len() as int + k;
    assert(all[m] == new[k]);
    assert forall|i: int| 0 <= i < m implies !((#[trigger] all[i]).id@ == new[k].id@
        && all[i].series@ == new[k].series@) by {
        if i < rows.len() {
            assert(all[i] == rows[i]);
        } else {
            assert(all[i] == new[i - rows.len()]);
        }
    }
    lemma_find_row_first_match(all, new[k].id@, new[k].series@, m);
}

} // verus!
