use vstd::prelude::*;

use crate::platform::TargetOs;
use crate::scanner::filter::{mpeg_ts_verdict, sample_fits, FileSample, ScanFilter};
use crate::text::{eq_str, from_chars, has_suffix, lowercase_chars, push_all, push_str, string_of, to_chars, trim, trimmed, unicode_lowercase};

verus! {

/// The media library stored in the SQLite file at `db_path`.
#[derive(Debug, Clone)]
pub struct DatabaseManager {
    db_path: String,
}

impl View for DatabaseManager {
    /// The path of the database file.
    type V = Seq<char>;

    closed spec fn view(&self) -> Seq<char> {
        self.db_path@
    }
}

/// The two statements of one page of the asset list: `count_sql` counts the rows that pass
/// the filters, `query_sql` reads one page of them. Both take `filter_params` for their
/// filter placeholders, in order; `query_sql` then takes `limit` and `offset`.
#[derive(Debug, Clone)]
pub struct AssetQueryPlan {
    pub count_sql: String,
    pub query_sql: String,
    pub filter_params: Vec<String>,
    pub limit: i64,
    pub offset: i64,
}

/// A stored row with a transport-stream format, with what reading its file gave
/// (`None` when the file is missing or could not be read).
#[derive(Debug, Clone)]
pub struct StoredTransportFile {
    pub id: i64,
    pub file_path: String,
    pub sample: Option<FileSample>,
}

/// The file-name search: the trimmed text, when that is not empty.
pub open spec fn search_term(search: Option<Seq<char>>) -> Option<Seq<char>> {
    match search {
        Some(s) => if trim(s).len() > 0 {
            Some(trim(s))
        } else {
            None
        },
        None => None,
    }
}

/// The format filter: the trimmed, lower-cased text, unless that is empty or `all`.
pub open spec fn format_term(format_filter: Option<Seq<char>>) -> Option<Seq<char>> {
    match format_filter {
        Some(f) => {
            let t = unicode_lowercase(trim(f));
            if t.len() > 0 && t != "all"@ {
                Some(t)
            } else {
                None
            }
        },
        None => None,
    }
}

/// The `WHERE` part for the filters in use.
pub open spec fn where_sql(has_search: bool, has_format: bool) -> Seq<char> {
    if has_search && has_format {
        "WHERE file_name LIKE ? AND format = ?"@
    } else if has_search {
        "WHERE file_name LIKE ?"@
    } else if has_format {
        "WHERE format = ?"@
    } else {
        Seq::empty()
    }
}

/// The values bound to the filter placeholders: the search as a `LIKE` pattern, then the
/// format.
pub open spec fn filter_param_texts(search: Option<Seq<char>>, format_filter: Option<Seq<char>>) -> Seq<Seq<char>> {
    (match search_term(search) {
        Some(t) => seq!["%"@ + t + "%"@],
        None => Seq::empty(),
    }) + (match format_term(format_filter) {
        Some(f) => seq![f],
        None => Seq::empty(),
    })
}

/// The sort order named by a setting; newest first by default.
pub open spec fn order_clause(sort_by: Option<Seq<char>>) -> Seq<char> {
    match sort_by {
        Some(s) => if s == "size_desc"@ {
            "file_size DESC"@
        } else if s == "size_asc"@ {
            "file_size ASC"@
        } else if s == "duration_desc"@ {
            "duration DESC"@
        } else if s == "name_asc"@ {
            "file_name ASC"@
        } else {
            "created_at DESC"@
        },
        None => "created_at DESC"@,
    }
}

/// Rows skipped before a page: pages count from 1, and a page below 1 is the first.
pub open spec fn page_offset(page: int, page_size: int) -> int {
    ((if page < 1 {
        1
    } else {
        page
    }) - 1) * page_size
}

pub open spec fn count_sql(search: Option<Seq<char>>, format_filter: Option<Seq<char>>) -> Seq<char> {
    "SELECT COUNT(*) FROM video_assets "@ + where_sql(
        search_term(search) is Some,
        format_term(format_filter) is Some,
    )
}

pub open spec fn page_sql(search: Option<Seq<char>>, format_filter: Option<Seq<char>>, sort_by: Option<Seq<char>>) -> Seq<char> {
    "SELECT id, file_path, file_name, file_size, duration, width, height, format, created_at, modified_at, scanned_at, status \n             FROM video_assets "@
        + where_sql(search_term(search) is Some, format_term(format_filter) is Some) + " ORDER BY "@
        + order_clause(sort_by) + " LIMIT ? OFFSET ?"@
}

pub open spec fn opt_view(o: Option<&str>) -> Option<Seq<char>> {
    match o {
        Some(s) => Some(s@),
        None => None,
    }
}

/// The ids of the stored transport-stream rows whose files are not real transport streams.
pub open spec fn invalid_transport_ids(rows: Seq<StoredTransportFile>, os: TargetOs) -> Seq<i64>
    decreases rows.len(),
{
    if rows.len() == 0 {
        Seq::empty()
    } else {
        let last = rows.last();
        let rest = invalid_transport_ids(rows.drop_last(), os);
        if mpeg_ts_verdict(last.file_path@, os, last.sample) {
            rest
        } else {
            rest.push(last.id)
        }
    }
}

fn search_term_of(search: Option<&str>) -> (r: Option<Vec<char>>)
    ensures
        search_term(opt_view(search)) == (match r {
            Some(v) => Some(v@),
            None => None,
        }),
{
    match search {
        Some(s) => {
            let t = trimmed(&to_chars(s));
            if t.len() > 0 {
                Some(t)
            } else {
                None
            }
        },
        None => None,
    }
}

fn format_term_of(format_filter: Option<&str>) -> (r: Option<Vec<char>>)
    ensures
        format_term(opt_view(format_filter)) == (match r {
            Some(v) => Some(v@),
            None => None,
        }),
{
    match format_filter {
        Some(f) => {
            let t = lowercase_chars(&trimmed(&to_chars(f)));
            if t.len() > 0 && !eq_str(&t, "all") {
                Some(t)
            } else {
                None
            }
        },
        None => None,
    }
}

fn order_clause_of(sort_by: Option<&str>) -> (r: &'static str)
    ensures
        r@ == order_clause(opt_view(sort_by)),
{
    match sort_by {
        Some(s) => {
            let v = to_chars(s);
            if eq_str(&v, "size_desc") {
                "file_size DESC"
            } else if eq_str(&v, "size_asc") {
                "file_size ASC"
            } else if eq_str(&v, "duration_desc") {
                "duration DESC"
            } else if eq_str(&v, "name_asc") {
                "file_name ASC"
            } else {
                "created_at DESC"
            }
        },
        None => "created_at DESC",
    }
}

fn push_where(out: &mut Vec<char>, has_search: bool, has_format: bool)
    ensures
        final(out)@ == old(out)@ + where_sql(has_search, has_format),
{
    if has_search && has_format {
        push_str(out, "WHERE file_name LIKE ? AND format = ?");
    } else if has_search {
        push_str(out, "WHERE file_name LIKE ?");
    } else if has_format {
        push_str(out, "WHERE format = ?");
    } else {
        assert(old(out)@ + where_sql(has_search, has_format) =~= old(out)@);
    }
}

impl DatabaseManager {
    /// The library kept in the database file at `db_path`.
    pub fn new(db_path: &str) -> (r: Self)
        ensures
            r@ == db_path@,
    {
        DatabaseManager { db_path: string_of(db_path) }
    }

    /// The database file.
    pub fn db_path(&self) -> (r: &str)
        ensures
            r@ == self@,
    {
        self.db_path.as_str()
    }

    /// The statements and values that read page `page` (of `page_size` rows) of the assets
    /// whose file name contains the trimmed `search` and whose format is the trimmed,
    /// lower-cased `format_filter` (unless that is `all`), in the order `sort_by` names.
    pub fn plan_query(
        page: u32,
        page_size: u32,
        search: Option<&str>,
        format_filter: Option<&str>,
        sort_by: Option<&str>,
    ) -> (r: AssetQueryPlan)
        requires
            page_offset(page as int, page_size as int) <= u32::MAX,
        ensures
            r.count_sql@ == count_sql(opt_view(search), opt_view(format_filter)),
            r.query_sql@ == page_sql(opt_view(search), opt_view(format_filter), opt_view(sort_by)),
            r.filter_params@.map_values(|s: String| s@) == filter_param_texts(
                opt_view(search),
                opt_view(format_filter),
            ),
            r.limit == page_size as int,
            r.offset == page_offset(page as int, page_size as int),
    {
        let first: u32 = if page < 1 {
            1
        } else {
            page
        };
        let skipped: u32 = first - 1;
        let offset: u32 = skipped * page_size;

        let s = search_term_of(search);
        let f = format_term_of(format_filter);
        let has_search = s.is_some();
        let has_format = f.is_some();

        let mut params: Vec<String> = Vec::new();
        match &s {
            Some(t) => {
                let mut pattern = to_chars("%");
                push_all(&mut pattern, t);
                push_str(&mut pattern, "%");
                params.push(from_chars(&pattern));
            },
            None => {},
        }
        match &f {
            Some(t) => {
                params.push(from_chars(t));
            },
            None => {},
        }
        assert(params@.map_values(|s: String| s@) =~= filter_param_texts(
            opt_view(search),
            opt_view(format_filter),
        ));

        let mut count = to_chars("SELECT COUNT(*) FROM video_assets ");
        push_where(&mut count, has_search, has_format);

        let mut query = to_chars(
            "SELECT id, file_path, file_name, file_size, duration, width, height, format, created_at, modified_at, scanned_at, status \n             FROM video_assets ",
        );
        push_where(&mut query, has_search, has_format);
        push_str(&mut query, " ORDER BY ");
        push_str(&mut query, order_clause_of(sort_by));
        push_str(&mut query, " LIMIT ? OFFSET ?");

        AssetQueryPlan {
            count_sql: from_chars(&count),
            query_sql: from_chars(&query),
            filter_params: params,
            limit: page_size as i64,
            offset: offset as i64,
        }
    }

    /// The ids of the stored transport-stream rows to drop: those whose file is missing or
    /// is not a real MPEG transport stream, in the order of `rows`.
    pub fn invalid_transport_rows(rows: &Vec<StoredTransportFile>, os: TargetOs) -> (r: Vec<i64>)
        requires
            forall|i: int| 0 <= i < rows.len() ==> sample_fits(#[trigger] rows@[i].sample),
        ensures
            r@ == invalid_transport_ids(rows@, os),
    {
        let mut r: Vec<i64> = Vec::new();
        let mut i: usize = 0;
        while i < rows.len()
            invariant
                i <= rows.len(),
                forall|j: int| 0 <= j < rows.len() ==> sample_fits(#[trigger] rows@[j].sample),
                r@ == invalid_transport_ids(rows@.take(i as int), os),
            decreases rows.len() - i,
        {
            let row = &rows[i];
            let keep = ScanFilter::is_valid_mpeg_ts(row.file_path.as_str(), os, row.sample.as_ref());
            assert(rows@.take(i + 1).drop_last() =~= rows@.take(i as int));
            assert(rows@.take(i + 1).last() == rows@[i as int]);
            if !keep {
                r.push(row.id);
            }
            i = i + 1;
        }
        assert(rows@.take(i as int) =~= rows@);
        r
    }
}


proof fn lemma_page_sql_ends_with_order(search: Option<Seq<char>>, format_filter: Option<Seq<char>>, sort_by: Option<Seq<char>>)
    ensures
        has_suffix(
            page_sql(search, format_filter, sort_by),
            " ORDER BY "@ + order_clause(sort_by) + " LIMIT ? OFFSET ?"@,
        ),
{
    let a = "SELECT id, file_path, file_name, file_size, duration, width, height, format, created_at, modified_at, scanned_at, status \n             FROM video_assets "@
        + where_sql(search_term(search) is Some, format_term(format_filter) is Some);
    let t = " ORDER BY "@ + order_clause(sort_by) + " LIMIT ? OFFSET ?"@;
    let q = page_sql(search, format_filter, sort_by);
    assert(q =~= a + t);
    assert((a + t).skip(a.len() as int) =~= t);
}

/// Each sort setting orders the page by its own column and direction: `size_desc` by file
/// size descending, `size_asc` by file size ascending, `duration_desc` by duration
/// descending (longest first), `name_asc` by file name ascending, and anything else,
/// or no setting, by creation time descending (newest first).
pub proof fn law_page_query_sort_order(search: Option<Seq<char>>, format_filter: Option<Seq<char>>, sort_by: Option<Seq<char>>)
    ensures
        sort_by == Some("size_desc"@) ==> has_suffix(
            page_sql(search, format_filter, sort_by),
            " ORDER BY file_size DESC LIMIT ? OFFSET ?"@,
        ),
        sort_by == Some("size_asc"@) ==> has_suffix(
            page_sql(search, format_filter, sort_by),
            " ORDER BY file_size ASC LIMIT ? OFFSET ?"@,
        ),
        sort_by == Some("duration_desc"@) ==> has_suffix(
            page_sql(search, format_filter, sort_by),
            " ORDER BY duration DESC LIMIT ? OFFSET ?"@,
        ),
        sort_by == Some("name_asc"@) ==> has_suffix(
            page_sql(search, format_filter, sort_by),
            " ORDER BY file_name ASC LIMIT ? OFFSET ?"@,
        ),
        (match sort_by {
            Some(k) => k != "size_desc"@ && k != "size_asc"@ && k != "duration_desc"@ && k != "name_asc"@,
            None => true,
        }) ==> has_suffix(
            page_sql(search, format_filter, sort_by),
            " ORDER BY created_at DESC LIMIT ? OFFSET ?"@,
        ),
{
    lemma_page_sql_ends_with_order(search, format_filter, sort_by);
    reveal_strlit("size_desc");
    reveal_strlit("size_asc");
    reveal_strlit("duration_desc");
    reveal_strlit("name_asc");
    assert("size_desc"@.len() == 9 && "size_asc"@.len() == 8 && "duration_desc"@.len() == 13
        && "name_asc"@.len() == 8 && "size_asc"@[0] != "name_asc"@[0]);
    reveal_strlit(" ORDER BY ");
    reveal_strlit(" LIMIT ? OFFSET ?");
    reveal_strlit("file_size DESC");
    reveal_strlit("file_size ASC");
    reveal_strlit("duration DESC");
    reveal_strlit("file_name ASC");
    reveal_strlit("created_at DESC");
    reveal_strlit(" ORDER BY file_size DESC LIMIT ? OFFSET ?");
    reveal_strlit(" ORDER BY file_size ASC LIMIT ? OFFSET ?");
    reveal_strlit(" ORDER BY duration DESC LIMIT ? OFFSET ?");
    reveal_strlit(" ORDER BY file_name ASC LIMIT ? OFFSET ?");
    reveal_strlit(" ORDER BY created_at DESC LIMIT ? OFFSET ?");
    assert(" ORDER BY file_size DESC LIMIT ? OFFSET ?"@ =~= " ORDER BY "@ + "file_size DESC"@ + " LIMIT ? OFFSET ?"@);
    assert(" ORDER BY file_size ASC LIMIT ? OFFSET ?"@ =~= " ORDER BY "@ + "file_size ASC"@ + " LIMIT ? OFFSET ?"@);
    assert(" ORDER BY duration DESC LIMIT ? OFFSET ?"@ =~= " ORDER BY "@ + "duration DESC"@ + " LIMIT ? OFFSET ?"@);
    assert(" ORDER BY file_name ASC LIMIT ? OFFSET ?"@ =~= " ORDER BY "@ + "file_name ASC"@ + " LIMIT ? OFFSET ?"@);
    assert(" ORDER BY created_at DESC LIMIT ? OFFSET ?"@ =~= " ORDER BY "@ + "created_at DESC"@ + " LIMIT ? OFFSET ?"@);
}

/// Cleaning the library drops exactly the bad transport-stream rows: every row whose file
/// is missing or is not a real transport stream has its id listed, and every listed id
/// belongs to such a row.
pub proof fn law_cleanup_drops_exactly_invalid_rows(rows: Seq<StoredTransportFile>, os: TargetOs)
    ensures
        forall|i: int| 0 <= i < rows.len() && !mpeg_ts_verdict(rows[i].file_path@, os, rows[i].sample)
            ==> invalid_transport_ids(rows, os).contains(#[trigger] rows[i].id),
        forall|k: int| 0 <= k < invalid_transport_ids(rows, os).len() ==> exists|i: int|
            0 <= i < rows.len() && rows[i].id == #[trigger] invalid_transport_ids(rows, os)[k]
                && !mpeg_ts_verdict(rows[i].file_path@, os, rows[i].sample),
    decreases rows.len(),
{
    if rows.len() > 0 {
        let d = rows.drop_last();
        law_cleanup_drops_exactly_invalid_rows(d, os);
        let rest = invalid_transport_ids(d, os);
        let r = invalid_transport_ids(rows, os);
        let last = rows.last();
        assert forall|i: int| 0 <= i < rows.len() && !mpeg_ts_verdict(rows[i].file_path@, os, rows[i].sample)
            implies r.contains(#[trigger] rows[i].id) by {
            if i < rows.len() - 1 {
                assert(rows[i] == d[i]);
                assert(rest.contains(d[i].id));
                let j = choose|j: int| 0 <= j < rest.len() && rest[j] == d[i].id;
                assert(r[j] == rest[j]);
            } else {
                assert(r.last() == last.id);
            }
        }
        assert forall|k: int| 0 <= k < r.len() implies exists|i: int|
            0 <= i < rows.len() && rows[i].id == #[trigger] r[k]
                && !mpeg_ts_verdict(rows[i].file_path@, os, rows[i].sample) by {
            if k < rest.len() {
                assert(r[k] == rest[k]);
                let i = choose|i: int| 0 <= i < d.len() && d[i].id == rest[k]
                    && !mpeg_ts_verdict(d[i].file_path@, os, d[i].sample);
                assert(rows[i] == d[i]);
            } else {
                assert(rows[rows.len() - 1] == last);
            }
        }
    }
}

} // verus!
