use vstd::pervasive::unreached;
use vstd::prelude::*;

use crate::error::{ErrorKind, OrganizeError};
use crate::text::str_eq;

verus! {

/// A row of the primary image table, with plain values only; the
/// modification date is seconds since the Unix epoch.
#[derive(Debug)]
pub struct Image {
    pub id: Option<i32>,
    pub album: Option<i32>,
    pub name: String,
    pub status: i32,
    pub category: i32,
    pub modification_date: Option<i64>,
    pub file_size: Option<i32>,
    pub unique_hash: Option<String>,
}

/// The abstract value of an optional string.
pub open spec fn opt_view(h: Option<String>) -> Option<Seq<char>> {
    match h {
        Option::Some(s) => Option::Some(s@),
        Option::None => Option::None,
    }
}

/// The grouping key of a row: its content hash; rows without one group
/// together, as an aggregate over the hash column groups them.
pub open spec fn hash_of(img: Image) -> Option<Seq<char>> {
    opt_view(img.unique_hash)
}

/// How many rows of `rows` carry the hash `h`.
pub open spec fn count_hash(rows: Seq<Image>, h: Option<Seq<char>>) -> nat
    decreases rows.len(),
{
    if rows.len() == 0 {
        0
    } else {
        count_hash(rows.drop_last(), h) + if hash_of(rows.last()) == h {
            1nat
        } else {
            0nat
        }
    }
}

/// How many rows of `rows` belong to a duplicate set of `all`: their
/// hash is shared by at least two rows of `all`.
pub open spec fn spec_duplicate_count(rows: Seq<Image>, all: Seq<Image>) -> nat
    decreases rows.len(),
{
    if rows.len() == 0 {
        0
    } else {
        spec_duplicate_count(rows.drop_last(), all) + if count_hash(all, hash_of(rows.last()))
            >= 2 {
            1nat
        } else {
            0nat
        }
    }
}

/// Equality of two optional hashes.
fn opt_hash_eq(a: &Option<String>, b: &Option<String>) -> (r: bool)
    ensures
        r == (opt_view(*a) == opt_view(*b)),
{
    match (a, b) {
        (Option::Some(x), Option::Some(y)) => str_eq(x.as_str(), y.as_str()),
        (Option::None, Option::None) => true,
        _ => false,
    }
}

/// Count the rows that carry the given hash.
pub fn count_hash_rows(rows: &Vec<Image>, h: &Option<String>) -> (r: usize)
    ensures
        r == count_hash(rows@, opt_view(*h)),
{
    let n = rows.len();
    let mut count: usize = 0;
    let mut i: usize = 0;
    while i < n
        invariant
            n == rows@.len(),
            i <= n,
            count <= i,
            count == count_hash(rows@.take(i as int), opt_view(*h)),
        decreases n - i,
    {
        proof {
            assert(rows@.take(i + 1).drop_last() =~= rows@.take(i as int));
            assert(rows@.take(i + 1).last() == rows@[i as int]);
        }
        if opt_hash_eq(&rows[i].unique_hash, h) {
            count += 1;
        }
        i += 1;
    }
    proof {
        assert(rows@.take(n as int) =~= rows@);
    }
    count
}

/// Count the rows that are part of some duplicate set: rows whose
/// content hash occurs at least twice across the whole table.
pub fn duplicate_image_count(rows: &Vec<Image>) -> (r: usize)
    ensures
        r == spec_duplicate_count(rows@, rows@),
{
    let n = rows.len();
    let mut count: usize = 0;
    let mut i: usize = 0;
    while i < n
        invariant
            n == rows@.len(),
            i <= n,
            count <= i,
            count == spec_duplicate_count(rows@.take(i as int), rows@),
        decreases n - i,
    {
        proof {
            assert(rows@.take(i + 1).drop_last() =~= rows@.take(i as int));
            assert(rows@.take(i + 1).last() == rows@[i as int]);
        }
        let c = count_hash_rows(rows, &rows[i].unique_hash);
        if c >= 2 {
            count += 1;
        }
        i += 1;
    }
    proof {
        assert(rows@.take(n as int) =~= rows@);
    }
    count
}

/// Every row of a hash that occurs at least twice is counted.
pub proof fn lemma_duplicate_count_includes(rows: Seq<Image>, all: Seq<Image>, h: Option<Seq<char>>)
    requires
        count_hash(all, h) >= 2,
    ensures
        spec_duplicate_count(rows, all) >= count_hash(rows, h),
    decreases rows.len(),
{
    if rows.len() > 0 {
        lemma_duplicate_count_includes(rows.drop_last(), all, h);
    }
}

/// No row of a hash that occurs exactly once is counted.
pub proof fn lemma_duplicate_count_excludes(rows: Seq<Image>, all: Seq<Image>, h: Option<Seq<char>>)
    requires
        count_hash(all, h) == 1,
    ensures
        spec_duplicate_count(rows, all) <= rows.len() - count_hash(rows, h),
    decreases rows.len(),
{
    if rows.len() > 0 {
        lemma_duplicate_count_excludes(rows.drop_last(), all, h);
    }
}

/// Duplicate counting over a table where the hash `h` occurs at least
/// twice and the hash `single_h` occurs exactly once: the count takes
/// all rows of `h` in and leaves the row of `single_h` out.
pub proof fn lemma_duplicate_count_bounds(
    rows: Seq<Image>,
    h: Option<Seq<char>>,
    single_h: Option<Seq<char>>,
)
    requires
        count_hash(rows, h) >= 2,
        count_hash(rows, single_h) == 1,
    ensures
        spec_duplicate_count(rows, rows) >= count_hash(rows, h),
        spec_duplicate_count(rows, rows) <= rows.len() - 1,
{
    lemma_duplicate_count_includes(rows, rows, h);
    lemma_duplicate_count_excludes(rows, rows, single_h);
}

/// A row of the thumbnail file-path table.
#[derive(Debug)]
pub struct FilePathRecord {
    pub thumb_id: i64,
    pub path: String,
}

/// How many rows of `rows` carry the thumbnail identifier `id`.
pub open spec fn count_thumb(rows: Seq<FilePathRecord>, id: i64) -> nat
    decreases rows.len(),
{
    if rows.len() == 0 {
        0
    } else {
        count_thumb(rows.drop_last(), id) + if rows.last().thumb_id == id {
            1nat
        } else {
            0nat
        }
    }
}

/// The paths of the rows of `rows`, in order, whose thumbnail
/// identifier is shared by at least two rows of `all`.
pub open spec fn spec_duplicate_paths(rows: Seq<FilePathRecord>, all: Seq<FilePathRecord>) -> Seq<
    Seq<char>,
>
    decreases rows.len(),
{
    if rows.len() == 0 {
        Seq::empty()
    } else {
        spec_duplicate_paths(rows.drop_last(), all) + if count_thumb(all, rows.last().thumb_id)
            >= 2 {
            seq![rows.last().path@]
        } else {
            Seq::empty()
        }
    }
}

/// Count the rows that carry the given thumbnail identifier.
pub fn count_thumb_rows(rows: &Vec<FilePathRecord>, id: i64) -> (r: usize)
    ensures
        r == count_thumb(rows@, id),
{
    let n = rows.len();
    let mut count: usize = 0;
    let mut i: usize = 0;
    while i < n
        invariant
            n == rows@.len(),
            i <= n,
            count <= i,
            count == count_thumb(rows@.take(i as int), id),
        decreases n - i,
    {
        proof {
            assert(rows@.take(i + 1).drop_last() =~= rows@.take(i as int));
            assert(rows@.take(i + 1).last() == rows@[i as int]);
        }
        if rows[i].thumb_id == id {
            count += 1;
        }
        i += 1;
    }
    proof {
        assert(rows@.take(n as int) =~= rows@);
    }
    count
}

/// List, in table order, the paths whose thumbnail identifier belongs
/// to a duplicate set.
pub fn duplicate_paths(rows: &Vec<FilePathRecord>) -> (r: Vec<String>)
    ensures
        r.deep_view() == spec_duplicate_paths(rows@, rows@),
{
    let n = rows.len();
    let mut out: Vec<String> = Vec::new();
    let mut i: usize = 0;
    while i < n
        invariant
            n == rows@.len(),
            i <= n,
            out.deep_view() == spec_duplicate_paths(rows@.take(i as int), rows@),
        decreases n - i,
    {
        proof {
            assert(rows@.take(i + 1).drop_last() =~= rows@.take(i as int));
            assert(rows@.take(i + 1).last() == rows@[i as int]);
        }
        let c = count_thumb_rows(rows, rows[i].thumb_id);
        if c >= 2 {
            let ghost prev = out.deep_view();
            out.push(rows[i].path.clone());
            proof {
                assert(out.deep_view() =~= prev.push(rows@[i as int].path@));
            }
        }
        proof {
            assert(out.deep_view() =~= spec_duplicate_paths(rows@.take(i + 1), rows@));
        }
        i += 1;
    }
    proof {
        assert(rows@.take(n as int) =~= rows@);
    }
    out
}

/// A table of the external database, modeled by its name and its exact
/// number of rows.
#[derive(Debug)]
pub struct TableModel {
    pub name: String,
    pub row_count: u32,
}

/// The position of the first table of that name, or -1 if there is none.
pub open spec fn spec_table_index(tables: Seq<TableModel>, name: Seq<char>) -> int
    decreases tables.len(),
{
    if tables.len() == 0 {
        -1
    } else if tables[0].name@ == name {
        0
    } else {
        let r = spec_table_index(tables.drop_first(), name);
        if r < 0 {
            -1
        } else {
            r + 1
        }
    }
}

/// The exact row count of the named table, when the table exists.
pub open spec fn spec_row_count(tables: Seq<TableModel>, name: Seq<char>) -> Option<u32> {
    let i = spec_table_index(tables, name);
    if i < 0 {
        Option::None
    } else {
        Option::Some(tables[i].row_count)
    }
}

/// `spec_table_index` finds exactly the first position carrying `name`.
proof fn lemma_table_index_found(tables: Seq<TableModel>, name: Seq<char>, k: int)
    requires
        0 <= k < tables.len(),
        tables[k].name@ == name,
        forall|j: int| 0 <= j < k ==> tables[j].name@ != name,
    ensures
        spec_table_index(tables, name) == k,
    decreases k,
{
    if k > 0 {
        assert(tables[0].name@ != name);
        assert(tables.drop_first()[k - 1] == tables[k]);
        assert(forall|j: int| 0 <= j < k - 1 ==> tables.drop_first()[j] == tables[j + 1]);
        lemma_table_index_found(tables.drop_first(), name, k - 1);
    }
}

/// When no table carries `name`, `spec_table_index` is -1.
proof fn lemma_table_index_absent(tables: Seq<TableModel>, name: Seq<char>)
    requires
        forall|j: int| 0 <= j < tables.len() ==> tables[j].name@ != name,
    ensures
        spec_table_index(tables, name) == -1,
    decreases tables.len(),
{
    if tables.len() > 0 {
        assert(forall|j: int| 0 <= j < tables.len() - 1 ==> tables.drop_first()[j] == tables[j
            + 1]);
        lemma_table_index_absent(tables.drop_first(), name);
    }
}

/// Look the named table up and answer its exact row count; a missing
/// table is a schema violation.
pub fn row_count(tables: &Vec<TableModel>, table_name: &str) -> (r: Result<u32, OrganizeError>)
    ensures
        spec_row_count(tables@, table_name@) matches Some(c) ==> (r matches Ok(x) && x == c),
        spec_row_count(tables@, table_name@) is None ==> (r matches Err(e) && e.kind
            == ErrorKind::SchemaViolation),
{
    let n = tables.len();
    let mut i: usize = 0;
    while i < n
        invariant
            n == tables@.len(),
            i <= n,
            forall|j: int| 0 <= j < i ==> tables@[j].name@ != table_name@,
        decreases n - i,
    {
        if str_eq(tables[i].name.as_str(), table_name) {
            proof {
                lemma_table_index_found(tables@, table_name@, i as int);
            }
            return Ok(tables[i].row_count);
        }
        i += 1;
    }
    proof {
        lemma_table_index_absent(tables@, table_name@);
    }
    Err(
        OrganizeError::new(
            ErrorKind::SchemaViolation,
            String::from_str("no such table: ").concat(table_name),
        ),
    )
}

/// The sole element of a one-element collection, as a query that must
/// return exactly one row is read.
pub fn single<T>(items: Vec<T>) -> (r: T)
    requires
        items@.len() == 1,
    ensures
        r == items@[0],
{
    let mut items = items;
    match items.pop() {
        Option::Some(v) => v,
        Option::None => unreached(),
    }
}

} // verus!
