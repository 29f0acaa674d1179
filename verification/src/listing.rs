//! Assembling a listing, directories first, and filtering it by
//! visibility.

use crate::entry::{
    entry_from_meta, entry_of, has_leading_dot, is_special_file, is_special_name, views, EntryMeta,
    EntryType, EntryView, FileEntry,
};
use vstd::prelude::*;
use vstd::std_specs::iter::IteratorSpec;
use vstd::string::*;

verus! {

/// Which entries of a listing are shown.
#[derive(Debug, Clone, Copy, PartialEq, Eq, Structural)]
pub enum Visibility {
    /// Every entry.
    ShowAll,
    /// Only the hidden entries.
    HiddenOnly,
    /// The entries that are not hidden, and the always-shown names.
    Default,
}

/// Whether an entry could be read and is a directory.
pub open spec fn is_listed_dir(raw: Option<EntryMeta>) -> bool {
    raw is Some && raw->0.is_dir
}

/// Whether an entry could be read and is not a directory.
pub open spec fn is_listed_file(raw: Option<EntryMeta>) -> bool {
    raw is Some && !raw->0.is_dir
}

/// The rows of the readable entries that `keep` selects, in enumeration
/// order.
pub open spec fn listed_rows(
    raws: Seq<Option<EntryMeta>>,
    keep: spec_fn(Option<EntryMeta>) -> bool,
    directory_size: bool,
    byte_size: bool,
) -> Seq<EntryView> {
    raws.filter(keep).map_values(
        |raw: Option<EntryMeta>| entry_of(raw->0, directory_size, byte_size),
    )
}

/// The rows of the directories among the entries, in enumeration order.
pub open spec fn listed_dirs(
    raws: Seq<Option<EntryMeta>>,
    directory_size: bool,
    byte_size: bool,
) -> Seq<EntryView> {
    listed_rows(raws, |raw: Option<EntryMeta>| is_listed_dir(raw), directory_size, byte_size)
}

/// The rows of the files among the entries, in enumeration order.
pub open spec fn listed_files(
    raws: Seq<Option<EntryMeta>>,
    directory_size: bool,
    byte_size: bool,
) -> Seq<EntryView> {
    listed_rows(raws, |raw: Option<EntryMeta>| is_listed_file(raw), directory_size, byte_size)
}

/// The assembled listing: the directories in enumeration order, then the
/// files in enumeration order. Entries that could not be read are left
/// out.
pub open spec fn assembled(
    raws: Seq<Option<EntryMeta>>,
    directory_size: bool,
    byte_size: bool,
) -> Seq<EntryView> {
    listed_dirs(raws, directory_size, byte_size) + listed_files(raws, directory_size, byte_size)
}

/// The entries that reading a directory gave: none where the directory
/// could not be opened.
pub open spec fn read_entries(dir: Option<Vec<Option<EntryMeta>>>) -> Seq<Option<EntryMeta>> {
    match dir {
        Some(raws) => raws@,
        None => Seq::empty(),
    }
}

/// Every directory row stands before every file row.
pub open spec fn directories_first(rows: Seq<EntryView>) -> bool {
    forall|i: int, j: int|
        0 <= i < rows.len() && 0 <= j < rows.len() && (#[trigger] rows[i]).e_type
            == EntryType::Dir && (#[trigger] rows[j]).e_type == EntryType::File ==> i < j
}

/// Whether a mode shows a row. The default mode shows a row that is not
/// hidden or whose name is on the always-shown list.
pub open spec fn shows(mode: Visibility, row: EntryView) -> bool {
    match mode {
        Visibility::ShowAll => true,
        Visibility::HiddenOnly => row.hidden,
        Visibility::Default => !row.hidden || is_special_name(row.name),
    }
}

/// The rows that a mode shows, in their order.
pub open spec fn visible(rows: Seq<EntryView>, mode: Visibility) -> Seq<EntryView> {
    rows.filter(|row: EntryView| shows(mode, row))
}

/// The mode that the two flags select: hidden-only wins over all.
pub open spec fn mode_of(all: bool, hiddenonly: bool) -> Visibility {
    if hiddenonly {
        Visibility::HiddenOnly
    } else if all {
        Visibility::ShowAll
    } else {
        Visibility::Default
    }
}

/// The message for a listing that shows nothing.
pub open spec fn no_entries_message() -> Seq<char> {
    "No Files or Directories found!"@
}

/// The message for a path of which nothing can be shown.
pub open spec fn not_found_message() -> Seq<char> {
    "No such file found"@
}

/// Whether a single path has a row to show: its metadata could be read
/// and it has a name of its own.
pub open spec fn info_found(meta: Option<EntryMeta>) -> bool {
    meta matches Some(m) && m.name is Some
}

/// The rows filed so far, for the first `n` entries of a directory.
proof fn lemma_listed_rows_step(
    raws: Seq<Option<EntryMeta>>,
    n: int,
    keep: spec_fn(Option<EntryMeta>) -> bool,
    directory_size: bool,
    byte_size: bool,
)
    requires
        0 <= n < raws.len(),
    ensures
        listed_rows(raws.take(n + 1), keep, directory_size, byte_size) == if keep(raws[n]) {
            listed_rows(raws.take(n), keep, directory_size, byte_size).push(
                entry_of(raws[n]->0, directory_size, byte_size),
            )
        } else {
            listed_rows(raws.take(n), keep, directory_size, byte_size)
        },
{
    let f = |raw: Option<EntryMeta>| entry_of(raw->0, directory_size, byte_size);
    assert(raws.take(n + 1) =~= raws.take(n).push(raws[n]));
    raws.take(n).lemma_filter_push(raws[n], keep);
    if keep(raws[n]) {
        raws.take(n).filter(keep).lemma_push_map_commute(f, raws[n]);
    }
}

/// A listing made of directory rows followed by file rows has its
/// directories first.
proof fn lemma_assembled_directories_first(
    raws: Seq<Option<EntryMeta>>,
    directory_size: bool,
    byte_size: bool,
)
    ensures
        directories_first(assembled(raws, directory_size, byte_size)),
{
    let dir_pred = |raw: Option<EntryMeta>| is_listed_dir(raw);
    let file_pred = |raw: Option<EntryMeta>| is_listed_file(raw);
    let dirs = listed_dirs(raws, directory_size, byte_size);
    let files = listed_files(raws, directory_size, byte_size);
    let rows = assembled(raws, directory_size, byte_size);
    assert forall|i: int| 0 <= i < dirs.len() implies (#[trigger] dirs[i]).e_type
        == EntryType::Dir by {
        raws.lemma_filter_pred(dir_pred, i);
    }
    assert forall|j: int| 0 <= j < files.len() implies (#[trigger] files[j]).e_type
        == EntryType::File by {
        raws.lemma_filter_pred(file_pred, j);
    }
    assert forall|i: int, j: int|
        0 <= i < rows.len() && 0 <= j < rows.len() && (#[trigger] rows[i]).e_type
            == EntryType::Dir && (#[trigger] rows[j]).e_type == EntryType::File implies i
        < j by {
        if i >= dirs.len() {
            assert(rows[i] == files[i - dirs.len()]);
        }
        if j < dirs.len() {
            assert(rows[j] == dirs[j]);
        }
    }
}

/// Every assembled listing has all its directory rows before all its
/// file rows.
pub proof fn lemma_directories_before_files(
    raws: Seq<Option<EntryMeta>>,
    directory_size: bool,
    byte_size: bool,
    i: int,
    j: int,
)
    requires
        0 <= i < assembled(raws, directory_size, byte_size).len(),
        0 <= j < assembled(raws, directory_size, byte_size).len(),
        assembled(raws, directory_size, byte_size)[i].e_type == EntryType::Dir,
        assembled(raws, directory_size, byte_size)[j].e_type == EntryType::File,
    ensures
        i < j,
{
    lemma_assembled_directories_first(raws, directory_size, byte_size);
}

/// A row is shown exactly when it is in the listing and the mode shows
/// it.
pub proof fn lemma_visible_contains(rows: Seq<EntryView>, mode: Visibility, row: EntryView)
    ensures
        visible(rows, mode).contains(row) <==> rows.contains(row) && shows(mode, row),
{
    let pred = |r: EntryView| shows(mode, r);
    if visible(rows, mode).contains(row) {
        let k = choose|k: int| 0 <= k < rows.filter(pred).len() && rows.filter(pred)[k] == row;
        rows.lemma_filter_pred(pred, k);
        rows.lemma_filter_contains_rev(pred, row);
    }
    if rows.contains(row) && shows(mode, row) {
        let k = choose|k: int| 0 <= k < rows.len() && rows[k] == row;
        rows.lemma_filter_contains(pred, k);
    }
}

/// The show-all mode passes a listing through unchanged.
pub proof fn lemma_show_all_passes_through(rows: Seq<EntryView>)
    ensures
        visible(rows, Visibility::ShowAll) == rows,
    decreases rows.len(),
{
    reveal(Seq::filter);
    if rows.len() > 0 {
        lemma_show_all_passes_through(rows.drop_last());
        assert(rows.drop_last().push(rows.last()) =~= rows);
    }
}

/// The default mode leaves out exactly the hidden rows whose name is not
/// on the always-shown list; a row with such a name is shown by the
/// default mode and by the show-all mode whatever its hidden flag says.
pub proof fn lemma_default_visibility(rows: Seq<EntryView>, row: EntryView)
    ensures
        visible(rows, Visibility::Default).contains(row) <==> rows.contains(row) && !(row.hidden
            && !is_special_name(row.name)),
        rows.contains(row) && is_special_name(row.name) ==> visible(
            rows,
            Visibility::Default,
        ).contains(row) && visible(rows, Visibility::ShowAll).contains(row),
{
    lemma_visible_contains(rows, Visibility::Default, row);
    lemma_visible_contains(rows, Visibility::ShowAll, row);
}

/// What the hidden-only mode shows is shown by the show-all mode too,
/// and of it the default mode shows nothing but always-shown names.
pub proof fn lemma_hidden_only_visibility(rows: Seq<EntryView>, row: EntryView)
    requires
        visible(rows, Visibility::HiddenOnly).contains(row),
    ensures
        visible(rows, Visibility::ShowAll).contains(row),
        visible(rows, Visibility::Default).contains(row) ==> is_special_name(row.name),
{
    lemma_visible_contains(rows, Visibility::HiddenOnly, row);
    lemma_visible_contains(rows, Visibility::ShowAll, row);
    lemma_visible_contains(rows, Visibility::Default, row);
}

/// `acc` with `x` added at the end if `x` passes.
spec fn kept<A>(acc: Seq<A>, x: A, pred: spec_fn(A) -> bool) -> Seq<A> {
    if pred(x) {
        acc.push(x)
    } else {
        acc
    }
}

/// The filter of three elements keeps, in their order, those that pass.
proof fn lemma_filter_three<A>(s: Seq<A>, pred: spec_fn(A) -> bool)
    requires
        s.len() == 3,
    ensures
        s.filter(pred) == kept(kept(kept(Seq::empty(), s[0], pred), s[1], pred), s[2], pred),
{
    let none = Seq::<A>::empty();
    let one = none.push(s[0]);
    let two = one.push(s[1]);
    assert(none.filter(pred) == none) by {
        reveal(Seq::filter);
    }
    none.lemma_filter_push(s[0], pred);
    one.lemma_filter_push(s[1], pred);
    two.lemma_filter_push(s[2], pred);
    assert(two.push(s[2]) =~= s);
}

/// The filter of three elements of which one or two pass.
proof fn lemma_filter_three_cases<A>(s: Seq<A>, pred: spec_fn(A) -> bool)
    requires
        s.len() == 3,
    ensures
        pred(s[0]) && pred(s[1]) && !pred(s[2]) ==> s.filter(pred) == seq![s[0], s[1]],
        pred(s[0]) && !pred(s[1]) && pred(s[2]) ==> s.filter(pred) == seq![s[0], s[2]],
        !pred(s[0]) && pred(s[1]) && pred(s[2]) ==> s.filter(pred) == seq![s[1], s[2]],
        pred(s[0]) && !pred(s[1]) && !pred(s[2]) ==> s.filter(pred) == seq![s[0]],
        !pred(s[0]) && pred(s[1]) && !pred(s[2]) ==> s.filter(pred) == seq![s[1]],
        !pred(s[0]) && !pred(s[1]) && pred(s[2]) ==> s.filter(pred) == seq![s[2]],
{
    lemma_filter_three(s, pred);
    let none = Seq::<A>::empty();
    if pred(s[0]) && pred(s[1]) && !pred(s[2]) {
        assert(none.push(s[0]).push(s[1]) =~= seq![s[0], s[1]]);
    } else if pred(s[0]) && !pred(s[1]) && pred(s[2]) {
        assert(none.push(s[0]).push(s[2]) =~= seq![s[0], s[2]]);
    } else if !pred(s[0]) && pred(s[1]) && pred(s[2]) {
        assert(none.push(s[1]).push(s[2]) =~= seq![s[1], s[2]]);
    } else if pred(s[0]) && !pred(s[1]) && !pred(s[2]) {
        assert(none.push(s[0]) =~= seq![s[0]]);
    } else if !pred(s[0]) && pred(s[1]) && !pred(s[2]) {
        assert(none.push(s[1]) =~= seq![s[1]]);
    } else if !pred(s[0]) && !pred(s[1]) && pred(s[2]) {
        assert(none.push(s[2]) =~= seq![s[2]]);
    }
}

/// Of three elements at the distinct positions `d`, `f` and `s`, the
/// filter that only the first passes keeps it alone, and the filter that
/// the two others pass keeps them in the order of their positions.
proof fn lemma_split_three<A>(
    all: Seq<A>,
    d: int,
    f: int,
    s: int,
    first: spec_fn(A) -> bool,
    others: spec_fn(A) -> bool,
)
    requires
        all.len() == 3,
        0 <= d < 3 && 0 <= f < 3 && 0 <= s < 3,
        d != f && f != s && d != s,
        first(all[d]) && !first(all[f]) && !first(all[s]),
        !others(all[d]) && others(all[f]) && others(all[s]),
    ensures
        all.filter(first) == seq![all[d]],
        f < s ==> all.filter(others) == seq![all[f], all[s]],
        s < f ==> all.filter(others) == seq![all[s], all[f]],
{
    lemma_filter_three_cases(all, first);
    lemma_filter_three_cases(all, others);
}

/// Of three elements at the distinct positions `d`, `f` and `s`, of
/// which `first` picks the one at `d` and `others` the two others: the
/// images of what `first` picks, followed by the images of what `others`
/// picks, are the image of the one and then the images of the two in the
/// order of their positions.
proof fn lemma_partition_three<A, B>(
    all: Seq<A>,
    d: int,
    f: int,
    s: int,
    first: spec_fn(A) -> bool,
    others: spec_fn(A) -> bool,
    image: spec_fn(A) -> B,
)
    requires
        all.len() == 3,
        0 <= d < 3 && 0 <= f < 3 && 0 <= s < 3,
        d != f && f != s && d != s,
        first(all[d]) && !first(all[f]) && !first(all[s]),
        !others(all[d]) && others(all[f]) && others(all[s]),
    ensures
        f < s ==> all.filter(first).map_values(image) + all.filter(others).map_values(image)
            == seq![image(all[d]), image(all[f]), image(all[s])],
        s < f ==> all.filter(first).map_values(image) + all.filter(others).map_values(image)
            == seq![image(all[d]), image(all[s]), image(all[f])],
{
    lemma_split_three(all, d, f, s, first, others);
    let ones = all.filter(first).map_values(image);
    let twos = all.filter(others).map_values(image);
    assert(ones =~= seq![image(all[d])]);
    if f < s {
        assert(twos =~= seq![image(all[f]), image(all[s])]);
        assert(ones + twos =~= seq![image(all[d]), image(all[f]), image(all[s])]);
    } else {
        assert(twos =~= seq![image(all[s]), image(all[f])]);
        assert(ones + twos =~= seq![image(all[d]), image(all[s]), image(all[f])]);
    }
}

/// A directory that holds one directory and two files, enumerated in any
/// order at the positions `d`, `f` and `s`, is listed with the directory
/// first and then the two files in the order of their enumeration.
proof fn lemma_assembled_three(
    raws: Seq<Option<EntryMeta>>,
    d: int,
    f: int,
    s: int,
    directory_size: bool,
    byte_size: bool,
)
    requires
        raws.len() == 3,
        0 <= d < 3 && 0 <= f < 3 && 0 <= s < 3,
        d != f && f != s && d != s,
        is_listed_dir(raws[d]) && is_listed_file(raws[f]) && is_listed_file(raws[s]),
    ensures
        assembled(raws, directory_size, byte_size).len() == 3,
        assembled(raws, directory_size, byte_size)[0] == entry_of(
            raws[d]->0,
            directory_size,
            byte_size,
        ),
        assembled(raws, directory_size, byte_size)[1] == entry_of(
            raws[if f < s {
                f
            } else {
                s
            }]->0,
            directory_size,
            byte_size,
        ),
        assembled(raws, directory_size, byte_size)[2] == entry_of(
            raws[if f < s {
                s
            } else {
                f
            }]->0,
            directory_size,
            byte_size,
        ),
{
    lemma_partition_three(
        raws,
        d,
        f,
        s,
        |raw: Option<EntryMeta>| is_listed_dir(raw),
        |raw: Option<EntryMeta>| is_listed_file(raw),
        |raw: Option<EntryMeta>| entry_of(raw->0, directory_size, byte_size),
    );
}

/// Of three rows, what a mode shows where it shows one or two of them.
proof fn lemma_visible_three(rows: Seq<EntryView>, mode: Visibility)
    requires
        rows.len() == 3,
    ensures
        shows(mode, rows[0]) && shows(mode, rows[1]) && !shows(mode, rows[2]) ==> visible(
            rows,
            mode,
        ).len() == 2 && visible(rows, mode)[0] == rows[0] && visible(rows, mode)[1] == rows[1],
        shows(mode, rows[0]) && !shows(mode, rows[1]) && shows(mode, rows[2]) ==> visible(
            rows,
            mode,
        ).len() == 2 && visible(rows, mode)[0] == rows[0] && visible(rows, mode)[1] == rows[2],
        !shows(mode, rows[0]) && shows(mode, rows[1]) && !shows(mode, rows[2]) ==> visible(
            rows,
            mode,
        ).len() == 1 && visible(rows, mode)[0] == rows[1],
        !shows(mode, rows[0]) && !shows(mode, rows[1]) && shows(mode, rows[2]) ==> visible(
            rows,
            mode,
        ).len() == 1 && visible(rows, mode)[0] == rows[2],
{
    lemma_filter_three_cases(rows, |row: EntryView| shows(mode, row));
}

/// A hidden row never carries a name of the always-shown list.
proof fn lemma_hidden_row_is_not_special(meta: EntryMeta, directory_size: bool, byte_size: bool)
    ensures
        entry_of(meta, directory_size, byte_size).hidden ==> !is_special_name(
            entry_of(meta, directory_size, byte_size).name,
        ),
{
}

/// A directory that holds one directory, one file that is not hidden and
/// one hidden file, enumerated in any order at the positions `d`, `f`
/// and `s`: the default mode shows the directory and then the file, the
/// hidden-only mode shows the hidden file alone, and the show-all mode
/// shows the directory first and then the two files in the order of
/// their enumeration.
pub proof fn lemma_one_of_each(
    raws: Seq<Option<EntryMeta>>,
    d: int,
    f: int,
    s: int,
    directory_size: bool,
    byte_size: bool,
)
    requires
        raws.len() == 3,
        0 <= d < 3 && 0 <= f < 3 && 0 <= s < 3,
        d != f && f != s && d != s,
        is_listed_dir(raws[d]) && is_listed_file(raws[f]) && is_listed_file(raws[s]),
        !entry_of(raws[d]->0, directory_size, byte_size).hidden,
        !entry_of(raws[f]->0, directory_size, byte_size).hidden,
        entry_of(raws[s]->0, directory_size, byte_size).hidden,
    ensures
        ({
            let dir = entry_of(raws[d]->0, directory_size, byte_size);
            let file = entry_of(raws[f]->0, directory_size, byte_size);
            let secret = entry_of(raws[s]->0, directory_size, byte_size);
            let shown = visible(assembled(raws, directory_size, byte_size), Visibility::Default);
            let hidden = visible(
                assembled(raws, directory_size, byte_size),
                Visibility::HiddenOnly,
            );
            let all = visible(assembled(raws, directory_size, byte_size), Visibility::ShowAll);
            &&& shown.len() == 2 && shown[0] == dir && shown[1] == file
            &&& hidden.len() == 1 && hidden[0] == secret
            &&& all.len() == 3 && all[0] == dir
            &&& f < s ==> all[1] == file && all[2] == secret
            &&& s < f ==> all[1] == secret && all[2] == file
        }),
{
    let rows = assembled(raws, directory_size, byte_size);
    lemma_assembled_three(raws, d, f, s, directory_size, byte_size);
    lemma_hidden_row_is_not_special(raws[s]->0, directory_size, byte_size);
    lemma_visible_three(rows, Visibility::Default);
    lemma_visible_three(rows, Visibility::HiddenOnly);
    lemma_show_all_passes_through(rows);
}

/// Files a directory entry among the directories of the listing: a
/// directory is inserted at the running directory index, which then
/// advances; anything else leaves the listing as it is.
pub fn map_dir_data(
    meta: &EntryMeta,
    data: &mut Vec<FileEntry>,
    dir_index: &mut usize,
    directory_size: bool,
    byte_size: bool,
)
    requires
        *old(dir_index) <= old(data).len(),
    ensures
        meta.is_dir ==> views(final(data)@) == views(old(data)@).insert(
            *old(dir_index) as int,
            entry_of(*meta, directory_size, byte_size),
        ) && *final(dir_index) == *old(dir_index) + 1,
        !meta.is_dir ==> *final(data) == *old(data) && *final(dir_index) == *old(dir_index),
{
    if meta.is_dir {
        let entry = entry_from_meta(meta, directory_size, byte_size);
        data.insert(*dir_index, entry);
        assert(views(data@) =~= views(old(data)@).insert(
            *old(dir_index) as int,
            entry_of(*meta, directory_size, byte_size),
        ));
        assert(data.len() == old(data).len() + 1);
        *dir_index = *dir_index + 1;
    }
}

/// Files a directory entry among the files of the listing: anything but
/// a directory is appended at the end.
pub fn map_file_data(meta: &EntryMeta, data: &mut Vec<FileEntry>, byte_size: bool)
    ensures
        !meta.is_dir ==> views(final(data)@) == views(old(data)@).push(
            entry_of(*meta, false, byte_size),
        ),
        meta.is_dir ==> *final(data) == *old(data),
{
    if !meta.is_dir {
        let entry = entry_from_meta(meta, false, byte_size);
        data.push(entry);
        assert(views(data@) =~= views(old(data)@).push(entry_of(*meta, false, byte_size)));
    }
}

/// Files one directory entry: a directory at the running directory
/// index, anything else at the end.
pub fn map_data(
    meta: &EntryMeta,
    data: &mut Vec<FileEntry>,
    dir_index: &mut usize,
    directory_size: bool,
    byte_size: bool,
)
    requires
        *old(dir_index) <= old(data).len(),
    ensures
        meta.is_dir ==> views(final(data)@) == views(old(data)@).insert(
            *old(dir_index) as int,
            entry_of(*meta, directory_size, byte_size),
        ) && *final(dir_index) == *old(dir_index) + 1,
        !meta.is_dir ==> views(final(data)@) == views(old(data)@).push(
            entry_of(*meta, directory_size, byte_size),
        ) && *final(dir_index) == *old(dir_index),
{
    map_dir_data(meta, data, dir_index, directory_size, byte_size);
    map_file_data(meta, data, byte_size);
}

/// Assembles the listing of a directory from what reading it gave:
/// directories first, each group in enumeration order, unreadable
/// entries left out, and nothing at all where the directory could not be
/// opened.
pub fn get_files(dir: &Option<Vec<Option<EntryMeta>>>, directory_size: bool, byte_size: bool) -> (data:
    Vec<FileEntry>)
    ensures
        views(data@) == assembled(read_entries(*dir), directory_size, byte_size),
        directories_first(views(data@)),
{
    let mut data: Vec<FileEntry> = Vec::new();
    let ghost dir_pred = |raw: Option<EntryMeta>| is_listed_dir(raw);
    let ghost file_pred = |raw: Option<EntryMeta>| is_listed_file(raw);
    proof {
        reveal(Seq::filter);
        assert(views(data@) =~= assembled(read_entries(None), directory_size, byte_size));
    }
    if let Some(raws) = dir {
        let mut dir_index: usize = 0;
        let mut n: usize = 0;
        proof {
            assert(raws@.take(0).filter(dir_pred) =~= Seq::empty());
            assert(raws@.take(0).filter(file_pred) =~= Seq::empty());
            assert(views(data@) =~= assembled(raws@.take(0), directory_size, byte_size));
        }
        while n < raws.len()
            invariant
                n <= raws.len(),
                dir_index == listed_dirs(raws@.take(n as int), directory_size, byte_size).len(),
                views(data@) == assembled(raws@.take(n as int), directory_size, byte_size),
            decreases raws.len() - n,
        {
            proof {
                lemma_listed_rows_step(
                    raws@,
                    n as int,
                    |raw: Option<EntryMeta>| is_listed_dir(raw),
                    directory_size,
                    byte_size,
                );
                lemma_listed_rows_step(
                    raws@,
                    n as int,
                    |raw: Option<EntryMeta>| is_listed_file(raw),
                    directory_size,
                    byte_size,
                );
            }
            let ghost before = views(data@);
            let ghost dirs = listed_dirs(raws@.take(n as int), directory_size, byte_size);
            let ghost files = listed_files(raws@.take(n as int), directory_size, byte_size);
            assert(before.len() == data@.len());
            if let Some(meta) = &raws[n] {
                map_data(meta, &mut data, &mut dir_index, directory_size, byte_size);
                proof {
                    let row = entry_of(*meta, directory_size, byte_size);
                    if meta.is_dir {
                        assert(before.insert(dirs.len() as int, row) =~= dirs.push(row) + files);
                    } else {
                        assert(before.push(row) =~= dirs + files.push(row));
                    }
                }
            }
            n = n + 1;
        }
        proof {
            assert(raws@.take(n as int) =~= raws@);
        }
    }
    proof {
        lemma_assembled_directories_first(read_entries(*dir), directory_size, byte_size);
    }
    data
}

/// Keeps the rows that `mode` shows, in their order.
pub fn retain_visible<I>(data: I, mode: Visibility) -> (res: Vec<FileEntry>) where
    I: Iterator<Item = FileEntry>,

    requires
        data.obeys_prophetic_iter_laws(),
        data.decrease() is Some,
    ensures
        views(res@) == visible(views(data.remaining()), mode),
{
    let ghost all = data.remaining();
    let ghost mut n: int = 0;
    let mut data = data;
    let mut res: Vec<FileEntry> = Vec::new();
    proof {
        assert(visible(views(all.take(0)), mode) =~= Seq::empty()) by {
            reveal(Seq::filter);
        }
    }
    loop
        invariant
            data.obeys_prophetic_iter_laws(),
            data.decrease() is Some,
            0 <= n <= all.len(),
            data.remaining() == all.skip(n),
            views(res@) == visible(views(all.take(n)), mode),
        ensures
            views(res@) == visible(views(all), mode),
        decreases data.decrease()->0,
    {
        match data.next() {
            Some(entry) => {
                let keep = match mode {
                    Visibility::ShowAll => true,
                    Visibility::HiddenOnly => entry.hidden,
                    Visibility::Default => !entry.hidden || is_special_file(entry.name.as_str()),
                };
                proof {
                    assert(entry == all[n]);
                    assert(all.skip(n).drop_first() =~= all.skip(n + 1));
                    assert(all.take(n + 1) =~= all.take(n).push(all[n]));
                    assert(views(all.take(n + 1)) =~= views(all.take(n)).push(entry@));
                    views(all.take(n)).lemma_filter_push(entry@, |row: EntryView| shows(mode, row));
                }
                if keep {
                    res.push(entry);
                    assert(views(res@) =~= visible(views(all.take(n)), mode).push(entry@));
                }
                proof {
                    n = n + 1;
                }
            },
            None => {
                assert(all.take(n) =~= all);
                break ;
            },
        }
    }
    res
}

/// Leaves out the hidden rows, keeping the always-shown names.
pub fn leave_hidden<I>(data: I) -> (res: Vec<FileEntry>) where I: Iterator<Item = FileEntry>
    requires
        data.obeys_prophetic_iter_laws(),
        data.decrease() is Some,
    ensures
        views(res@) == visible(views(data.remaining()), Visibility::Default),
{
    retain_visible(data, Visibility::Default)
}

/// Keeps only the hidden rows.
pub fn only_hidden<I>(data: I) -> (res: Vec<FileEntry>) where I: Iterator<Item = FileEntry>
    requires
        data.obeys_prophetic_iter_laws(),
        data.decrease() is Some,
    ensures
        views(res@) == visible(views(data.remaining()), Visibility::HiddenOnly),
{
    retain_visible(data, Visibility::HiddenOnly)
}

/// Assembles the listing of a directory and filters it by the mode that
/// the two flags select. A listing that shows nothing is an error.
pub fn get_data(
    dir: &Option<Vec<Option<EntryMeta>>>,
    all: bool,
    hiddenonly: bool,
    directory_size: bool,
    byte_size: bool,
) -> (result: Result<Vec<FileEntry>, String>)
    ensures
        ({
            let rows = visible(
                assembled(read_entries(*dir), directory_size, byte_size),
                mode_of(all, hiddenonly),
            );
            match result {
                Ok(shown) => rows.len() > 0 && views(shown@) == rows,
                Err(message) => rows.len() == 0 && message@ == no_entries_message(),
            }
        }),
{
    let mut get_files = get_files(dir, directory_size, byte_size);
    proof {
        lemma_show_all_passes_through(views(get_files@));
    }
    if hiddenonly {
        get_files = only_hidden(get_files.into_iter());
    } else if !all {
        get_files = leave_hidden(get_files.into_iter());
    }
    assert(views(get_files@).len() == get_files@.len());
    if get_files.len() == 0 {
        return Err(String::from_str("No Files or Directories found!"));
    }
    Ok(get_files)
}

/// The row of a single path. A path whose metadata could not be read, or
/// that has no name of its own, is not found.
pub fn getting_file_info(meta: &Option<EntryMeta>) -> (result: Result<Vec<FileEntry>, String>)
    ensures
        match result {
            Ok(rows) => info_found(*meta) && views(rows@) == seq![
                entry_of(meta->0, false, false),
            ],
            Err(message) => !info_found(*meta) && message@ == not_found_message(),
        },
{
    if let Some(m) = meta {
        if m.name.is_some() {
            let mut res: Vec<FileEntry> = Vec::new();
            res.push(entry_from_meta(m, false, false));
            assert(views(res@) =~= seq![entry_of(*m, false, false)]);
            return Ok(res);
        }
    }
    Err(String::from_str("No such file found"))
}

} // verus!
