use vstd::multiset::{lemma_multiset_empty_len, Multiset};
use vstd::prelude::*;
use vstd::seq_lib::{to_multiset_build, to_multiset_insert, to_multiset_len};

use sqlx::types::Uuid;

use crate::errors::AppError;
use crate::ids::{is_uuid_text, read_uuid};
use crate::spotify::{find_image, first_fit, item_uri, item_url, Image, SpotifyItem};
use crate::text::{compare_text, lemma_text_cmp_antisymmetric, text_cmp, text_eq};

verus! {

/// The kind of a streaming-service item that an entry plays.
#[derive(Debug, Clone, Copy, PartialEq, Eq, Structural)]
pub enum EntryType {
    Album,
    Playlist,
}

/// The entry type that a name stands for.
pub open spec fn entry_type_named(s: Seq<char>) -> Option<EntryType> {
    if s == "album"@ {
        Some(EntryType::Album)
    } else if s == "playlist"@ {
        Some(EntryType::Playlist)
    } else {
        None
    }
}

pub open spec fn entry_type_name(t: EntryType) -> Seq<char> {
    match t {
        EntryType::Album => "album"@,
        EntryType::Playlist => "playlist"@,
    }
}

impl EntryType {
    /// The type's name, as forms send it and the database stores it.
    pub fn as_str(&self) -> (r: &'static str)
        ensures
            r@ == entry_type_name(*self),
    {
        match self {
            EntryType::Album => "album",
            EntryType::Playlist => "playlist",
        }
    }

    /// The entry type named `s`; any other name is an error.
    pub fn from_str(s: &str) -> (r: Result<EntryType, AppError>)
        ensures
            r == match entry_type_named(s@) {
                Some(t) => Ok(t),
                None => Err(AppError::StrumError),
            },
    {
        if text_eq(s, "album") {
            Ok(EntryType::Album)
        } else if text_eq(s, "playlist") {
            Ok(EntryType::Playlist)
        } else {
            Err(AppError::StrumError)
        }
    }
}

/// Reading back the name of an entry type gives the type.
pub proof fn lemma_entry_type_name_round_trip(t: EntryType)
    ensures
        entry_type_named(entry_type_name(t)) == Some(t),
{
    reveal_strlit("album");
    reveal_strlit("playlist");
    assert("album"@.len() != "playlist"@.len());
}

/// An entry as the lists show it.
#[derive(Debug, Clone, PartialEq, Eq, PartialOrd, Ord)]
pub struct EntryListModel {
    pub id: String,
    pub name: String,
    pub image_url: String,
    pub visible: bool,
    pub play_count: i16,
}

/// A category with its entries, as the admin list shows it.
#[derive(Debug, Clone, PartialEq, Eq, PartialOrd, Ord)]
pub struct CategoryListModel {
    pub name: String,
    pub entries: Vec<EntryListModel>,
}

/// One row of entries joined to their categories; an entry without a category
/// has neither a category id nor a category name.
#[derive(Debug, Clone)]
pub struct EntryRow {
    pub entry_id: String,
    pub entry_name: String,
    pub entry_image_url: String,
    pub entry_visible: bool,
    pub entry_play_count: i16,
    pub category_id: Option<String>,
    pub category_name: Option<String>,
}

/// What a category list model holds: its name and its entries.
pub type GroupView = (Seq<char>, Seq<EntryListModel>);

pub open spec fn group_view(c: CategoryListModel) -> GroupView {
    (c.name@, c.entries@)
}

pub open spec fn key_view(k: Option<String>) -> Option<Seq<char>> {
    match k {
        Some(s) => Some(s@),
        None => None,
    }
}

/// The category that a row belongs to.
pub open spec fn key_of(r: EntryRow) -> Option<Seq<char>> {
    key_view(r.category_id)
}

/// The name of a row's category; a row without one gets the empty name.
pub open spec fn name_of(r: EntryRow) -> Seq<char> {
    match r.category_name {
        Some(n) => n@,
        None => Seq::empty(),
    }
}

pub open spec fn entry_of(r: EntryRow) -> EntryListModel {
    EntryListModel {
        id: r.entry_id,
        name: r.entry_name,
        image_url: r.entry_image_url,
        visible: r.entry_visible,
        play_count: r.entry_play_count,
    }
}

pub open spec fn has_key(gs: Seq<(Option<Seq<char>>, Seq<char>)>, k: Option<Seq<char>>) -> bool {
    exists|j: int| 0 <= j < gs.len() && gs[j].0 == k
}

/// Each category of the rows once, in the order of its first row, with the
/// name that its first row gives it.
pub open spec fn first_groups(rows: Seq<EntryRow>) -> Seq<(Option<Seq<char>>, Seq<char>)>
    decreases rows.len(),
{
    if rows.len() == 0 {
        Seq::empty()
    } else {
        let prev = first_groups(rows.drop_last());
        let r = rows.last();
        if has_key(prev, key_of(r)) {
            prev
        } else {
            prev.push((key_of(r), name_of(r)))
        }
    }
}

/// The entries of the rows that belong to category `k`, in row order.
pub open spec fn entries_with_key(rows: Seq<EntryRow>, k: Option<Seq<char>>) -> Seq<EntryListModel>
    decreases rows.len(),
{
    if rows.len() == 0 {
        Seq::empty()
    } else {
        let prev = entries_with_key(rows.drop_last(), k);
        if key_of(rows.last()) == k {
            prev.push(entry_of(rows.last()))
        } else {
            prev
        }
    }
}

/// The rows grouped by category: one group per category, named as its first
/// row names it, holding the entries of its rows in row order.
pub open spec fn grouped(rows: Seq<EntryRow>) -> Seq<GroupView> {
    first_groups(rows).map_values(
        |g: (Option<Seq<char>>, Seq<char>)| (g.1, entries_with_key(rows, g.0)),
    )
}

/// How many entries the groups hold together.
pub open spec fn total_entries(gs: Seq<GroupView>) -> int
    decreases gs.len(),
{
    if gs.len() == 0 {
        0
    } else {
        total_entries(gs.drop_last()) + gs.last().1.len()
    }
}

/// How many entries the rows give the categories `ks` together.
pub open spec fn keyed_total(ks: Seq<(Option<Seq<char>>, Seq<char>)>, rows: Seq<EntryRow>) -> int
    decreases ks.len(),
{
    if ks.len() == 0 {
        0
    } else {
        keyed_total(ks.drop_last(), rows) + entries_with_key(rows, ks.last().0).len()
    }
}

/// How many of `ks` are category `k`.
pub open spec fn key_count(ks: Seq<(Option<Seq<char>>, Seq<char>)>, k: Option<Seq<char>>) -> int
    decreases ks.len(),
{
    if ks.len() == 0 {
        0
    } else {
        key_count(ks.drop_last(), k) + if ks.last().0 == k {
            1int
        } else {
            0int
        }
    }
}

pub open spec fn distinct_keys(ks: Seq<(Option<Seq<char>>, Seq<char>)>) -> bool {
    forall|i: int, j: int| 0 <= i < j < ks.len() ==> #[trigger] ks[i].0 != #[trigger] ks[j].0
}

proof fn lemma_first_groups_distinct(rows: Seq<EntryRow>)
    ensures
        distinct_keys(first_groups(rows)),
    decreases rows.len(),
{
    if rows.len() > 0 {
        lemma_first_groups_distinct(rows.drop_last());
    }
}

proof fn lemma_first_groups_grow(rows: Seq<EntryRow>, k: Option<Seq<char>>)
    requires
        rows.len() > 0,
        has_key(first_groups(rows.drop_last()), k),
    ensures
        has_key(first_groups(rows), k),
{
    let prev = first_groups(rows.drop_last());
    let j = choose|j: int| 0 <= j < prev.len() && prev[j].0 == k;
    assert(first_groups(rows)[j] == prev[j]);
}

proof fn lemma_unseen_key_has_no_entries(rows: Seq<EntryRow>, k: Option<Seq<char>>)
    requires
        !has_key(first_groups(rows), k),
    ensures
        entries_with_key(rows, k).len() == 0,
    decreases rows.len(),
{
    if rows.len() > 0 {
        let prev = first_groups(rows.drop_last());
        if key_of(rows.last()) == k {
            if !has_key(prev, k) {
                assert(first_groups(rows)[prev.len() as int].0 == k);
            }
            assert(has_key(first_groups(rows), k));
        }
        if has_key(prev, k) {
            lemma_first_groups_grow(rows, k);
        }
        lemma_unseen_key_has_no_entries(rows.drop_last(), k);
    }
}

proof fn lemma_keyed_total_step(ks: Seq<(Option<Seq<char>>, Seq<char>)>, rows: Seq<EntryRow>)
    requires
        rows.len() > 0,
    ensures
        keyed_total(ks, rows) == keyed_total(ks, rows.drop_last()) + key_count(
            ks,
            key_of(rows.last()),
        ),
    decreases ks.len(),
{
    if ks.len() > 0 {
        lemma_keyed_total_step(ks.drop_last(), rows);
    }
}

proof fn lemma_key_count_distinct(ks: Seq<(Option<Seq<char>>, Seq<char>)>, k: Option<Seq<char>>)
    requires
        distinct_keys(ks),
    ensures
        key_count(ks, k) == if has_key(ks, k) {
            1int
        } else {
            0int
        },
    decreases ks.len(),
{
    if ks.len() > 0 {
        let init = ks.drop_last();
        assert(distinct_keys(init)) by {
            assert forall|i: int, j: int| 0 <= i < j < init.len() implies #[trigger] init[i].0
                != #[trigger] init[j].0 by {
                assert(init[i] == ks[i] && init[j] == ks[j]);
            }
        }
        lemma_key_count_distinct(init, k);
        if ks.last().0 == k {
            assert(has_key(ks, k));
            assert(!has_key(init, k)) by {
                if has_key(init, k) {
                    let j = choose|j: int| 0 <= j < init.len() && init[j].0 == k;
                    assert(ks[j].0 == ks[ks.len() - 1].0);
                }
            }
        } else {
            assert(has_key(ks, k) == has_key(init, k)) by {
                if has_key(ks, k) {
                    let j = choose|j: int| 0 <= j < ks.len() && ks[j].0 == k;
                    assert(init[j] == ks[j]);
                }
                if has_key(init, k) {
                    let j = choose|j: int| 0 <= j < init.len() && init[j].0 == k;
                    assert(init[j] == ks[j]);
                }
            }
        }
    }
}

proof fn lemma_total_is_keyed_total(ks: Seq<(Option<Seq<char>>, Seq<char>)>, rows: Seq<EntryRow>)
    ensures
        total_entries(
            ks.map_values(
                |g: (Option<Seq<char>>, Seq<char>)| (g.1, entries_with_key(rows, g.0)),
            ),
        ) == keyed_total(ks, rows),
    decreases ks.len(),
{
    let f = |g: (Option<Seq<char>>, Seq<char>)| (g.1, entries_with_key(rows, g.0));
    if ks.len() > 0 {
        assert(ks.map_values(f).drop_last() =~= ks.drop_last().map_values(f));
        lemma_total_is_keyed_total(ks.drop_last(), rows);
    }
}

proof fn lemma_first_groups_total(rows: Seq<EntryRow>)
    ensures
        keyed_total(first_groups(rows), rows) == rows.len(),
    decreases rows.len(),
{
    if rows.len() > 0 {
        let init = rows.drop_last();
        let k = key_of(rows.last());
        let prev = first_groups(init);
        lemma_first_groups_total(init);
        lemma_first_groups_distinct(init);
        lemma_keyed_total_step(prev, rows);
        lemma_key_count_distinct(prev, k);
        if !has_key(prev, k) {
            let next = prev.push((k, name_of(rows.last())));
            assert(next.drop_last() =~= prev);
            lemma_unseen_key_has_no_entries(init, k);
        }
    }
}

/// Grouping keeps every row: the groups hold, all together, exactly as many
/// entries as there are rows.
pub proof fn lemma_grouping_keeps_every_row(rows: Seq<EntryRow>)
    ensures
        total_entries(grouped(rows)) == rows.len(),
{
    lemma_total_is_keyed_total(first_groups(rows), rows);
    lemma_first_groups_total(rows);
}

pub open spec fn bool_cmp(a: bool, b: bool) -> int {
    if a == b {
        0
    } else if !a {
        -1
    } else {
        1
    }
}

pub open spec fn int_cmp(a: int, b: int) -> int {
    if a < b {
        -1
    } else if a > b {
        1
    } else {
        0
    }
}

/// The order of entries: by id, name, image, visibility, then play count.
pub open spec fn entry_cmp(a: EntryListModel, b: EntryListModel) -> int {
    let c1 = text_cmp(a.id@, b.id@);
    let c2 = text_cmp(a.name@, b.name@);
    let c3 = text_cmp(a.image_url@, b.image_url@);
    let c4 = bool_cmp(a.visible, b.visible);
    if c1 != 0 {
        c1
    } else if c2 != 0 {
        c2
    } else if c3 != 0 {
        c3
    } else if c4 != 0 {
        c4
    } else {
        int_cmp(a.play_count as int, b.play_count as int)
    }
}

/// Lexicographic order of entry lists.
pub open spec fn entries_cmp(a: Seq<EntryListModel>, b: Seq<EntryListModel>) -> int
    decreases a.len(),
{
    if a.len() == 0 {
        if b.len() == 0 {
            0
        } else {
            -1
        }
    } else if b.len() == 0 {
        1
    } else if entry_cmp(a[0], b[0]) != 0 {
        entry_cmp(a[0], b[0])
    } else {
        entries_cmp(a.drop_first(), b.drop_first())
    }
}

/// The order of categories: by name, then by their entries.
pub open spec fn group_cmp(a: GroupView, b: GroupView) -> int {
    let c = text_cmp(a.0, b.0);
    if c != 0 {
        c
    } else {
        entries_cmp(a.1, b.1)
    }
}

pub proof fn lemma_entry_cmp_antisymmetric(a: EntryListModel, b: EntryListModel)
    ensures
        entry_cmp(a, b) == -entry_cmp(b, a),
        -1 <= entry_cmp(a, b) <= 1,
{
    lemma_text_cmp_antisymmetric(a.id@, b.id@);
    lemma_text_cmp_antisymmetric(a.name@, b.name@);
    lemma_text_cmp_antisymmetric(a.image_url@, b.image_url@);
}

pub proof fn lemma_entries_cmp_antisymmetric(a: Seq<EntryListModel>, b: Seq<EntryListModel>)
    ensures
        entries_cmp(a, b) == -entries_cmp(b, a),
        -1 <= entries_cmp(a, b) <= 1,
    decreases a.len(),
{
    if a.len() > 0 && b.len() > 0 {
        lemma_entry_cmp_antisymmetric(a[0], b[0]);
        lemma_entries_cmp_antisymmetric(a.drop_first(), b.drop_first());
    }
}

pub proof fn lemma_group_cmp_antisymmetric(a: GroupView, b: GroupView)
    ensures
        group_cmp(a, b) == -group_cmp(b, a),
{
    lemma_text_cmp_antisymmetric(a.0, b.0);
    lemma_entries_cmp_antisymmetric(a.1, b.1);
}

/// Whether each category comes no later than the next in `group_cmp` order.
pub open spec fn sorted_groups(s: Seq<GroupView>) -> bool {
    forall|i: int| 0 <= i < s.len() - 1 ==> group_cmp(#[trigger] s[i], s[i + 1]) <= 0
}

pub open spec fn views_of(v: Seq<CategoryListModel>) -> Seq<GroupView> {
    v.map_values(|c: CategoryListModel| group_view(c))
}

fn compare_entry(a: &EntryListModel, b: &EntryListModel) -> (r: i8)
    ensures
        r as int == entry_cmp(*a, *b),
{
    let c = compare_text(a.id.as_str(), b.id.as_str());
    if c != 0 {
        return c;
    }
    let c = compare_text(a.name.as_str(), b.name.as_str());
    if c != 0 {
        return c;
    }
    let c = compare_text(a.image_url.as_str(), b.image_url.as_str());
    if c != 0 {
        return c;
    }
    if a.visible != b.visible {
        return if a.visible {
            1
        } else {
            -1
        };
    }
    if a.play_count < b.play_count {
        -1
    } else if a.play_count > b.play_count {
        1
    } else {
        0
    }
}

fn compare_group(a: &CategoryListModel, b: &CategoryListModel) -> (r: i8)
    ensures
        r as int == group_cmp(group_view(*a), group_view(*b)),
{
    let c = compare_text(a.name.as_str(), b.name.as_str());
    if c != 0 {
        return c;
    }
    let la = a.entries.len();
    let lb = b.entries.len();
    let mut i: usize = 0;
    assert(a.entries@.skip(0) =~= a.entries@);
    assert(b.entries@.skip(0) =~= b.entries@);
    while i < la && i < lb
        invariant
            text_cmp(a.name@, b.name@) == 0,
            la == a.entries@.len(),
            lb == b.entries@.len(),
            i <= la,
            i <= lb,
            entries_cmp(a.entries@, b.entries@) == entries_cmp(
                a.entries@.skip(i as int),
                b.entries@.skip(i as int),
            ),
        decreases la - i,
    {
        assert(a.entries@.skip(i as int)[0] == a.entries@[i as int]);
        assert(b.entries@.skip(i as int)[0] == b.entries@[i as int]);
        let c = compare_entry(&a.entries[i], &b.entries[i]);
        if c != 0 {
            return c;
        }
        assert(a.entries@.skip(i as int).drop_first() =~= a.entries@.skip(i + 1));
        assert(b.entries@.skip(i as int).drop_first() =~= b.entries@.skip(i + 1));
        i = i + 1;
    }
    if i < la {
        1
    } else if i < lb {
        -1
    } else {
        0
    }
}

fn same_key(a: &Option<String>, b: &Option<String>) -> (r: bool)
    ensures
        r == (key_view(*a) == key_view(*b)),
{
    match (a, b) {
        (Some(x), Some(y)) => text_eq(x.as_str(), y.as_str()),
        (None, None) => true,
        _ => false,
    }
}

fn copy_key(k: &Option<String>) -> (r: Option<String>)
    ensures
        r == *k,
{
    match k {
        Some(s) => Some(s.clone()),
        None => None,
    }
}

fn entry_of_row(r: &EntryRow) -> (e: EntryListModel)
    ensures
        e == entry_of(*r),
{
    EntryListModel {
        id: r.entry_id.clone(),
        name: r.entry_name.clone(),
        image_url: r.entry_image_url.clone(),
        visible: r.entry_visible,
        play_count: r.entry_play_count,
    }
}

fn find_key(keys: &Vec<Option<String>>, k: &Option<String>) -> (r: Option<usize>)
    ensures
        match r {
            Some(j) => j < keys@.len() && key_view(keys@[j as int]) == key_view(*k),
            None => forall|t: int| 0 <= t < keys@.len() ==> key_view(#[trigger] keys@[t]) != key_view(*k),
        },
{
    let mut j: usize = 0;
    while j < keys.len()
        invariant
            j <= keys@.len(),
            forall|t: int| 0 <= t < j ==> key_view(#[trigger] keys@[t]) != key_view(*k),
        decreases keys@.len() - j,
    {
        if same_key(&keys[j], k) {
            return Some(j);
        }
        j = j + 1;
    }
    None
}

/// The categories of the rows, each once, in the order of their first row,
/// with the names that those rows give them.
fn first_keys(rows: &Vec<EntryRow>) -> (r: (Vec<Option<String>>, Vec<String>))
    ensures
        r.0@.len() == first_groups(rows@).len(),
        r.1@.len() == first_groups(rows@).len(),
        forall|j: int|
            0 <= j < r.0@.len() ==> key_view(#[trigger] r.0@[j]) == first_groups(rows@)[j].0
                && r.1@[j]@ == first_groups(rows@)[j].1,
{
    let mut keys: Vec<Option<String>> = Vec::new();
    let mut names: Vec<String> = Vec::new();
    let mut i: usize = 0;
    assert(rows@.subrange(0, 0) =~= Seq::<EntryRow>::empty());
    while i < rows.len()
        invariant
            i <= rows@.len(),
            keys@.len() == first_groups(rows@.subrange(0, i as int)).len(),
            names@.len() == keys@.len(),
            forall|j: int|
                0 <= j < keys@.len() ==> key_view(#[trigger] keys@[j]) == first_groups(
                    rows@.subrange(0, i as int),
                )[j].0 && names@[j]@ == first_groups(rows@.subrange(0, i as int))[j].1,
        decreases rows@.len() - i,
    {
        let ghost prefix = rows@.subrange(0, i as int);
        let ghost next = rows@.subrange(0, i + 1);
        assert(next.drop_last() =~= prefix);
        let r = &rows[i];
        match find_key(&keys, &r.category_id) {
            Some(j) => {
                assert(has_key(first_groups(prefix), key_of(*r)));
            },
            None => {
                assert forall|t: int| 0 <= t < first_groups(prefix).len() implies #[trigger] first_groups(
                    prefix,
                )[t].0 != key_of(*r) by {
                    assert(key_view(keys@[t]) != key_of(*r));
                }
                assert(!has_key(first_groups(prefix), key_of(*r)));
                keys.push(copy_key(&r.category_id));
                let name = match &r.category_name {
                    Some(n) => n.clone(),
                    None => String::new(),
                };
                names.push(name);
            },
        }
        i = i + 1;
    }
    assert(rows@.subrange(0, rows@.len() as int) =~= rows@);
    (keys, names)
}

/// The entries of the rows whose category is `k`, in row order.
fn entries_for(rows: &Vec<EntryRow>, k: &Option<String>) -> (es: Vec<EntryListModel>)
    ensures
        es@ == entries_with_key(rows@, key_view(*k)),
{
    let mut es: Vec<EntryListModel> = Vec::new();
    let mut i: usize = 0;
    assert(rows@.subrange(0, 0) =~= Seq::<EntryRow>::empty());
    while i < rows.len()
        invariant
            i <= rows@.len(),
            es@ == entries_with_key(rows@.subrange(0, i as int), key_view(*k)),
        decreases rows@.len() - i,
    {
        assert(rows@.subrange(0, i + 1).drop_last() =~= rows@.subrange(0, i as int));
        if same_key(&rows[i].category_id, k) {
            es.push(entry_of_row(&rows[i]));
        }
        i = i + 1;
    }
    assert(rows@.subrange(0, rows@.len() as int) =~= rows@);
    es
}

/// The rows grouped by category, in the order of each category's first row.
fn group_rows(rows: &Vec<EntryRow>) -> (gs: Vec<CategoryListModel>)
    ensures
        views_of(gs@) == grouped(rows@),
{
    let (keys, names) = first_keys(rows);
    let mut gs: Vec<CategoryListModel> = Vec::new();
    let mut j: usize = 0;
    while j < keys.len()
        invariant
            j <= keys@.len(),
            keys@.len() == first_groups(rows@).len(),
            names@.len() == keys@.len(),
            forall|t: int|
                0 <= t < keys@.len() ==> key_view(#[trigger] keys@[t]) == first_groups(rows@)[t].0
                    && names@[t]@ == first_groups(rows@)[t].1,
            gs@.len() == j,
            forall|t: int| 0 <= t < j ==> group_view(#[trigger] gs@[t]) == grouped(rows@)[t],
        decreases keys@.len() - j,
    {
        let entries = entries_for(rows, &keys[j]);
        gs.push(CategoryListModel { name: names[j].clone(), entries });
        j = j + 1;
    }
    assert(views_of(gs@) =~= grouped(rows@));
    gs
}

/// Puts the categories in `group_cmp` order, keeping each one.
fn sort_groups(v: Vec<CategoryListModel>) -> (out: Vec<CategoryListModel>)
    ensures
        views_of(out@).to_multiset() == views_of(v@).to_multiset(),
        sorted_groups(views_of(out@)),
{
    let ghost orig = v@;
    let mut rest = v;
    let mut out: Vec<CategoryListModel> = Vec::new();
    proof {
        broadcast use vstd::multiset::group_multiset_axioms;

        to_multiset_len(views_of(out@));
        lemma_multiset_empty_len(views_of(out@).to_multiset());
        assert(views_of(out@).to_multiset() =~= Multiset::<GroupView>::empty());
    }
    while rest.len() > 0
        invariant
            views_of(out@).to_multiset().add(views_of(rest@).to_multiset()) == views_of(
                orig,
            ).to_multiset(),
            sorted_groups(views_of(out@)),
        decreases rest@.len(),
    {
        let ghost before = rest@;
        let x = rest.pop().unwrap();
        proof {
            assert(before =~= rest@.push(x));
            assert(views_of(before) =~= views_of(rest@).push(group_view(x)));
            to_multiset_build(views_of(rest@), group_view(x));
        }
        let mut p: usize = 0;
        while p < out.len()
            invariant_except_break
                p <= out@.len(),
                forall|t: int|
                    0 <= t < p ==> group_cmp(group_view(x), group_view(#[trigger] out@[t])) >= 0,
            ensures
                p <= out@.len(),
                forall|t: int|
                    0 <= t < p ==> group_cmp(group_view(x), group_view(#[trigger] out@[t])) >= 0,
                p < out@.len() ==> group_cmp(group_view(x), group_view(out@[p as int])) < 0,
            decreases out@.len() - p,
        {
            if compare_group(&x, &out[p]) < 0 {
                break;
            }
            p = p + 1;
        }
        let ghost old_views = views_of(out@);
        out.insert(p, x);
        proof {
            let nv = views_of(out@);
            assert(nv =~= old_views.insert(p as int, group_view(x)));
            to_multiset_insert(old_views, p as int, group_view(x));
            if p > 0 {
                lemma_group_cmp_antisymmetric(group_view(x), old_views[p - 1]);
            }
            assert forall|i: int| 0 <= i < nv.len() - 1 implies group_cmp(
                #[trigger] nv[i],
                nv[i + 1],
            ) <= 0 by {
                if i + 1 < p {
                    assert(nv[i] == old_views[i] && nv[i + 1] == old_views[i + 1]);
                } else if i + 1 == p {
                    assert(nv[i] == old_views[i] && nv[i + 1] == group_view(x));
                } else if i == p {
                    assert(nv[i] == group_view(x) && nv[i + 1] == old_views[i]);
                } else {
                    assert(nv[i] == old_views[i - 1] && nv[i + 1] == old_views[i]);
                }
            }
        }
    }
    proof {
        broadcast use vstd::multiset::group_multiset_axioms;

        to_multiset_len(views_of(rest@));
        lemma_multiset_empty_len(views_of(rest@).to_multiset());
        assert(views_of(rest@).to_multiset() =~= Multiset::<GroupView>::empty());
        assert(views_of(out@).to_multiset().add(Multiset::<GroupView>::empty()) =~= views_of(
            out@,
        ).to_multiset());
    }
    out
}

/// Groups joined entry rows by category and puts the categories in the order
/// of `CategoryListModel`'s `Ord`: by name, then by their entries. Each
/// category of the rows comes once, named as its first row names it (a row
/// without a category names it with the empty name), and holds the entries
/// of its rows in row order.
pub fn group_by_category(rows: &Vec<EntryRow>) -> (r: Vec<CategoryListModel>)
    ensures
        views_of(r@).to_multiset() == grouped(rows@).to_multiset(),
        sorted_groups(views_of(r@)),
{
    let groups = group_rows(rows);
    sort_groups(groups)
}

#[verifier::external_type_specification]
#[verifier::external_body]
pub struct ExValue(serde_json::Value);

/// An entry with all that is stored of it; `blob` is the item as the
/// streaming service described it.
#[derive(Debug)]
pub struct EntryEditModel {
    pub id: Uuid,
    pub name: String,
    pub image_url: String,
    pub entry_type: EntryType,
    pub spotify_uri: String,
    pub spotify_id: String,
    pub play_count: i16,
    pub blob: serde_json::Value,
    pub category_id: Option<Uuid>,
    pub visible: bool,
    pub spotify_url: String,
}

/// The fields of the form that edits an entry; no category id means that the
/// entry belongs to no category.
#[derive(Debug)]
pub struct EntryEditForm {
    pub id: String,
    pub name: String,
    pub image_url: String,
    pub entry_type: String,
    pub spotify_uri: String,
    pub spotify_id: String,
    pub play_count: i16,
    pub blob: serde_json::Value,
    pub category_id: Option<String>,
    pub visible: bool,
    pub spotify_url: String,
}

/// Whether a form's category id, where it has one, is a UUID.
pub open spec fn category_id_readable(c: Option<String>) -> bool {
    match c {
        Some(s) => is_uuid_text(s@),
        None => true,
    }
}

impl EntryEditForm {
    /// The entry that the form describes. A category id or an id that is no
    /// UUID is an error, and then a type that is none of the known ones.
    pub fn try_into(self) -> (r: Result<EntryEditModel, AppError>)
        ensures
            !(category_id_readable(self.category_id) && is_uuid_text(self.id@)) ==> r
                == Err::<EntryEditModel, AppError>(AppError::UuidError),
            category_id_readable(self.category_id) && is_uuid_text(self.id@) && entry_type_named(
                self.entry_type@,
            ) is None ==> r == Err::<EntryEditModel, AppError>(AppError::StrumError),
            category_id_readable(self.category_id) && is_uuid_text(self.id@) && entry_type_named(
                self.entry_type@,
            ) is Some ==> (r matches Ok(e) && e.name == self.name && e.image_url == self.image_url
                && Some(e.entry_type) == entry_type_named(self.entry_type@) && e.spotify_uri
                == self.spotify_uri && e.spotify_id == self.spotify_id && e.play_count
                == self.play_count && e.blob == self.blob && (e.category_id is Some
                <==> self.category_id is Some) && e.visible == self.visible && e.spotify_url
                == self.spotify_url),
    {
        let category_id = match &self.category_id {
            Some(c) => match read_uuid(c.as_str()) {
                Ok(id) => Some(id),
                Err(e) => return Err(e),
            },
            None => None,
        };
        let id = match read_uuid(self.id.as_str()) {
            Ok(id) => id,
            Err(e) => return Err(e),
        };
        let entry_type = match EntryType::from_str(self.entry_type.as_str()) {
            Ok(t) => t,
            Err(e) => return Err(e),
        };
        Ok(EntryEditModel {
            id,
            name: self.name,
            image_url: self.image_url,
            entry_type,
            spotify_uri: self.spotify_uri,
            spotify_id: self.spotify_id,
            play_count: self.play_count,
            blob: self.blob,
            category_id,
            visible: self.visible,
            spotify_url: self.spotify_url,
        })
    }
}

/// A new entry, before it is stored.
#[derive(Debug)]
pub struct EntryCreateModel {
    pub name: String,
    pub image_url: String,
    pub entry_type: EntryType,
    pub spotify_url: String,
    pub spotify_uri: String,
    pub spotify_id: String,
    pub play_count: i16,
    pub blob: serde_json::Value,
    pub visible: bool,
    pub category_id: Option<Uuid>,
}

impl EntryCreateModel {
    /// A new entry for an album or playlist named `name`, shown with the
    /// first of `images` that fits; it starts hidden and never played. Where
    /// no image fits there is no entry.
    pub fn for_item(
        item: &SpotifyItem,
        name: String,
        images: &Vec<Image>,
        blob: serde_json::Value,
        category_id: Option<Uuid>,
    ) -> (r: Result<EntryCreateModel, AppError>)
        ensures
            first_fit(images@) is None ==> r == Err::<EntryCreateModel, AppError>(
                AppError::NoImage,
            ),
            first_fit(images@) is Some ==> (r matches Ok(e) && e.name == name && Some(e.image_url)
                == first_fit(images@) && e.entry_type == item.kind && e.spotify_url@ == item_url(
                item.kind,
                item.id@,
            ) && e.spotify_uri@ == item_uri(item.kind, item.id@) && e.spotify_id == item.id
                && e.play_count == 0 && e.blob == blob && !e.visible && e.category_id
                == category_id),
    {
        let image_url = match find_image(images) {
            Ok(u) => u,
            Err(e) => return Err(e),
        };
        Ok(EntryCreateModel {
            name,
            image_url,
            entry_type: item.kind,
            spotify_url: item.url(),
            spotify_uri: item.uri(),
            spotify_id: item.id.clone(),
            play_count: 0,
            blob,
            visible: false,
            category_id,
        })
    }
}

/// The field of the form that adds entries: URLs of albums and playlists,
/// one per line.
#[derive(Debug, Clone)]
pub struct CreateForm {
    pub spotify_urls: String,
}

} // verus!
