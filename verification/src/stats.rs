//! Aggregate statistics over the catalog: counts of records grouped by
//! category (status, engine, runtime, genre, tag, year, developer,
//! publisher), recomputed wholesale whenever the catalog is replaced.
use crate::filter::string_views;
use crate::game::{Game, GameView, Status};
use vstd::prelude::*;

verus! {

/// One row of a statistics table: a value of a category, how many times it
/// occurs across the catalog, and the value to put in a query string for it.
#[derive(Debug)]
pub struct StatEntry {
    pub name: String,
    pub count: usize,
    pub query_value: String,
}

/// Mathematical content of a `StatEntry`.
#[verifier::ext_equal]
pub ghost struct StatEntryView {
    pub name: Seq<char>,
    pub count: usize,
    pub query_value: Seq<char>,
}

impl View for StatEntry {
    type V = StatEntryView;

    open spec fn view(&self) -> StatEntryView {
        StatEntryView { name: self.name@, count: self.count, query_value: self.query_value@ }
    }
}

impl Clone for StatEntry {
    /// A cloned row has the same content as the original.
    fn clone(&self) -> (r: Self)
        ensures
            r@ == self@,
    {
        StatEntry {
            name: self.name.clone(),
            count: self.count,
            query_value: self.query_value.clone(),
        }
    }
}

/// The views of a list of stat rows.
pub open spec fn entry_views(entries: Seq<StatEntry>) -> Seq<StatEntryView> {
    entries.map_values(|e: StatEntry| e@)
}

/// A category that records are grouped by, one per multi-valued statistics
/// table.
#[derive(Debug, Clone, Copy, PartialEq, Eq, Structural)]
pub enum Category {
    Engine,
    Runtime,
    Genre,
    Tag,
    Year,
    Dev,
    Publi,
}

/// The values a record contributes to a category: the single value of a
/// scalar field, or every entry of a list field.
pub open spec fn spec_items_of(g: GameView, cat: Category) -> Seq<Seq<char>> {
    match cat {
        Category::Engine => match g.engine {
            Some(v) => seq![v],
            None => Seq::empty(),
        },
        Category::Runtime => match g.runtime {
            Some(v) => seq![v],
            None => Seq::empty(),
        },
        Category::Year => match g.year {
            Some(v) => seq![v],
            None => Seq::empty(),
        },
        Category::Genre => match g.genres {
            Some(items) => items,
            None => Seq::empty(),
        },
        Category::Tag => match g.tags {
            Some(items) => items,
            None => Seq::empty(),
        },
        Category::Dev => match g.devs {
            Some(items) => items,
            None => Seq::empty(),
        },
        Category::Publi => match g.publis {
            Some(items) => items,
            None => Seq::empty(),
        },
    }
}

/// How many entries of `items` equal `v`.
pub open spec fn count_val(items: Seq<Seq<char>>, v: Seq<char>) -> nat
    decreases items.len(),
{
    if items.len() == 0 {
        0
    } else {
        count_val(items.drop_last(), v) + (if items.last() == v {
            1nat
        } else {
            0nat
        })
    }
}

/// How often the value `v` occurs in category `cat` across `games`.
pub open spec fn cat_count(games: Seq<Game>, cat: Category, v: Seq<char>) -> nat
    decreases games.len(),
{
    if games.len() == 0 {
        0
    } else {
        cat_count(games.drop_last(), cat, v) + count_val(spec_items_of(games.last()@, cat), v)
    }
}

/// The total number of category values across `games`, every occurrence
/// counted.
pub open spec fn cat_total(games: Seq<Game>, cat: Category) -> nat
    decreases games.len(),
{
    if games.len() == 0 {
        0
    } else {
        cat_total(games.drop_last(), cat) + spec_items_of(games.last()@, cat).len()
    }
}

proof fn lemma_count_val_le(items: Seq<Seq<char>>, v: Seq<char>)
    ensures
        count_val(items, v) <= items.len(),
    decreases items.len(),
{
    if items.len() > 0 {
        lemma_count_val_le(items.drop_last(), v);
    }
}

/// No value occurs more often than there are values in all.
proof fn lemma_cat_count_le_total(games: Seq<Game>, cat: Category, v: Seq<char>)
    ensures
        cat_count(games, cat, v) <= cat_total(games, cat),
    decreases games.len(),
{
    if games.len() > 0 {
        lemma_cat_count_le_total(games.drop_last(), cat, v);
        lemma_count_val_le(spec_items_of(games.last()@, cat), v);
    }
}

/// The category values of one record, as owned strings.
fn items_for(game: &Game, cat: Category) -> (r: Vec<String>)
    ensures
        string_views(r@) == spec_items_of(game@, cat),
{
    let items: Vec<String> = match cat {
        Category::Engine => match &game.engine {
            Some(v) => vec![v.clone()],
            None => Vec::new(),
        },
        Category::Runtime => match &game.runtime {
            Some(v) => vec![v.clone()],
            None => Vec::new(),
        },
        Category::Year => match &game.year {
            Some(v) => vec![v.clone()],
            None => Vec::new(),
        },
        Category::Genre => match &game.genres {
            Some(items) => items.clone(),
            None => Vec::new(),
        },
        Category::Tag => match &game.tags {
            Some(items) => items.clone(),
            None => Vec::new(),
        },
        Category::Dev => match &game.devs {
            Some(items) => items.clone(),
            None => Vec::new(),
        },
        Category::Publi => match &game.publis {
            Some(items) => items.clone(),
            None => Vec::new(),
        },
    };
    proof {
        assert(string_views(items@) =~= spec_items_of(game@, cat));
    }
    items
}

/// How many values one record contributes to a category.
fn item_count_for(game: &Game, cat: Category) -> (r: usize)
    ensures
        r == spec_items_of(game@, cat).len(),
{
    match cat {
        Category::Engine => match &game.engine {
            Some(_) => 1,
            None => 0,
        },
        Category::Runtime => match &game.runtime {
            Some(_) => 1,
            None => 0,
        },
        Category::Year => match &game.year {
            Some(_) => 1,
            None => 0,
        },
        Category::Genre => match &game.genres {
            Some(items) => items.len(),
            None => 0,
        },
        Category::Tag => match &game.tags {
            Some(items) => items.len(),
            None => 0,
        },
        Category::Dev => match &game.devs {
            Some(items) => items.len(),
            None => 0,
        },
        Category::Publi => match &game.publis {
            Some(items) => items.len(),
            None => 0,
        },
    }
}

/// Whether a category's occurrence total across the records fits a machine
/// count.
pub fn cat_total_fits(games: &Vec<Game>, cat: Category) -> (r: bool)
    ensures
        r == (cat_total(games@, cat) <= usize::MAX),
{
    let mut total: usize = 0;
    let mut i: usize = 0;
    while i < games.len()
        invariant
            0 <= i <= games@.len(),
            total == cat_total(games@.subrange(0, i as int), cat),
        decreases games@.len() - i,
    {
        proof {
            assert(games@.subrange(0, i + 1).drop_last() =~= games@.subrange(0, i as int));
            assert(games@.subrange(0, i + 1).last() == games@[i as int]);
        }
        let c = item_count_for(&games[i], cat);
        if c > usize::MAX - total {
            proof {
                lemma_cat_total_prefix(games@, cat, i + 1);
            }
            return false;
        }
        total = total + c;
        i = i + 1;
    }
    proof {
        assert(games@.subrange(0, games@.len() as int) =~= games@);
    }
    true
}

/// The position of the row named `name`, if there is one.
fn find_entry(entries: &Vec<StatEntry>, name: &String) -> (r: Option<usize>)
    ensures
        match r {
            Some(k) => 0 <= k < entries@.len() && entries@[k as int].name@ == name@,
            None => forall|k: int| 0 <= k < entries@.len() ==> entries@[k].name@ != name@,
        },
{
    let mut k: usize = 0;
    while k < entries.len()
        invariant
            0 <= k <= entries@.len(),
            forall|j: int| 0 <= j < k ==> entries@[j].name@ != name@,
        decreases entries@.len() - k,
    {
        if entries[k].name == *name {
            return Some(k);
        }
        k = k + 1;
    }
    None
}

/// Group the values of one category across the catalog and count every
/// occurrence of each distinct value: the rows are exactly the values that
/// occur, each with its exact count and with itself as query value.
pub fn group_counts(games: &Vec<Game>, cat: Category) -> (r: Vec<StatEntry>)
    requires
        cat_total(games@, cat) <= usize::MAX,
    ensures
        forall|k: int|
            0 <= k < r@.len() ==> #[trigger] r@[k].count == cat_count(games@, cat, r@[k].name@),
        forall|k: int| 0 <= k < r@.len() ==> #[trigger] r@[k].query_value@ == r@[k].name@,
        forall|k: int, l: int| 0 <= k < l < r@.len() ==> r@[k].name@ != r@[l].name@,
        forall|v: Seq<char>|
            #[trigger] cat_count(games@, cat, v) > 0 <==> exists|k: int|
                0 <= k < r@.len() && #[trigger] r@[k].name@ == v,
{
    let mut entries: Vec<StatEntry> = Vec::new();
    let mut i: usize = 0;
    while i < games.len()
        invariant
            0 <= i <= games@.len(),
            cat_total(games@, cat) <= usize::MAX,
            forall|k: int|
                0 <= k < entries@.len() ==> #[trigger] entries@[k].count == cat_count(
                    games@.subrange(0, i as int),
                    cat,
                    entries@[k].name@,
                ),
            forall|k: int|
                0 <= k < entries@.len() ==> #[trigger] entries@[k].query_value@
                    == entries@[k].name@,
            forall|k: int, l: int| 0 <= k < l < entries@.len() ==> entries@[k].name@
                != entries@[l].name@,
            forall|v: Seq<char>|
                #[trigger] cat_count(games@.subrange(0, i as int), cat, v) > 0 <==> exists|k: int|
                    0 <= k < entries@.len() && #[trigger] entries@[k].name@ == v,
        decreases games@.len() - i,
    {
        let items = items_for(&games[i], cat);
        let ghost gprefix = games@.subrange(0, i as int);
        let ghost gitems = spec_items_of(games@[i as int]@, cat);
        proof {
            assert(games@.subrange(0, i + 1).drop_last() =~= gprefix);
            assert(games@.subrange(0, i + 1).last() == games@[i as int]);
            lemma_cat_total_prefix(games@, cat, i + 1);
        }
        let mut j: usize = 0;
        while j < items.len()
            invariant
                0 <= j <= items@.len(),
                string_views(items@) == gitems,
                gprefix == games@.subrange(0, i as int),
                gitems == spec_items_of(games@[i as int]@, cat),
                0 <= i < games@.len(),
                cat_total(games@.subrange(0, i + 1), cat) <= usize::MAX,
                forall|k: int|
                    0 <= k < entries@.len() ==> #[trigger] entries@[k].count == cat_count(
                        gprefix,
                        cat,
                        entries@[k].name@,
                    ) + count_val(gitems.subrange(0, j as int), entries@[k].name@),
                forall|k: int|
                    0 <= k < entries@.len() ==> #[trigger] entries@[k].query_value@
                        == entries@[k].name@,
                forall|k: int, l: int| 0 <= k < l < entries@.len() ==> entries@[k].name@
                    != entries@[l].name@,
                forall|v: Seq<char>|
                    #[trigger] cat_count(gprefix, cat, v) + count_val(
                        gitems.subrange(0, j as int),
                        v,
                    ) > 0 <==> exists|k: int|
                        0 <= k < entries@.len() && #[trigger] entries@[k].name@ == v,
            decreases items@.len() - j,
        {
            let ghost jv = items@[j as int]@;
            let ghost old_entries = entries@;
            proof {
                assert(gitems.subrange(0, j + 1).drop_last() =~= gitems.subrange(0, j as int));
                assert(gitems.subrange(0, j + 1).last() == jv);
                lemma_partial_count_bound(games@, cat, i as int, j + 1, jv);
            }
            match find_entry(&entries, &items[j]) {
                Some(k) => {
                    let c = entries[k].count;
                    entries[k].count = c + 1;
                    proof {
                        assert(entries@[k as int].name@ == jv);
                        assert(exists|m: int|
                            0 <= m < entries@.len() && #[trigger] entries@[m].name@ == jv);
                    }
                },
                None => {
                    entries.push(
                        StatEntry {
                            name: items[j].clone(),
                            count: 1,
                            query_value: items[j].clone(),
                        },
                    );
                    proof {
                        assert(entries@[entries@.len() - 1].name@ == jv);
                        assert(exists|m: int|
                            0 <= m < entries@.len() && #[trigger] entries@[m].name@ == jv);
                    }
                },
            }
            proof {
                let new_items = gitems.subrange(0, j + 1);
                let old_items = gitems.subrange(0, j as int);
                assert(forall|m: int|
                    0 <= m < old_entries.len() ==> #[trigger] entries@[m].name@
                        == old_entries[m].name@);
                assert forall|v: Seq<char>| #[trigger] cat_count(gprefix, cat, v) + count_val(
                    new_items,
                    v,
                ) > 0 implies exists|k: int|
                    0 <= k < entries@.len() && #[trigger] entries@[k].name@ == v by {
                    if v != jv {
                        assert(count_val(new_items, v) == count_val(old_items, v));
                        assert(cat_count(gprefix, cat, v) + count_val(old_items, v) > 0);
                        let m = choose|m: int|
                            0 <= m < old_entries.len() && #[trigger] old_entries[m].name@ == v;
                        assert(entries@[m].name@ == v);
                    }
                }
                assert forall|k: int| 0 <= k < entries@.len() implies cat_count(
                    gprefix,
                    cat,
                    #[trigger] entries@[k].name@,
                ) + count_val(new_items, entries@[k].name@) > 0 by {
                    if entries@[k].name@ == jv {
                        assert(count_val(new_items, jv) == count_val(old_items, jv) + 1);
                    } else {
                        assert(count_val(new_items, entries@[k].name@) == count_val(
                            old_items,
                            entries@[k].name@,
                        ));
                    }
                }
            }
            j = j + 1;
        }
        proof {
            assert(games@.subrange(0, i + 1).drop_last() =~= games@.subrange(0, i as int));
            assert(games@.subrange(0, i + 1).last() == games@[i as int]);
            assert(gitems.subrange(0, items@.len() as int) =~= gitems);
            assert(forall|v: Seq<char>|
                #[trigger] cat_count(games@.subrange(0, i + 1), cat, v) == cat_count(
                    games@.subrange(0, i as int),
                    cat,
                    v,
                ) + count_val(gitems, v));
        }
        i = i + 1;
    }
    proof {
        assert(games@.subrange(0, games@.len() as int) =~= games@);
    }
    entries
}

/// The running count of a value over a prefix of the catalog plus a prefix
/// of the current record's values stays within the category total.
proof fn lemma_partial_count_bound(games: Seq<Game>, cat: Category, i: int, j: int, v: Seq<char>)
    requires
        0 <= i < games.len(),
        0 <= j <= spec_items_of(games[i]@, cat).len(),
    ensures
        cat_count(games.subrange(0, i), cat, v) + count_val(
            spec_items_of(games[i]@, cat).subrange(0, j),
            v,
        ) <= cat_total(games.subrange(0, i + 1), cat),
{
    lemma_cat_count_le_total(games.subrange(0, i), cat, v);
    lemma_count_val_le(spec_items_of(games[i]@, cat).subrange(0, j), v);
    assert(games.subrange(0, i + 1).drop_last() =~= games.subrange(0, i));
    assert(games.subrange(0, i + 1).last() == games[i]);
}

/// Strict lexicographic order on byte strings, as Rust orders `str` values:
/// a proper prefix comes first, otherwise the first differing byte decides.
pub open spec fn lex_lt(a: Seq<u8>, b: Seq<u8>) -> bool
    decreases a.len(),
{
    if b.len() == 0 {
        false
    } else if a.len() == 0 {
        true
    } else if a[0] < b[0] {
        true
    } else if a[0] > b[0] {
        false
    } else {
        lex_lt(a.drop_first(), b.drop_first())
    }
}

/// The order is connex: two byte strings are comparable or equal.
proof fn lemma_lex_connex(a: Seq<u8>, b: Seq<u8>)
    ensures
        lex_lt(a, b) || lex_lt(b, a) || a == b,
    decreases a.len(),
{
    if a.len() > 0 && b.len() > 0 && a[0] == b[0] {
        lemma_lex_connex(a.drop_first(), b.drop_first());
        if !lex_lt(a, b) && !lex_lt(b, a) {
            assert(a.drop_first() == b.drop_first());
            assert forall|i: int| 0 <= i < a.len() implies a[i] == b[i] by {
                if i > 0 {
                    assert(a[i] == a.drop_first()[i - 1]);
                    assert(b[i] == b.drop_first()[i - 1]);
                }
            }
            assert(a =~= b);
        }
    }
}

/// The order is asymmetric.
proof fn lemma_lex_asym(a: Seq<u8>, b: Seq<u8>)
    ensures
        !(lex_lt(a, b) && lex_lt(b, a)),
    decreases a.len(),
{
    if a.len() > 0 && b.len() > 0 && a[0] == b[0] {
        lemma_lex_asym(a.drop_first(), b.drop_first());
    }
}

/// The order is transitive.
proof fn lemma_lex_trans(a: Seq<u8>, b: Seq<u8>, c: Seq<u8>)
    requires
        lex_lt(a, b),
        lex_lt(b, c),
    ensures
        lex_lt(a, c),
    decreases a.len(),
{
    if a.len() > 0 && b.len() > 0 && c.len() > 0 && a[0] == b[0] && b[0] == c[0] {
        lemma_lex_trans(a.drop_first(), b.drop_first(), c.drop_first());
    }
}

/// Byte-wise lexicographic comparison.
fn bytes_lt(a: &[u8], b: &[u8]) -> (r: bool)
    ensures
        r == lex_lt(a@, b@),
{
    let alen = a.len();
    let blen = b.len();
    proof {
        assert(a@.skip(0) =~= a@);
        assert(b@.skip(0) =~= b@);
    }
    let mut i: usize = 0;
    while i < alen && i < blen
        invariant
            0 <= i <= alen,
            0 <= i <= blen,
            alen == a@.len(),
            blen == b@.len(),
            forall|k: int| 0 <= k < i ==> a@[k] == b@[k],
            lex_lt(a@, b@) == lex_lt(a@.skip(i as int), b@.skip(i as int)),
        decreases alen - i,
    {
        if a[i] < b[i] {
            return true;
        }
        if a[i] > b[i] {
            return false;
        }
        proof {
            assert(a@.skip(i as int).drop_first() =~= a@.skip(i + 1));
            assert(b@.skip(i as int).drop_first() =~= b@.skip(i + 1));
        }
        i = i + 1;
    }
    proof {
        if i == alen {
            assert(a@.skip(i as int).len() == 0);
        }
    }
    alen < blen
}

/// The key a statistics row is ordered by: the bytes of its name.
pub open spec fn entry_key(e: StatEntryView) -> Seq<u8> {
    vstd::utf8::encode_utf8(e.name)
}

/// The two orders the statistics tables use.
#[derive(Debug, Clone, Copy, PartialEq, Eq, Structural)]
pub enum SortOrder {
    /// Larger counts first; equal counts ordered by name, descending.
    CountThenName,
    /// Names descending.
    NameOnly,
}

/// Whether row `a` comes strictly before row `b` in the given order.
pub open spec fn entry_before(ord: SortOrder, a: StatEntryView, b: StatEntryView) -> bool {
    match ord {
        SortOrder::CountThenName => a.count > b.count || (a.count == b.count && lex_lt(
            entry_key(b),
            entry_key(a),
        )),
        SortOrder::NameOnly => lex_lt(entry_key(b), entry_key(a)),
    }
}

/// Rows never come strictly before themselves or each other both ways.
proof fn lemma_entry_before_asym(ord: SortOrder, a: StatEntryView, b: StatEntryView)
    ensures
        !(entry_before(ord, a, b) && entry_before(ord, b, a)),
{
    lemma_lex_asym(entry_key(a), entry_key(b));
}

/// Not coming before is transitive, which keeps insertion sorted.
proof fn lemma_entry_not_before_trans(
    ord: SortOrder,
    a: StatEntryView,
    b: StatEntryView,
    c: StatEntryView,
)
    requires
        !entry_before(ord, a, b),
        !entry_before(ord, b, c),
    ensures
        !entry_before(ord, a, c),
{
    lemma_lex_connex(entry_key(a), entry_key(b));
    lemma_lex_connex(entry_key(b), entry_key(c));
    lemma_lex_asym(entry_key(a), entry_key(b));
    lemma_lex_asym(entry_key(b), entry_key(c));
    if entry_before(ord, a, c) {
        if lex_lt(entry_key(c), entry_key(a)) {
            if lex_lt(entry_key(a), entry_key(b)) {
                lemma_lex_trans(entry_key(c), entry_key(a), entry_key(b));
            }
            if lex_lt(entry_key(b), entry_key(c)) {
                lemma_lex_trans(entry_key(b), entry_key(c), entry_key(a));
            }
        }
    }
}

fn entry_before_exec(ord: SortOrder, a: &StatEntry, b: &StatEntry) -> (r: bool)
    ensures
        r == entry_before(ord, a@, b@),
{
    let name_desc = bytes_lt(b.name.as_str().as_bytes(), a.name.as_str().as_bytes());
    match ord {
        SortOrder::CountThenName => a.count > b.count || (a.count == b.count && name_desc),
        SortOrder::NameOnly => name_desc,
    }
}

/// Whether the rows are sorted for the given order: no row strictly
/// precedes an earlier one.
pub open spec fn entries_sorted(ord: SortOrder, entries: Seq<StatEntry>) -> bool {
    forall|i: int, j: int|
        0 <= i < j < entries.len() ==> !entry_before(ord, #[trigger] entries[j]@, #[trigger] entries[i]@)
}

/// Sort statistics rows by the given order. The result holds exactly the
/// rows of the input.
pub fn sort_entries(ord: SortOrder, entries: Vec<StatEntry>) -> (r: Vec<StatEntry>)
    ensures
        r@.to_multiset() == entries@.to_multiset(),
        entries_sorted(ord, r@),
{
    broadcast use vstd::seq_lib::group_to_multiset_ensures;
    broadcast use vstd::multiset::group_multiset_axioms;

    let mut input = entries;
    let mut out: Vec<StatEntry> = Vec::new();
    proof {
        assert(out@.to_multiset().add(input@.to_multiset()) =~= entries@.to_multiset());
    }
    while input.len() > 0
        invariant
            out@.to_multiset().add(input@.to_multiset()) =~= entries@.to_multiset(),
            entries_sorted(ord, out@),
        decreases input@.len(),
    {
        let ghost old_input = input@;
        let e = input.pop().unwrap();
        proof {
            assert(old_input =~= input@.push(e));
            input@.to_multiset_ensures();
            assert(old_input.to_multiset() =~= input@.to_multiset().insert(e));
        }
        let ghost old_out = out@;
        let mut pos: usize = 0;
        while pos < out.len() && entry_before_exec(ord, &out[pos], &e)
            invariant
                0 <= pos <= out@.len(),
                out@ == old_out,
                forall|k: int| 0 <= k < pos ==> entry_before(ord, out@[k]@, e@),
            decreases out@.len() - pos,
        {
            pos = pos + 1;
        }
        out.insert(pos, e);
        proof {
            old_out.insert_ensures(pos as int, e);
            assert forall|i: int, j: int| 0 <= i < j < out@.len() implies !entry_before(
                ord,
                out@[j]@,
                out@[i]@,
            ) by {
                if j == pos {
                    assert(out@[i] == old_out[i]);
                    lemma_entry_before_asym(ord, old_out[i]@, e@);
                } else if i == pos {
                    assert(out@[j] == old_out[j - 1]);
                    if j - 1 > pos {
                        lemma_entry_not_before_trans(ord, old_out[j - 1]@, old_out[pos as int]@, e@);
                    }
                } else {
                    let i2: int = if i < pos {
                        i
                    } else {
                        i - 1
                    };
                    let j2: int = if j < pos {
                        j
                    } else {
                        j - 1
                    };
                    assert(out@[i] == old_out[i2]);
                    assert(out@[j] == old_out[j2]);
                }
            }
            assert(out@.remove(pos as int) =~= old_out);
            out@.to_multiset_ensures();
            assert(out@[pos as int] == e);
            assert(out@.remove(pos as int).to_multiset() =~= out@.to_multiset().remove(e));
            assert(out@.to_multiset().remove(e) =~= old_out.to_multiset());
            assert(out@.contains(e));
            assert(out@.to_multiset().count(e) > 0);
            assert(out@.to_multiset() =~= old_out.to_multiset().insert(e));
            assert(out@.to_multiset().add(input@.to_multiset()) =~= entries@.to_multiset());
        }
    }
    out
}

/// How many records of `games` have status `s`.
pub open spec fn status_count(games: Seq<Game>, s: Status) -> nat
    decreases games.len(),
{
    if games.len() == 0 {
        0
    } else {
        status_count(games.drop_last(), s) + (if games.last().status == s {
            1nat
        } else {
            0nat
        })
    }
}

/// Count the records with the given status.
pub fn count_status(games: &Vec<Game>, s: Status) -> (r: usize)
    ensures
        r == status_count(games@, s),
{
    let mut count: usize = 0;
    let mut i: usize = 0;
    while i < games.len()
        invariant
            0 <= i <= games@.len(),
            count == status_count(games@.subrange(0, i as int), s),
            count <= i,
        decreases games@.len() - i,
    {
        proof {
            assert(games@.subrange(0, i + 1).drop_last() =~= games@.subrange(0, i as int));
            assert(games@.subrange(0, i + 1).last() == games@[i as int]);
            lemma_status_count_le(games@.subrange(0, i as int), s);
        }
        if games[i].status == s {
            count = count + 1;
        }
        i = i + 1;
    }
    proof {
        assert(games@.subrange(0, games@.len() as int) =~= games@);
    }
    count
}

proof fn lemma_status_count_le(games: Seq<Game>, s: Status)
    ensures
        status_count(games, s) <= games.len(),
    decreases games.len(),
{
    if games.len() > 0 {
        lemma_status_count_le(games.drop_last(), s);
    }
}

/// Two lists with the same multiset hold the same elements.
proof fn lemma_perm_contains(a: Seq<StatEntry>, b: Seq<StatEntry>)
    requires
        a.to_multiset() == b.to_multiset(),
    ensures
        forall|e: StatEntry| a.contains(e) <==> b.contains(e),
{
    a.to_multiset_ensures();
    b.to_multiset_ensures();
    assert forall|e: StatEntry| a.contains(e) implies b.contains(e) by {
        assert(a.to_multiset().count(e) > 0);
    }
    assert forall|e: StatEntry| b.contains(e) implies a.contains(e) by {
        assert(b.to_multiset().count(e) > 0);
    }
}

/// What a finished statistics table promises about the records it was
/// computed from: exact counts for distinct values, each its own query
/// value, rows ordered by count (ties by name, descending), at most
/// `limit` rows, and no value left out as long as the table is not full.
pub open spec fn stats_table_wf(
    table: Seq<StatEntry>,
    games: Seq<Game>,
    cat: Category,
    limit: int,
) -> bool {
    &&& forall|k: int|
        0 <= k < table.len() ==> #[trigger] table[k].count == cat_count(
            games,
            cat,
            table[k].name@,
        )
    &&& forall|k: int| 0 <= k < table.len() ==> #[trigger] table[k].query_value@
        == table[k].name@
    &&& forall|k: int, l: int| 0 <= k < l < table.len() ==> table[k].name@ != table[l].name@
    &&& entries_sorted(SortOrder::CountThenName, table)
    &&& table.len() <= limit
    &&& (table.len() < limit ==> forall|v: Seq<char>|
        #[trigger] cat_count(games, cat, v) > 0 ==> table_has_name(table, v))
    &&& (table.len() == limit ==> forall|v: Seq<char>|
        (#[trigger] cat_count(games, cat, v) > 0 && !table_has_name(table, v))
            ==> value_not_before_last(table, games, cat, v))
}

/// Whether some row of the table carries this value.
pub open spec fn table_has_name(table: Seq<StatEntry>, v: Seq<char>) -> bool {
    exists|k: int| 0 <= k < table.len() && #[trigger] table[k].name@ == v
}

/// Whether a value left out of a full table would not displace its last
/// row: the value occurs less often, or equally often under a name that
/// does not come after the last row's in the table's order.
pub open spec fn value_not_before_last(
    table: Seq<StatEntry>,
    games: Seq<Game>,
    cat: Category,
    v: Seq<char>,
) -> bool
    recommends
        table.len() > 0,
{
    let last = table[table.len() - 1];
    ||| cat_count(games, cat, v) < last.count
    ||| (cat_count(games, cat, v) == last.count && !lex_lt(
        vstd::utf8::encode_utf8(last.name@),
        vstd::utf8::encode_utf8(v),
    ))
}

/// The number of rows a statistics table is capped at.
pub const STATS_TABLE_LIMIT: usize = 15;

/// One statistics table: group a category's values, order the rows by
/// count (ties by name, descending), and keep the first
/// `STATS_TABLE_LIMIT` rows.
pub fn category_stats(games: &Vec<Game>, cat: Category) -> (r: Vec<StatEntry>)
    requires
        cat_total(games@, cat) <= usize::MAX,
    ensures
        stats_table_wf(r@, games@, cat, STATS_TABLE_LIMIT as int),
{
    let groups = group_counts(games, cat);
    let ghost ggroups = groups@;
    let mut table = sort_entries(SortOrder::CountThenName, groups);
    proof {
        lemma_table_from_groups(table@, ggroups, games@, cat);
    }
    let ghost sorted = table@;
    table.truncate(STATS_TABLE_LIMIT);
    proof {
        if sorted.len() > STATS_TABLE_LIMIT {
            assert(table@ == sorted.subrange(0, STATS_TABLE_LIMIT as int));
        } else {
            assert(table@ == sorted);
        }
        if table@.len() == STATS_TABLE_LIMIT {
            let limit = STATS_TABLE_LIMIT as int;
            assert forall|v: Seq<char>|
                (#[trigger] cat_count(games@, cat, v) > 0 && !table_has_name(
                    table@,
                    v,
                )) implies value_not_before_last(table@, games@, cat, v) by {
                let k = choose|k: int| 0 <= k < sorted.len() && #[trigger] sorted[k].name@ == v;
                assert(k >= limit) by {
                    if k < limit {
                        assert(table@[k].name@ == v);
                    }
                }
                assert(!entry_before(SortOrder::CountThenName, sorted[k]@, sorted[limit - 1]@));
                assert(sorted[k].count == cat_count(games@, cat, v));
                assert(table@[limit - 1] == sorted[limit - 1]);
            }
        }
    }
    table
}

/// A sorted permutation of the grouped counts keeps every per-row
/// guarantee of the grouping.
proof fn lemma_table_from_groups(
    sorted: Seq<StatEntry>,
    groups: Seq<StatEntry>,
    games: Seq<Game>,
    cat: Category,
)
    requires
        sorted.to_multiset() == groups.to_multiset(),
        forall|k: int|
            0 <= k < groups.len() ==> #[trigger] groups[k].count == cat_count(
                games,
                cat,
                groups[k].name@,
            ),
        forall|k: int| 0 <= k < groups.len() ==> #[trigger] groups[k].query_value@
            == groups[k].name@,
        forall|k: int, l: int| 0 <= k < l < groups.len() ==> groups[k].name@ != groups[l].name@,
        forall|v: Seq<char>|
            #[trigger] cat_count(games, cat, v) > 0 <==> exists|k: int|
                0 <= k < groups.len() && #[trigger] groups[k].name@ == v,
    ensures
        forall|k: int|
            0 <= k < sorted.len() ==> #[trigger] sorted[k].count == cat_count(
                games,
                cat,
                sorted[k].name@,
            ),
        forall|k: int| 0 <= k < sorted.len() ==> #[trigger] sorted[k].query_value@
            == sorted[k].name@,
        forall|k: int, l: int| 0 <= k < l < sorted.len() ==> sorted[k].name@ != sorted[l].name@,
        forall|v: Seq<char>|
            #[trigger] cat_count(games, cat, v) > 0 ==> exists|k: int|
                0 <= k < sorted.len() && #[trigger] sorted[k].name@ == v,
{
    lemma_perm_contains(sorted, groups);
    assert forall|k: int| 0 <= k < sorted.len() implies #[trigger] sorted[k].count == cat_count(
        games,
        cat,
        sorted[k].name@,
    ) by {
        assert(sorted.contains(sorted[k]));
        let g = choose|g: int| 0 <= g < groups.len() && groups[g] == sorted[k];
        assert(groups[g].count == cat_count(games, cat, groups[g].name@));
    }
    assert forall|k: int| 0 <= k < sorted.len() implies #[trigger] sorted[k].query_value@
        == sorted[k].name@ by {
        assert(sorted.contains(sorted[k]));
        let g = choose|g: int| 0 <= g < groups.len() && groups[g] == sorted[k];
        assert(groups[g].query_value@ == groups[g].name@);
    }
    assert(groups.no_duplicates()) by {
        assert forall|k: int, l: int|
            0 <= k < groups.len() && 0 <= l < groups.len() && k != l implies groups[k]
            != groups[l] by {
            if k < l {
                assert(groups[k].name@ != groups[l].name@);
            } else {
                assert(groups[l].name@ != groups[k].name@);
            }
        }
    }
    groups.lemma_multiset_has_no_duplicates();
    sorted.lemma_multiset_has_no_duplicates_conv();
    assert forall|k: int, l: int| 0 <= k < l < sorted.len() implies sorted[k].name@
        != sorted[l].name@ by {
        if sorted[k].name@ == sorted[l].name@ {
            assert(sorted.contains(sorted[k]));
            assert(sorted.contains(sorted[l]));
            let gk = choose|g: int| 0 <= g < groups.len() && groups[g] == sorted[k];
            let gl = choose|g: int| 0 <= g < groups.len() && groups[g] == sorted[l];
            assert(gk == gl);
            assert(sorted[k] == sorted[l]);
        }
    }
    assert forall|v: Seq<char>| #[trigger] cat_count(games, cat, v) > 0 implies exists|k: int|
        0 <= k < sorted.len() && #[trigger] sorted[k].name@ == v by {
        let g = choose|g: int| 0 <= g < groups.len() && #[trigger] groups[g].name@ == v;
        assert(groups.contains(groups[g]));
        assert(sorted.contains(groups[g]));
        let k = choose|k: int| 0 <= k < sorted.len() && sorted[k] == groups[g];
        assert(sorted[k].name@ == v);
    }
}

/// Aggregate statistics: one table per category, the eight status rows,
/// and the total record count.
#[derive(Debug)]
pub struct GameStats {
    pub engine_stats: Vec<StatEntry>,
    pub runtime_stats: Vec<StatEntry>,
    pub genre_stats: Vec<StatEntry>,
    pub tag_stats: Vec<StatEntry>,
    pub year_stats: Vec<StatEntry>,
    pub dev_stats: Vec<StatEntry>,
    pub publi_stats: Vec<StatEntry>,
    pub status_stats: Vec<StatEntry>,
    pub total_games: usize,
}

/// One table and its clone hold rows with the same content.
proof fn lemma_cloned_entry_vec(a: Vec<StatEntry>, b: Vec<StatEntry>)
    requires
        cloned::<Vec<StatEntry>>(a, b),
    ensures
        entry_views(a@) == entry_views(b@),
{
    if a != b {
        assert(forall|i: int|
            0 <= i < a@.len() ==> #[trigger] cloned::<StatEntry>(a@[i], b@[i]));
        assert(forall|i: int| 0 <= i < a@.len() ==> #[trigger] a@[i]@ == b@[i]@);
        assert(entry_views(a@) =~= entry_views(b@));
    }
}

/// Mathematical content of a statistics snapshot.
#[verifier::ext_equal]
pub ghost struct GameStatsView {
    pub engine_stats: Seq<StatEntryView>,
    pub runtime_stats: Seq<StatEntryView>,
    pub genre_stats: Seq<StatEntryView>,
    pub tag_stats: Seq<StatEntryView>,
    pub year_stats: Seq<StatEntryView>,
    pub dev_stats: Seq<StatEntryView>,
    pub publi_stats: Seq<StatEntryView>,
    pub status_stats: Seq<StatEntryView>,
    pub total_games: usize,
}

impl View for GameStats {
    type V = GameStatsView;

    open spec fn view(&self) -> GameStatsView {
        GameStatsView {
            engine_stats: entry_views(self.engine_stats@),
            runtime_stats: entry_views(self.runtime_stats@),
            genre_stats: entry_views(self.genre_stats@),
            tag_stats: entry_views(self.tag_stats@),
            year_stats: entry_views(self.year_stats@),
            dev_stats: entry_views(self.dev_stats@),
            publi_stats: entry_views(self.publi_stats@),
            status_stats: entry_views(self.status_stats@),
            total_games: self.total_games,
        }
    }
}

impl Clone for GameStats {
    /// A cloned statistics snapshot has the same content as the original.
    fn clone(&self) -> (r: Self)
        ensures
            r@ == self@,
    {
        let r = GameStats {
            engine_stats: self.engine_stats.clone(),
            runtime_stats: self.runtime_stats.clone(),
            genre_stats: self.genre_stats.clone(),
            tag_stats: self.tag_stats.clone(),
            year_stats: self.year_stats.clone(),
            dev_stats: self.dev_stats.clone(),
            publi_stats: self.publi_stats.clone(),
            status_stats: self.status_stats.clone(),
            total_games: self.total_games,
        };
        proof {
            lemma_cloned_entry_vec(self.engine_stats, r.engine_stats);
            lemma_cloned_entry_vec(self.runtime_stats, r.runtime_stats);
            lemma_cloned_entry_vec(self.genre_stats, r.genre_stats);
            lemma_cloned_entry_vec(self.tag_stats, r.tag_stats);
            lemma_cloned_entry_vec(self.year_stats, r.year_stats);
            lemma_cloned_entry_vec(self.dev_stats, r.dev_stats);
            lemma_cloned_entry_vec(self.publi_stats, r.publi_stats);
            lemma_cloned_entry_vec(self.status_stats, r.status_stats);
            assert(r@ =~= self@);
        }
        r
    }
}

impl Default for GameStats {
    /// Statistics of nothing: empty tables and a zero total.
    fn default() -> (r: Self)
        ensures
            r.engine_stats@.len() == 0,
            r.runtime_stats@.len() == 0,
            r.genre_stats@.len() == 0,
            r.tag_stats@.len() == 0,
            r.year_stats@.len() == 0,
            r.dev_stats@.len() == 0,
            r.publi_stats@.len() == 0,
            r.status_stats@.len() == 0,
            r.total_games == 0,
    {
        GameStats {
            engine_stats: Vec::new(),
            runtime_stats: Vec::new(),
            genre_stats: Vec::new(),
            tag_stats: Vec::new(),
            year_stats: Vec::new(),
            dev_stats: Vec::new(),
            publi_stats: Vec::new(),
            status_stats: Vec::new(),
            total_games: 0,
        }
    }
}

/// Category totals only grow along prefixes of the catalog.
pub proof fn lemma_cat_total_prefix(games: Seq<Game>, cat: Category, n: int)
    requires
        0 <= n <= games.len(),
    ensures
        cat_total(games.subrange(0, n), cat) <= cat_total(games, cat),
    decreases games.len() - n,
{
    if n < games.len() {
        lemma_cat_total_prefix(games, cat, n + 1);
        assert(games.subrange(0, n + 1).drop_last() =~= games.subrange(0, n));
        assert(games.subrange(0, n + 1).last() == games[n]);
    } else {
        assert(games.subrange(0, n) =~= games);
    }
}

/// What the year table promises: exact counts for distinct years, each its
/// own query value, ordered by year descending, at most `STATS_TABLE_LIMIT`
/// rows, and no year left out as long as the table is not full.
pub open spec fn year_table_wf(table: Seq<StatEntry>, games: Seq<Game>) -> bool {
    &&& forall|k: int|
        0 <= k < table.len() ==> #[trigger] table[k].count == cat_count(
            games,
            Category::Year,
            table[k].name@,
        )
    &&& forall|k: int| 0 <= k < table.len() ==> #[trigger] table[k].query_value@
        == table[k].name@
    &&& forall|k: int, l: int| 0 <= k < l < table.len() ==> table[k].name@ != table[l].name@
    &&& entries_sorted(SortOrder::NameOnly, table)
    &&& table.len() <= STATS_TABLE_LIMIT
    &&& (table.len() < STATS_TABLE_LIMIT ==> forall|v: Seq<char>|
        #[trigger] cat_count(games, Category::Year, v) > 0 ==> exists|k: int|
            0 <= k < table.len() && #[trigger] table[k].name@ == v)
}

/// Reordering a table keeps every per-row guarantee and the row count.
proof fn lemma_reordered_table(
    sorted: Seq<StatEntry>,
    table: Seq<StatEntry>,
    games: Seq<Game>,
    cat: Category,
)
    requires
        sorted.to_multiset() == table.to_multiset(),
        forall|k: int|
            0 <= k < table.len() ==> #[trigger] table[k].count == cat_count(
                games,
                cat,
                table[k].name@,
            ),
        forall|k: int| 0 <= k < table.len() ==> #[trigger] table[k].query_value@
            == table[k].name@,
        forall|k: int, l: int| 0 <= k < l < table.len() ==> table[k].name@ != table[l].name@,
    ensures
        sorted.len() == table.len(),
        forall|k: int|
            0 <= k < sorted.len() ==> #[trigger] sorted[k].count == cat_count(
                games,
                cat,
                sorted[k].name@,
            ),
        forall|k: int| 0 <= k < sorted.len() ==> #[trigger] sorted[k].query_value@
            == sorted[k].name@,
        forall|k: int, l: int| 0 <= k < l < sorted.len() ==> sorted[k].name@ != sorted[l].name@,
        forall|v: Seq<char>|
            (#[trigger] cat_count(games, cat, v) > 0 && (exists|k: int|
                0 <= k < table.len() && #[trigger] table[k].name@ == v)) ==> exists|k: int|
                0 <= k < sorted.len() && #[trigger] sorted[k].name@ == v,
{
    lemma_perm_contains(sorted, table);
    sorted.to_multiset_ensures();
    table.to_multiset_ensures();
    assert forall|k: int| 0 <= k < sorted.len() implies #[trigger] sorted[k].count == cat_count(
        games,
        cat,
        sorted[k].name@,
    ) by {
        assert(sorted.contains(sorted[k]));
        let g = choose|g: int| 0 <= g < table.len() && table[g] == sorted[k];
        assert(table[g].count == cat_count(games, cat, table[g].name@));
    }
    assert forall|k: int| 0 <= k < sorted.len() implies #[trigger] sorted[k].query_value@
        == sorted[k].name@ by {
        assert(sorted.contains(sorted[k]));
        let g = choose|g: int| 0 <= g < table.len() && table[g] == sorted[k];
        assert(table[g].query_value@ == table[g].name@);
    }
    assert(table.no_duplicates()) by {
        assert forall|k: int, l: int|
            0 <= k < table.len() && 0 <= l < table.len() && k != l implies table[k]
            != table[l] by {
            if k < l {
                assert(table[k].name@ != table[l].name@);
            } else {
                assert(table[l].name@ != table[k].name@);
            }
        }
    }
    table.lemma_multiset_has_no_duplicates();
    sorted.lemma_multiset_has_no_duplicates_conv();
    assert forall|k: int, l: int| 0 <= k < l < sorted.len() implies sorted[k].name@
        != sorted[l].name@ by {
        if sorted[k].name@ == sorted[l].name@ {
            assert(sorted.contains(sorted[k]));
            assert(sorted.contains(sorted[l]));
            let gk = choose|g: int| 0 <= g < table.len() && table[g] == sorted[k];
            let gl = choose|g: int| 0 <= g < table.len() && table[g] == sorted[l];
            assert(gk == gl);
            assert(sorted[k] == sorted[l]);
        }
    }
    assert forall|v: Seq<char>|
        (#[trigger] cat_count(games, cat, v) > 0 && (exists|k: int|
            0 <= k < table.len() && #[trigger] table[k].name@ == v)) implies exists|k: int|
            0 <= k < sorted.len() && #[trigger] sorted[k].name@ == v by {
        let g = choose|g: int| 0 <= g < table.len() && #[trigger] table[g].name@ == v;
        assert(table.contains(table[g]));
        assert(sorted.contains(table[g]));
        let k = choose|k: int| 0 <= k < sorted.len() && sorted[k] == table[g];
        assert(sorted[k].name@ == v);
    }
}

/// The year table: the ordinary category pipeline, then reordered by year,
/// most recent year first.
pub fn year_stats_table(games: &Vec<Game>) -> (r: Vec<StatEntry>)
    requires
        cat_total(games@, Category::Year) <= usize::MAX,
    ensures
        year_table_wf(r@, games@),
{
    let table = category_stats(games, Category::Year);
    let ghost gtable = table@;
    let r = sort_entries(SortOrder::NameOnly, table);
    proof {
        lemma_reordered_table(r@, gtable, games@, Category::Year);
    }
    r
}

/// What the status table promises: one row per status, in a fixed order,
/// each with its display label, its exact record count, and its query
/// token.
pub open spec fn status_table_ok(table: Seq<StatEntry>, games: Seq<Game>) -> bool {
    &&& table.len() == 8
    &&& status_row_ok(table[0], games, "Unknown"@, Status::Unknown)
    &&& status_row_ok(table[1], games, "Does not run"@, Status::DoesNotRun)
    &&& status_row_ok(table[2], games, "Launches"@, Status::Launches)
    &&& status_row_ok(table[3], games, "Major bugs"@, Status::MajorBugs)
    &&& status_row_ok(table[4], games, "Medium impact"@, Status::MediumImpact)
    &&& status_row_ok(table[5], games, "Minor bugs"@, Status::MinorBugs)
    &&& status_row_ok(table[6], games, "Completable"@, Status::Completable)
    &&& status_row_ok(table[7], games, "Perfect"@, Status::Perfect)
}

/// One status row: its label, the exact count of records with the status,
/// and the status's query token.
pub open spec fn status_row_ok(
    row: StatEntry,
    games: Seq<Game>,
    label: Seq<char>,
    s: Status,
) -> bool {
    &&& row.name@ == label
    &&& row.count == status_count(games, s)
    &&& row.query_value@ == s.spec_query_value()
}

/// Build one status row.
fn status_row(games: &Vec<Game>, label: &str, s: Status) -> (r: StatEntry)
    ensures
        status_row_ok(r, games@, label@, s),
{
    StatEntry { name: label.to_owned(), count: count_status(games, s), query_value: s.query_value() }
}

/// The status table: the eight statuses in their severity order, each with
/// its record count.
pub fn status_stats_table(games: &Vec<Game>) -> (r: Vec<StatEntry>)
    ensures
        status_table_ok(r@, games@),
{
    let mut table: Vec<StatEntry> = Vec::new();
    table.push(status_row(games, "Unknown", Status::Unknown));
    table.push(status_row(games, "Does not run", Status::DoesNotRun));
    table.push(status_row(games, "Launches", Status::Launches));
    table.push(status_row(games, "Major bugs", Status::MajorBugs));
    table.push(status_row(games, "Medium impact", Status::MediumImpact));
    table.push(status_row(games, "Minor bugs", Status::MinorBugs));
    table.push(status_row(games, "Completable", Status::Completable));
    table.push(status_row(games, "Perfect", Status::Perfect));
    table
}

} // verus!
