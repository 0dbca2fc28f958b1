//! The rows of the widget panel, and the order in which they are shown.
use vstd::prelude::*;
use vstd::string::*;
use crate::text::{
    precedes, str_precedes, lemma_precedes_irreflexive, lemma_precedes_transitive,
    lemma_precedes_total,
};

verus! {

broadcast use vstd::seq_lib::group_to_multiset_ensures;

/// One row of the widget panel: the name a widget was registered under,
/// the text it shows and the name of the colour to show it in.
#[derive(Debug)]
pub struct WidgetInfo {
    pub name: String,
    pub text: String,
    pub color: String,
}

/// What came of asking a registered widget to render itself.
pub enum RenderOutcome {
    /// The render function returned a text and the name of a colour.
    Rendered { text: String, color: String },
    /// The render function raised an error, described by `message`.
    Failed { message: String },
    /// The widget's configuration holds no render function.
    Missing,
}

/// A widget row seen as its three strings: name, text and colour.
pub type WidgetRow = (Seq<char>, Seq<char>, Seq<char>);

impl View for WidgetInfo {
    type V = WidgetRow;

    open spec fn view(&self) -> WidgetRow {
        (self.name@, self.text@, self.color@)
    }
}

/// The rows that a sequence of widgets shows.
pub open spec fn rows_of(widgets: Seq<WidgetInfo>) -> Seq<WidgetRow> {
    widgets.map_values(|w: WidgetInfo| w@)
}

/// Whether a row was registered under the name `k`.
pub open spec fn has_name(k: Seq<char>) -> spec_fn(WidgetRow) -> bool {
    |r: WidgetRow| r.0 == k
}

/// The rows registered under the name `k`, in their order in `rows`.
pub open spec fn named(rows: Seq<WidgetRow>, k: Seq<char>) -> Seq<WidgetRow> {
    rows.filter(has_name(k))
}

/// No row is followed by a row whose name comes before its own.
pub open spec fn sorted_by_name(rows: Seq<WidgetRow>) -> bool {
    forall|i: int, j: int|
        #![trigger rows[i], rows[j]]
        0 <= i < j < rows.len() ==> !precedes(rows[j].0, rows[i].0)
}

/// `rows` holds the rows of `from`, sorted by name, rows of equal names
/// keeping their order in `from`: what a stable sort by name makes of `from`.
pub open spec fn arranged_by_name(rows: Seq<WidgetRow>, from: Seq<WidgetRow>) -> bool {
    &&& sorted_by_name(rows)
    &&& rows.to_multiset() == from.to_multiset()
    &&& forall|k: Seq<char>| #[trigger] named(rows, k) == named(from, k)
}

/// The text of the row of a widget named `name` whose rendering came to `outcome`.
pub open spec fn outcome_text(name: Seq<char>, outcome: RenderOutcome) -> Seq<char> {
    match outcome {
        RenderOutcome::Rendered { text, .. } => text@,
        RenderOutcome::Failed { message } => "Lua Error: "@ + message@,
        RenderOutcome::Missing => "Widget '"@ + name + "' has no render function"@,
    }
}

/// The colour of the row of a widget whose rendering came to `outcome`.
pub open spec fn outcome_color(outcome: RenderOutcome) -> Seq<char> {
    match outcome {
        RenderOutcome::Rendered { color, .. } => color@,
        RenderOutcome::Failed { .. } => "red"@,
        RenderOutcome::Missing => "yellow"@,
    }
}

/// The row of a widget named `name` whose rendering came to `outcome`.
pub open spec fn outcome_row(name: Seq<char>, outcome: RenderOutcome) -> WidgetRow {
    (name, outcome_text(name, outcome), outcome_color(outcome))
}

/// The row of a rendered widget shows the text and colour its render
/// function returned; a failed one shows the error in red; one without a
/// render function says so in yellow.
pub proof fn lemma_outcome_rows(name: Seq<char>, outcome: RenderOutcome)
    ensures
        outcome_row(name, outcome).0 == name,
        outcome matches RenderOutcome::Rendered { text, color } ==> outcome_row(name, outcome).1
            == text@ && outcome_row(name, outcome).2 == color@,
        outcome matches RenderOutcome::Failed { message } ==> outcome_row(name, outcome).1
            == "Lua Error: "@ + message@ && outcome_row(name, outcome).2 == "red"@,
        outcome is Missing ==> outcome_row(name, outcome).1 == "Widget '"@ + name
            + "' has no render function"@ && outcome_row(name, outcome).2 == "yellow"@,
{
}

/// The rows of a sequence of widget names with what their rendering came to.
pub open spec fn entry_rows(entries: Seq<(String, RenderOutcome)>) -> Seq<WidgetRow> {
    entries.map_values(|e: (String, RenderOutcome)| outcome_row(e.0@, e.1))
}

/// The row of the widget registered under `name`, given what its render
/// function came to: the text and colour it returned; its error, in red; or,
/// when it has none, a note saying so, in yellow.
pub fn widget_from_outcome(name: String, outcome: RenderOutcome) -> (w: WidgetInfo)
    ensures
        w@ == outcome_row(name@, outcome),
        w.name@ == name@,
        outcome matches RenderOutcome::Rendered { text, color } ==> w.text@ == text@ && w.color@
            == color@,
        outcome matches RenderOutcome::Failed { message } ==> w.text@ == "Lua Error: "@ + message@
            && w.color@ == "red"@,
        outcome is Missing ==> w.text@ == "Widget '"@ + name@ + "' has no render function"@
            && w.color@ == "yellow"@,
{
    match outcome {
        RenderOutcome::Rendered { text, color } => WidgetInfo { name, text, color },
        RenderOutcome::Failed { message } => {
            let mut text = String::from_str("Lua Error: ");
            text.append(message.as_str());
            WidgetInfo { name, text, color: String::from_str("red") }
        },
        RenderOutcome::Missing => {
            let mut text = String::from_str("Widget '");
            text.append(name.as_str());
            text.append("' has no render function");
            WidgetInfo { name, text, color: String::from_str("yellow") }
        },
    }
}

proof fn lemma_filter_none<A>(s: Seq<A>, pred: spec_fn(A) -> bool)
    requires
        forall|i: int| 0 <= i < s.len() ==> !pred(#[trigger] s[i]),
    ensures
        s.filter(pred) == Seq::<A>::empty(),
    decreases s.len(),
{
    reveal(Seq::filter);
    if s.len() > 0 {
        lemma_filter_none(s.drop_last(), pred);
    }
    assert(s.filter(pred) =~= Seq::<A>::empty());
}

/// Inserting a row before the first row whose name comes after its own, and
/// after every other, extends a stable arrangement by that row.
proof fn lemma_insert_keeps_arrangement(
    rows: Seq<WidgetRow>,
    from: Seq<WidgetRow>,
    p: int,
    r: WidgetRow,
)
    requires
        arranged_by_name(rows, from),
        0 <= p <= rows.len(),
        forall|j: int| 0 <= j < p ==> !precedes(r.0, #[trigger] rows[j].0),
        p < rows.len() ==> precedes(r.0, rows[p].0),
    ensures
        arranged_by_name(rows.insert(p, r), from.push(r)),
{
    let a = rows.take(p);
    let b = rows.skip(p);
    let ins = rows.insert(p, r);
    assert(rows =~= a + b);
    assert(ins =~= a.push(r) + b);
    rows.insert_ensures(p, r);
    assert forall|i: int, j: int| 0 <= i < j < ins.len() implies !precedes(
        #[trigger] ins[j].0,
        #[trigger] ins[i].0,
    ) by {
        if j < p {
            assert(ins[i] == rows[i] && ins[j] == rows[j]);
        } else if j == p {
            assert(ins[i] == rows[i]);
        } else if i == p {
            assert(ins[j] == rows[j - 1]);
            if precedes(rows[j - 1].0, r.0) {
                lemma_precedes_transitive(rows[j - 1].0, r.0, rows[p].0);
                if j - 1 == p {
                    lemma_precedes_irreflexive(rows[p].0);
                } else {
                    assert(!precedes(rows[j - 1].0, rows[p].0));
                }
            }
        } else if i < p {
            assert(ins[i] == rows[i] && ins[j] == rows[j - 1]);
        } else {
            assert(ins[i] == rows[i - 1] && ins[j] == rows[j - 1]);
        }
    }
    assert forall|k: Seq<char>| #[trigger] named(ins, k) == named(from.push(r), k) by {
        let pred = has_name(k);
        Seq::filter_distributes_over_add(a.push(r), b, pred);
        Seq::filter_distributes_over_add(a, b, pred);
        a.lemma_filter_push(r, pred);
        from.lemma_filter_push(r, pred);
        assert(named(rows, k) == named(from, k));
        assert(named(rows, k) == a.filter(pred) + b.filter(pred));
        assert(named(ins, k) == a.push(r).filter(pred) + b.filter(pred));
        if r.0 == k {
            assert forall|m: int| 0 <= m < b.len() implies !pred(#[trigger] b[m]) by {
                assert(b[m] == rows[p + m]);
                if rows[p + m].0 == r.0 {
                    if m == 0 {
                        lemma_precedes_irreflexive(r.0);
                    } else {
                        assert(!precedes(rows[p + m].0, rows[p].0));
                    }
                }
            }
            lemma_filter_none(b, pred);
            assert(a.filter(pred) + b.filter(pred) =~= a.filter(pred));
            assert(a.filter(pred).push(r) + b.filter(pred) =~= a.filter(pred).push(r));
        }
    }
}

/// Sorts widgets by name, in the order of [`precedes`], keeping widgets of
/// equal names in the order they came in.
pub fn sort_widgets_by_name(widgets: Vec<WidgetInfo>) -> (sorted: Vec<WidgetInfo>)
    ensures
        arranged_by_name(rows_of(sorted@), rows_of(widgets@)),
{
    let ghost input = rows_of(widgets@);
    let mut rest = widgets;
    let mut out: Vec<WidgetInfo> = Vec::new();
    let ghost mut done: int = 0;
    assert(input.take(0) =~= Seq::<WidgetRow>::empty());
    assert(rows_of(out@) =~= Seq::<WidgetRow>::empty());
    assert(rows_of(rest@) =~= input.subrange(0, input.len() as int));
    while rest.len() > 0
        invariant
            0 <= done <= input.len(),
            input.len() == done + rest@.len(),
            rows_of(rest@) == input.subrange(done, input.len() as int),
            arranged_by_name(rows_of(out@), input.take(done)),
        decreases rest.len(),
    {
        let ghost before = rest@;
        let w = rest.remove(0);
        assert(w@ == rows_of(before)[0]);
        assert(w@ == input[done]);
        let ghost rows = rows_of(out@);
        let mut p: usize = 0;
        loop
            invariant
                p <= out.len(),
                rows == rows_of(out@),
                forall|j: int| 0 <= j < p ==> !precedes(w.name@, #[trigger] rows[j].0),
            ensures
                p <= out.len(),
                forall|j: int| 0 <= j < p ==> !precedes(w.name@, #[trigger] rows[j].0),
                p < out.len() ==> precedes(w.name@, rows[p as int].0),
            decreases out.len() - p,
        {
            if p == out.len() {
                break;
            }
            if str_precedes(w.name.as_str(), out[p].name.as_str()) {
                break;
            }
            p = p + 1;
        }
        proof {
            lemma_insert_keeps_arrangement(rows, input.take(done), p as int, w@);
            assert(input.take(done + 1) =~= input.take(done).push(w@));
        }
        out.insert(p, w);
        proof {
            assert(rows_of(out@) =~= rows.insert(p as int, w@));
            assert(rest@ =~= before.subrange(1, before.len() as int));
            assert forall|i: int| 0 <= i < rest@.len() implies #[trigger] rows_of(rest@)[i]
                == input[done + 1 + i] by {
                assert(rows_of(rest@)[i] == rows_of(before)[i + 1]);
            }
            assert(rows_of(rest@) =~= input.subrange(done + 1, input.len() as int));
            done = done + 1;
        }
    }
    assert(input.take(done) =~= input);
    out
}

/// The widget panel for the registered widgets `entries`, each a name with
/// what its rendering came to: one row for each, sorted by name.
pub fn assemble_widgets(entries: Vec<(String, RenderOutcome)>) -> (widgets: Vec<WidgetInfo>)
    ensures
        arranged_by_name(rows_of(widgets@), entry_rows(entries@)),
{
    let ghost input = entries@;
    let mut rest = entries;
    let mut rows: Vec<WidgetInfo> = Vec::new();
    let ghost mut done: int = 0;
    assert(rest@ =~= input.subrange(0, input.len() as int));
    assert(rows_of(rows@) =~= entry_rows(input.take(0)));
    while rest.len() > 0
        invariant
            0 <= done <= input.len(),
            input.len() == done + rest@.len(),
            rest@ == input.subrange(done, input.len() as int),
            rows_of(rows@) == entry_rows(input.take(done)),
        decreases rest.len(),
    {
        let ghost before = rest@;
        let entry = rest.remove(0);
        assert(entry == input[done]);
        let (name, outcome) = entry;
        let w = widget_from_outcome(name, outcome);
        assert(w@ == outcome_row(input[done].0@, input[done].1));
        let ghost prev = rows@;
        assert(prev.len() == done) by {
            assert(rows_of(prev).len() == entry_rows(input.take(done)).len());
        }
        rows.push(w);
        proof {
            assert(rows@ == prev.push(w));
            assert forall|i: int| 0 <= i <= done implies #[trigger] rows_of(rows@)[i] == entry_rows(
                input.take(done + 1),
            )[i] by {
                if i < done {
                    assert(rows_of(rows@)[i] == rows_of(prev)[i]);
                    assert(entry_rows(input.take(done + 1))[i] == entry_rows(input.take(done))[i]);
                }
            }
            assert(rows_of(rows@) =~= entry_rows(input.take(done + 1)));
            assert(rest@ =~= input.subrange(done + 1, input.len() as int));
            done = done + 1;
        }
    }
    assert(input.take(done) =~= input);
    sort_widgets_by_name(rows)
}

/// The rows named `k` of a non-empty sequence: its first row, if so named,
/// then those of the rest.
proof fn lemma_named_of_front(rows: Seq<WidgetRow>, k: Seq<char>)
    requires
        rows.len() > 0,
    ensures
        named(rows, k) == (if rows[0].0 == k {
            seq![rows[0]]
        } else {
            Seq::<WidgetRow>::empty()
        }) + named(rows.drop_first(), k),
{
    assert(rows =~= seq![rows[0]] + rows.drop_first());
    rows.drop_first().lemma_filter_prepend(rows[0], has_name(k));
}

/// Some row of a non-empty sequence has the name of its first row.
proof fn lemma_front_name_present(rows: Seq<WidgetRow>)
    requires
        rows.len() > 0,
    ensures
        named(rows, rows[0].0).len() > 0,
        named(rows, rows[0].0)[0] == rows[0],
{
    lemma_named_of_front(rows, rows[0].0);
}

/// Two name-sorted sequences that hold the same rows under every name, in
/// the same order, are the same.
proof fn lemma_sorted_determined_by_names(r1: Seq<WidgetRow>, r2: Seq<WidgetRow>)
    requires
        sorted_by_name(r1),
        sorted_by_name(r2),
        forall|k: Seq<char>| #[trigger] named(r1, k) == named(r2, k),
    ensures
        r1 == r2,
    decreases r1.len() + r2.len(),
{
    if r1.len() == 0 && r2.len() == 0 {
        assert(r1 =~= r2);
    } else if r1.len() == 0 {
        lemma_front_name_present(r2);
        lemma_filter_none(r1, has_name(r2[0].0));
        assert(named(r1, r2[0].0) == named(r2, r2[0].0));
    } else if r2.len() == 0 {
        lemma_front_name_present(r1);
        lemma_filter_none(r2, has_name(r1[0].0));
        assert(named(r1, r1[0].0) == named(r2, r1[0].0));
    } else {
        let x = r1[0];
        let y = r2[0];
        lemma_front_name_present(r1);
        lemma_front_name_present(r2);
        assert(named(r1, x.0) == named(r2, x.0));
        assert(named(r1, y.0) == named(r2, y.0));
        assert(named(r2, x.0).contains(x));
        r2.lemma_filter_contains_rev(has_name(x.0), x);
        assert(named(r1, y.0).contains(y));
        r1.lemma_filter_contains_rev(has_name(y.0), y);
        if x.0 != y.0 {
            let n = choose|n: int| 0 <= n < r2.len() && r2[n] == x;
            let m = choose|m: int| 0 <= m < r1.len() && r1[m] == y;
            lemma_precedes_total(x.0, y.0);
            if precedes(x.0, y.0) {
                assert(n != 0);
                assert(!precedes(r2[n].0, r2[0].0));
            } else {
                assert(m != 0);
                assert(!precedes(r1[m].0, r1[0].0));
            }
        }
        let k = x.0;
        let t1 = r1.drop_first();
        let t2 = r2.drop_first();
        lemma_named_of_front(r1, k);
        lemma_named_of_front(r2, k);
        assert(named(r1, k) == named(r2, k));
        assert(named(r1, k)[0] == x);
        assert(named(r2, k)[0] == y);
        assert(x == y);
        assert(named(t1, k) =~= named(r1, k).drop_first());
        assert(named(t2, k) =~= named(r2, k).drop_first());
        assert forall|kk: Seq<char>| #[trigger] named(t1, kk) == named(t2, kk) by {
            lemma_named_of_front(r1, kk);
            lemma_named_of_front(r2, kk);
            assert(named(r1, kk) == named(r2, kk));
            if kk != k {
                assert(named(t1, kk) =~= named(r1, kk));
                assert(named(t2, kk) =~= named(r2, kk));
            }
        }
        assert forall|i: int, j: int| 0 <= i < j < t1.len() implies !precedes(
            #[trigger] t1[j].0,
            #[trigger] t1[i].0,
        ) by {
            assert(t1[i] == r1[i + 1] && t1[j] == r1[j + 1]);
        }
        assert forall|i: int, j: int| 0 <= i < j < t2.len() implies !precedes(
            #[trigger] t2[j].0,
            #[trigger] t2[i].0,
        ) by {
            assert(t2[i] == r2[i + 1] && t2[j] == r2[j + 1]);
        }
        lemma_sorted_determined_by_names(t1, t2);
        assert(r1 =~= r2) by {
            assert forall|i: int| 0 <= i < r1.len() implies r1[i] == r2[i] by {
                if i > 0 {
                    assert(r1[i] == t1[i - 1] && r2[i] == t2[i - 1]);
                }
            }
        }
    }
}

/// The panel is determined by the rows it shows: two stable arrangements
/// by name of the same rows are the same.
pub proof fn lemma_arrangement_unique(
    panel1: Seq<WidgetRow>,
    panel2: Seq<WidgetRow>,
    from: Seq<WidgetRow>,
)
    requires
        arranged_by_name(panel1, from),
        arranged_by_name(panel2, from),
    ensures
        panel1 == panel2,
{
    assert forall|k: Seq<char>| #[trigger] named(panel1, k) == named(panel2, k) by {
        assert(named(panel1, k) == named(from, k));
        assert(named(panel2, k) == named(from, k));
    }
    lemma_sorted_determined_by_names(panel1, panel2);
}

/// No two rows share a name.
pub open spec fn distinct_names(rows: Seq<WidgetRow>) -> bool {
    forall|i: int, j: int|
        #![trigger rows[i], rows[j]]
        0 <= i < rows.len() && 0 <= j < rows.len() && i != j ==> rows[i].0 != rows[j].0
}

/// A reordering of rows of distinct names has distinct names.
proof fn lemma_distinct_names_permuted(s: Seq<WidgetRow>, t: Seq<WidgetRow>)
    requires
        distinct_names(s),
        t.to_multiset() == s.to_multiset(),
    ensures
        distinct_names(t),
{
    assert forall|i: int, j: int|
        0 <= i < t.len() && 0 <= j < t.len() && i != j implies #[trigger] t[i].0 != #[trigger] t[j].0 by {
        if t[i].0 == t[j].0 {
            let u = t.remove(j);
            let ii = if i < j { i } else { i - 1 };
            assert(u[ii] == t[i]);
            assert(u.contains(t[i]));
            assert(t.contains(t[j]));
            assert(s.to_multiset().count(t[j]) > 0);
            let a = choose|a: int| 0 <= a < s.len() && s[a] == t[j];
            let v = s.remove(a);
            assert(v.to_multiset() == u.to_multiset());
            assert(v.to_multiset().count(t[i]) > 0);
            assert(v.contains(t[i]));
            let b = choose|b: int| 0 <= b < v.len() && v[b] == t[i];
            let bb = if b < a { b } else { b + 1 };
            assert(s[bb] == v[b]);
            assert(s[bb].0 == s[a].0);
        }
    }
}

/// Two name-sorted sequences of the same rows, no two of a name, are the same.
proof fn lemma_sorted_distinct_unique(r1: Seq<WidgetRow>, r2: Seq<WidgetRow>)
    requires
        sorted_by_name(r1),
        sorted_by_name(r2),
        r1.to_multiset() == r2.to_multiset(),
        distinct_names(r1),
    ensures
        r1 == r2,
    decreases r1.len(),
{
    vstd::seq_lib::to_multiset_len(r1);
    vstd::seq_lib::to_multiset_len(r2);
    if r1.len() == 0 {
        assert(r1 =~= r2);
    } else {
        let x = r1[0];
        let y = r2[0];
        assert(r1.contains(x));
        assert(r2.to_multiset().count(x) > 0);
        assert(r2.contains(x));
        let n = choose|n: int| 0 <= n < r2.len() && r2[n] == x;
        assert(r2.contains(y));
        assert(r1.to_multiset().count(y) > 0);
        assert(r1.contains(y));
        let m = choose|m: int| 0 <= m < r1.len() && r1[m] == y;
        if m != 0 && n != 0 {
            assert(!precedes(r1[m].0, r1[0].0));
            assert(!precedes(r2[n].0, r2[0].0));
            if x.0 != y.0 {
                lemma_precedes_total(x.0, y.0);
            }
            assert(r1[m].0 == r1[0].0);
        }
        assert(x == y);
        let t1 = r1.drop_first();
        let t2 = r2.drop_first();
        assert(t1 =~= r1.remove(0));
        assert(t2 =~= r2.remove(0));
        assert(t1.to_multiset() == t2.to_multiset());
        assert forall|i: int, j: int| 0 <= i < j < t1.len() implies !precedes(
            #[trigger] t1[j].0,
            #[trigger] t1[i].0,
        ) by {
            assert(t1[i] == r1[i + 1] && t1[j] == r1[j + 1]);
        }
        assert forall|i: int, j: int| 0 <= i < j < t2.len() implies !precedes(
            #[trigger] t2[j].0,
            #[trigger] t2[i].0,
        ) by {
            assert(t2[i] == r2[i + 1] && t2[j] == r2[j + 1]);
        }
        assert forall|i: int, j: int|
            0 <= i < t1.len() && 0 <= j < t1.len() && i != j implies #[trigger] t1[i].0
            != #[trigger] t1[j].0 by {
            assert(t1[i] == r1[i + 1] && t1[j] == r1[j + 1]);
        }
        lemma_sorted_distinct_unique(t1, t2);
        assert(r1 =~= r2) by {
            assert forall|i: int| 0 <= i < r1.len() implies r1[i] == r2[i] by {
                if i > 0 {
                    assert(r1[i] == t1[i - 1] && r2[i] == t2[i - 1]);
                }
            }
        }
    }
}

/// When no two rows share a name, their arrangement by name is in strictly
/// increasing order of names.
pub proof fn lemma_distinct_arrangement_strictly_sorted(panel: Seq<WidgetRow>, from: Seq<WidgetRow>)
    requires
        arranged_by_name(panel, from),
        distinct_names(from),
    ensures
        forall|i: int, j: int|
            #![trigger panel[i], panel[j]]
            0 <= i < j < panel.len() ==> precedes(panel[i].0, panel[j].0),
{
    lemma_distinct_names_permuted(from, panel);
    assert forall|i: int, j: int| 0 <= i < j < panel.len() implies precedes(
        #[trigger] panel[i].0,
        #[trigger] panel[j].0,
    ) by {
        assert(panel[i].0 != panel[j].0);
        assert(!precedes(panel[j].0, panel[i].0));
        lemma_precedes_total(panel[i].0, panel[j].0);
    }
}

/// When no two registered widgets share a name, the panel does not depend
/// on the order in which the widgets were found: arranging the same rows,
/// found in any two orders, gives the same panel.
pub proof fn lemma_panel_ignores_discovery_order(
    panel1: Seq<WidgetRow>,
    found1: Seq<WidgetRow>,
    panel2: Seq<WidgetRow>,
    found2: Seq<WidgetRow>,
)
    requires
        arranged_by_name(panel1, found1),
        arranged_by_name(panel2, found2),
        found1.to_multiset() == found2.to_multiset(),
        distinct_names(found1),
    ensures
        panel1 == panel2,
{
    lemma_distinct_names_permuted(found1, panel1);
    lemma_sorted_distinct_unique(panel1, panel2);
}

} // verus!
