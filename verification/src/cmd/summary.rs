//! `folio summary`: aggregate financial report.
//!
//! Totals billed, paid and outstanding across all non-voided invoices, with
//! a breakdown by client and by currency and a count per status.  Voided
//! invoices are left out of every figure.
use vstd::prelude::*;
use crate::compute::{spec_add, spec_sub, zero_dec};
use crate::decimal::{checked_add, checked_sub, Decimal};
use crate::text::same_text;
use crate::types::{InvoiceStatus, QuoteStatus};

verus! {

/// Arguments of `folio summary`.
#[derive(Clone, Debug)]
pub struct SummaryArgs {
    /// Restrict the report to the given year.
    pub year: Option<i32>,
    /// Restrict the report to the given client slug.
    pub client: Option<String>,
}

/// What the report needs of one computed invoice.
#[derive(Clone, Debug)]
pub struct SummaryRow {
    pub client: String,
    pub currency: String,
    pub status: InvoiceStatus,
    pub total: Decimal,
    pub outstanding: Decimal,
    /// The amount of the `[paid]` block, if any.
    pub paid: Option<Decimal>,
}

/// The report.
#[derive(Clone, Debug)]
pub struct Summary {
    pub total_billed: Decimal,
    pub total_paid: Decimal,
    pub total_outstanding: Decimal,
    /// `(client, billed, paid)`, one entry per client, in order of first appearance.
    pub by_client: Vec<(String, Decimal, Decimal)>,
    /// `(currency, billed)`, one entry per currency, in order of first appearance.
    pub by_currency: Vec<(String, Decimal)>,
    /// `(status, count)`, one entry per status that occurs, in order of first appearance.
    pub status_counts: Vec<(InvoiceStatus, usize)>,
}

/// A row counts towards the report unless its invoice is voided.
pub open spec fn counted(r: SummaryRow) -> bool {
    r.status != InvoiceStatus::Voided
}

/// The sum, from zero and in order, of the amounts `pick` takes from the
/// first `n` rows (rows it gives `None` for are skipped).
pub open spec fn fold_amounts(rows: Seq<SummaryRow>, n: int, pick: spec_fn(SummaryRow) -> Option<Decimal>) -> Option<Decimal>
    decreases n,
{
    if n <= 0 {
        Some(zero_dec())
    } else {
        match fold_amounts(rows, n - 1, pick) {
            None => None,
            Some(acc) => match pick(rows[n - 1]) {
                Some(a) => spec_add(acc, a),
                None => Some(acc),
            },
        }
    }
}

pub open spec fn pick_billed() -> spec_fn(SummaryRow) -> Option<Decimal> {
    |r: SummaryRow| if counted(r) { Some(r.total) } else { None }
}

pub open spec fn pick_paid() -> spec_fn(SummaryRow) -> Option<Decimal> {
    |r: SummaryRow| if counted(r) { r.paid } else { None }
}

pub open spec fn pick_outstanding() -> spec_fn(SummaryRow) -> Option<Decimal> {
    |r: SummaryRow| if counted(r) { Some(r.outstanding) } else { None }
}

pub open spec fn pick_client_billed(c: Seq<char>) -> spec_fn(SummaryRow) -> Option<Decimal> {
    |r: SummaryRow| if counted(r) && r.client@ == c { Some(r.total) } else { None }
}

pub open spec fn pick_client_paid(c: Seq<char>) -> spec_fn(SummaryRow) -> Option<Decimal> {
    |r: SummaryRow| if counted(r) && r.client@ == c { r.paid } else { None }
}

pub open spec fn pick_currency(k: Seq<char>) -> spec_fn(SummaryRow) -> Option<Decimal> {
    |r: SummaryRow| if counted(r) && r.currency@ == k { Some(r.total) } else { None }
}

/// The number of counted rows among the first `n` with status `s`.
pub open spec fn status_count(rows: Seq<SummaryRow>, n: int, s: InvoiceStatus) -> nat
    decreases n,
{
    if n <= 0 {
        0
    } else {
        status_count(rows, n - 1, s) + if counted(rows[n - 1]) && rows[n - 1].status == s { 1nat } else { 0nat }
    }
}

/// Some counted row among the first `n` belongs to client `c`.
pub open spec fn has_client(rows: Seq<SummaryRow>, n: int, c: Seq<char>) -> bool {
    exists|i: int| 0 <= i < n && counted(#[trigger] rows[i]) && rows[i].client@ == c
}

/// Some counted row among the first `n` is in currency `k`.
pub open spec fn has_currency(rows: Seq<SummaryRow>, n: int, k: Seq<char>) -> bool {
    exists|i: int| 0 <= i < n && counted(#[trigger] rows[i]) && rows[i].currency@ == k
}

/// Every sum of the report stays within what `rust_decimal` can hold.
pub open spec fn summable(rows: Seq<SummaryRow>) -> bool {
    let n = rows.len() as int;
    &&& fold_amounts(rows, n, pick_billed()) is Some
    &&& fold_amounts(rows, n, pick_paid()) is Some
    &&& fold_amounts(rows, n, pick_outstanding()) is Some
    &&& forall|c: Seq<char>| #[trigger] has_client(rows, n, c) ==> fold_amounts(rows, n, pick_client_billed(c)) is Some
        && fold_amounts(rows, n, pick_client_paid(c)) is Some
    &&& forall|k: Seq<char>| #[trigger] has_currency(rows, n, k) ==> fold_amounts(rows, n, pick_currency(k)) is Some
}

/// The client breakdown of the first `n` rows: one entry per client with a
/// counted row, holding that client's billed and paid sums.
pub open spec fn clients_match(rows: Seq<SummaryRow>, n: int, groups: Seq<(String, Decimal, Decimal)>) -> bool {
    &&& forall|i: int, j: int| 0 <= i < j < groups.len() ==> (#[trigger] groups[i]).0@ != (#[trigger] groups[j]).0@
    &&& forall|i: int| 0 <= i < groups.len() ==> {
        &&& has_client(rows, n, (#[trigger] groups[i]).0@)
        &&& fold_amounts(rows, n, pick_client_billed(groups[i].0@)) == Some(groups[i].1)
        &&& fold_amounts(rows, n, pick_client_paid(groups[i].0@)) == Some(groups[i].2)
    }
    &&& forall|c: Seq<char>| #[trigger] has_client(rows, n, c) ==> exists|i: int| 0 <= i < groups.len() && (#[trigger] groups[i]).0@ == c
}

/// The currency breakdown of the first `n` rows.
pub open spec fn currencies_match(rows: Seq<SummaryRow>, n: int, groups: Seq<(String, Decimal)>) -> bool {
    &&& forall|i: int, j: int| 0 <= i < j < groups.len() ==> (#[trigger] groups[i]).0@ != (#[trigger] groups[j]).0@
    &&& forall|i: int| 0 <= i < groups.len() ==> {
        &&& has_currency(rows, n, (#[trigger] groups[i]).0@)
        &&& fold_amounts(rows, n, pick_currency(groups[i].0@)) == Some(groups[i].1)
    }
    &&& forall|k: Seq<char>| #[trigger] has_currency(rows, n, k) ==> exists|i: int| 0 <= i < groups.len() && (#[trigger] groups[i]).0@ == k
}

/// The status counts of the first `n` rows: one entry per status that
/// occurs among the counted rows, with its count.
pub open spec fn statuses_match(rows: Seq<SummaryRow>, n: int, counts: Seq<(InvoiceStatus, usize)>) -> bool {
    &&& forall|i: int, j: int| 0 <= i < j < counts.len() ==> (#[trigger] counts[i]).0 != (#[trigger] counts[j]).0
    &&& forall|i: int| 0 <= i < counts.len() ==> (#[trigger] counts[i]).1 == status_count(rows, n, counts[i].0)
        && counts[i].1 > 0
    &&& forall|s: InvoiceStatus| #[trigger] status_count(rows, n, s) > 0 ==> exists|i: int| 0 <= i < counts.len() && (#[trigger] counts[i]).0 == s
}

/// The report is exactly what the rows determine.
pub open spec fn summary_of(s: Summary, rows: Seq<SummaryRow>) -> bool {
    let n = rows.len() as int;
    &&& fold_amounts(rows, n, pick_billed()) == Some(s.total_billed)
    &&& fold_amounts(rows, n, pick_paid()) == Some(s.total_paid)
    &&& fold_amounts(rows, n, pick_outstanding()) == Some(s.total_outstanding)
    &&& clients_match(rows, n, s.by_client@)
    &&& currencies_match(rows, n, s.by_currency@)
    &&& statuses_match(rows, n, s.status_counts@)
}


/// A sum that failed on a prefix fails on the whole.
proof fn lemma_fold_none_grows(rows: Seq<SummaryRow>, n: int, m: int, pick: spec_fn(SummaryRow) -> Option<Decimal>)
    requires
        0 <= n <= m,
        fold_amounts(rows, n, pick) is None,
    ensures
        fold_amounts(rows, m, pick) is None,
    decreases m - n,
{
    if n < m {
        lemma_fold_none_grows(rows, n, m - 1, pick);
    }
}

/// Rows `pick` skips leave a sum where it was.
proof fn lemma_fold_zero(rows: Seq<SummaryRow>, n: int, pick: spec_fn(SummaryRow) -> Option<Decimal>)
    requires
        forall|i: int| 0 <= i < n ==> pick(#[trigger] rows[i]) is None,
    ensures
        fold_amounts(rows, n, pick) == Some(zero_dec()),
    decreases n,
{
    if n > 0 {
        lemma_fold_zero(rows, n - 1, pick);
    }
}

/// Adds a counted row to the client breakdown; `false` when a sum overflows.
fn add_to_clients(groups: &mut Vec<(String, Decimal, Decimal)>, row: &SummaryRow, Ghost(rows): Ghost<Seq<SummaryRow>>, Ghost(i): Ghost<int>) -> (ok: bool)
    requires
        0 <= i < rows.len(),
        rows[i] == *row,
        counted(*row),
        row.total.wf(),
        row.paid matches Some(p) ==> p.wf(),
        clients_match(rows, i, old(groups)@),
        forall|k: int| 0 <= k < old(groups)@.len() ==> (#[trigger] old(groups)@[k]).1.wf() && old(groups)@[k].2.wf(),
    ensures
        ok ==> clients_match(rows, i + 1, final(groups)@),
        ok ==> forall|k: int| 0 <= k < final(groups)@.len() ==> (#[trigger] final(groups)@[k]).1.wf() && final(groups)@[k].2.wf(),
        !ok ==> fold_amounts(rows, i + 1, pick_client_billed(row.client@)) is None
            || fold_amounts(rows, i + 1, pick_client_paid(row.client@)) is None,
{
    let ghost c = row.client@;
    let mut idx: usize = 0;
    let mut found = false;
    while idx < groups.len() && !found
        invariant
            0 <= idx <= groups.len(),
            groups@ == old(groups)@,
            c == row.client@,
            found ==> idx < groups.len() && groups@[idx as int].0@ == c,
            !found ==> forall|k: int| 0 <= k < idx ==> (#[trigger] groups@[k]).0@ != c,
        decreases groups.len() - idx + (if found { 0int } else { 1int }),
    {
        if same_text(groups[idx].0.as_str(), row.client.as_str()) {
            found = true;
        } else {
            idx = idx + 1;
        }
    }
    proof {
        assert(has_client(rows, i + 1, c)) by {
            assert(counted(rows[i]) && rows[i].client@ == c);
        }
    }
    if !found {
        // A client seen for the first time starts at zero.
        proof {
            assert forall|j: int| 0 <= j < i implies (#[trigger] pick_client_billed(c)(rows[j])) is None by {
                if counted(rows[j]) && rows[j].client@ == c {
                    assert(has_client(rows, i, c));
                    let k = choose|k: int| 0 <= k < old(groups)@.len() && (#[trigger] old(groups)@[k]).0@ == c;
                    assert(old(groups)@[k].0@ != c);
                }
            }
            assert forall|j: int| 0 <= j < i implies (#[trigger] pick_client_paid(c)(rows[j])) is None by {
                if counted(rows[j]) && rows[j].client@ == c {
                    assert(has_client(rows, i, c));
                    let k = choose|k: int| 0 <= k < old(groups)@.len() && (#[trigger] old(groups)@[k]).0@ == c;
                    assert(old(groups)@[k].0@ != c);
                }
            }
            lemma_fold_zero(rows, i, pick_client_billed(c));
            lemma_fold_zero(rows, i, pick_client_paid(c));
        }
        let z = Decimal::zero();
        groups.push((row.client.clone(), z, z));
        proof {
            assert forall|k: int| 0 <= k < groups@.len() - 1 implies has_client(rows, i, (#[trigger] groups@[k]).0@)
                && fold_amounts(rows, i, pick_client_billed(groups@[k].0@)) == Some(groups@[k].1)
                && fold_amounts(rows, i, pick_client_paid(groups@[k].0@)) == Some(groups@[k].2) by {
                assert(groups@[k] == old(groups)@[k]);
            }
        }
    }
    let ghost before = groups@;
    let entry_billed = groups[idx].1;
    let entry_paid = groups[idx].2;
    let billed = match checked_add(entry_billed, row.total) {
        Some(b) => b,
        None => return false,
    };
    let paid = match row.paid {
        Some(p) => match checked_add(entry_paid, p) {
            Some(x) => x,
            None => return false,
        },
        None => entry_paid,
    };
    let key = groups[idx].0.clone();
    groups.set(idx, (key, billed, paid));
    proof {
        assert forall|k: int| 0 <= k < groups@.len() implies {
            &&& has_client(rows, i + 1, (#[trigger] groups@[k]).0@)
            &&& fold_amounts(rows, i + 1, pick_client_billed(groups@[k].0@)) == Some(groups@[k].1)
            &&& fold_amounts(rows, i + 1, pick_client_paid(groups@[k].0@)) == Some(groups@[k].2)
        } by {
            let kk = groups@[k].0@;
            if k != idx {
                assert(groups@[k] == before[k]);
                assert(kk != c) by {
                    assert(before[idx as int].0@ == c);
                }
                let w = choose|w: int| 0 <= w < i && counted(#[trigger] rows[w]) && rows[w].client@ == kk;
                assert(0 <= w < i + 1 && counted(rows[w]) && rows[w].client@ == kk);
            } else {
                assert(0 <= i < i + 1 && counted(rows[i]) && rows[i].client@ == kk);
            }
        }
        assert forall|p: int, q: int| 0 <= p < q < groups@.len() implies (#[trigger] groups@[p]).0@ != (#[trigger] groups@[q]).0@ by {
            assert(groups@[p].0@ == before[p].0@ && groups@[q].0@ == before[q].0@);
            if q == before.len() - 1 && before.len() > old(groups)@.len() {
                assert(before[p] == old(groups)@[p]);
            } else {
                assert(before[p] == old(groups)@[p] && before[q] == old(groups)@[q]);
            }
        }
        assert forall|cc: Seq<char>| #[trigger] has_client(rows, i + 1, cc) implies exists|k: int| 0 <= k < groups@.len() && (#[trigger] groups@[k]).0@ == cc by {
            let w = choose|w: int| 0 <= w < i + 1 && counted(#[trigger] rows[w]) && rows[w].client@ == cc;
            if w == i {
                assert(groups@[idx as int].0@ == cc);
            } else {
                assert(has_client(rows, i, cc));
                let k = choose|k: int| 0 <= k < old(groups)@.len() && (#[trigger] old(groups)@[k]).0@ == cc;
                assert(groups@[k].0@ == cc);
            }
        }
    }
    true
}

/// Adds a counted row to the currency breakdown; `false` when the sum overflows.
fn add_to_currencies(groups: &mut Vec<(String, Decimal)>, row: &SummaryRow, Ghost(rows): Ghost<Seq<SummaryRow>>, Ghost(i): Ghost<int>) -> (ok: bool)
    requires
        0 <= i < rows.len(),
        rows[i] == *row,
        counted(*row),
        row.total.wf(),
        currencies_match(rows, i, old(groups)@),
        forall|k: int| 0 <= k < old(groups)@.len() ==> (#[trigger] old(groups)@[k]).1.wf(),
    ensures
        ok ==> currencies_match(rows, i + 1, final(groups)@),
        ok ==> forall|k: int| 0 <= k < final(groups)@.len() ==> (#[trigger] final(groups)@[k]).1.wf(),
        !ok ==> fold_amounts(rows, i + 1, pick_currency(row.currency@)) is None,
{
    let ghost c = row.currency@;
    let mut idx: usize = 0;
    let mut found = false;
    while idx < groups.len() && !found
        invariant
            0 <= idx <= groups.len(),
            groups@ == old(groups)@,
            c == row.currency@,
            found ==> idx < groups.len() && groups@[idx as int].0@ == c,
            !found ==> forall|k: int| 0 <= k < idx ==> (#[trigger] groups@[k]).0@ != c,
        decreases groups.len() - idx + (if found { 0int } else { 1int }),
    {
        if same_text(groups[idx].0.as_str(), row.currency.as_str()) {
            found = true;
        } else {
            idx = idx + 1;
        }
    }
    proof {
        assert(has_currency(rows, i + 1, c)) by {
            assert(counted(rows[i]) && rows[i].currency@ == c);
        }
    }
    if !found {
        // A currency seen for the first time starts at zero.
        proof {
            assert forall|j: int| 0 <= j < i implies (#[trigger] pick_currency(c)(rows[j])) is None by {
                if counted(rows[j]) && rows[j].currency@ == c {
                    assert(has_currency(rows, i, c));
                    let k = choose|k: int| 0 <= k < old(groups)@.len() && (#[trigger] old(groups)@[k]).0@ == c;
                    assert(old(groups)@[k].0@ != c);
                }
            }
            lemma_fold_zero(rows, i, pick_currency(c));
        }
        groups.push((row.currency.clone(), Decimal::zero()));
        proof {
            assert forall|k: int| 0 <= k < groups@.len() - 1 implies has_currency(rows, i, (#[trigger] groups@[k]).0@)
                && fold_amounts(rows, i, pick_currency(groups@[k].0@)) == Some(groups@[k].1) by {
                assert(groups@[k] == old(groups)@[k]);
            }
        }
    }
    let ghost before = groups@;
    let entry = groups[idx].1;
    let billed = match checked_add(entry, row.total) {
        Some(b) => b,
        None => return false,
    };
    let key = groups[idx].0.clone();
    groups.set(idx, (key, billed));
    proof {
        assert forall|k: int| 0 <= k < groups@.len() implies {
            &&& has_currency(rows, i + 1, (#[trigger] groups@[k]).0@)
            &&& fold_amounts(rows, i + 1, pick_currency(groups@[k].0@)) == Some(groups@[k].1)
        } by {
            let kk = groups@[k].0@;
            if k != idx {
                assert(groups@[k] == before[k]);
                assert(kk != c) by {
                    assert(before[idx as int].0@ == c);
                }
                let w = choose|w: int| 0 <= w < i && counted(#[trigger] rows[w]) && rows[w].currency@ == kk;
                assert(0 <= w < i + 1 && counted(rows[w]) && rows[w].currency@ == kk);
            } else {
                assert(0 <= i < i + 1 && counted(rows[i]) && rows[i].currency@ == kk);
            }
        }
        assert forall|p: int, q: int| 0 <= p < q < groups@.len() implies (#[trigger] groups@[p]).0@ != (#[trigger] groups@[q]).0@ by {
            assert(groups@[p].0@ == before[p].0@ && groups@[q].0@ == before[q].0@);
            if q == before.len() - 1 && before.len() > old(groups)@.len() {
                assert(before[p] == old(groups)@[p]);
            } else {
                assert(before[p] == old(groups)@[p] && before[q] == old(groups)@[q]);
            }
        }
        assert forall|kc: Seq<char>| #[trigger] has_currency(rows, i + 1, kc) implies exists|k: int| 0 <= k < groups@.len() && (#[trigger] groups@[k]).0@ == kc by {
            let w = choose|w: int| 0 <= w < i + 1 && counted(#[trigger] rows[w]) && rows[w].currency@ == kc;
            if w == i {
                assert(groups@[idx as int].0@ == kc);
            } else {
                assert(has_currency(rows, i, kc));
                let k = choose|k: int| 0 <= k < old(groups)@.len() && (#[trigger] old(groups)@[k]).0@ == kc;
                assert(groups@[k].0@ == kc);
            }
        }
    }
    true
}

/// A status is counted at most once per row.
proof fn lemma_status_count_bound(rows: Seq<SummaryRow>, n: int, s: InvoiceStatus)
    requires
        0 <= n,
    ensures
        status_count(rows, n, s) <= n,
    decreases n,
{
    if n > 0 {
        lemma_status_count_bound(rows, n - 1, s);
    }
}

/// Counts a counted row under its status.
fn add_status(counts: &mut Vec<(InvoiceStatus, usize)>, row: &SummaryRow, Ghost(rows): Ghost<Seq<SummaryRow>>, Ghost(i): Ghost<int>)
    requires
        0 <= i < rows.len() <= usize::MAX,
        rows[i] == *row,
        counted(*row),
        statuses_match(rows, i, old(counts)@),
    ensures
        statuses_match(rows, i + 1, final(counts)@),
{
    let st = row.status;
    let mut idx: usize = 0;
    let mut found = false;
    while idx < counts.len() && !found
        invariant
            0 <= idx <= counts.len(),
            counts@ == old(counts)@,
            st == row.status,
            found ==> idx < counts.len() && counts@[idx as int].0 == st,
            !found ==> forall|k: int| 0 <= k < idx ==> (#[trigger] counts@[k]).0 != st,
        decreases counts.len() - idx + (if found { 0int } else { 1int }),
    {
        if counts[idx].0 == st {
            found = true;
        } else {
            idx = idx + 1;
        }
    }
    proof {
        assert forall|s: InvoiceStatus| #[trigger] status_count(rows, i + 1, s)
            == status_count(rows, i, s) + (if s == st { 1nat } else { 0nat }) by {}
    }
    if !found {
        proof {
            if status_count(rows, i, st) > 0 {
                let k = choose|k: int| 0 <= k < old(counts)@.len() && (#[trigger] old(counts)@[k]).0 == st;
                assert(old(counts)@[k].0 != st);
            }
        }
        counts.push((st, 1));
        proof {
            assert(status_count(rows, i + 1, st) == 1);
            assert forall|k: int| 0 <= k < counts@.len() implies (#[trigger] counts@[k]).1 == status_count(rows, i + 1, counts@[k].0)
                && counts@[k].1 > 0 by {
                if k < old(counts)@.len() {
                    assert(counts@[k] == old(counts)@[k]);
                }
            }
            assert forall|s: InvoiceStatus| #[trigger] status_count(rows, i + 1, s) > 0 implies exists|k: int| 0 <= k < counts@.len() && (#[trigger] counts@[k]).0 == s by {
                if s == st {
                    assert(counts@[old(counts)@.len() as int].0 == s);
                } else {
                    let k = choose|k: int| 0 <= k < old(counts)@.len() && (#[trigger] old(counts)@[k]).0 == s;
                    assert(counts@[k].0 == s);
                }
            }
            assert forall|p: int, q: int| 0 <= p < q < counts@.len() implies (#[trigger] counts@[p]).0 != (#[trigger] counts@[q]).0 by {
                assert(counts@[p] == old(counts)@[p]);
            }
        }
    } else {
        proof {
            lemma_status_count_bound(rows, i, st);
        }
        let n = counts[idx].1 + 1;
        counts.set(idx, (st, n));
        proof {
            assert forall|k: int| 0 <= k < counts@.len() implies (#[trigger] counts@[k]).1 == status_count(rows, i + 1, counts@[k].0)
                && counts@[k].1 > 0 by {
                if k != idx {
                    assert(counts@[k] == old(counts)@[k]);
                    assert(old(counts)@[k].0 != st);
                }
            }
            assert forall|s: InvoiceStatus| #[trigger] status_count(rows, i + 1, s) > 0 implies exists|k: int| 0 <= k < counts@.len() && (#[trigger] counts@[k]).0 == s by {
                if s == st {
                    assert(counts@[idx as int].0 == s);
                } else {
                    let k = choose|k: int| 0 <= k < old(counts)@.len() && (#[trigger] old(counts)@[k]).0 == s;
                    assert(counts@[k].0 == s);
                }
            }
            assert forall|p: int, q: int| 0 <= p < q < counts@.len() implies (#[trigger] counts@[p]).0 != (#[trigger] counts@[q]).0 by {
                assert(counts@[p].0 == old(counts)@[p].0 && counts@[q].0 == old(counts)@[q].0);
            }
        }
    }
}

/// Every amount of the row is a decimal `rust_decimal` can hold.
pub open spec fn row_wf(r: SummaryRow) -> bool {
    &&& r.total.wf()
    &&& r.outstanding.wf()
    &&& r.paid matches Some(p) ==> p.wf()
}

/// Builds the report from the computed invoices, in order.
///
/// Voided invoices count towards nothing.  `None` exactly when one of the
/// sums leaves the range of `rust_decimal`.
pub fn summarize(rows: &Vec<SummaryRow>) -> (r: Option<Summary>)
    requires
        forall|i: int| 0 <= i < rows.len() ==> row_wf(#[trigger] rows[i]),
    ensures
        r is Some <==> summable(rows@),
        r matches Some(s) ==> summary_of(s, rows@),
{
    let ghost all = rows@;
    let ghost n = rows.len() as int;
    let mut total_billed = Decimal::zero();
    let mut total_paid = Decimal::zero();
    let mut total_outstanding = Decimal::zero();
    let mut by_client: Vec<(String, Decimal, Decimal)> = Vec::new();
    let mut by_currency: Vec<(String, Decimal)> = Vec::new();
    let mut status_counts: Vec<(InvoiceStatus, usize)> = Vec::new();
    let mut i: usize = 0;
    while i < rows.len()
        invariant
            0 <= i <= rows.len(),
            all == rows@,
            n == rows.len(),
            forall|k: int| 0 <= k < rows.len() ==> row_wf(#[trigger] rows[k]),
            total_billed.wf() && total_paid.wf() && total_outstanding.wf(),
            fold_amounts(all, i as int, pick_billed()) == Some(total_billed),
            fold_amounts(all, i as int, pick_paid()) == Some(total_paid),
            fold_amounts(all, i as int, pick_outstanding()) == Some(total_outstanding),
            clients_match(all, i as int, by_client@),
            forall|k: int| 0 <= k < by_client@.len() ==> (#[trigger] by_client@[k]).1.wf() && by_client@[k].2.wf(),
            currencies_match(all, i as int, by_currency@),
            forall|k: int| 0 <= k < by_currency@.len() ==> (#[trigger] by_currency@[k]).1.wf(),
            statuses_match(all, i as int, status_counts@),
        decreases rows.len() - i,
    {
        let row = &rows[i];
        assert(row_wf(all[i as int]));
        if row.status == InvoiceStatus::Voided {
            proof {
                assert(clients_match(all, i + 1, by_client@)) by {
                    assert forall|c: Seq<char>| #[trigger] has_client(all, i + 1, c) implies has_client(all, i as int, c) by {
                        let w = choose|w: int| 0 <= w < i + 1 && counted(#[trigger] all[w]) && all[w].client@ == c;
                        assert(w != i);
                    }
                    assert forall|c: Seq<char>| #[trigger] has_client(all, i as int, c) implies has_client(all, i + 1, c) by {
                        let w = choose|w: int| 0 <= w < i && counted(#[trigger] all[w]) && all[w].client@ == c;
                        assert(0 <= w < i + 1);
                    }
                }
                assert(currencies_match(all, i + 1, by_currency@)) by {
                    assert forall|c: Seq<char>| #[trigger] has_currency(all, i + 1, c) implies has_currency(all, i as int, c) by {
                        let w = choose|w: int| 0 <= w < i + 1 && counted(#[trigger] all[w]) && all[w].currency@ == c;
                        assert(w != i);
                    }
                    assert forall|c: Seq<char>| #[trigger] has_currency(all, i as int, c) implies has_currency(all, i + 1, c) by {
                        let w = choose|w: int| 0 <= w < i && counted(#[trigger] all[w]) && all[w].currency@ == c;
                        assert(0 <= w < i + 1);
                    }
                }
                assert forall|s: InvoiceStatus| #[trigger] status_count(all, i + 1, s) == status_count(all, i as int, s) by {}
            }
        } else {
            let ghost ii = i as int;
            let billed = match checked_add(total_billed, row.total) {
                Some(x) => x,
                None => {
                    proof {
                        lemma_fold_none_grows(all, ii + 1, n, pick_billed());
                    }
                    return None;
                },
            };
            let paid = match row.paid {
                Some(p) => match checked_add(total_paid, p) {
                    Some(x) => x,
                    None => {
                        proof {
                            lemma_fold_none_grows(all, ii + 1, n, pick_paid());
                        }
                        return None;
                    },
                },
                None => total_paid,
            };
            let outstanding = match checked_add(total_outstanding, row.outstanding) {
                Some(x) => x,
                None => {
                    proof {
                        lemma_fold_none_grows(all, ii + 1, n, pick_outstanding());
                    }
                    return None;
                },
            };
            if !add_to_clients(&mut by_client, row, Ghost(all), Ghost(ii)) {
                proof {
                    let c = row.client@;
                    if fold_amounts(all, ii + 1, pick_client_billed(c)) is None {
                        lemma_fold_none_grows(all, ii + 1, n, pick_client_billed(c));
                    } else {
                        lemma_fold_none_grows(all, ii + 1, n, pick_client_paid(c));
                    }
                    assert(has_client(all, n, c)) by {
                        assert(counted(all[ii]) && all[ii].client@ == c);
                    }
                }
                return None;
            }
            if !add_to_currencies(&mut by_currency, row, Ghost(all), Ghost(ii)) {
                proof {
                    let c = row.currency@;
                    lemma_fold_none_grows(all, ii + 1, n, pick_currency(c));
                    assert(has_currency(all, n, c)) by {
                        assert(counted(all[ii]) && all[ii].currency@ == c);
                    }
                }
                return None;
            }
            add_status(&mut status_counts, row, Ghost(all), Ghost(ii));
            total_billed = billed;
            total_paid = paid;
            total_outstanding = outstanding;
        }
        i = i + 1;
    }
    let s = Summary { total_billed, total_paid, total_outstanding, by_client, by_currency, status_counts };
    proof {
        assert forall|c: Seq<char>| #[trigger] has_client(all, n, c) implies fold_amounts(all, n, pick_client_billed(c)) is Some
            && fold_amounts(all, n, pick_client_paid(c)) is Some by {
            let k = choose|k: int| 0 <= k < s.by_client@.len() && (#[trigger] s.by_client@[k]).0@ == c;
            assert(has_client(all, n, s.by_client@[k].0@));
        }
        assert forall|c: Seq<char>| #[trigger] has_currency(all, n, c) implies fold_amounts(all, n, pick_currency(c)) is Some by {
            let k = choose|k: int| 0 <= k < s.by_currency@.len() && (#[trigger] s.by_currency@[k]).0@ == c;
            assert(has_currency(all, n, s.by_currency@[k].0@));
        }
    }
    Some(s)
}

/// What the quote pipeline needs of one computed quote.
#[derive(Clone, Debug)]
pub struct QuoteRow {
    pub status: QuoteStatus,
    pub total: Decimal,
}

/// The quote pipeline: everything quoted, what was accepted, and the rest.
#[derive(Clone, Debug)]
pub struct QuotePipeline {
    pub quoted_total: Decimal,
    pub accepted_total: Decimal,
    pub pending_total: Decimal,
}

/// The sum, from zero and in order, of the totals of the first `n` quotes
/// (only of the accepted ones when `accepted_only`).
pub open spec fn quote_sum(rows: Seq<QuoteRow>, n: int, accepted_only: bool) -> Option<Decimal>
    decreases n,
{
    if n <= 0 {
        Some(zero_dec())
    } else {
        match quote_sum(rows, n - 1, accepted_only) {
            None => None,
            Some(acc) => if !accepted_only || rows[n - 1].status == QuoteStatus::Accepted {
                spec_add(acc, rows[n - 1].total)
            } else {
                Some(acc)
            },
        }
    }
}

/// The number of quotes among the first `n` with status `s`.
pub open spec fn quote_count(rows: Seq<QuoteRow>, n: int, s: QuoteStatus) -> nat
    decreases n,
{
    if n <= 0 {
        0
    } else {
        quote_count(rows, n - 1, s) + if rows[n - 1].status == s { 1nat } else { 0nat }
    }
}

proof fn lemma_quote_sum_none_grows(rows: Seq<QuoteRow>, n: int, m: int, accepted_only: bool)
    requires
        0 <= n <= m,
        quote_sum(rows, n, accepted_only) is None,
    ensures
        quote_sum(rows, m, accepted_only) is None,
    decreases m - n,
{
    if n < m {
        lemma_quote_sum_none_grows(rows, n, m - 1, accepted_only);
    }
}

/// The pipeline of the quotes as `rust_decimal` computes it: `None` when a
/// sum or the difference leaves its range.
pub open spec fn pipeline_of(rows: Seq<QuoteRow>) -> Option<QuotePipeline> {
    let n = rows.len() as int;
    match (quote_sum(rows, n, false), quote_sum(rows, n, true)) {
        (Some(q), Some(a)) => match spec_sub(q, a) {
            Some(p) => Some(QuotePipeline { quoted_total: q, accepted_total: a, pending_total: p }),
            None => None,
        },
        _ => None,
    }
}

/// Sums the quotes: all of them, the accepted ones, and the difference.
pub fn quote_pipeline(rows: &Vec<QuoteRow>) -> (r: Option<QuotePipeline>)
    requires
        forall|i: int| 0 <= i < rows.len() ==> (#[trigger] rows[i]).total.wf(),
    ensures
        r == pipeline_of(rows@),
{
    let ghost all = rows@;
    let ghost n = rows.len() as int;
    let mut quoted = Decimal::zero();
    let mut accepted = Decimal::zero();
    let mut i: usize = 0;
    while i < rows.len()
        invariant
            0 <= i <= rows.len(),
            all == rows@,
            n == rows.len(),
            forall|k: int| 0 <= k < rows.len() ==> (#[trigger] rows[k]).total.wf(),
            quoted.wf() && accepted.wf(),
            quote_sum(all, i as int, false) == Some(quoted),
            quote_sum(all, i as int, true) == Some(accepted),
        decreases rows.len() - i,
    {
        let row = &rows[i];
        assert(all[i as int].total.wf());
        let q = match checked_add(quoted, row.total) {
            Some(x) => x,
            None => {
                proof {
                    lemma_quote_sum_none_grows(all, i + 1, n, false);
                }
                return None;
            },
        };
        if row.status == QuoteStatus::Accepted {
            accepted = match checked_add(accepted, row.total) {
                Some(x) => x,
                None => {
                    proof {
                        lemma_quote_sum_none_grows(all, i + 1, n, true);
                    }
                    return None;
                },
            };
        }
        quoted = q;
        i = i + 1;
    }
    match checked_sub(quoted, accepted) {
        Some(p) => Some(QuotePipeline { quoted_total: quoted, accepted_total: accepted, pending_total: p }),
        None => None,
    }
}

/// The number of quotes with status `s`.
pub fn count_quotes(rows: &Vec<QuoteRow>, s: QuoteStatus) -> (r: usize)
    ensures
        r == quote_count(rows@, rows.len() as int, s),
{
    let mut count: usize = 0;
    let mut i: usize = 0;
    while i < rows.len()
        invariant
            0 <= i <= rows.len(),
            count == quote_count(rows@, i as int, s),
            count <= i,
        decreases rows.len() - i,
    {
        if rows[i].status == s {
            count = count + 1;
        }
        i = i + 1;
    }
    count
}

/// A sum over the first `m` rows depends on those rows only.
proof fn lemma_fold_prefix(a: Seq<SummaryRow>, b: Seq<SummaryRow>, m: int, pick: spec_fn(SummaryRow) -> Option<Decimal>)
    requires
        0 <= m <= a.len(),
        m <= b.len(),
        forall|i: int| 0 <= i < m ==> a[i] == b[i],
    ensures
        fold_amounts(a, m, pick) == fold_amounts(b, m, pick),
    decreases m,
{
    if m > 0 {
        lemma_fold_prefix(a, b, m - 1, pick);
    }
}

/// A status count over the first `m` rows depends on those rows only.
proof fn lemma_count_prefix(a: Seq<SummaryRow>, b: Seq<SummaryRow>, m: int, s: InvoiceStatus)
    requires
        0 <= m <= a.len(),
        m <= b.len(),
        forall|i: int| 0 <= i < m ==> a[i] == b[i],
    ensures
        status_count(a, m, s) == status_count(b, m, s),
    decreases m,
{
    if m > 0 {
        lemma_count_prefix(a, b, m - 1, s);
    }
}

/// Voided invoices count towards nothing: adding one to the invoices leaves
/// every figure of the report, and whether it can be made, as they were.
pub proof fn law_voided_invoice_changes_nothing(rows: Seq<SummaryRow>, voided: SummaryRow, s: Summary)
    requires
        voided.status == InvoiceStatus::Voided,
    ensures
        summable(rows.push(voided)) <==> summable(rows),
        summary_of(s, rows.push(voided)) <==> summary_of(s, rows),
{
    let more = rows.push(voided);
    let n = rows.len() as int;
    assert forall|i: int| 0 <= i < n implies rows[i] == more[i] by {}
    assert forall|pick: spec_fn(SummaryRow) -> Option<Decimal>| pick(voided) is None
        implies #[trigger] fold_amounts(more, n + 1, pick) == fold_amounts(rows, n, pick) by {
        lemma_fold_prefix(rows, more, n, pick);
    }
    assert(fold_amounts(more, n + 1, pick_billed()) == fold_amounts(rows, n, pick_billed()));
    assert(fold_amounts(more, n + 1, pick_paid()) == fold_amounts(rows, n, pick_paid()));
    assert(fold_amounts(more, n + 1, pick_outstanding()) == fold_amounts(rows, n, pick_outstanding()));
    assert forall|c: Seq<char>| #[trigger] has_client(more, n + 1, c) == has_client(rows, n, c) by {
        if has_client(more, n + 1, c) {
            let w = choose|w: int| 0 <= w < n + 1 && counted(#[trigger] more[w]) && more[w].client@ == c;
            assert(w < n && counted(rows[w]) && rows[w].client@ == c);
        }
        if has_client(rows, n, c) {
            let w = choose|w: int| 0 <= w < n && counted(#[trigger] rows[w]) && rows[w].client@ == c;
            assert(counted(more[w]) && more[w].client@ == c);
        }
    }
    assert forall|c: Seq<char>| #[trigger] has_currency(more, n + 1, c) == has_currency(rows, n, c) by {
        if has_currency(more, n + 1, c) {
            let w = choose|w: int| 0 <= w < n + 1 && counted(#[trigger] more[w]) && more[w].currency@ == c;
            assert(w < n && counted(rows[w]) && rows[w].currency@ == c);
        }
        if has_currency(rows, n, c) {
            let w = choose|w: int| 0 <= w < n && counted(#[trigger] rows[w]) && rows[w].currency@ == c;
            assert(counted(more[w]) && more[w].currency@ == c);
        }
    }
    assert forall|c: Seq<char>| #[trigger] pick_client_billed(c)(voided) is None by {}
    assert forall|c: Seq<char>| #[trigger] pick_client_paid(c)(voided) is None by {}
    assert forall|c: Seq<char>| #[trigger] pick_currency(c)(voided) is None by {}
    assert forall|st: InvoiceStatus| #[trigger] status_count(more, n + 1, st) == status_count(rows, n, st) by {
        lemma_count_prefix(rows, more, n, st);
    }
    assert forall|c: Seq<char>| #[trigger] fold_amounts(more, n + 1, pick_client_billed(c)) == fold_amounts(rows, n, pick_client_billed(c)) by {
        assert(pick_client_billed(c)(voided) is None);
    }
    assert forall|c: Seq<char>| #[trigger] fold_amounts(more, n + 1, pick_client_paid(c)) == fold_amounts(rows, n, pick_client_paid(c)) by {
        assert(pick_client_paid(c)(voided) is None);
    }
    assert forall|c: Seq<char>| #[trigger] fold_amounts(more, n + 1, pick_currency(c)) == fold_amounts(rows, n, pick_currency(c)) by {
        assert(pick_currency(c)(voided) is None);
    }
    let g = s.by_client@;
    if clients_match(rows, n, g) {
        assert forall|c: Seq<char>| #[trigger] has_client(more, n + 1, c) implies exists|i: int| 0 <= i < g.len() && (#[trigger] g[i]).0@ == c by {
            assert(has_client(rows, n, c));
        }
        assert forall|i: int| 0 <= i < g.len() implies {
            &&& has_client(more, n + 1, (#[trigger] g[i]).0@)
            &&& fold_amounts(more, n + 1, pick_client_billed(g[i].0@)) == Some(g[i].1)
            &&& fold_amounts(more, n + 1, pick_client_paid(g[i].0@)) == Some(g[i].2)
        } by {
            assert(has_client(more, n + 1, g[i].0@) == has_client(rows, n, g[i].0@));
            assert(fold_amounts(more, n + 1, pick_client_billed(g[i].0@)) == fold_amounts(rows, n, pick_client_billed(g[i].0@)));
            assert(fold_amounts(more, n + 1, pick_client_paid(g[i].0@)) == fold_amounts(rows, n, pick_client_paid(g[i].0@)));
        }
    }
    if clients_match(more, n + 1, g) {
        assert forall|c: Seq<char>| #[trigger] has_client(rows, n, c) implies exists|i: int| 0 <= i < g.len() && (#[trigger] g[i]).0@ == c by {
            assert(has_client(more, n + 1, c));
        }
        assert forall|i: int| 0 <= i < g.len() implies {
            &&& has_client(rows, n, (#[trigger] g[i]).0@)
            &&& fold_amounts(rows, n, pick_client_billed(g[i].0@)) == Some(g[i].1)
            &&& fold_amounts(rows, n, pick_client_paid(g[i].0@)) == Some(g[i].2)
        } by {
            assert(has_client(more, n + 1, g[i].0@) == has_client(rows, n, g[i].0@));
            assert(fold_amounts(more, n + 1, pick_client_billed(g[i].0@)) == fold_amounts(rows, n, pick_client_billed(g[i].0@)));
            assert(fold_amounts(more, n + 1, pick_client_paid(g[i].0@)) == fold_amounts(rows, n, pick_client_paid(g[i].0@)));
        }
    }
    let h = s.by_currency@;
    if currencies_match(rows, n, h) {
        assert forall|c: Seq<char>| #[trigger] has_currency(more, n + 1, c) implies exists|i: int| 0 <= i < h.len() && (#[trigger] h[i]).0@ == c by {
            assert(has_currency(rows, n, c));
        }
        assert forall|i: int| 0 <= i < h.len() implies {
            &&& has_currency(more, n + 1, (#[trigger] h[i]).0@)
            &&& fold_amounts(more, n + 1, pick_currency(h[i].0@)) == Some(h[i].1)
        } by {
            assert(has_currency(more, n + 1, h[i].0@) == has_currency(rows, n, h[i].0@));
            assert(fold_amounts(more, n + 1, pick_currency(h[i].0@)) == fold_amounts(rows, n, pick_currency(h[i].0@)));
        }
    }
    if currencies_match(more, n + 1, h) {
        assert forall|c: Seq<char>| #[trigger] has_currency(rows, n, c) implies exists|i: int| 0 <= i < h.len() && (#[trigger] h[i]).0@ == c by {
            assert(has_currency(more, n + 1, c));
        }
        assert forall|i: int| 0 <= i < h.len() implies {
            &&& has_currency(rows, n, (#[trigger] h[i]).0@)
            &&& fold_amounts(rows, n, pick_currency(h[i].0@)) == Some(h[i].1)
        } by {
            assert(has_currency(more, n + 1, h[i].0@) == has_currency(rows, n, h[i].0@));
            assert(fold_amounts(more, n + 1, pick_currency(h[i].0@)) == fold_amounts(rows, n, pick_currency(h[i].0@)));
        }
    }
    assert(clients_match(more, n + 1, g) == clients_match(rows, n, g));
    assert(currencies_match(more, n + 1, h) == currencies_match(rows, n, h));
    let k = s.status_counts@;
    if statuses_match(rows, n, k) {
        assert forall|st: InvoiceStatus| #[trigger] status_count(more, n + 1, st) > 0
            implies exists|i: int| 0 <= i < k.len() && (#[trigger] k[i]).0 == st by {
            assert(status_count(rows, n, st) > 0);
        }
        assert forall|i: int| 0 <= i < k.len() implies (#[trigger] k[i]).1 == status_count(more, n + 1, k[i].0)
            && k[i].1 > 0 by {
            assert(status_count(more, n + 1, k[i].0) == status_count(rows, n, k[i].0));
        }
    }
    if statuses_match(more, n + 1, k) {
        assert forall|st: InvoiceStatus| #[trigger] status_count(rows, n, st) > 0
            implies exists|i: int| 0 <= i < k.len() && (#[trigger] k[i]).0 == st by {
            assert(status_count(more, n + 1, st) > 0);
        }
        assert forall|i: int| 0 <= i < k.len() implies (#[trigger] k[i]).1 == status_count(rows, n, k[i].0)
            && k[i].1 > 0 by {
            assert(status_count(more, n + 1, k[i].0) == status_count(rows, n, k[i].0));
        }
    }
    assert(statuses_match(more, n + 1, k) == statuses_match(rows, n, k));
    if summable(rows) {
        assert forall|c: Seq<char>| #[trigger] has_client(more, n + 1, c) implies fold_amounts(more, n + 1, pick_client_billed(c)) is Some
            && fold_amounts(more, n + 1, pick_client_paid(c)) is Some by {
            assert(has_client(rows, n, c));
        }
        assert forall|c: Seq<char>| #[trigger] has_currency(more, n + 1, c) implies fold_amounts(more, n + 1, pick_currency(c)) is Some by {
            assert(has_currency(rows, n, c));
        }
    }
    if summable(more) {
        assert forall|c: Seq<char>| #[trigger] has_client(rows, n, c) implies fold_amounts(rows, n, pick_client_billed(c)) is Some
            && fold_amounts(rows, n, pick_client_paid(c)) is Some by {
            assert(has_client(more, n + 1, c));
        }
        assert forall|c: Seq<char>| #[trigger] has_currency(rows, n, c) implies fold_amounts(rows, n, pick_currency(c)) is Some by {
            assert(has_currency(more, n + 1, c));
        }
    }
}

/// Every invoice that is not voided counts, drafts included: adding one to
/// the invoices adds its total to the amount billed, its outstanding amount
/// to what is outstanding and its payment (if any) to what is paid, and
/// counts it once more under its status.
pub proof fn law_unvoided_invoice_counts(rows: Seq<SummaryRow>, row: SummaryRow, before: Summary, after: Summary)
    requires
        row.status != InvoiceStatus::Voided,
        summary_of(before, rows),
        summary_of(after, rows.push(row)),
    ensures
        Some(after.total_billed) == spec_add(before.total_billed, row.total),
        Some(after.total_outstanding) == spec_add(before.total_outstanding, row.outstanding),
        row.paid matches Some(p) ==> Some(after.total_paid) == spec_add(before.total_paid, p),
        row.paid is None ==> after.total_paid == before.total_paid,
        status_count(rows.push(row), rows.len() + 1int, row.status) == status_count(rows, rows.len() as int, row.status) + 1,
        // Its client's billed amount and its currency's amount grow by its
        // total as well.
        fold_amounts(rows, rows.len() as int, pick_client_billed(row.client@)) matches Some(b)
            ==> fold_amounts(rows.push(row), rows.len() + 1int, pick_client_billed(row.client@)) == spec_add(b, row.total),
        fold_amounts(rows, rows.len() as int, pick_currency(row.currency@)) matches Some(b)
            ==> fold_amounts(rows.push(row), rows.len() + 1int, pick_currency(row.currency@)) == spec_add(b, row.total),
{
    let more = rows.push(row);
    let n = rows.len() as int;
    assert forall|i: int| 0 <= i < n implies rows[i] == more[i] by {}
    lemma_fold_prefix(rows, more, n, pick_billed());
    lemma_fold_prefix(rows, more, n, pick_paid());
    lemma_fold_prefix(rows, more, n, pick_outstanding());
    lemma_count_prefix(rows, more, n, row.status);
    assert(more[n] == row);
    assert(pick_billed()(row) == Some(row.total));
    assert(pick_outstanding()(row) == Some(row.outstanding));
    assert(pick_paid()(row) == row.paid);
    lemma_fold_prefix(rows, more, n, pick_client_billed(row.client@));
    lemma_fold_prefix(rows, more, n, pick_currency(row.currency@));
    assert(pick_client_billed(row.client@)(row) == Some(row.total));
    assert(pick_currency(row.currency@)(row) == Some(row.total));
}

/// A row enters the amounts billed and outstanding, and the status counts,
/// exactly when its invoice is not voided: a draft counts like any other.
pub proof fn law_only_voided_rows_are_left_out(rows: Seq<SummaryRow>, i: int)
    requires
        0 <= i < rows.len(),
    ensures
        (rows[i].status != InvoiceStatus::Voided) == (pick_billed()(rows[i]) == Some(rows[i].total)),
        (rows[i].status != InvoiceStatus::Voided) == (pick_outstanding()(rows[i]) == Some(rows[i].outstanding)),
        (rows[i].status != InvoiceStatus::Voided) ==> status_count(rows, i + 1, rows[i].status)
            == status_count(rows, i, rows[i].status) + 1,
{
}

} // verus!
