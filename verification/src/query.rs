//! Building SQL queries whose filters bind values to `?` placeholders, and the law that every
//! bound value has its placeholder.
use vstd::prelude::*;
use crate::text::{lemma_qmarks_add, lemma_qmarks_placeholders, placeholders, qmarks, qmarks_upto};

verus! {

/// The views of a list of strings.
pub open spec fn texts(v: Seq<String>) -> Seq<Seq<char>> {
    v.map_values(|x: String| x@)
}

/// The strings of an optional list; none where there is no list.
pub open spec fn listed(o: Option<Vec<String>>) -> Seq<String> {
    match o {
        Some(s) => s@,
        None => Seq::empty(),
    }
}

/// A query and the values bound to it, with the condition `cond` and its values `vals` added
/// where `present`.
pub open spec fn add_condition(
    qb: (Seq<char>, Seq<Seq<char>>),
    present: bool,
    cond: Seq<char>,
    vals: Seq<Seq<char>>,
) -> (Seq<char>, Seq<Seq<char>>) {
    if present {
        (qb.0 + cond, qb.1 + vals)
    } else {
        qb
    }
}

/// The condition `head` followed by `n` placeholders and a closing parenthesis (`col IN (?,?)`).
pub open spec fn in_list(head: Seq<char>, n: nat) -> Seq<char> {
    head + placeholders(n) + ")"@
}

/// Whether the query `qb.0` is the fixed text `sel` followed by exactly one placeholder per
/// value of `qb.1`.
pub open spec fn placeholders_fit(qb: (Seq<char>, Seq<Seq<char>>), sel: Seq<char>) -> bool {
    &&& sel.len() <= qb.0.len()
    &&& qb.0.subrange(0, sel.len() as int) == sel
    &&& qmarks(qb.0.subrange(sel.len() as int, qb.0.len() as int)) == qb.1.len()
}

/// Appends clones of the strings of `items` to `out`.
pub(crate) fn push_all(out: &mut Vec<String>, items: &Vec<String>)
    ensures
        texts(final(out)@) == texts(old(out)@) + texts(items@),
{
    let mut k: usize = 0;
    assert(texts(out@) =~= texts(old(out)@) + texts(items@.take(0)));
    while k < items.len()
        invariant
            k <= items@.len(),
            texts(out@) == texts(old(out)@) + texts(items@.take(k as int)),
        decreases items@.len() - k,
    {
        let ghost before = texts(out@);
        let x = items[k].clone();
        out.push(x);
        assert(texts(out@) =~= before.push(items@[k as int]@));
        assert(texts(items@.take(k + 1)) =~= texts(items@.take(k as int)).push(items@[k as int]@));
        assert(texts(out@) =~= texts(old(out)@) + texts(items@.take(k + 1)));
        k = k + 1;
    }
    assert(items@.take(items@.len() as int) =~= items@);
}

/// The fixed text alone, with no value bound, fits.
pub proof fn lemma_select_fits(sel: Seq<char>)
    ensures
        placeholders_fit((sel, Seq::empty()), sel),
{
    assert(sel.subrange(0, sel.len() as int) =~= sel);
    assert(sel.subrange(sel.len() as int, sel.len() as int) =~= Seq::<char>::empty());
}

/// Adding a condition with one placeholder per value it binds keeps a query fitting.
pub proof fn lemma_condition_keeps_fit(
    qb: (Seq<char>, Seq<Seq<char>>),
    sel: Seq<char>,
    present: bool,
    cond: Seq<char>,
    vals: Seq<Seq<char>>,
)
    requires
        placeholders_fit(qb, sel),
        present ==> qmarks(cond) == vals.len(),
    ensures
        placeholders_fit(add_condition(qb, present, cond, vals), sel),
{
    if present {
        let q = qb.0;
        let n = sel.len() as int;
        assert((q + cond).subrange(0, n) =~= q.subrange(0, n));
        assert((q + cond).subrange(n, (q + cond).len() as int) =~= q.subrange(n, q.len() as int)
            + cond);
        lemma_qmarks_add(q.subrange(n, q.len() as int), cond);
    }
}

/// An `IN (..)` list of `n` values holds `n` placeholders after a head that holds none.
pub proof fn lemma_in_list(head: Seq<char>, n: nat)
    requires
        qmarks(head) == 0,
    ensures
        qmarks(in_list(head, n)) == n,
{
    reveal_strlit(")");
    reveal_with_fuel(qmarks_upto, 2);
    lemma_qmarks_placeholders(n);
    lemma_qmarks_add(head, placeholders(n));
    lemma_qmarks_add(head + placeholders(n), ")"@);
}

/// The values of an `IN (..)` list: one per string.
pub proof fn lemma_texts_len(v: Seq<String>)
    ensures
        texts(v).len() == v.len(),
{
}

} // verus!
