//! HTML rendering: the static index page and the expense listing page.
//!
//! The listing page is a table with exactly one row per expense, in the
//! order given, each row showing the escaped id, the escaped name and the
//! decimal amount — nothing else of the record. All output is UTF-8 bytes.

use vstd::prelude::*;

use crate::model::{spec_project, spec_project_all, Expense, ExpenseV, PaginatedResponseV};

verus! {

/// HTML escape of one byte: the five significant characters become
/// entities, every other byte stands as itself.
pub open spec fn spec_escape_byte(b: u8) -> Seq<u8> {
    if b == 0x26 {  // &
        seq![0x26, 0x61, 0x6d, 0x70, 0x3b]  // &amp;
    } else if b == 0x3c {  // <
        seq![0x26, 0x6c, 0x74, 0x3b]  // &lt;
    } else if b == 0x3e {  // >
        seq![0x26, 0x67, 0x74, 0x3b]  // &gt;
    } else if b == 0x22 {  // "
        seq![0x26, 0x71, 0x75, 0x6f, 0x74, 0x3b]  // &quot;
    } else if b == 0x27 {  // '
        seq![0x26, 0x23, 0x33, 0x39, 0x3b]  // &#39;
    } else {
        seq![b]
    }
}

/// HTML escape of a byte string, byte for byte.
pub open spec fn spec_escape(s: Seq<u8>) -> Seq<u8>
    decreases s.len(),
{
    if s.len() == 0 {
        Seq::empty()
    } else {
        spec_escape(s.drop_last()) + spec_escape_byte(s.last())
    }
}

/// The decimal digits of `n`, most significant first, no leading zeros
/// (`0` itself is the single digit `0`).
pub open spec fn spec_dec(n: nat) -> Seq<u8>
    decreases n,
{
    if n < 10 {
        seq![(0x30 + n) as u8]
    } else {
        spec_dec(n / 10).push((0x30 + n % 10) as u8)
    }
}

/// One table row: the three displayed fields, id and name escaped, the
/// amount in decimal.
pub open spec fn spec_row(e: ExpenseV) -> Seq<u8> {
    frag_row_open() + spec_escape(e.id) + frag_cell_sep() + spec_escape(e.name) + frag_cell_sep()
        + spec_dec(e.amount as nat) + frag_row_close()
}

/// The rows of the listing, one per expense, in order.
pub open spec fn spec_rows(items: Seq<ExpenseV>) -> Seq<u8>
    decreases items.len(),
{
    if items.len() == 0 {
        Seq::empty()
    } else {
        spec_rows(items.drop_last()) + spec_row(items.last())
    }
}

/// The whole listing page: a fixed frame around the rows.
pub open spec fn spec_expenses_page(items: Seq<ExpenseV>) -> Seq<u8> {
    frag_page_open() + spec_rows(items) + frag_page_close()
}

// The fixed fragments, as byte strings.
// "<tr><td>"
pub open spec fn frag_row_open() -> Seq<u8> {
    seq![0x3c, 0x74, 0x72, 0x3e, 0x3c, 0x74, 0x64, 0x3e]
}

// "</td><td>"
pub open spec fn frag_cell_sep() -> Seq<u8> {
    seq![0x3c, 0x2f, 0x74, 0x64, 0x3e, 0x3c, 0x74, 0x64, 0x3e]
}

// "</td></tr>"
pub open spec fn frag_row_close() -> Seq<u8> {
    seq![0x3c, 0x2f, 0x74, 0x64, 0x3e, 0x3c, 0x2f, 0x74, 0x72, 0x3e]
}

// "<html><body><table>"
pub open spec fn frag_page_open() -> Seq<u8> {
    seq![
        0x3c, 0x68, 0x74, 0x6d, 0x6c, 0x3e, 0x3c, 0x62, 0x6f, 0x64, 0x79, 0x3e, 0x3c, 0x74, 0x61,
        0x62, 0x6c, 0x65, 0x3e,
    ]
}

// "</table></body></html>"
pub open spec fn frag_page_close() -> Seq<u8> {
    seq![
        0x3c, 0x2f, 0x74, 0x61, 0x62, 0x6c, 0x65, 0x3e, 0x3c, 0x2f, 0x62, 0x6f, 0x64, 0x79, 0x3e,
        0x3c, 0x2f, 0x68, 0x74, 0x6d, 0x6c, 0x3e,
    ]
}

// The index page: "<html><body><a href="/expenses">Expenses</a></body></html>"
pub open spec fn spec_index_page() -> Seq<u8> {
    seq![
        0x3c, 0x68, 0x74, 0x6d, 0x6c, 0x3e, 0x3c, 0x62, 0x6f, 0x64, 0x79, 0x3e, 0x3c, 0x61, 0x20,
        0x68, 0x72, 0x65, 0x66, 0x3d, 0x22, 0x2f, 0x65, 0x78, 0x70, 0x65, 0x6e, 0x73, 0x65, 0x73,
        0x22, 0x3e, 0x45, 0x78, 0x70, 0x65, 0x6e, 0x73, 0x65, 0x73, 0x3c, 0x2f, 0x61, 0x3e, 0x3c,
        0x2f, 0x62, 0x6f, 0x64, 0x79, 0x3e, 0x3c, 0x2f, 0x68, 0x74, 0x6d, 0x6c, 0x3e,
    ]
}

/// Appends the HTML escape of `src` to `out`.
fn push_escaped(out: &mut Vec<u8>, src: &Vec<u8>)
    ensures
        final(out)@ == old(out)@ + spec_escape(src@),
{
    let mut i: usize = 0;
    while i < src.len()
        invariant
            0 <= i <= src@.len(),
            out@ == old(out)@ + spec_escape(src@.subrange(0, i as int)),
        decreases src@.len() - i,
    {
        let b = src[i];
        proof {
            assert(src@.subrange(0, i + 1 as int).drop_last() =~= src@.subrange(0, i as int));
            assert(src@.subrange(0, i + 1 as int).last() == src@[i as int]);
        }
        if b == 0x26 {
            out.push(0x26);
            out.push(0x61);
            out.push(0x6d);
            out.push(0x70);
            out.push(0x3b);
        } else if b == 0x3c {
            out.push(0x26);
            out.push(0x6c);
            out.push(0x74);
            out.push(0x3b);
        } else if b == 0x3e {
            out.push(0x26);
            out.push(0x67);
            out.push(0x74);
            out.push(0x3b);
        } else if b == 0x22 {
            out.push(0x26);
            out.push(0x71);
            out.push(0x75);
            out.push(0x6f);
            out.push(0x74);
            out.push(0x3b);
        } else if b == 0x27 {
            out.push(0x26);
            out.push(0x23);
            out.push(0x33);
            out.push(0x39);
            out.push(0x3b);
        } else {
            out.push(b);
        }
        proof {
            assert(out@ =~= old(out)@ + spec_escape(src@.subrange(0, i + 1 as int)));
        }
        i = i + 1;
    }
    proof {
        assert(src@.subrange(0, src@.len() as int) =~= src@);
    }
}

/// Appends the decimal digits of `n` to `out`.
fn push_dec(out: &mut Vec<u8>, n: u16)
    ensures
        final(out)@ == old(out)@ + spec_dec(n as nat),
    decreases n,
{
    if n < 10 {
        out.push(0x30 + n as u8);
    } else {
        push_dec(out, n / 10);
        out.push(0x30 + (n % 10) as u8);
    }
}

/// Appends one table row for `e` to `out`.
fn push_row(out: &mut Vec<u8>, e: &Expense)
    ensures
        final(out)@ == old(out)@ + spec_row(e@),
{
    out.push(0x3c);
    out.push(0x74);
    out.push(0x72);
    out.push(0x3e);
    out.push(0x3c);
    out.push(0x74);
    out.push(0x64);
    out.push(0x3e);
    proof {
        assert(out@ =~= old(out)@ + frag_row_open());
    }
    push_escaped(out, &e.id);
    push_cell_sep(out);
    push_escaped(out, &e.name);
    push_cell_sep(out);
    push_dec(out, e.amount);
    out.push(0x3c);
    out.push(0x2f);
    out.push(0x74);
    out.push(0x64);
    out.push(0x3e);
    out.push(0x3c);
    out.push(0x2f);
    out.push(0x74);
    out.push(0x72);
    out.push(0x3e);
    proof {
        assert(out@ =~= old(out)@ + spec_row(e@));
    }
}

/// Appends "</td><td>" to `out`.
fn push_cell_sep(out: &mut Vec<u8>)
    ensures
        final(out)@ == old(out)@ + frag_cell_sep(),
{
    out.push(0x3c);
    out.push(0x2f);
    out.push(0x74);
    out.push(0x64);
    out.push(0x3e);
    out.push(0x3c);
    out.push(0x74);
    out.push(0x64);
    out.push(0x3e);
    proof {
        assert(out@ =~= old(out)@ + frag_cell_sep());
    }
}

/// Renders the listing page for `items`: the fixed frame around one row per
/// expense, in the given order.
#[verifier::rlimit(30)]
pub fn render_expenses_page(items: &Vec<Expense>) -> (out: Vec<u8>)
    ensures
        out@ == spec_expenses_page(items@.map_values(|e: Expense| e@)),
{
    let mut out: Vec<u8> = Vec::new();
    out.push(0x3c);
    out.push(0x68);
    out.push(0x74);
    out.push(0x6d);
    out.push(0x6c);
    out.push(0x3e);
    out.push(0x3c);
    out.push(0x62);
    out.push(0x6f);
    out.push(0x64);
    out.push(0x79);
    out.push(0x3e);
    out.push(0x3c);
    out.push(0x74);
    out.push(0x61);
    out.push(0x62);
    out.push(0x6c);
    out.push(0x65);
    out.push(0x3e);
    proof {
        assert(out@ =~= frag_page_open());
    }
    let mut i: usize = 0;
    while i < items.len()
        invariant
            0 <= i <= items@.len(),
            out@ == frag_page_open() + spec_rows(
                items@.subrange(0, i as int).map_values(|e: Expense| e@),
            ),
        decreases items@.len() - i,
    {
        proof {
            assert(spec_rows(items@.subrange(0, i as int).map_values(|e: Expense| e@))
                =~= spec_rows(items@.subrange(0, i as int).map_values(|e: Expense| e@)));
            assert(items@.subrange(0, i + 1 as int).map_values(|e: Expense| e@).drop_last()
                =~= items@.subrange(0, i as int).map_values(|e: Expense| e@));
            assert(items@.subrange(0, i + 1 as int).map_values(|e: Expense| e@).last()
                == items@[i as int]@);
        }
        push_row(&mut out, &items[i]);
        i = i + 1;
    }
    proof {
        assert(items@.subrange(0, items@.len() as int) =~= items@);
    }
    out.push(0x3c);
    out.push(0x2f);
    out.push(0x74);
    out.push(0x61);
    out.push(0x62);
    out.push(0x6c);
    out.push(0x65);
    out.push(0x3e);
    out.push(0x3c);
    out.push(0x2f);
    out.push(0x62);
    out.push(0x6f);
    out.push(0x64);
    out.push(0x79);
    out.push(0x3e);
    out.push(0x3c);
    out.push(0x2f);
    out.push(0x68);
    out.push(0x74);
    out.push(0x6d);
    out.push(0x6c);
    out.push(0x3e);
    proof {
        assert(out@ =~= spec_expenses_page(items@.map_values(|e: Expense| e@)));
    }
    out
}

/// Renders the static index page: always the same bytes.
pub fn render_index_page() -> (out: Vec<u8>)
    ensures
        out@ == spec_index_page(),
{
    let mut out: Vec<u8> = Vec::new();
    out.push(0x3c);
    out.push(0x68);
    out.push(0x74);
    out.push(0x6d);
    out.push(0x6c);
    out.push(0x3e);
    out.push(0x3c);
    out.push(0x62);
    out.push(0x6f);
    out.push(0x64);
    out.push(0x79);
    out.push(0x3e);
    out.push(0x3c);
    out.push(0x61);
    out.push(0x20);
    out.push(0x68);
    out.push(0x72);
    out.push(0x65);
    out.push(0x66);
    out.push(0x3d);
    out.push(0x22);
    out.push(0x2f);
    out.push(0x65);
    out.push(0x78);
    out.push(0x70);
    out.push(0x65);
    out.push(0x6e);
    out.push(0x73);
    out.push(0x65);
    out.push(0x73);
    out.push(0x22);
    out.push(0x3e);
    out.push(0x45);
    out.push(0x78);
    out.push(0x70);
    out.push(0x65);
    out.push(0x6e);
    out.push(0x73);
    out.push(0x65);
    out.push(0x73);
    out.push(0x3c);
    out.push(0x2f);
    out.push(0x61);
    out.push(0x3e);
    out.push(0x3c);
    out.push(0x2f);
    out.push(0x62);
    out.push(0x6f);
    out.push(0x64);
    out.push(0x79);
    out.push(0x3e);
    out.push(0x3c);
    out.push(0x2f);
    out.push(0x68);
    out.push(0x74);
    out.push(0x6d);
    out.push(0x6c);
    out.push(0x3e);
    proof {
        assert(out@ =~= spec_index_page());
    }
    out
}

/// Law: the rendered listing has exactly one row per expense, in order.
/// Extending the listed expenses by the `j`-th one appends exactly that
/// expense's row, and nothing else, to the rendered rows.
pub proof fn lemma_one_row_per_item(items: Seq<ExpenseV>, j: int)
    requires
        0 <= j < items.len(),
    ensures
        spec_rows(items.take(j + 1)) == spec_rows(items.take(j)) + spec_row(items[j]),
        spec_rows(items.take(items.len() as int)) == spec_rows(items),
{
    assert(items.take(j + 1).drop_last() =~= items.take(j));
    assert(items.take(items.len() as int) =~= items);
}

/// Law: the listing page for a decoded payload is the fixed frame around the
/// rows of the projected items — one projected item per payload item, in the
/// payload's order, and a projection keeps only id, name and amount.
pub proof fn lemma_page_shows_projected_items(resp: PaginatedResponseV)
    ensures
        spec_expenses_page(spec_project_all(resp.items)) == frag_page_open() + spec_rows(
            spec_project_all(resp.items),
        ) + frag_page_close(),
        spec_project_all(resp.items).len() == resp.items.len(),
        forall|j: int|
            0 <= j < resp.items.len() ==> spec_project_all(resp.items)[j] == spec_project(
                resp.items[j],
            ),
{
}

} // verus!
