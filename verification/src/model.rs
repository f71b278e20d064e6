//! The data model: the external record shape, the paginated envelope that the
//! record store returns, and the reduced view model that the pages display.
//! Textual fields hold UTF-8 bytes; the surrounding server trades raw bytes
//! with this library.

use vstd::prelude::*;

verus! {

/// An expense as shown to the client: exactly the three displayed fields.
pub struct Expense {
    pub id: Vec<u8>,
    pub name: Vec<u8>,
    pub amount: u16,
}

/// Mathematical image of an `Expense`.
pub struct ExpenseV {
    pub id: Seq<u8>,
    pub name: Seq<u8>,
    pub amount: u16,
}

impl View for Expense {
    type V = ExpenseV;

    open spec fn view(&self) -> ExpenseV {
        ExpenseV { id: self.id@, name: self.name@, amount: self.amount }
    }
}

/// An expense record as the external store represents it: the displayed
/// fields plus the store's own metadata, which this system only carries.
pub struct ExpenseRecord {
    pub id: Vec<u8>,
    pub name: Vec<u8>,
    pub amount: u16,
    pub collection_id: Vec<u8>,
    pub collection_name: Vec<u8>,
    pub updated: Vec<u8>,
    pub created: Vec<u8>,
}

/// Mathematical image of an `ExpenseRecord`.
pub struct ExpenseRecordV {
    pub id: Seq<u8>,
    pub name: Seq<u8>,
    pub amount: u16,
    pub collection_id: Seq<u8>,
    pub collection_name: Seq<u8>,
    pub updated: Seq<u8>,
    pub created: Seq<u8>,
}

impl View for ExpenseRecord {
    type V = ExpenseRecordV;

    open spec fn view(&self) -> ExpenseRecordV {
        ExpenseRecordV {
            id: self.id@,
            name: self.name@,
            amount: self.amount,
            collection_id: self.collection_id@,
            collection_name: self.collection_name@,
            updated: self.updated@,
            created: self.created@,
        }
    }
}

/// The envelope around one page of records. Only `items` is consumed
/// downstream; the pagination metadata is decoded and then ignored.
pub struct PaginatedResponse {
    pub page: u32,
    pub per_page: u32,
    pub total_pages: u32,
    pub total_items: u32,
    pub items: Vec<ExpenseRecord>,
}

/// Mathematical image of a `PaginatedResponse`.
pub struct PaginatedResponseV {
    pub page: u32,
    pub per_page: u32,
    pub total_pages: u32,
    pub total_items: u32,
    pub items: Seq<ExpenseRecordV>,
}

impl View for PaginatedResponse {
    type V = PaginatedResponseV;

    open spec fn view(&self) -> PaginatedResponseV {
        PaginatedResponseV {
            page: self.page,
            per_page: self.per_page,
            total_pages: self.total_pages,
            total_items: self.total_items,
            items: self.items@.map_values(|r: ExpenseRecord| r@),
        }
    }
}

/// The projection from a stored record to the view model: the displayed
/// fields are kept unchanged, the store metadata is dropped.
pub open spec fn spec_project(r: ExpenseRecordV) -> ExpenseV {
    ExpenseV { id: r.id, name: r.name, amount: r.amount }
}

/// Projection of a whole page of records, in order.
pub open spec fn spec_project_all(items: Seq<ExpenseRecordV>) -> Seq<ExpenseV> {
    items.map_values(|r: ExpenseRecordV| spec_project(r))
}

/// Builds the view model of one record: a strict projection of its fields.
pub fn to_expense(r: &ExpenseRecord) -> (e: Expense)
    ensures
        e@ == spec_project(r@),
{
    Expense { id: copy_bytes(&r.id), name: copy_bytes(&r.name), amount: r.amount }
}

/// Projects every record of a page, keeping the order.
pub fn project_items(items: &Vec<ExpenseRecord>) -> (out: Vec<Expense>)
    ensures
        out@.map_values(|e: Expense| e@) == spec_project_all(items@.map_values(|r: ExpenseRecord| r@)),
{
    let mut out: Vec<Expense> = Vec::new();
    let mut i: usize = 0;
    while i < items.len()
        invariant
            0 <= i <= items@.len(),
            out@.len() == i,
            forall|k: int| 0 <= k < i ==> out@[k]@ == spec_project(items@[k]@),
        decreases items@.len() - i,
    {
        let e = to_expense(&items[i]);
        out.push(e);
        i = i + 1;
    }
    proof {
        assert(out@.map_values(|e: Expense| e@) =~= spec_project_all(
            items@.map_values(|r: ExpenseRecord| r@),
        ));
    }
    out
}

/// Copies a byte string.
pub fn copy_bytes(src: &Vec<u8>) -> (out: Vec<u8>)
    ensures
        out@ == src@,
{
    let mut out: Vec<u8> = Vec::new();
    let mut i: usize = 0;
    while i < src.len()
        invariant
            0 <= i <= src@.len(),
            out@ == src@.subrange(0, i as int),
        decreases src@.len() - i,
    {
        out.push(src[i]);
        proof {
            assert(out@ =~= src@.subrange(0, i + 1 as int));
        }
        i = i + 1;
    }
    proof {
        assert(out@ =~= src@);
    }
    out
}

} // verus!
