//! Categories that group map visualizations, and their order.
use vstd::prelude::*;

verus! {

#[derive(Debug, Clone, PartialEq, Eq)]
pub struct DataCategory {
    pub id: i32,
    pub name: String,
    pub normalized: bool,
    pub order: i16,
}

/// A category as an editor submits it, before the store gives it an id.
#[derive(Debug, Clone, PartialEq, Eq)]
pub struct DataCategoryCreation {
    pub name: String,
    pub normalized: bool,
}

/// The position after `last`, the last position taken (none when nothing is
/// placed yet); `None` where positions are exhausted.
pub fn next_order(last: Option<i16>) -> (r: Option<i16>)
    ensures
        r == next_order_spec(last),
{
    match last {
        Some(o) => if o < i16::MAX {
            Some(o + 1)
        } else {
            None
        },
        None => Some(1),
    }
}

/// The category to store for `creation`, placed after `last_order`; the
/// store assigns the id.
pub fn category_to_create(creation: &DataCategoryCreation, last_order: Option<i16>) -> (r: Option<
    DataCategory,
>)
    ensures
        match next_order_spec(last_order) {
            Some(order) => r matches Some(c) && c.order == order && c.id == 0 && c.name@
                == creation.name@ && c.normalized == creation.normalized,
            None => r is None,
        },
{
    match next_order(last_order) {
        Some(order) => Some(
            DataCategory { id: 0, name: creation.name.clone(), normalized: creation.normalized, order },
        ),
        None => None,
    }
}

pub open spec fn next_order_spec(last: Option<i16>) -> Option<i16> {
    match last {
        Some(o) => if o < i16::MAX {
            Some((o + 1) as i16)
        } else {
            None
        },
        None => Some(1i16),
    }
}

/// The categories, followed, when drafts are asked for, by the category
/// `drafts` (id -1) that collects uncategorized map visualizations.
pub fn with_drafts(categories: Vec<DataCategory>, include_drafts: bool) -> (r: Vec<DataCategory>)
    ensures
        !include_drafts ==> r@ == categories@,
        include_drafts ==> r@.len() == categories@.len() + 1 && r@.subrange(
            0,
            categories@.len() as int,
        ) == categories@ && r@.last().id == -1 && r@.last().name@ == seq![
            'd',
            'r',
            'a',
            'f',
            't',
            's',
        ] && !r@.last().normalized && r@.last().order == 0,
{
    let mut r = categories;
    if include_drafts {
        let ghost before = r@;
        let name = "drafts".to_string();
        proof {
            reveal_strlit("drafts");
        }
        r.push(DataCategory { id: -1, name, normalized: false, order: 0 });
        assert(r@.subrange(0, before.len() as int) =~= before);
    }
    r
}

} // verus!
