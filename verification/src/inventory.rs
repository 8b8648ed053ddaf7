use vstd::prelude::*;
use crate::models::{ItemFilter, ItemInput, LocationInput};
use crate::text::{
    clone_opt, decimal_digits, decimal_string, decimal_text, opt_text, push_decimal,
};

verus! {

/// A parent identifier as stored: zero stands for "no parent".
pub open spec fn parent_of(raw: Option<i32>) -> Option<i32> {
    match raw {
        Some(v) => if v == 0 {
            None
        } else {
            Some(v)
        },
        None => None,
    }
}

/// Reads a stored parent identifier, turning zero into "no parent".
pub fn normalize_parent_id(raw: Option<i32>) -> (parent: Option<i32>)
    ensures
        parent == parent_of(raw),
{
    match raw {
        Some(v) => if v == 0 {
            None
        } else {
            Some(v)
        },
        None => None,
    }
}

/// Why a quantity change was refused.
#[derive(Clone, Copy, Debug, PartialEq, Eq, Structural)]
pub enum QuantityError {
    /// The change would take the quantity below zero.
    Insufficient,
    /// The new quantity does not fit the quantity's type.
    OutOfRange,
}

/// The quantity after a change, or the reason why the change is refused.
pub open spec fn changed_quantity(current: int, change: int) -> Result<i32, QuantityError> {
    if current + change < 0 {
        Err(QuantityError::Insufficient)
    } else if current + change > i32::MAX {
        Err(QuantityError::OutOfRange)
    } else {
        Ok((current + change) as i32)
    }
}

/// Applies a signed change to a quantity. A result below zero is refused as
/// insufficient stock.
pub fn apply_quantity_change(current: i32, change: i32) -> (outcome: Result<i32, QuantityError>)
    ensures
        outcome == changed_quantity(current as int, change as int),
{
    let sum: i64 = current as i64 + change as i64;
    if sum < 0 {
        Err(QuantityError::Insufficient)
    } else if sum > i32::MAX as i64 {
        Err(QuantityError::OutOfRange)
    } else {
        Ok(sum as i32)
    }
}

/// Whether a filter is there and asks for a category.
pub open spec fn wanted_category(filter: Option<ItemFilter>) -> Option<Seq<char>> {
    match filter {
        Some(f) => opt_text(f.category),
        None => None,
    }
}

/// Whether a filter is there and asks for a location.
pub open spec fn wanted_location(filter: Option<ItemFilter>) -> Option<i32> {
    match filter {
        Some(f) => f.location_id,
        None => None,
    }
}

/// Whether a filter is there and asks for a search text.
pub open spec fn wanted_search(filter: Option<ItemFilter>) -> Option<Seq<char>> {
    match filter {
        Some(f) => opt_text(f.search),
        None => None,
    }
}

/// How many of the first conditions are present.
pub open spec fn count_present(a: bool, b: bool, c: bool) -> nat {
    ((if a {
        1int
    } else {
        0int
    }) + (if b {
        1int
    } else {
        0int
    }) + (if c {
        1int
    } else {
        0int
    })) as nat
}

/// The listing query for a filter: one numbered placeholder per condition
/// that the filter holds, in the order category, location, search; ordered by
/// name.
pub open spec fn item_query_text(filter: Option<ItemFilter>) -> Seq<char> {
    let cat = wanted_category(filter) is Some;
    let loc = wanted_location(filter) is Some;
    let search = wanted_search(filter) is Some;
    "SELECT id, name, category, specifications, quantity, unit, location_id, min_quantity, notes, image_path, created_at, updated_at FROM items WHERE 1=1"@
        + (if cat {
        " AND category = ?"@ + decimal_digits(1)
    } else {
        Seq::empty()
    }) + (if loc {
        " AND location_id = ?"@ + decimal_digits(count_present(cat, true, false))
    } else {
        Seq::empty()
    }) + (if search {
        " AND (name LIKE ?"@ + decimal_digits(count_present(cat, loc, true))
            + " OR specifications LIKE ?"@ + decimal_digits(count_present(cat, loc, true)) + ")"@
    } else {
        Seq::empty()
    }) + " ORDER BY name"@
}

/// The values bound to the placeholders of the listing query, in their
/// order. A search text is bound between two wildcards.
pub open spec fn item_query_params(filter: Option<ItemFilter>) -> Seq<Seq<char>> {
    (match wanted_category(filter) {
        Some(c) => seq![c],
        None => Seq::empty(),
    }) + (match wanted_location(filter) {
        Some(l) => seq![decimal_text(l as int)],
        None => Seq::empty(),
    }) + (match wanted_search(filter) {
        Some(s) => seq!["%"@ + s + "%"@],
        None => Seq::empty(),
    })
}

/// The texts of a list of strings.
pub open spec fn texts(strings: Seq<String>) -> Seq<Seq<char>> {
    Seq::new(strings.len(), |i: int| strings[i]@)
}

/// Builds the listing query for a filter, and the values to bind to it.
pub fn item_query(filter: &Option<ItemFilter>) -> (built: (String, Vec<String>))
    ensures
        built.0@ == item_query_text(*filter),
        texts(built.1@) == item_query_params(*filter),
{
    let mut query = String::from_str(
        "SELECT id, name, category, specifications, quantity, unit, location_id, min_quantity, notes, image_path, created_at, updated_at FROM items WHERE 1=1",
    );
    let mut params: Vec<String> = Vec::new();
    let mut count: u64 = 0;
    let ghost base = query@;
    let ghost mut part1: Seq<char> = Seq::empty();
    let ghost mut part2: Seq<char> = Seq::empty();
    let ghost mut part3: Seq<char> = Seq::empty();
    if let Some(f) = filter {
        if let Some(category) = &f.category {
            count = count + 1;
            query.append(" AND category = ?");
            push_decimal(&mut query, count);
            params.push(category.clone());
            proof {
                part1 = " AND category = ?"@ + decimal_digits(1);
            }
        }
        assert(query@ =~= base + part1);
        assert(texts(params@) =~= match wanted_category(*filter) {
            Some(c) => seq![c],
            None => Seq::empty(),
        });
        let ghost params1 = texts(params@);
        if let Some(location_id) = f.location_id {
            count = count + 1;
            query.append(" AND location_id = ?");
            push_decimal(&mut query, count);
            params.push(decimal_string(location_id));
            proof {
                part2 = " AND location_id = ?"@ + decimal_digits(count as nat);
            }
        }
        assert(query@ =~= base + part1 + part2);
        assert(texts(params@) =~= params1 + match wanted_location(*filter) {
            Some(l) => seq![decimal_text(l as int)],
            None => Seq::empty(),
        });
        let ghost params2 = texts(params@);
        if let Some(search) = &f.search {
            count = count + 1;
            query.append(" AND (name LIKE ?");
            push_decimal(&mut query, count);
            query.append(" OR specifications LIKE ?");
            push_decimal(&mut query, count);
            query.append(")");
            let mut pattern = String::from_str("%");
            pattern.append(search.as_str());
            pattern.append("%");
            params.push(pattern);
            proof {
                part3 = " AND (name LIKE ?"@ + decimal_digits(count as nat)
                    + " OR specifications LIKE ?"@ + decimal_digits(count as nat) + ")"@;
            }
        }
        assert(query@ =~= base + part1 + part2 + part3);
        assert(texts(params@) =~= params2 + match wanted_search(*filter) {
            Some(s) => seq!["%"@ + s + "%"@],
            None => Seq::empty(),
        });
    } else {
        assert(texts(params@) =~= item_query_params(*filter));
    }
    query.append(" ORDER BY name");
    assert(query@ =~= base + part1 + part2 + part3 + " ORDER BY name"@);
    (query, params)
}

/// The decimal text of an optional number.
pub open spec fn opt_decimal_text(value: Option<i32>) -> Option<Seq<char>> {
    match value {
        Some(v) => Some(decimal_text(v as int)),
        None => None,
    }
}

/// The decimal text of an optional number.
pub fn opt_decimal(value: Option<i32>) -> (text: Option<String>)
    ensures
        opt_text(text) == opt_decimal_text(value),
{
    match value {
        Some(v) => Some(decimal_string(v)),
        None => None,
    }
}

/// The texts of a list of optional strings.
pub open spec fn opt_texts(values: Seq<Option<String>>) -> Seq<Option<Seq<char>>> {
    Seq::new(values.len(), |i: int| opt_text(values[i]))
}

/// The values that an item is stored with, in the order of its columns:
/// name, category, specifications, quantity, unit, location, minimum
/// quantity, notes, image path. A field that is absent is stored as null.
pub open spec fn item_value_texts(item: ItemInput) -> Seq<Option<Seq<char>>> {
    seq![
        Some(item.name@),
        opt_text(item.category),
        opt_text(item.specifications),
        Some(decimal_text(item.quantity as int)),
        opt_text(item.unit),
        opt_decimal_text(item.location_id),
        opt_decimal_text(item.min_quantity),
        opt_text(item.notes),
        opt_text(item.image_path),
    ]
}

/// The values that an item is stored with, in the order of its columns.
pub fn item_values(item: &ItemInput) -> (values: Vec<Option<String>>)
    ensures
        opt_texts(values@) == item_value_texts(*item),
{
    let mut values: Vec<Option<String>> = Vec::new();
    values.push(Some(item.name.clone()));
    values.push(clone_opt(&item.category));
    values.push(clone_opt(&item.specifications));
    values.push(Some(decimal_string(item.quantity)));
    values.push(clone_opt(&item.unit));
    values.push(opt_decimal(item.location_id));
    values.push(opt_decimal(item.min_quantity));
    values.push(clone_opt(&item.notes));
    values.push(clone_opt(&item.image_path));
    assert(opt_texts(values@) =~= item_value_texts(*item));
    values
}

/// The values that a new location is stored with: name, parent (none for a
/// root, which may come as zero), type, description and code.
pub open spec fn location_value_texts(input: LocationInput, code: Seq<char>) -> Seq<
    Option<Seq<char>>,
> {
    seq![
        Some(input.name@),
        opt_decimal_text(parent_of(input.parent_id)),
        Some(input.location_type@),
        opt_text(input.description),
        Some(code),
    ]
}

/// The values that a new location is stored with.
pub fn location_values(input: &LocationInput, code: &str) -> (values: Vec<Option<String>>)
    ensures
        opt_texts(values@) == location_value_texts(*input, code@),
{
    let mut values: Vec<Option<String>> = Vec::new();
    values.push(Some(input.name.clone()));
    values.push(opt_decimal(normalize_parent_id(input.parent_id)));
    values.push(Some(input.location_type.clone()));
    values.push(clone_opt(&input.description));
    values.push(Some(String::from_str(code)));
    assert(opt_texts(values@) =~= location_value_texts(*input, code@));
    values
}

/// The values of one entry of an item's quantity history: the item, the
/// change, the quantity after it, the kind of operation, and the source,
/// which is always manual entry.
pub open spec fn log_value_texts(item_id: int, change: int, after: int, operation: Seq<char>) -> Seq<
    Seq<char>,
> {
    seq![decimal_text(item_id), decimal_text(change), decimal_text(after), operation, "manual"@]
}

/// The values of one entry of an item's quantity history.
pub fn log_values(item_id: i32, change: i32, after: i32, operation: &str) -> (values: Vec<String>)
    ensures
        texts(values@) == log_value_texts(item_id as int, change as int, after as int, operation@),
{
    let mut values: Vec<String> = Vec::new();
    values.push(decimal_string(item_id));
    values.push(decimal_string(change));
    values.push(decimal_string(after));
    values.push(String::from_str(operation));
    values.push(String::from_str("manual"));
    assert(texts(values@) =~= log_value_texts(
        item_id as int,
        change as int,
        after as int,
        operation@,
    ));
    values
}

/// The part of a text before its first hyphen, or all of it where it has
/// none.
pub open spec fn first_segment(text: Seq<char>) -> Seq<char>
    decreases text.len(),
{
    if text.len() == 0 || text[0] == '-' {
        Seq::empty()
    } else {
        seq![text[0]] + first_segment(text.subrange(1, text.len() as int))
    }
}

/// The code of a location made from the text of a fresh identifier: a fixed
/// prefix and the identifier's first group.
pub open spec fn location_code_text(uuid_text: Seq<char>) -> Seq<char> {
    "LOC-"@ + first_segment(uuid_text)
}

proof fn lemma_first_segment_is_prefix(text: Seq<char>, k: int)
    requires
        0 <= k <= text.len(),
        forall|j: int| 0 <= j < k ==> text[j] != '-',
        k == text.len() || text[k] == '-',
    ensures
        first_segment(text) == text.subrange(0, k),
    decreases text.len(),
{
    if k == 0 {
        assert(text.subrange(0, 0) =~= Seq::<char>::empty());
    } else {
        let rest = text.subrange(1, text.len() as int);
        assert forall|j: int| 0 <= j < k - 1 implies rest[j] != '-' by {
            assert(rest[j] == text[j + 1]);
        }
        lemma_first_segment_is_prefix(rest, k - 1);
        assert(seq![text[0]] + rest.subrange(0, k - 1) =~= text.subrange(0, k));
    }
}

/// Makes the code of a location from the text of a fresh identifier.
pub fn location_code(uuid_text: &str) -> (code: String)
    ensures
        code@ == location_code_text(uuid_text@),
{
    let n: usize = uuid_text.unicode_len();
    let mut k: usize = 0;
    while k < n && uuid_text.get_char(k) != '-'
        invariant
            n == uuid_text@.len(),
            k <= n,
            forall|j: int| 0 <= j < k ==> uuid_text@[j] != '-',
        decreases n - k,
    {
        k = k + 1;
    }
    proof {
        lemma_first_segment_is_prefix(uuid_text@, k as int);
    }
    let mut code = String::from_str("LOC-");
    code.append(uuid_text.substring_char(0, k));
    code
}

/// Calls `uuid::Uuid::new_v4` and writes the identifier out in its usual
/// hyphenated form. The identifier is random, so nothing is stated of it.
#[verifier::external_body]
fn fresh_uuid_text() -> (text: String) {
    uuid::Uuid::new_v4().to_string()
}

/// Makes the code of a new location from a fresh random identifier.
pub fn new_location_code() -> (code: String)
    ensures
        exists|uuid_text: Seq<char>| code@ == location_code_text(uuid_text),
{
    let fresh = fresh_uuid_text();
    location_code(fresh.as_str())
}

} // verus!
