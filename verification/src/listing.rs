//! The orders in which records are listed: environments by last use, then
//! name, then path; environments by id; packages and names by folded name.
use vstd::prelude::*;
use crate::model::{Environment, PackageRecord};
use crate::order::Order;
use crate::text::{
    ascii_lower, ascii_lower_chars, chars_of, compare_chars, lemma_text_order_antisym,
    lemma_text_order_trans, text_order,
};

verus! {

/// Recently used first (later time stamps first), never used last.
pub open spec fn last_used_order(a: Option<String>, b: Option<String>) -> int {
    match (a, b) {
        (Some(x), Some(y)) => text_order(y@, x@),
        (Some(_), None) => -1,
        (None, Some(_)) => 1,
        (None, None) => 0,
    }
}

/// The registry's listing order: `last_used_at IS NULL, last_used_at DESC,
/// lower(name), path`.
pub open spec fn list_order(a: Environment, b: Environment) -> int {
    let c1 = last_used_order(a.last_used_at, b.last_used_at);
    if c1 != 0 {
        c1
    } else {
        let c2 = text_order(ascii_lower(a.name@), ascii_lower(b.name@));
        if c2 != 0 {
            c2
        } else {
            text_order(a.path@, b.path@)
        }
    }
}

proof fn lemma_last_used_order(a: Option<String>, b: Option<String>, c: Option<String>)
    ensures
        last_used_order(a, b) == -last_used_order(b, a),
        last_used_order(a, b) == 0 ==> last_used_order(a, c) == last_used_order(b, c),
        last_used_order(a, b) <= 0 && last_used_order(b, c) <= 0 ==> last_used_order(a, c) <= 0,
        last_used_order(a, b) < 0 && last_used_order(b, c) <= 0 ==> last_used_order(a, c) < 0,
        last_used_order(a, b) <= 0 && last_used_order(b, c) < 0 ==> last_used_order(a, c) < 0,
{
    match (a, b, c) {
        (Some(x), Some(y), Some(z)) => {
            lemma_text_order_antisym(y@, x@);
            lemma_text_order_antisym(z@, x@);
            lemma_text_order_antisym(z@, y@);
            lemma_text_order_trans(z@, y@, x@);
        },
        (Some(x), Some(y), None) => {
            lemma_text_order_antisym(y@, x@);
        },
        _ => {},
    }
}

proof fn lemma_text_key(a: Seq<char>, b: Seq<char>, c: Seq<char>)
    ensures
        text_order(a, b) == -text_order(b, a),
        text_order(a, b) == 0 ==> text_order(a, c) == text_order(b, c),
        text_order(a, b) <= 0 && text_order(b, c) <= 0 ==> text_order(a, c) <= 0,
        text_order(a, b) < 0 && text_order(b, c) <= 0 ==> text_order(a, c) < 0,
        text_order(a, b) <= 0 && text_order(b, c) < 0 ==> text_order(a, c) < 0,
{
    lemma_text_order_antisym(a, b);
    lemma_text_order_trans(a, b, c);
}

pub proof fn lemma_list_order(a: Environment, b: Environment, c: Environment)
    ensures
        list_order(a, b) == -list_order(b, a),
        list_order(a, b) <= 0 && list_order(b, c) <= 0 ==> list_order(a, c) <= 0,
        list_order(a, b) == 0 ==> a.path@ == b.path@,
{
    lemma_last_used_order(a.last_used_at, b.last_used_at, c.last_used_at);
    lemma_last_used_order(b.last_used_at, c.last_used_at, a.last_used_at);
    let (la, lb, lc) = (ascii_lower(a.name@), ascii_lower(b.name@), ascii_lower(c.name@));
    lemma_text_key(la, lb, lc);
    lemma_text_key(lb, lc, la);
    lemma_text_key(a.path@, b.path@, c.path@);
    lemma_text_key(b.path@, c.path@, a.path@);
    lemma_text_order_antisym(a.path@, b.path@);
}

/// Three-way comparison in the listing order.
pub fn list_order_exec(a: &Environment, b: &Environment) -> (res: i8)
    ensures
        res as int == list_order(*a, *b),
{
    let c1: i8 = match (&a.last_used_at, &b.last_used_at) {
        (Some(x), Some(y)) => {
            let xv = chars_of(x.as_str());
            let yv = chars_of(y.as_str());
            compare_chars(&yv, &xv)
        },
        (Some(_), None) => -1,
        (None, Some(_)) => 1,
        (None, None) => 0,
    };
    if c1 != 0 {
        return c1;
    }
    let an = chars_of(a.name.as_str());
    let bn = chars_of(b.name.as_str());
    let al = ascii_lower_chars(&an);
    let bl = ascii_lower_chars(&bn);
    let c2 = compare_chars(&al, &bl);
    if c2 != 0 {
        return c2;
    }
    let ap = chars_of(a.path.as_str());
    let bp = chars_of(b.path.as_str());
    compare_chars(&ap, &bp)
}

/// The listing order as an `Order`.
pub struct ByListOrder;

impl Order<Environment> for ByListOrder {
    open spec fn le(a: Environment, b: Environment) -> bool {
        list_order(a, b) <= 0
    }

    fn le_exec(a: &Environment, b: &Environment) -> (res: bool) {
        list_order_exec(a, b) <= 0
    }

    proof fn lemma_total(a: Environment, b: Environment) {
        lemma_list_order(a, b, a);
    }

    proof fn lemma_trans(a: Environment, b: Environment, c: Environment) {
        lemma_list_order(a, b, c);
    }
}

/// Environments by id, the order of a map keyed by id.
pub struct ByIdOrder;

impl Order<Environment> for ByIdOrder {
    open spec fn le(a: Environment, b: Environment) -> bool {
        text_order(a.id@, b.id@) <= 0
    }

    fn le_exec(a: &Environment, b: &Environment) -> (res: bool) {
        let x = chars_of(a.id.as_str());
        let y = chars_of(b.id.as_str());
        compare_chars(&x, &y) <= 0
    }

    proof fn lemma_total(a: Environment, b: Environment) {
        lemma_text_order_antisym(a.id@, b.id@);
    }

    proof fn lemma_trans(a: Environment, b: Environment, c: Environment) {
        lemma_text_order_trans(a.id@, b.id@, c.id@);
    }
}

/// Package records by ASCII-folded name, `ORDER BY lower(name)`.
pub struct ByPackageName;

impl Order<PackageRecord> for ByPackageName {
    open spec fn le(a: PackageRecord, b: PackageRecord) -> bool {
        text_order(ascii_lower(a.name@), ascii_lower(b.name@)) <= 0
    }

    fn le_exec(a: &PackageRecord, b: &PackageRecord) -> (res: bool) {
        let x = chars_of(a.name.as_str());
        let y = chars_of(b.name.as_str());
        let xl = ascii_lower_chars(&x);
        let yl = ascii_lower_chars(&y);
        compare_chars(&xl, &yl) <= 0
    }

    proof fn lemma_total(a: PackageRecord, b: PackageRecord) {
        lemma_text_order_antisym(ascii_lower(a.name@), ascii_lower(b.name@));
    }

    proof fn lemma_trans(a: PackageRecord, b: PackageRecord, c: PackageRecord) {
        lemma_text_order_trans(ascii_lower(a.name@), ascii_lower(b.name@), ascii_lower(c.name@));
    }
}

/// `(name, count)` pairs by ASCII-folded name.
pub struct ByFoldedName;

impl Order<(String, usize)> for ByFoldedName {
    open spec fn le(a: (String, usize), b: (String, usize)) -> bool {
        text_order(ascii_lower(a.0@), ascii_lower(b.0@)) <= 0
    }

    fn le_exec(a: &(String, usize), b: &(String, usize)) -> (res: bool) {
        let x = chars_of(a.0.as_str());
        let y = chars_of(b.0.as_str());
        let xl = ascii_lower_chars(&x);
        let yl = ascii_lower_chars(&y);
        compare_chars(&xl, &yl) <= 0
    }

    proof fn lemma_total(a: (String, usize), b: (String, usize)) {
        lemma_text_order_antisym(ascii_lower(a.0@), ascii_lower(b.0@));
    }

    proof fn lemma_trans(a: (String, usize), b: (String, usize), c: (String, usize)) {
        lemma_text_order_trans(ascii_lower(a.0@), ascii_lower(b.0@), ascii_lower(c.0@));
    }
}

} // verus!
