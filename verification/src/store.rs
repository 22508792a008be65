//! Rows of the table of stored patterns, and what is read off them.
use vstd::prelude::*;
use vstd::string::StrSliceExecFns;

verus! {

/// The answer to the question how many rows the last statement changed.
#[derive(Debug)]
pub struct Count {
    pub count: i64,
}

impl Count {
    /// Whether any row was changed.
    pub fn any(&self) -> (b: bool)
        ensures
            b == (self.count > 0),
    {
        self.count > 0
    }
}

/// A stored pattern, with its key and the user who stored it.
#[derive(Debug)]
pub struct Regexp {
    pub key: String,
    pub regexp: String,
    pub user_id: String,
    pub user_name: String,
}

/// The pattern of the row that a lookup found, if it found one.
pub fn pattern_of(row: Option<Regexp>) -> (pattern: Option<String>)
    ensures
        pattern == match row {
            Some(r) => Some(r.regexp),
            None => None,
        },
{
    match row {
        Some(r) => Some(r.regexp),
        None => None,
    }
}

/// The code by which the database reports that a key is taken.
pub const DUPLICATE_KEY_CODE: &'static str = "1062";

/// Whether the code of a database error says that the key is taken.
pub fn is_duplicate_key(code: Option<&str>) -> (b: bool)
    ensures
        b == (code matches Some(c) && c@ == DUPLICATE_KEY_CODE@),
{
    match code {
        Some(c) => same_text(c, DUPLICATE_KEY_CODE),
        None => false,
    }
}

/// Whether two strings hold the same characters.
pub fn same_text(a: &str, b: &str) -> (same: bool)
    ensures
        same == (a@ == b@),
{
    let n = a.unicode_len();
    if n != b.unicode_len() {
        return false;
    }
    let mut i: usize = 0;
    while i < n
        invariant
            i <= n,
            n == a@.len(),
            n == b@.len(),
            forall|j: int| 0 <= j < i ==> a@[j] == b@[j],
        decreases n - i,
    {
        if a.get_char(i) != b.get_char(i) {
            return false;
        }
        i += 1;
    }
    proof {
        assert(a@ =~= b@);
    }
    true
}

} // verus!
