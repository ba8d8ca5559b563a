//! Generic store rows.
//!
//! The store has no fixed schema: column names are runtime configuration, so
//! a row comes back as a list of column-name / value pairs. The evaluator
//! reads typed views out of such rows; a malformed row is tolerated, never an
//! error.

use vstd::prelude::*;
use crate::text::str_eq;

verus! {

/// A cell value as the store hands it back: text, a fixed-point number
/// (see `price`), or a flag.
pub enum FieldValue {
    Text(String),
    Number(i64),
    Flag(bool),
}

/// One stored row: column-name / value pairs, under the column names the
/// deployment configured. A name occurring twice resolves to its first
/// entry.
pub struct Row {
    pub fields: Vec<(String, FieldValue)>,
}

impl View for Row {
    type V = Seq<(String, FieldValue)>;

    open spec fn view(&self) -> Seq<(String, FieldValue)> {
        self.fields@
    }
}

/// The first value stored under `key`, if any.
pub open spec fn field_of(fields: Seq<(String, FieldValue)>, key: Seq<char>) -> Option<
    FieldValue,
>
    decreases fields.len(),
{
    if fields.len() == 0 {
        None
    } else if fields[0].0@ == key {
        Some(fields[0].1)
    } else {
        field_of(fields.drop_first(), key)
    }
}

/// The text stored under `key`, if the entry exists and holds text.
pub open spec fn text_field_of(fields: Seq<(String, FieldValue)>, key: Seq<char>) -> Option<
    Seq<char>,
> {
    match field_of(fields, key) {
        Some(FieldValue::Text(s)) => Some(s@),
        _ => None,
    }
}

/// The number stored under `key`, if the entry exists and holds a number.
pub open spec fn number_field_of(fields: Seq<(String, FieldValue)>, key: Seq<char>) -> Option<
    int,
> {
    match field_of(fields, key) {
        Some(FieldValue::Number(n)) => Some(n as int),
        _ => None,
    }
}

impl Row {
    /// The first value stored under `key`, if any.
    pub fn get<'a>(&'a self, key: &str) -> (r: Option<&'a FieldValue>)
        ensures
            match r {
                Some(v) => field_of(self@, key@) == Some(*v),
                None => field_of(self@, key@) is None,
            },
    {
        let n = self.fields.len();
        let mut i: usize = 0;
        proof {
            assert(self@.skip(0) =~= self@);
        }
        while i < n
            invariant
                i <= n,
                n == self@.len(),
                field_of(self@, key@) == field_of(self@.skip(i as int), key@),
            decreases n - i,
        {
            proof {
                assert(self@.skip(i as int)[0] == self@[i as int]);
                assert(self@.skip(i as int).drop_first() =~= self@.skip(i as int + 1));
            }
            if str_eq(self.fields[i].0.as_str(), key) {
                return Some(&self.fields[i].1);
            }
            i += 1;
        }
        proof {
            assert(self@.skip(n as int).len() == 0);
        }
        None
    }

    /// The text stored under `key`, if the entry exists and holds text.
    pub fn get_text<'a>(&'a self, key: &str) -> (r: Option<&'a String>)
        ensures
            match r {
                Some(s) => text_field_of(self@, key@) == Some(s@),
                None => text_field_of(self@, key@) is None,
            },
    {
        match self.get(key) {
            Some(FieldValue::Text(s)) => Some(s),
            _ => None,
        }
    }

    /// The number stored under `key`, if the entry exists and holds a number.
    pub fn get_number(&self, key: &str) -> (r: Option<i64>)
        ensures
            match r {
                Some(n) => number_field_of(self@, key@) == Some(n as int),
                None => number_field_of(self@, key@) is None,
            },
    {
        match self.get(key) {
            Some(FieldValue::Number(n)) => Some(*n),
            _ => None,
        }
    }
}

} // verus!
