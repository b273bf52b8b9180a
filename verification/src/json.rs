//! A plain model of the upstream JSON documents.
//!
//! The harvesting logic only ever reads three things out of upstream JSON:
//! object members by key, array elements by position, and leaves as either an
//! unsigned integer or a string. `JsonVal` holds exactly that; the application
//! converts the wire-level JSON value into it at the I/O edge. Numbers that do
//! not fit an unsigned 64-bit integer are kept only as `NumOther`, matching
//! what an integer read of such a leaf would yield: nothing.

use vstd::prelude::*;
use crate::text::str_eq;

verus! {

/// A JSON value, reduced to what the harvesting logic can observe.
#[derive(Debug, PartialEq)]
pub enum JsonVal {
    Null,
    Bool(bool),
    /// A number representable as an unsigned 64-bit integer.
    UInt(u64),
    /// A number not representable as an unsigned 64-bit integer.
    NumOther,
    Str(String),
    Arr(Vec<JsonVal>),
    Obj(Vec<(String, JsonVal)>),
}

/// The first member of `fields` whose key reads `key`, if any.
pub open spec fn spec_member(fields: Seq<(String, JsonVal)>, key: Seq<char>) -> Option<JsonVal>
    decreases fields.len(),
{
    if fields.len() == 0 {
        None
    } else if fields[0].0@ == key {
        Some(fields[0].1)
    } else {
        spec_member(fields.drop_first(), key)
    }
}

/// Object member lookup: `Some` value only when `v` is an object with a
/// member named `key`.
pub open spec fn spec_get(v: JsonVal, key: Seq<char>) -> Option<JsonVal> {
    match v {
        JsonVal::Obj(fields) => spec_member(fields@, key),
        _ => None,
    }
}

/// Array element lookup: `Some` element only when `v` is an array with more
/// than `i` elements.
pub open spec fn spec_index(v: JsonVal, i: int) -> Option<JsonVal> {
    match v {
        JsonVal::Arr(elems) => if 0 <= i < elems@.len() {
            Some(elems@[i])
        } else {
            None
        },
        _ => None,
    }
}

/// A lookup result, or `Null` when there was none — the way upstream
/// documents read, where indexing never fails but yields null.
pub open spec fn opt_or_null(o: Option<JsonVal>) -> JsonVal {
    match o {
        Some(x) => x,
        None => JsonVal::Null,
    }
}

/// Member lookup with `Null` for anything absent.
pub open spec fn jget(v: JsonVal, key: Seq<char>) -> JsonVal {
    opt_or_null(spec_get(v, key))
}

/// Element lookup with `Null` for anything absent.
pub open spec fn jidx(v: JsonVal, i: int) -> JsonVal {
    opt_or_null(spec_index(v, i))
}

/// The string content of `v`, when `v` is a string leaf.
pub open spec fn spec_as_str(v: JsonVal) -> Option<Seq<char>> {
    match v {
        JsonVal::Str(s) => Some(s@),
        _ => None,
    }
}

/// The integer content of `v`, when `v` is an unsigned integer leaf.
pub open spec fn spec_as_u64(v: JsonVal) -> Option<u64> {
    match v {
        JsonVal::UInt(n) => Some(n),
        _ => None,
    }
}

impl JsonVal {
    /// Looks up an object member by key; `None` when `self` is not an object
    /// or has no such member.
    pub fn get<'a>(&'a self, key: &str) -> (r: Option<&'a JsonVal>)
        ensures
            match r {
                Some(x) => spec_get(*self, key@) == Some(*x),
                None => spec_get(*self, key@) is None,
            },
    {
        match self {
            JsonVal::Obj(fields) => {
                let n = fields.len();
                proof {
                    assert(fields@.skip(0) =~= fields@);
                }
                let mut i: usize = 0;
                while i < n
                    invariant
                        i <= n,
                        n == fields@.len(),
                        spec_get(*self, key@) == spec_member(fields@, key@),
                        spec_member(fields@, key@) == spec_member(fields@.skip(i as int), key@),
                    decreases n - i,
                {
                    let pair = &fields[i];
                    if str_eq(pair.0.as_str(), key) {
                        proof {
                            assert(fields@.skip(i as int).len() > 0);
                            assert(fields@.skip(i as int)[0] == fields@[i as int]);
                            assert(fields@.skip(i as int)[0].0@ == key@);
                            assert(spec_member(fields@.skip(i as int), key@)
                                == Some(fields@[i as int].1));
                        }
                        return Some(&pair.1);
                    }
                    proof {
                        assert(fields@.skip(i as int).drop_first() =~= fields@.skip(i as int + 1));
                        assert(fields@.skip(i as int)[0] == fields@[i as int]);
                    }
                    i = i + 1;
                }
                proof {
                    assert(fields@.skip(n as int).len() == 0);
                }
                None
            },
            _ => None,
        }
    }

    /// Looks up an array element by position; `None` when `self` is not an
    /// array or is too short.
    pub fn index<'a>(&'a self, i: usize) -> (r: Option<&'a JsonVal>)
        ensures
            match r {
                Some(x) => spec_index(*self, i as int) == Some(*x),
                None => spec_index(*self, i as int) is None,
            },
    {
        match self {
            JsonVal::Arr(elems) => {
                if i < elems.len() {
                    Some(&elems[i])
                } else {
                    None
                }
            },
            _ => None,
        }
    }

    /// The string content, when `self` is a string leaf.
    pub fn as_str<'a>(&'a self) -> (r: Option<&'a str>)
        ensures
            match r {
                Some(s) => spec_as_str(*self) == Some(s@),
                None => spec_as_str(*self) is None,
            },
    {
        match self {
            JsonVal::Str(s) => Some(s.as_str()),
            _ => None,
        }
    }

    /// Member lookup that yields the given `Null` value in place of
    /// anything absent, so lookups chain like upstream document paths.
    pub fn get_or<'a>(&'a self, key: &str, null: &'a JsonVal) -> (r: &'a JsonVal)
        requires
            *null == JsonVal::Null,
        ensures
            *r == jget(*self, key@),
    {
        match self.get(key) {
            Some(x) => x,
            None => null,
        }
    }

    /// Element lookup that yields the given `Null` value in place of
    /// anything absent.
    pub fn index_or<'a>(&'a self, i: usize, null: &'a JsonVal) -> (r: &'a JsonVal)
        requires
            *null == JsonVal::Null,
        ensures
            *r == jidx(*self, i as int),
    {
        match self.index(i) {
            Some(x) => x,
            None => null,
        }
    }

    /// The integer content, when `self` is an unsigned integer leaf.
    pub fn as_u64(&self) -> (r: Option<u64>)
        ensures
            r == spec_as_u64(*self),
    {
        match self {
            JsonVal::UInt(n) => Some(*n),
            _ => None,
        }
    }
}

} // verus!
