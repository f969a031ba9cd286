//! The labeled-tree document that save decoding walks.
//!
//! An element has a name, an ordered list of attribute pairs, ordered child
//! elements, and text content. The decoders only ever look a fixed number of
//! levels down, so every lookup here is a scan of one element's own lists:
//! `attr_in` finds the first attribute with a given name, and `unique_child`
//! yields the child with a given name exactly when there is one such child.

use vstd::prelude::*;

use crate::error::DecodeError;
use crate::textparse::{parse_bool, parse_u32, spec_parse_bool, spec_parse_u32};

verus! {

/// One element of a parsed save document.
#[derive(Debug)]
pub struct Node {
    pub name: String,
    pub attrs: Vec<(String, String)>,
    pub children: Vec<Node>,
    pub text: String,
}

/// The value of the first attribute pair named `name`, if any.
pub open spec fn attr_in(attrs: Seq<(String, String)>, name: Seq<char>) -> Option<Seq<char>>
    decreases attrs.len(),
{
    if attrs.len() == 0 {
        None
    } else if attrs.first().0@ == name {
        Some(attrs.first().1@)
    } else {
        attr_in(attrs.drop_first(), name)
    }
}

/// The value of the attribute named `name` of `e`, if any.
pub open spec fn attr_of(e: Node, name: Seq<char>) -> Option<Seq<char>> {
    attr_in(e.attrs@, name)
}

/// How many elements of `s` are named `name`.
pub open spec fn count_named(s: Seq<Node>, name: Seq<char>) -> nat
    decreases s.len(),
{
    if s.len() == 0 {
        0
    } else {
        count_named(s.drop_last(), name) + (if s.last().name@ == name {
            1nat
        } else {
            0nat
        })
    }
}

/// The last element of `s` named `name`; meaningful only when one exists.
pub open spec fn last_named(s: Seq<Node>, name: Seq<char>) -> Node
    decreases s.len(),
{
    if s.len() == 0 {
        arbitrary()
    } else if s.last().name@ == name {
        s.last()
    } else {
        last_named(s.drop_last(), name)
    }
}

/// The first element of `s` named `name`, if any.
pub open spec fn first_named(s: Seq<Node>, name: Seq<char>) -> Option<Node>
    decreases s.len(),
{
    if s.len() == 0 {
        None
    } else if s.first().name@ == name {
        Some(s.first())
    } else {
        first_named(s.drop_first(), name)
    }
}

/// The child of `e` named `name`, exactly when `e` has one such child.
pub open spec fn unique_child(e: Node, name: Seq<char>) -> Option<Node> {
    if count_named(e.children@, name) == 1 {
        Some(last_named(e.children@, name))
    } else {
        None
    }
}

/// The boolean text of the unique child named `name`: a structure error
/// without exactly one such child, a format error when its text is not a
/// boolean literal.
pub open spec fn spec_child_bool(e: Node, name: Seq<char>) -> Result<bool, DecodeError> {
    match unique_child(e, name) {
        None => Err(DecodeError::Structure),
        Some(c) => match spec_parse_bool(c.text@) {
            None => Err(DecodeError::Format),
            Some(b) => Ok(b),
        },
    }
}

/// The numeric text of the unique child named `name`.
pub open spec fn spec_child_u32(e: Node, name: Seq<char>) -> Result<u32, DecodeError> {
    match unique_child(e, name) {
        None => Err(DecodeError::Structure),
        Some(c) => match spec_parse_u32(c.text@) {
            None => Err(DecodeError::Format),
            Some(v) => Ok(v),
        },
    }
}

/// Compares two string slices by their character contents.
pub fn str_eq(a: &str, b: &str) -> (r: bool)
    ensures
        r == (a@ == b@),
{
    let a_owned: String = a.to_owned();
    let b_owned: String = b.to_owned();
    a_owned == b_owned
}

impl Node {
    /// Looks up the value of the attribute named `name`.
    pub fn attr<'a>(&'a self, name: &str) -> (r: Option<&'a String>)
        ensures
            match r {
                Some(v) => attr_of(*self, name@) == Some(v@),
                None => attr_of(*self, name@) is None,
            },
    {
        let n = self.attrs.len();
        let mut i: usize = 0;
        proof {
            assert(self.attrs@.skip(0) =~= self.attrs@);
        }
        while i < n
            invariant
                i <= n,
                n == self.attrs@.len(),
                attr_in(self.attrs@.skip(i as int), name@) == attr_in(self.attrs@, name@),
            decreases n - i,
        {
            let pair = &self.attrs[i];
            let found = str_eq(pair.0.as_str(), name);
            proof {
                assert(self.attrs@.skip(i as int).first() == self.attrs@[i as int]);
                assert(self.attrs@.skip(i as int).drop_first() =~= self.attrs@.skip(i as int + 1));
            }
            if found {
                return Some(&self.attrs[i].1);
            }
            i = i + 1;
        }
        proof {
            assert(self.attrs@.skip(n as int) =~= Seq::<(String, String)>::empty());
        }
        None
    }

    /// Returns the unique child named `name`, or a structure error when the
    /// count of children with that name is not exactly one.
    pub fn expect_child<'a>(&'a self, name: &str) -> (r: Result<&'a Node, DecodeError>)
        ensures
            match r {
                Ok(c) => unique_child(*self, name@) == Some(*c),
                Err(e) => unique_child(*self, name@) is None && e == DecodeError::Structure,
            },
    {
        let n = self.children.len();
        let mut i: usize = 0;
        let mut count: usize = 0;
        let mut found: usize = 0;
        while i < n
            invariant
                i <= n,
                count <= i,
                n == self.children@.len(),
                count == count_named(self.children@.take(i as int), name@),
                count >= 1 ==> found < i && self.children@[found as int].name@ == name@
                    && self.children@[found as int] == last_named(
                    self.children@.take(i as int),
                    name@,
                ),
            decreases n - i,
        {
            let matches = str_eq(self.children[i].name.as_str(), name);
            proof {
                assert(self.children@.take(i as int + 1).drop_last() =~= self.children@.take(
                    i as int,
                ));
                assert(self.children@.take(i as int + 1).last() == self.children@[i as int]);
            }
            if matches {
                count = count + 1;
                found = i;
            }
            i = i + 1;
        }
        proof {
            assert(self.children@.take(n as int) =~= self.children@);
        }
        if count == 1 {
            Ok(&self.children[found])
        } else {
            Err(DecodeError::Structure)
        }
    }

    /// Parses the text of the unique child named `name` as a boolean.
    pub fn expect_parse_child_bool(&self, name: &str) -> (r: Result<bool, DecodeError>)
        ensures
            r == spec_child_bool(*self, name@),
    {
        match self.expect_child(name) {
            Err(er) => Err(er),
            Ok(c) => match parse_bool(c.text.as_str()) {
                None => Err(DecodeError::Format),
                Some(b) => Ok(b),
            },
        }
    }

    /// Parses the text of the unique child named `name` as a number.
    pub fn expect_parse_child_u32(&self, name: &str) -> (r: Result<u32, DecodeError>)
        ensures
            r == spec_child_u32(*self, name@),
    {
        match self.expect_child(name) {
            Err(er) => Err(er),
            Ok(c) => match parse_u32(c.text.as_str()) {
                None => Err(DecodeError::Format),
                Some(v) => Ok(v),
            },
        }
    }

    /// Returns the first child named `name`, if any.
    pub fn first_child<'a>(&'a self, name: &str) -> (r: Option<&'a Node>)
        ensures
            match r {
                Some(c) => first_named(self.children@, name@) == Some(*c),
                None => first_named(self.children@, name@) is None,
            },
    {
        let n = self.children.len();
        let mut i: usize = 0;
        proof {
            assert(self.children@.skip(0) =~= self.children@);
        }
        while i < n
            invariant
                i <= n,
                n == self.children@.len(),
                first_named(self.children@.skip(i as int), name@) == first_named(
                    self.children@,
                    name@,
                ),
            decreases n - i,
        {
            let matches = str_eq(self.children[i].name.as_str(), name);
            proof {
                assert(self.children@.skip(i as int).first() == self.children@[i as int]);
                assert(self.children@.skip(i as int).drop_first() =~= self.children@.skip(
                    i as int + 1,
                ));
            }
            if matches {
                return Some(&self.children[i]);
            }
            i = i + 1;
        }
        proof {
            assert(self.children@.skip(n as int) =~= Seq::<Node>::empty());
        }
        None
    }
}

} // verus!
