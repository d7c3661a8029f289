//! The operation schema: an ordered list of named operations whose names,
//! the wire tags of the request union, are distinct.

use vstd::prelude::*;
use crate::wire::plain_tag;

verus! {

/// The shape of a value exchanged over the boundary.
pub enum Shape {
    Int32,
    Int64,
    Bool,
    Text,
    Unit,
    /// A record or enumeration of the type model, by name.
    Named(String),
    List(Box<Shape>),
    Optional(Box<Shape>),
}

/// One named operation: its argument record, its result and whether it
/// changes state.
pub struct Operation {
    pub name: String,
    pub args: Vec<(String, Shape)>,
    pub result: Shape,
    pub is_mutation: bool,
}

/// Why a list of operations is not a schema.
#[derive(PartialEq, Eq, Debug)]
pub enum SchemaError {
    /// The operation at this index has an empty name, or one that needs
    /// escaping on the wire.
    UnrepresentableName(usize),
    /// The operations at these two indices share a name.
    DuplicateName(usize, usize),
}

/// A name that can serve as a wire tag.
pub open spec fn valid_name(name: Seq<char>) -> bool {
    name.len() > 0 && plain_tag(name)
}

/// No two operations share a name.
pub open spec fn names_distinct(ops: Seq<Operation>) -> bool {
    forall|i: int, j: int|
        0 <= i < j < ops.len() ==> #[trigger] ops[i].name@ != #[trigger] ops[j].name@
}

pub open spec fn names_valid(ops: Seq<Operation>) -> bool {
    forall|i: int| 0 <= i < ops.len() ==> valid_name(#[trigger] ops[i].name@)
}

/// A schema: operations with valid, pairwise distinct names.
pub struct Schema {
    ops: Vec<Operation>,
}

impl Schema {
    pub closed spec fn spec_ops(&self) -> Seq<Operation> {
        self.ops@
    }

    pub open spec fn wf(&self) -> bool {
        names_valid(self.spec_ops()) && names_distinct(self.spec_ops())
    }

    /// Builds a schema, rejecting an unrepresentable name (the first one) and
    /// then a duplicate name (the first pair in order).
    pub fn new(ops: Vec<Operation>) -> (r: Result<Schema, SchemaError>)
        ensures
            r is Ok <==> names_valid(ops@) && names_distinct(ops@),
            r matches Ok(s) ==> s.spec_ops() == ops@ && s.wf(),
            r matches Err(SchemaError::UnrepresentableName(i)) ==> i < ops@.len() && !valid_name(
                ops@[i as int].name@,
            ),
            r matches Err(SchemaError::DuplicateName(i, j)) ==> names_valid(ops@) && i < j
                < ops@.len() && ops@[i as int].name@ == ops@[j as int].name@,
    {
        let n = ops.len();
        let mut i: usize = 0;
        while i < n
            invariant
                n == ops@.len(),
                i <= n,
                forall|k: int| 0 <= k < i ==> valid_name(#[trigger] ops@[k].name@),
            decreases n - i,
        {
            let name = ops[i].name.as_str();
            let len = name.unicode_len();
            if len == 0 {
                return Err(SchemaError::UnrepresentableName(i));
            }
            let mut c: usize = 0;
            while c < len
                invariant
                    len == name@.len(),
                    name@ == ops@[i as int].name@,
                    n == ops@.len(),
                    i < n,
                    c <= len,
                    forall|k: int| 0 <= k < c ==> #[trigger] name@[k] != '"' && name@[k] != '\\',
                decreases len - c,
            {
                let ch = name.get_char(c);
                if ch == '"' || ch == '\\' {
                    assert(!plain_tag(name@));
                    return Err(SchemaError::UnrepresentableName(i));
                }
                c += 1;
            }
            i += 1;
        }
        let mut j: usize = 0;
        while j < n
            invariant
                n == ops@.len(),
                j <= n,
                names_valid(ops@),
                forall|a: int, b: int|
                    0 <= a < b < j ==> #[trigger] ops@[a].name@ != #[trigger] ops@[b].name@,
            decreases n - j,
        {
            let mut a: usize = 0;
            while a < j
                invariant
                    n == ops@.len(),
                    a <= j < n,
                    names_valid(ops@),
                    forall|x: int| 0 <= x < a ==> #[trigger] ops@[x].name@ != ops@[j as int].name@,
                decreases j - a,
            {
                if ops[a].name == ops[j].name {
                    assert(ops@[a as int].name@ == ops@[j as int].name@);
                    return Err(SchemaError::DuplicateName(a, j));
                }
                a += 1;
            }
            j += 1;
        }
        Ok(Schema { ops })
    }

    pub fn len(&self) -> (r: usize)
        ensures
            r == self.spec_ops().len(),
    {
        self.ops.len()
    }

    pub fn operation(&self, i: usize) -> (r: &Operation)
        requires
            i < self.spec_ops().len(),
        ensures
            *r == self.spec_ops()[i as int],
    {
        &self.ops[i]
    }

    /// The index of the operation whose wire tag is `tag`.
    pub fn find(&self, tag: &str) -> (r: Option<usize>)
        ensures
            r matches Some(i) ==> i < self.spec_ops().len() && self.spec_ops()[i as int].name@
                == tag@,
            r is None ==> forall|i: int|
                0 <= i < self.spec_ops().len() ==> #[trigger] self.spec_ops()[i].name@ != tag@,
    {
        let wanted = String::from_str(tag);
        let mut i: usize = 0;
        while i < self.ops.len()
            invariant
                i <= self.ops@.len(),
                wanted@ == tag@,
                forall|k: int| 0 <= k < i ==> #[trigger] self.ops@[k].name@ != tag@,
            decreases self.ops@.len() - i,
        {
            if self.ops[i].name == wanted {
                return Some(i);
            }
            i += 1;
        }
        None
    }
}

/// Tag uniqueness: in a schema a wire tag names at most one operation.
pub proof fn lemma_tag_names_one_operation(s: &Schema, i: int, j: int)
    requires
        s.wf(),
        0 <= i < s.spec_ops().len(),
        0 <= j < s.spec_ops().len(),
        s.spec_ops()[i].name@ == s.spec_ops()[j].name@,
    ensures
        i == j,
{
    if i < j {
        assert(s.spec_ops()[i].name@ != s.spec_ops()[j].name@);
    } else if j < i {
        assert(s.spec_ops()[j].name@ != s.spec_ops()[i].name@);
    }
}

} // verus!
