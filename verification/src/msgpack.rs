use vstd::prelude::*;

verus! {

broadcast use {
    vstd::std_specs::vec::axiom_vec_decreases_to_view,
    vstd::std_specs::vec::axiom_vec_index_decreases,
};

/// A MessagePack value, as exchanged with Neovim over its RPC channel.
///
/// Integers keep their exact value (MessagePack integers range over
/// `i64::MIN..=u64::MAX`); floating-point values are kept as their IEEE-754
/// bit patterns, since nothing here computes with them; a string whose bytes
/// are not valid UTF-8 keeps its raw bytes.
#[derive(Debug, PartialEq, Eq)]
pub enum MsgValue {
    Nil,
    Boolean(bool),
    Integer(i128),
    Float32Bits(u32),
    Float64Bits(u64),
    Str(String),
    InvalidStr(Vec<u8>),
    Binary(Vec<u8>),
    Array(Vec<MsgValue>),
    Dict(Vec<(MsgValue, MsgValue)>),
    Ext(i8, Vec<u8>),
}

/// The mathematical content of a [`MsgValue`]: the same shape, with
/// sequences in place of vectors and strings.
pub enum MsgModel {
    Nil,
    Boolean(bool),
    Integer(int),
    Float32Bits(u32),
    Float64Bits(u64),
    Str(Seq<char>),
    InvalidStr(Seq<u8>),
    Binary(Seq<u8>),
    Array(Seq<MsgModel>),
    Dict(Seq<(MsgModel, MsgModel)>),
    Ext(i8, Seq<u8>),
}

/// A fresh vector holding the same bytes.
pub fn copy_bytes(bytes: &Vec<u8>) -> (r: Vec<u8>)
    ensures
        r@ == bytes@,
{
    let mut out: Vec<u8> = Vec::new();
    let mut i: usize = 0;
    while i < bytes.len()
        invariant
            i <= bytes@.len(),
            out@ == bytes@.subrange(0, i as int),
        decreases bytes@.len() - i,
    {
        out.push(bytes[i]);
        i += 1;
        assert(out@ =~= bytes@.subrange(0, i as int));
    }
    assert(bytes@.subrange(0, bytes@.len() as int) =~= bytes@);
    out
}

impl Clone for MsgValue {
    fn clone(&self) -> (r: Self)
        ensures
            r.model() == self.model(),
    {
        self.duplicate()
    }
}

impl MsgValue {
    pub open spec fn model(self) -> MsgModel
        decreases self,
    {

        match self {
            MsgValue::Nil => MsgModel::Nil,
            MsgValue::Boolean(b) => MsgModel::Boolean(b),
            MsgValue::Integer(n) => MsgModel::Integer(n as int),
            MsgValue::Float32Bits(b) => MsgModel::Float32Bits(b),
            MsgValue::Float64Bits(b) => MsgModel::Float64Bits(b),
            MsgValue::Str(s) => MsgModel::Str(s@),
            MsgValue::InvalidStr(b) => MsgModel::InvalidStr(b@),
            MsgValue::Binary(b) => MsgModel::Binary(b@),
            MsgValue::Array(items) => MsgModel::Array(
                Seq::new(
                    items@.len(),
                    |i: int|
                        if 0 <= i < items@.len() {
                            items@[i].model()
                        } else {
                            MsgModel::Nil
                        },
                ),
            ),
            MsgValue::Dict(entries) => MsgModel::Dict(
                Seq::new(
                    entries@.len(),
                    |i: int|
                        if 0 <= i < entries@.len() {
                            (entries@[i].0.model(), entries@[i].1.model())
                        } else {
                            (MsgModel::Nil, MsgModel::Nil)
                        },
                ),
            ),
            MsgValue::Ext(t, b) => MsgModel::Ext(t, b@),
        }
    }
}

/// The value of an integer when it fits in `u64`.
pub open spec fn spec_as_u64(v: MsgValue) -> Option<u64> {
    match v {
        MsgValue::Integer(n) => if 0 <= n <= u64::MAX { Some(n as u64) } else { None },
        _ => None,
    }
}

/// The value of an integer when it fits in `i64`.
pub open spec fn spec_as_i64(v: MsgValue) -> Option<i64> {
    match v {
        MsgValue::Integer(n) => if i64::MIN <= n <= i64::MAX { Some(n as i64) } else { None },
        _ => None,
    }
}

/// The boolean held by a value, if it is one.
pub open spec fn spec_as_bool(v: MsgValue) -> Option<bool> {
    match v {
        MsgValue::Boolean(b) => Some(b),
        _ => None,
    }
}

/// The characters of a valid UTF-8 string value.
pub open spec fn spec_as_str(v: MsgValue) -> Option<Seq<char>> {
    match v {
        MsgValue::Str(s) => Some(s@),
        _ => None,
    }
}

/// The values of `a` are those of `b`, in order.
pub open spec fn same_values(a: Seq<MsgValue>, b: Seq<MsgValue>) -> bool {
    &&& a.len() == b.len()
    &&& forall|i: int| 0 <= i < a.len() ==> #[trigger] a[i].model() == b[i].model()
}

/// Copies of `values`, in order.
pub fn copy_values(values: &Vec<MsgValue>) -> (r: Vec<MsgValue>)
    ensures
        same_values(r@, values@),
{
    let mut out: Vec<MsgValue> = Vec::new();
    let mut i: usize = 0;
    while i < values.len()
        invariant
            i <= values@.len(),
            out@.len() == i,
            forall|j: int| 0 <= j < i ==> #[trigger] out@[j].model() == values@[j].model(),
        decreases values@.len() - i,
    {
        out.push(values[i].clone());
        i += 1;
    }
    out
}

/// Whether `key` is the string `name`.
pub open spec fn is_key(key: MsgValue, name: Seq<char>) -> bool {
    key matches MsgValue::Str(s) && s@ == name
}

/// The value of the first entry of `entries` whose key is the string `name`.
pub open spec fn spec_lookup(entries: Seq<(MsgValue, MsgValue)>, name: Seq<char>) -> Option<MsgValue>
    decreases entries.len(),
{
    if entries.len() == 0 {
        None
    } else if is_key(entries[0].0, name) {
        Some(entries[0].1)
    } else {
        spec_lookup(entries.drop_first(), name)
    }
}

/// The value of the first entry whose key is the string `name`.
pub fn lookup<'a>(entries: &'a Vec<(MsgValue, MsgValue)>, name: &String) -> (r: Option<&'a MsgValue>)
    ensures
        match spec_lookup(entries@, name@) {
            Some(v) => r matches Some(found) && *found == v,
            None => r is None,
        },
{
    let mut i: usize = 0;
    assert(entries@.skip(0) =~= entries@);
    while i < entries.len()
        invariant
            i <= entries@.len(),
            spec_lookup(entries@.skip(i as int), name@) == spec_lookup(entries@, name@),
        decreases entries@.len() - i,
    {
        let rest = Ghost(entries@.skip(i as int));
        assert(rest@[0] == entries@[i as int]);
        assert(rest@.drop_first() =~= entries@.skip(i + 1));
        if let MsgValue::Str(key) = &entries[i].0 {
            if *key == *name {
                return Some(&entries[i].1);
            }
        }
        i += 1;
    }
    None
}

impl MsgValue {
    /// A copy of this value, element by element.
    pub fn duplicate(&self) -> (r: MsgValue)
        ensures
            r.model() == self.model(),
        decreases self,
    {
        match self {
            MsgValue::Nil => MsgValue::Nil,
            MsgValue::Boolean(b) => MsgValue::Boolean(*b),
            MsgValue::Integer(n) => MsgValue::Integer(*n),
            MsgValue::Float32Bits(b) => MsgValue::Float32Bits(*b),
            MsgValue::Float64Bits(b) => MsgValue::Float64Bits(*b),
            MsgValue::Str(s) => MsgValue::Str(s.clone()),
            MsgValue::InvalidStr(b) => MsgValue::InvalidStr(copy_bytes(b)),
            MsgValue::Binary(b) => MsgValue::Binary(copy_bytes(b)),
            MsgValue::Array(items) => {
                let mut out: Vec<MsgValue> = Vec::new();
                let mut i: usize = 0;
                while i < items.len()
                    invariant
                        *self == MsgValue::Array(*items),
                        i <= items@.len(),
                        out@.len() == i,
                        forall|j: int| 0 <= j < i ==> #[trigger] out@[j].model() == items@[j].model(),
                    decreases items@.len() - i,
                {
                    assert(decreases_to!(*self => (*self)->Array_0));
                    assert(decreases_to!(*items => items[i as int]));
                    assert(decreases_to!(*self => items[i as int]));
                    out.push(items[i].duplicate());
                    i += 1;
                }
                let r = MsgValue::Array(out);
                assert(r.model() == self.model()) by {
                    let a = r.model()->Array_0;
                    let b = self.model()->Array_0;
                    assert forall|j: int| 0 <= j < a.len() implies a[j] == b[j] by {
                        assert(out@[j].model() == items@[j].model());
                    }
                    assert(a =~= b);
                }
                r
            },
            MsgValue::Dict(entries) => {
                let mut out: Vec<(MsgValue, MsgValue)> = Vec::new();
                let mut i: usize = 0;
                while i < entries.len()
                    invariant
                        *self == MsgValue::Dict(*entries),
                        i <= entries@.len(),
                        out@.len() == i,
                        forall|j: int|
                            0 <= j < i ==> #[trigger] out@[j].0.model() == entries@[j].0.model()
                                && out@[j].1.model() == entries@[j].1.model(),
                    decreases entries@.len() - i,
                {
                    assert(decreases_to!(*self => (*self)->Dict_0));
                    assert(decreases_to!(*entries => entries[i as int]));
                    assert(decreases_to!(entries[i as int] => entries[i as int].0));
                    assert(decreases_to!(entries[i as int] => entries[i as int].1));
                    assert(decreases_to!(*self => entries[i as int].0));
                    assert(decreases_to!(*self => entries[i as int].1));
                    let key = entries[i].0.duplicate();
                    let value = entries[i].1.duplicate();
                    out.push((key, value));
                    i += 1;
                }
                let r = MsgValue::Dict(out);
                assert(r.model() == self.model()) by {
                    let a = r.model()->Dict_0;
                    let b = self.model()->Dict_0;
                    assert forall|j: int| 0 <= j < a.len() implies a[j] == b[j] by {
                        assert(out@[j].0.model() == entries@[j].0.model());
                        assert(out@[j].1.model() == entries@[j].1.model());
                    }
                    assert(a =~= b);
                }
                r
            },
            MsgValue::Ext(t, b) => MsgValue::Ext(*t, copy_bytes(b)),
        }
    }

    /// An unsigned integer value.
    pub fn from_u64(n: u64) -> (r: MsgValue)
        ensures
            r == MsgValue::Integer(n as i128),
    {
        MsgValue::Integer(n as i128)
    }

    /// A signed integer value.
    pub fn from_i64(n: i64) -> (r: MsgValue)
        ensures
            r == MsgValue::Integer(n as i128),
    {
        MsgValue::Integer(n as i128)
    }

    /// A string value holding a copy of `s`.
    pub fn from_str(s: &str) -> (r: MsgValue)
        ensures
            r matches MsgValue::Str(t) && t@ == s@,
    {
        MsgValue::Str(s.to_owned())
    }

    pub fn is_nil(&self) -> (r: bool)
        ensures
            r == (*self is Nil),
    {
        match self {
            MsgValue::Nil => true,
            _ => false,
        }
    }

    pub fn as_u64(&self) -> (r: Option<u64>)
        ensures
            r == spec_as_u64(*self),
    {
        match self {
            MsgValue::Integer(n) => if 0 <= *n && *n <= u64::MAX as i128 {
                Some(*n as u64)
            } else {
                None
            },
            _ => None,
        }
    }

    pub fn as_i64(&self) -> (r: Option<i64>)
        ensures
            r == spec_as_i64(*self),
    {
        match self {
            MsgValue::Integer(n) => if i64::MIN as i128 <= *n && *n <= i64::MAX as i128 {
                Some(*n as i64)
            } else {
                None
            },
            _ => None,
        }
    }

    pub fn as_bool(&self) -> (r: Option<bool>)
        ensures
            r == spec_as_bool(*self),
    {
        match self {
            MsgValue::Boolean(b) => Some(*b),
            _ => None,
        }
    }

    pub fn as_str(&self) -> (r: Option<&str>)
        ensures
            match *self {
                MsgValue::Str(s) => r matches Some(t) && t@ == s@,
                _ => r is None,
            },
    {
        match self {
            MsgValue::Str(s) => Some(s.as_str()),
            _ => None,
        }
    }

    pub fn as_array(&self) -> (r: Option<&Vec<MsgValue>>)
        ensures
            match *self {
                MsgValue::Array(items) => r matches Some(v) && *v == items,
                _ => r is None,
            },
    {
        match self {
            MsgValue::Array(items) => Some(items),
            _ => None,
        }
    }

    pub fn as_map(&self) -> (r: Option<&Vec<(MsgValue, MsgValue)>>)
        ensures
            match *self {
                MsgValue::Dict(entries) => r matches Some(v) && *v == entries,
                _ => r is None,
            },
    {
        match self {
            MsgValue::Dict(entries) => Some(entries),
            _ => None,
        }
    }
}

} // verus!
