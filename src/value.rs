use vstd::prelude::*;

verus! {

/// A structured value of the wire format: the carrier of every payload
/// before it is bound to a concrete type, and after.
#[derive(Debug)]
pub enum JsonValue {
    Null,
    Bool(bool),
    /// A number that fits a 64-bit signed integer.
    Int(i64),
    /// Any other number, in its decimal text form.
    Number(String),
    Str(String),
    Array(Vec<JsonValue>),
    /// The members of an object, in order. Well-formed objects hold each key
    /// once (see `distinct_keys`); a lookup reads the first member with a key.
    Object(Vec<(String, JsonValue)>),
}

/// The value under key `k` in the members `m`: the first member with that key.
pub open spec fn member(m: Seq<(String, JsonValue)>, k: Seq<char>) -> Option<JsonValue>
    decreases m.len(),
{
    if m.len() == 0 {
        None
    } else if m[0].0@ == k {
        Some(m[0].1)
    } else {
        member(m.drop_first(), k)
    }
}

impl Clone for JsonValue {
    fn clone(&self) -> (r: Self)
        decreases self,
    {
        match self {
            JsonValue::Null => JsonValue::Null,
            JsonValue::Bool(b) => JsonValue::Bool(*b),
            JsonValue::Int(n) => JsonValue::Int(*n),
            JsonValue::Number(s) => JsonValue::Number(s.clone()),
            JsonValue::Str(s) => JsonValue::Str(s.clone()),
            JsonValue::Array(a) => {
                let mut out: Vec<JsonValue> = Vec::new();
                let mut i: usize = 0;
                while i < a.len()
                    invariant
                        i <= a@.len(),
                        decreases_to!(*self => *a),
                    decreases a@.len() - i,
                {
                    proof {
                        vstd::std_specs::vec::axiom_vec_index_decreases(*a, i as int);
                        assert(decreases_to!(*self => a[i as int]));
                    }
                    out.push(a[i].clone());
                    i = i + 1;
                }
                JsonValue::Array(out)
            },
            JsonValue::Object(m) => {
                let mut out: Vec<(String, JsonValue)> = Vec::new();
                let mut i: usize = 0;
                while i < m.len()
                    invariant
                        i <= m@.len(),
                        decreases_to!(*self => *m),
                    decreases m@.len() - i,
                {
                    proof {
                        vstd::std_specs::vec::axiom_vec_index_decreases(*m, i as int);
                        assert(decreases_to!(m[i as int] => m[i as int].1));
                        assert(decreases_to!(*self => m[i as int].1));
                    }
                    out.push((m[i].0.clone(), m[i].1.clone()));
                    i = i + 1;
                }
                JsonValue::Object(out)
            },
        }
    }
}

impl JsonValue {
    /// Whether this is the null value.
    pub fn is_null(&self) -> (r: bool)
        ensures
            r == (*self is Null),
    {
        matches!(self, JsonValue::Null)
    }
}

/// An owned copy of the text `s`.
pub fn text(s: &str) -> (r: String)
    ensures
        r@ == s@,
{
    s.to_string()
}

/// Whether `v` is an object whose members hold no key `k`.
pub open spec fn lacks_key(v: JsonValue, k: Seq<char>) -> bool {
    v matches JsonValue::Object(m) && member(m@, k) is None
}

/// Taking out a member under another key leaves the lookup of `k` as it was.
pub proof fn lemma_member_remove(m: Seq<(String, JsonValue)>, i: int, k: Seq<char>)
    requires
        0 <= i < m.len(),
        m[i].0@ != k,
    ensures
        member(m.remove(i), k) == member(m, k),
    decreases m.len(),
{
    if i == 0 {
        assert(m.remove(0) =~= m.drop_first());
    } else {
        assert(m.remove(i)[0] == m[0]);
        assert(m.remove(i).drop_first() =~= m.drop_first().remove(i - 1));
        lemma_member_remove(m.drop_first(), i - 1, k);
    }
}

/// Looking up `k` in a sequence of members whose first `i` keys differ from `k`.
proof fn lemma_member_skip(m: Seq<(String, JsonValue)>, i: int, k: Seq<char>)
    requires
        0 <= i < m.len(),
        m[i].0@ != k,
    ensures
        member(m.subrange(i, m.len() as int), k) == member(m.subrange(i + 1, m.len() as int), k),
{
    assert(m.subrange(i, m.len() as int).drop_first() =~= m.subrange(i + 1, m.len() as int));
}

/// Removes the first member with key `k` from `m` and hands back its value.
pub fn take_member(m: &mut Vec<(String, JsonValue)>, k: &String) -> (r: Option<JsonValue>)
    ensures
        r == member(old(m)@, k@),
        r is Some ==> exists|i: int|
            0 <= i < old(m)@.len() && old(m)@[i].0@ == k@ && final(m)@ == old(m)@.remove(i),
        r is None ==> final(m)@ == old(m)@,
        forall|j: Seq<char>| j != k@ ==> #[trigger] member(final(m)@, j) == member(old(m)@, j),
{
    let mut i: usize = 0;
    assert(m@.subrange(0, m@.len() as int) =~= m@);
    while i < m.len()
        invariant
            i <= m@.len(),
            m@ == old(m)@,
            member(m@, k@) == member(m@.subrange(i as int, m@.len() as int), k@),
        decreases m@.len() - i,
    {
        if m[i].0 == *k {
            assert(m@.subrange(i as int, m@.len() as int)[0] == m@[i as int]);
            let ghost before = m@;
            let (_, v) = m.remove(i);
            assert(before[i as int].0@ == k@ && m@ == before.remove(i as int));
            assert forall|j: Seq<char>| j != k@ implies #[trigger] member(m@, j) == member(
                before,
                j,
            ) by {
                lemma_member_remove(before, i as int, j);
            }
            return Some(v);
        }
        proof {
            lemma_member_skip(m@, i as int, k@);
        }
        i = i + 1;
    }
    assert(m@.subrange(i as int, m@.len() as int).len() == 0);
    None
}

/// Looking up `k` after a member was appended at the end.
pub broadcast proof fn lemma_member_push(m: Seq<(String, JsonValue)>, x: (String, JsonValue), k: Seq<char>)
    ensures
        #[trigger] member(m.push(x), k) == if member(m, k) is Some {
            member(m, k)
        } else if x.0@ == k {
            Some(x.1)
        } else {
            None::<JsonValue>
        },
    decreases m.len(),
{
    if m.len() > 0 {
        assert(m.push(x).drop_first() =~= m.drop_first().push(x));
        lemma_member_push(m.drop_first(), x, k);
    } else {
        assert(m.push(x).drop_first() =~= m);
    }
}

/// What an optional member with a boolean reads as: absent and null read as
/// `None`; `None` at the outside means a value of another kind.
pub open spec fn opt_bool_of(x: Option<JsonValue>) -> Option<Option<bool>> {
    match x {
        None => Some(None),
        Some(JsonValue::Null) => Some(None),
        Some(JsonValue::Bool(b)) => Some(Some(b)),
        Some(_) => None,
    }
}

/// What an optional member with an integer reads as, like `opt_bool_of`.
pub open spec fn opt_int_of(x: Option<JsonValue>) -> Option<Option<i64>> {
    match x {
        None => Some(None),
        Some(JsonValue::Null) => Some(None),
        Some(JsonValue::Int(n)) => Some(Some(n)),
        Some(_) => None,
    }
}

/// What an optional member with a string reads as, like `opt_bool_of`.
pub open spec fn opt_str_of(x: Option<JsonValue>) -> Option<Option<String>> {
    match x {
        None => Some(None),
        Some(JsonValue::Null) => Some(None),
        Some(JsonValue::Str(s)) => Some(Some(s)),
        Some(_) => None,
    }
}

/// Reads an optional boolean member.
pub fn read_opt_bool(x: Option<JsonValue>) -> (r: Option<Option<bool>>)
    ensures
        r == opt_bool_of(x),
{
    match x {
        None => Some(None),
        Some(JsonValue::Null) => Some(None),
        Some(JsonValue::Bool(b)) => Some(Some(b)),
        Some(_) => None,
    }
}

/// Reads an optional integer member.
pub fn read_opt_int(x: Option<JsonValue>) -> (r: Option<Option<i64>>)
    ensures
        r == opt_int_of(x),
{
    match x {
        None => Some(None),
        Some(JsonValue::Null) => Some(None),
        Some(JsonValue::Int(n)) => Some(Some(n)),
        Some(_) => None,
    }
}

/// Reads an optional string member.
pub fn read_opt_str(x: Option<JsonValue>) -> (r: Option<Option<String>>)
    ensures
        r == opt_str_of(x),
{
    match x {
        None => Some(None),
        Some(JsonValue::Null) => Some(None),
        Some(JsonValue::Str(s)) => Some(Some(s)),
        Some(_) => None,
    }
}

/// Appends member `k` to `m` when `x` holds a value, and leaves `m` as it is
/// otherwise.
pub fn push_opt(m: &mut Vec<(String, JsonValue)>, k: &str, x: Option<JsonValue>)
    ensures
        x is None ==> final(m)@ == old(m)@,
        x matches Some(v) ==> final(m)@.len() == old(m)@.len() + 1 && final(m)@.last().0@ == k@
            && final(m)@.last().1 == v && final(m)@ == old(m)@.push(final(m)@.last()),
{
    match x {
        Some(v) => m.push((text(k), v)),
        None => {},
    }
}

/// Whether the optional boolean member `k` of `m` is written as `x` says:
/// absent for `None`.
pub open spec fn bool_member_is(m: Seq<(String, JsonValue)>, k: Seq<char>, x: Option<bool>) -> bool {
    match x {
        None => member(m, k) is None,
        Some(b) => member(m, k) == Some(JsonValue::Bool(b)),
    }
}

/// Whether the optional integer member `k` of `m` is written as `x` says.
pub open spec fn int_member_is(m: Seq<(String, JsonValue)>, k: Seq<char>, x: Option<i64>) -> bool {
    match x {
        None => member(m, k) is None,
        Some(n) => member(m, k) == Some(JsonValue::Int(n)),
    }
}

/// Whether the optional string member `k` of `m` is written as `x` says.
pub open spec fn str_member_is(m: Seq<(String, JsonValue)>, k: Seq<char>, x: Option<String>) -> bool {
    match x {
        None => member(m, k) is None,
        Some(s) => member(m, k) == Some(JsonValue::Str(s)),
    }
}

/// One for a present value, zero for an absent one.
pub open spec fn present<T>(x: Option<T>) -> int {
    if x is Some { 1 } else { 0 }
}

/// Whether no two of the members `m` share a key.
pub open spec fn distinct_keys(m: Seq<(String, JsonValue)>) -> bool {
    forall|i: int, j: int|
        #![trigger m[i], m[j]]
        0 <= i < j < m.len() ==> m[i].0@ != m[j].0@
}

/// No member of `m` has key `k` when looking up `k` finds nothing.
pub proof fn lemma_member_none(m: Seq<(String, JsonValue)>, k: Seq<char>)
    requires
        member(m, k) is None,
    ensures
        forall|i: int| 0 <= i < m.len() ==> (#[trigger] m[i]).0@ != k,
    decreases m.len(),
{
    if m.len() > 0 {
        lemma_member_none(m.drop_first(), k);
        assert forall|i: int| 0 <= i < m.len() implies (#[trigger] m[i]).0@ != k by {
            if i > 0 {
                assert(m[i] == m.drop_first()[i - 1]);
            }
        }
    }
}

/// Appending a member under a key not yet present keeps the keys distinct.
pub broadcast proof fn lemma_distinct_push(m: Seq<(String, JsonValue)>, x: (String, JsonValue))
    requires
        distinct_keys(m),
        member(m, x.0@) is None,
    ensures
        #[trigger] distinct_keys(m.push(x)),
{
    lemma_member_none(m, x.0@);
    let p = m.push(x);
    assert forall|i: int, j: int| 0 <= i < j < p.len() implies p[i].0@ != p[j].0@ by {
        if j == m.len() {
            assert(p[i] == m[i]);
        } else {
            assert(p[i] == m[i] && p[j] == m[j]);
        }
    }
}

} // verus!
