//! Runtime values of the scripting language.
use vstd::prelude::*;

use crate::num::num_is_zero;

verus! {

broadcast use vstd::seq::group_seq_axioms, vstd::std_specs::vec::group_vec_axioms;

/// A runtime value. Values are plain data: assigning or passing one copies
/// the contents of arrays and objects, so no two bindings ever share
/// mutable state. A number is an IEEE-754 binary64 value carried as its
/// raw bit pattern; an object is a sequence of key/value pairs read by
/// first match, and writing a key replaces its first occurrence in place,
/// so objects built by writes alone hold each key once; a function value
/// carries only a name reference.
#[derive(Debug, PartialEq)]
pub enum ZanoValue {
    Undefined,
    Null,
    Boolean(bool),
    Number(u64),
    String(String),
    Object(Vec<(String, ZanoValue)>),
    Array(Vec<ZanoValue>),
    Function(String),
}

/// The mathematical form of a runtime value.
pub enum SpecValue {
    Undefined,
    Null,
    Boolean(bool),
    Number(u64),
    String(Seq<char>),
    Object(Seq<(Seq<char>, SpecValue)>),
    Array(Seq<SpecValue>),
    Function(Seq<char>),
}

impl View for ZanoValue {
    type V = SpecValue;

    open spec fn view(&self) -> SpecValue
        decreases self, 0int,
    {
        match self {
            ZanoValue::Undefined => SpecValue::Undefined,
            ZanoValue::Null => SpecValue::Null,
            ZanoValue::Boolean(b) => SpecValue::Boolean(*b),
            ZanoValue::Number(n) => SpecValue::Number(*n),
            ZanoValue::String(s) => SpecValue::String(s@),
            ZanoValue::Object(ps) => SpecValue::Object(spec_pairs_of_vec(*ps)),
            ZanoValue::Array(els) => SpecValue::Array(spec_values_of_vec(*els)),
            ZanoValue::Function(n) => SpecValue::Function(n@),
        }
    }
}

/// The views of a vector of values.
pub open spec fn spec_values_of_vec(els: Vec<ZanoValue>) -> Seq<SpecValue>
    decreases els, 2int,
{
    spec_values_view(els@)
}

/// The views of a sequence of values.
pub open spec fn spec_values_view(s: Seq<ZanoValue>) -> Seq<SpecValue>
    decreases s, 2int,
{
    Seq::new(s.len(), |i: int| spec_value_elem_view(s, i))
}

/// The view of the element of a value sequence at `i`, or `Undefined` out
/// of range.
pub open spec fn spec_value_elem_view(s: Seq<ZanoValue>, i: int) -> SpecValue
    decreases s, 1int,
{
    if 0 <= i < s.len() {
        s[i]@
    } else {
        SpecValue::Undefined
    }
}

/// The views of a vector of key/value pairs.
pub open spec fn spec_pairs_of_vec(ps: Vec<(String, ZanoValue)>) -> Seq<(Seq<char>, SpecValue)>
    decreases ps, 2int,
{
    spec_pairs_view(ps@)
}

/// The views of a sequence of key/value pairs.
pub open spec fn spec_pairs_view(s: Seq<(String, ZanoValue)>) -> Seq<(Seq<char>, SpecValue)>
    decreases s, 2int,
{
    Seq::new(s.len(), |i: int| spec_pair_elem_view(s, i))
}

/// The view of the pair of a pair sequence at `i`, or an empty binding out
/// of range.
pub open spec fn spec_pair_elem_view(s: Seq<(String, ZanoValue)>, i: int) -> (
    Seq<char>,
    SpecValue,
)
    decreases s, 1int,
{
    if 0 <= i < s.len() {
        spec_pair_view(s[i])
    } else {
        (Seq::empty(), SpecValue::Undefined)
    }
}

/// The view of one key/value pair.
pub open spec fn spec_pair_view(p: (String, ZanoValue)) -> (Seq<char>, SpecValue)
    decreases p, 0int,
{
    (p.0@, p.1@)
}

/// A value sequence and its view have the same length.
pub broadcast proof fn lemma_values_view_len(s: Seq<ZanoValue>)
    ensures
        (#[trigger] spec_values_view(s)).len() == s.len(),
{
}

/// The view of a value sequence is the sequence of the views.
pub broadcast proof fn lemma_values_view_index(s: Seq<ZanoValue>, i: int)
    requires
        0 <= i < s.len(),
    ensures
        #[trigger] spec_values_view(s)[i] == s[i]@,
{
    assert(spec_values_view(s)[i] == spec_value_elem_view(s, i));
}

/// A pair sequence and its view have the same length.
pub broadcast proof fn lemma_pairs_view_len(s: Seq<(String, ZanoValue)>)
    ensures
        (#[trigger] spec_pairs_view(s)).len() == s.len(),
{
}

/// The view of a pair sequence is the sequence of the pairwise views.
pub broadcast proof fn lemma_pairs_view_index(s: Seq<(String, ZanoValue)>, i: int)
    requires
        0 <= i < s.len(),
    ensures
        #[trigger] spec_pairs_view(s)[i] == (s[i].0@, s[i].1@),
{
    assert(spec_pairs_view(s)[i] == spec_pair_elem_view(s, i));
}

/// All four view description lemmas together.
pub broadcast group group_view_lemmas {
    lemma_values_view_len,
    lemma_values_view_index,
    lemma_pairs_view_len,
    lemma_pairs_view_index,
}

/// Truthiness of a value: `false`, `null`, `undefined`, a number equal to
/// zero and the empty string are falsy; everything else, arrays, objects
/// and functions included, is truthy.
pub open spec fn spec_truthy(v: SpecValue) -> bool {
    match v {
        SpecValue::Boolean(b) => b,
        SpecValue::Null => false,
        SpecValue::Undefined => false,
        SpecValue::Number(n) => !num_is_zero(n),
        SpecValue::String(s) => s.len() != 0,
        _ => true,
    }
}

/// The coercion of a value to a condition.
pub fn is_truthy(value: &ZanoValue) -> (r: bool)
    ensures
        r == spec_truthy(value@),
{
    match value {
        ZanoValue::Boolean(b) => *b,
        ZanoValue::Null => false,
        ZanoValue::Undefined => false,
        ZanoValue::Number(n) => !(*n == 0u64 || *n == 0x8000_0000_0000_0000u64),
        ZanoValue::String(s) => !s.as_str().is_empty(),
        _ => true,
    }
}

/// Truthiness law: of the values `false`, `null`, `undefined`, a number
/// equal to zero and the empty string, and of no others, the coercion to a
/// condition is false; in particular every array, object and function is
/// truthy, as is every other number and every non-empty string.
pub proof fn lemma_truthiness(v: SpecValue)
    ensures
        spec_truthy(v) <==> !({
            ||| v == SpecValue::Boolean(false)
            ||| v == SpecValue::Null
            ||| v == SpecValue::Undefined
            ||| (v matches SpecValue::Number(n) && num_is_zero(n))
            ||| v == SpecValue::String(Seq::<char>::empty())
        }),
        v is Array || v is Object || v is Function ==> spec_truthy(v),
        v matches SpecValue::Number(n) && !num_is_zero(n) ==> spec_truthy(v),
        v matches SpecValue::String(s) && s.len() != 0 ==> spec_truthy(v),
{
    match v {
        SpecValue::String(s) => {
            assert(s.len() == 0 ==> s =~= Seq::<char>::empty());
        },
        _ => {},
    }
}

impl ZanoValue {
    /// An exact copy. The copy shares no mutable state with the original.
    pub fn clone_value(&self) -> (r: ZanoValue)
        ensures
            r@ == self@,
        decreases self,
    {
        match self {
            ZanoValue::Undefined => ZanoValue::Undefined,
            ZanoValue::Null => ZanoValue::Null,
            ZanoValue::Boolean(b) => ZanoValue::Boolean(*b),
            ZanoValue::Number(n) => ZanoValue::Number(*n),
            ZanoValue::String(s) => ZanoValue::String(s.clone()),
            ZanoValue::Object(ps) => ZanoValue::Object(clone_pairs(ps)),
            ZanoValue::Array(els) => ZanoValue::Array(clone_values(els)),
            ZanoValue::Function(n) => ZanoValue::Function(n.clone()),
        }
    }
}

/// An elementwise copy of a vector of values.
pub fn clone_values(els: &Vec<ZanoValue>) -> (out: Vec<ZanoValue>)
    ensures
        spec_values_view(out@) == spec_values_view(els@),
        out@.len() == els@.len(),
    decreases *els,
{
    broadcast use group_view_lemmas;


    let mut out: Vec<ZanoValue> = Vec::new();
    let mut i: usize = 0;
    while i < els.len()
        invariant
            i <= els.len(),
            out@.len() == i as int,
            forall|j: int| 0 <= j < i as int ==> #[trigger] out@[j]@ == els@[j]@,
        decreases els.len() - i,
    {
        let entry = els[i].clone_value();
        out.push(entry);
        i = i + 1;
    }
    proof {
        assert(spec_values_view(out@) =~= spec_values_view(els@));
    }
    out
}

/// An elementwise copy of a vector of key/value pairs.
pub fn clone_pairs(ps: &Vec<(String, ZanoValue)>) -> (out: Vec<(String, ZanoValue)>)
    ensures
        spec_pairs_view(out@) == spec_pairs_view(ps@),
        out@.len() == ps@.len(),
    decreases *ps,
{
    broadcast use group_view_lemmas;


    let mut out: Vec<(String, ZanoValue)> = Vec::new();
    let mut i: usize = 0;
    while i < ps.len()
        invariant
            i <= ps.len(),
            out@.len() == i as int,
            forall|j: int|
                0 <= j < i as int ==> #[trigger] out@[j].0@ == ps@[j].0@ && out@[j].1@
                    == ps@[j].1@,
        decreases ps.len() - i,
    {
        let entry = clone_pair(&ps[i]);
        out.push(entry);
        i = i + 1;
    }
    proof {
        assert(spec_pairs_view(out@) =~= spec_pairs_view(ps@));
    }
    out
}

/// A copy of one key/value pair.
fn clone_pair(p: &(String, ZanoValue)) -> (r: (String, ZanoValue))
    ensures
        r.0@ == p.0@,
        r.1@ == p.1@,
    decreases *p,
{
    (p.0.clone(), p.1.clone_value())
}

/// The value stored in an object under a key: the first pair whose key
/// matches, if any.
pub open spec fn spec_obj_get(ps: Seq<(Seq<char>, SpecValue)>, k: Seq<char>) -> Option<SpecValue>
    decreases ps,
{
    if ps.len() == 0 {
        None
    } else if ps[0].0 == k {
        Some(ps[0].1)
    } else {
        spec_obj_get(ps.drop_first(), k)
    }
}

/// An object with the binding of `k` set to `v`: the existing pair is
/// replaced in place, or a new pair is appended at the end.
pub open spec fn spec_obj_set(
    ps: Seq<(Seq<char>, SpecValue)>,
    k: Seq<char>,
    v: SpecValue,
) -> Seq<(Seq<char>, SpecValue)>
    decreases ps,
{
    if ps.len() == 0 {
        seq![(k, v)]
    } else if ps[0].0 == k {
        seq![(k, v)] + ps.drop_first()
    } else {
        seq![ps[0]] + spec_obj_set(ps.drop_first(), k, v)
    }
}

/// Reads the binding of `key` in an object's pair list.
pub fn obj_get<'a>(ps: &'a Vec<(String, ZanoValue)>, key: &String) -> (r: Option<&'a ZanoValue>)
    ensures
        match r {
            Some(v) => spec_obj_get(spec_pairs_view(ps@), key@) == Some(v@),
            None => spec_obj_get(spec_pairs_view(ps@), key@) is None,
        },
{
    broadcast use group_view_lemmas;

    proof {
        assert(spec_pairs_view(ps@).skip(0) =~= spec_pairs_view(ps@));
    }
    let mut i: usize = 0;
    while i < ps.len()
        invariant
            i <= ps.len(),
            spec_obj_get(spec_pairs_view(ps@), key@) == spec_obj_get(
                spec_pairs_view(ps@).skip(i as int),
                key@,
            ),
        decreases ps.len() - i,
    {
        proof {
            assert(spec_pairs_view(ps@).skip(i as int)[0] == spec_pairs_view(ps@)[i as int]);
            assert(spec_pairs_view(ps@).skip(i as int).drop_first() =~= spec_pairs_view(ps@).skip(
                i as int + 1,
            ));
        }
        if ps[i].0 == *key {
            return Some(&ps[i].1);
        }
        i = i + 1;
    }
    None
}

/// Sets the binding of `key` in an object's pair list, replacing in place
/// or appending.
pub fn obj_set(ps: &mut Vec<(String, ZanoValue)>, key: String, value: ZanoValue)
    ensures
        spec_pairs_view(final(ps)@) == spec_obj_set(spec_pairs_view(old(ps)@), key@, value@),
{
    broadcast use group_view_lemmas;

    let ghost orig = spec_pairs_view(ps@);
    let ghost kv = key@;
    let ghost vv = value@;
    let mut i: usize = 0;
    while i < ps.len()
        invariant
            i <= ps.len(),
            spec_pairs_view(ps@) == orig,
            kv == key@,
            vv == value@,
            forall|j: int| 0 <= j < i as int ==> #[trigger] orig[j].0 != kv,
        decreases ps.len() - i,
    {
        proof {
            assert(orig[i as int] == (ps@[i as int].0@, ps@[i as int].1@));
        }
        if ps[i].0 == key {
            let ghost pre = ps@;
            ps[i] = (key, value);
            proof {
                let out = spec_pairs_view(ps@);
                assert forall|j: int| 0 <= j < out.len() && j != i as int implies #[trigger] out[j]
                    == orig[j] by {
                    assert(ps@[j] == pre[j]);
                }
                assert(out[i as int] == (kv, vv));
                lemma_obj_set_found(orig, kv, vv, i as int, out);
            }
            return ;
        }
        i = i + 1;
    }
    ps.push((key, value));
    proof {
        assert(spec_pairs_view(ps@) =~= orig.push((kv, vv)));
        lemma_obj_set_missing(orig, kv, vv, spec_pairs_view(ps@));
    }
}

/// Replacing the first pair whose key is `k` realises `spec_obj_set`.
proof fn lemma_obj_set_found(
    ps: Seq<(Seq<char>, SpecValue)>,
    k: Seq<char>,
    v: SpecValue,
    i: int,
    out: Seq<(Seq<char>, SpecValue)>,
)
    requires
        0 <= i < ps.len(),
        ps[i].0 == k,
        forall|j: int| 0 <= j < i ==> #[trigger] ps[j].0 != k,
        out.len() == ps.len(),
        out[i] == (k, v),
        forall|j: int| 0 <= j < ps.len() && j != i ==> #[trigger] out[j] == ps[j],
    ensures
        out == spec_obj_set(ps, k, v),
    decreases i,
{
    if i == 0 {
        assert(out =~= seq![(k, v)] + ps.drop_first());
    } else {
        lemma_obj_set_found(ps.drop_first(), k, v, i - 1, out.drop_first());
        assert(out =~= seq![ps[0]] + out.drop_first());
    }
}

/// Appending a fresh pair realises `spec_obj_set` where the key is absent.
proof fn lemma_obj_set_missing(
    ps: Seq<(Seq<char>, SpecValue)>,
    k: Seq<char>,
    v: SpecValue,
    out: Seq<(Seq<char>, SpecValue)>,
)
    requires
        forall|j: int| 0 <= j < ps.len() ==> #[trigger] ps[j].0 != k,
        out == ps.push((k, v)),
    ensures
        out == spec_obj_set(ps, k, v),
    decreases ps.len(),
{
    if ps.len() == 0 {
        assert(out =~= seq![(k, v)]);
    } else {
        lemma_obj_set_missing(ps.drop_first(), k, v, ps.drop_first().push((k, v)));
        assert(out.drop_first() =~= ps.drop_first().push((k, v)));
        assert(out =~= seq![ps[0]] + out.drop_first());
    }
}

} // verus!
