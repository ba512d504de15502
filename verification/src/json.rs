//! A structured value model for the protocol's message bodies.
//!
//! Every payload that crosses the wire (request parameters, results, tool
//! parameter schemas) is held as a [`Json`] value.  Numbers are integers;
//! non-integral numbers are outside this model and are rejected when a
//! message is decoded.

use vstd::prelude::*;

verus! {

broadcast use vstd::std_specs::vec::group_vec_axioms, vstd::seq::group_seq_axioms;

/// A structured value: the payload model of the protocol.
#[derive(Debug, PartialEq)]
pub enum Json {
    Null,
    Bool(bool),
    /// A signed integer number.
    Int(i64),
    /// An unsigned integer number; the text boundary uses this variant for
    /// values above `i64::MAX`, but any unsigned value models the same
    /// number as its signed twin.
    UInt(u64),
    /// A number that is not an integer, carried untouched as its numeral
    /// text: the core never computes on payload numbers, so the numeral
    /// passes through to the handler and back to the wire as it came.
    Num(String),
    Str(String),
    Arr(Vec<Json>),
    Obj(Vec<(String, Json)>),
}

/// The mathematical model of a [`Json`] value.  All integer numbers collapse
/// into one unbounded variant, so a value's model does not depend on which
/// executable integer variant carries it.
#[verifier::ext_equal]
pub enum JsonV {
    Null,
    Bool(bool),
    Int(int),
    Num(Seq<char>),
    Str(Seq<char>),
    Arr(Seq<JsonV>),
    Obj(Seq<(Seq<char>, JsonV)>),
}

/// The model of a [`Json`] value, structurally.
pub open spec fn jview(j: Json) -> JsonV
    decreases j,
    via jview_decreases
{
    match j {
        Json::Null => JsonV::Null,
        Json::Bool(b) => JsonV::Bool(b),
        Json::Int(i) => JsonV::Int(i as int),
        Json::UInt(u) => JsonV::Int(u as int),
        Json::Num(t) => JsonV::Num(t@),
        Json::Str(s) => JsonV::Str(s@),
        Json::Arr(a) => JsonV::Arr(arr_view(a@)),
        Json::Obj(o) => JsonV::Obj(obj_view(o@)),
    }
}

/// The models of the elements of an array, in order.
pub open spec fn arr_view(s: Seq<Json>) -> Seq<JsonV>
    decreases s,
    via arr_view_decreases
{
    if s.len() == 0 {
        Seq::empty()
    } else {
        seq![jview(s[0])] + arr_view(s.subrange(1, s.len() as int))
    }
}

/// The models of the members of an object, in order.
pub open spec fn obj_view(s: Seq<(String, Json)>) -> Seq<(Seq<char>, JsonV)>
    decreases s,
    via obj_view_decreases
{
    if s.len() == 0 {
        Seq::empty()
    } else {
        seq![(s[0].0@, jview(s[0].1))] + obj_view(s.subrange(1, s.len() as int))
    }
}

#[via_fn]
proof fn jview_decreases(j: Json) {
    match j {
        Json::Arr(a) => {
            assert(decreases_to!(a => a@));
        }
        Json::Obj(o) => {
            assert(decreases_to!(o => o@));
        }
        _ => {}
    }
}

#[via_fn]
proof fn arr_view_decreases(s: Seq<Json>) {
    if s.len() != 0 {
        assert(decreases_to!(s => s[0]));
        assert(decreases_to!(s => s.subrange(1, s.len() as int)));
    }
}

#[via_fn]
proof fn obj_view_decreases(s: Seq<(String, Json)>) {
    if s.len() != 0 {
        assert(decreases_to!(s => s[0]));
        assert(decreases_to!(s => s.subrange(1, s.len() as int)));
    }
}

/// An array's model has one element for each array element, in order.
pub proof fn lemma_arr_view(s: Seq<Json>)
    ensures
        arr_view(s).len() == s.len(),
        forall|i: int| 0 <= i < s.len() ==> arr_view(s)[i] == jview(s[i]),
    decreases s.len(),
{
    if s.len() != 0 {
        lemma_arr_view(s.subrange(1, s.len() as int));
    }
}

/// An object's model has one member for each member, in order, with the
/// key's characters and the value's model.
pub proof fn lemma_obj_view(s: Seq<(String, Json)>)
    ensures
        obj_view(s).len() == s.len(),
        forall|i: int| 0 <= i < s.len() ==> obj_view(s)[i] == (s[i].0@, jview(s[i].1)),
    decreases s.len(),
{
    if s.len() != 0 {
        lemma_obj_view(s.subrange(1, s.len() as int));
    }
}

impl View for Json {
    type V = JsonV;

    open spec fn view(&self) -> JsonV {
        jview(*self)
    }
}

impl Json {
    /// A structural copy: the copy's model equals the original's.
    #[verifier::loop_isolation(false)]
    pub fn deep_copy(&self) -> (r: Json)
        ensures
            r@ == self@,
        decreases self,
    {
        match self {
            Json::Null => Json::Null,
            Json::Bool(b) => Json::Bool(*b),
            Json::Int(i) => Json::Int(*i),
            Json::UInt(u) => Json::UInt(*u),
            Json::Num(t) => Json::Num(t.clone()),
            Json::Str(s) => Json::Str(s.clone()),
            Json::Arr(a) => {
                let mut out: Vec<Json> = Vec::new();
                let mut i: usize = 0;
                while i < a.len()
                    invariant
                        i <= a.len(),
                        out.len() == i,
                        forall|k: int| 0 <= k < i ==> out@[k]@ == a@[k]@,
                    decreases a.len() - i,
                {
                    proof {
                        assert(decreases_to!(*a => a@));
                        assert(decreases_to!(a@ => a@[i as int]));
                    }
                    let c = a[i].deep_copy();
                    out.push(c);
                    i = i + 1;
                }
                proof {
                    lemma_arr_view(out@);
                    lemma_arr_view(a@);
                    assert(arr_view(out@) =~= arr_view(a@));
                }
                Json::Arr(out)
            }
            Json::Obj(o) => {
                let mut out: Vec<(String, Json)> = Vec::new();
                let mut i: usize = 0;
                while i < o.len()
                    invariant
                        i <= o.len(),
                        out.len() == i,
                        forall|k: int| 0 <= k < i ==> out@[k].0@ == o@[k].0@ && out@[k].1@ == o@[k].1@,
                    decreases o.len() - i,
                {
                    proof {
                        assert(decreases_to!(*o => o@));
                        assert(decreases_to!(o@ => o@[i as int]));
                        assert(decreases_to!(o@[i as int] => o@[i as int].1));
                    }
                    let key = o[i].0.clone();
                    let val = o[i].1.deep_copy();
                    out.push((key, val));
                    i = i + 1;
                }
                proof {
                    lemma_obj_view(out@);
                    lemma_obj_view(o@);
                    assert(obj_view(out@) =~= obj_view(o@));
                }
                Json::Obj(out)
            }
        }
    }
}

/// The model of an optional value.
pub open spec fn opt_json_view(f: Option<Json>) -> Option<JsonV> {
    match f {
        Some(j) => Some(j@),
        None => None,
    }
}

/// One step of popping against a prefix invariant: when `pre` is the prefix
/// of `orig` of its own length and `post` is `pre` without its last element,
/// then `post` is again such a prefix, and the popped element is `orig`'s.
pub proof fn lemma_pop_prefix<T>(orig: Seq<T>, pre: Seq<T>, post: Seq<T>)
    requires
        pre.len() <= orig.len(),
        pre.len() > 0,
        pre == orig.subrange(0, pre.len() as int),
        post == pre.subrange(0, pre.len() - 1),
    ensures
        post.len() == pre.len() - 1,
        post == orig.subrange(0, post.len() as int),
        pre[pre.len() - 1] == orig[pre.len() - 1],
{
    let k = pre.len() - 1;
    assert forall|t: int| 0 <= t <= k implies pre[t] == orig[t] by {
        assert(pre[t] == orig.subrange(0, k + 1)[t]);
        assert(orig.subrange(0, k + 1)[t] == orig[t]);
    }
    assert forall|t: int| 0 <= t < k implies post[t] == orig.subrange(0, k)[t] by {
        assert(post[t] == pre.subrange(0, k)[t]);
        assert(orig.subrange(0, k)[t] == orig[t]);
    }
    assert(post =~= orig.subrange(0, k));
}

/// A suffix of `s` starting at `k` begins with `s[k]`, and dropping that
/// first element leaves the suffix starting at `k + 1`.
pub proof fn lemma_suffix_step<T>(s: Seq<T>, k: int)
    requires
        0 <= k < s.len(),
    ensures
        s.subrange(k, s.len() as int)[0] == s[k],
        s.subrange(k, s.len() as int).drop_first() == s.subrange(k + 1, s.len() as int),
{
    assert(s.subrange(k, s.len() as int).drop_first() =~= s.subrange(k + 1, s.len() as int));
}

/// The first value bound to key `k` in an association sequence, if any.
pub open spec fn first_entry(o: Seq<(Seq<char>, JsonV)>, k: Seq<char>) -> Option<JsonV>
    decreases o.len(),
{
    if o.len() == 0 {
        None
    } else if o[0].0 == k {
        Some(o[0].1)
    } else {
        first_entry(o.drop_first(), k)
    }
}

} // verus!
