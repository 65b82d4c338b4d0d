//! Scalar attribute values carried by a span.
//!
//! A span's open attribute bag maps string keys to scalar JSON-like values.
//! The store only ever inspects whether a value is a string or an integer;
//! every other value (floats, nulls, arrays, objects) flows through verbatim,
//! carried here in its serialized text form.

use vstd::prelude::*;

verus! {

/// A scalar attribute value. `Raw` carries the serialized text of any value
/// that is neither a string, an integer fitting `i64`, nor a boolean; such
/// values are stored and handed back verbatim, never inspected.
#[derive(Debug, PartialEq)]
pub enum AttrValue {
    Str(String),
    Int(i64),
    Bool(bool),
    Raw(String),
}

impl Clone for AttrValue {
    fn clone(&self) -> (r: Self)
        ensures
            r == *self,
    {
        match self {
            AttrValue::Str(s) => AttrValue::Str(s.clone()),
            AttrValue::Int(n) => AttrValue::Int(*n),
            AttrValue::Bool(b) => AttrValue::Bool(*b),
            AttrValue::Raw(s) => AttrValue::Raw(s.clone()),
        }
    }
}

/// The mathematical shape of an [`AttrValue`].
pub ghost enum AttrValueView {
    Str(Seq<char>),
    Int(int),
    Bool(bool),
    Raw(Seq<char>),
}

impl View for AttrValue {
    type V = AttrValueView;

    open spec fn view(&self) -> AttrValueView {
        match self {
            AttrValue::Str(s) => AttrValueView::Str(s@),
            AttrValue::Int(n) => AttrValueView::Int(*n as int),
            AttrValue::Bool(b) => AttrValueView::Bool(*b),
            AttrValue::Raw(s) => AttrValueView::Raw(s@),
        }
    }
}

/// The string content of a value, or the empty string when it is not a
/// string. This is the permissive reading used for the reserved `name` and
/// `status_message` fields: a wrongly-typed value degrades, it never fails.
pub open spec fn str_or_empty(v: AttrValueView) -> Seq<char> {
    match v {
        AttrValueView::Str(s) => s,
        _ => Seq::empty(),
    }
}

/// The integer content of a value, or zero when it is not an integer. This is
/// the permissive reading used for the reserved `status_code` and `ttl`
/// fields.
pub open spec fn int_or_zero(v: AttrValueView) -> int {
    match v {
        AttrValueView::Int(n) => n,
        _ => 0,
    }
}

/// The mapping an attribute list denotes: later entries for a key overwrite
/// earlier ones.
pub open spec fn attr_map(s: Seq<(String, AttrValue)>) -> Map<Seq<char>, AttrValueView>
    decreases s.len(),
{
    if s.len() == 0 {
        Map::empty()
    } else {
        attr_map(s.drop_last()).insert(s.last().0@, s.last().1@)
    }
}

/// Whether the keys of an attribute list are pairwise distinct, so that the
/// list represents its mapping without shadowed entries.
pub open spec fn attr_keys_unique(s: Seq<(String, AttrValue)>) -> bool {
    forall|i: int, j: int| 0 <= i < j < s.len() ==> (#[trigger] s[i]).0@ != (#[trigger] s[j]).0@
}

pub proof fn lemma_attr_map_update(s: Seq<(String, AttrValue)>, i: int, p: (String, AttrValue))
    requires
        attr_keys_unique(s),
        0 <= i < s.len(),
        s[i].0@ == p.0@,
    ensures
        attr_map(s.update(i, p)) == attr_map(s).insert(p.0@, p.1@),
        attr_keys_unique(s.update(i, p)),
    decreases s.len(),
{
    let t = s.update(i, p);
    assert(forall|j: int| 0 <= j < s.len() && j != i ==> (#[trigger] t[j]).0@ == s[j].0@);
    if i == s.len() - 1 {
        assert(t.drop_last() =~= s.drop_last());
        assert(attr_map(t) =~= attr_map(s).insert(p.0@, p.1@));
    } else {
        lemma_attr_map_update(s.drop_last(), i, p);
        assert(t.drop_last() =~= s.drop_last().update(i, p));
        assert(t.last() == s.last());
        // the replaced key differs from the last entry's key, so the two
        // insertions commute
        assert(s.last().0@ != p.0@);
        assert(attr_map(t) =~= attr_map(s).insert(p.0@, p.1@));
    }
}

/// Inserts or replaces `key` in an attribute list, keeping keys distinct.
pub fn set_attr(extra: &mut Vec<(String, AttrValue)>, key: String, value: AttrValue)
    requires
        attr_keys_unique(old(extra)@),
    ensures
        attr_keys_unique(final(extra)@),
        attr_map(final(extra)@) == attr_map(old(extra)@).insert(key@, value@),
{
    let n = extra.len();
    let mut i: usize = 0;
    while i < n
        invariant
            i <= n,
            n == extra.len(),
            extra@ == old(extra)@,
            attr_keys_unique(extra@),
            forall|j: int| 0 <= j < i ==> (#[trigger] extra@[j]).0@ != key@,
        decreases n - i,
    {
        if extra[i].0 == key {
            proof {
                lemma_attr_map_update(extra@, i as int, (key, value));
            }
            extra.set(i, (key, value));
            return ;
        }
        i = i + 1;
    }
    let ghost before = extra@;
    extra.push((key, value));
    proof {
        assert(extra@.drop_last() =~= before);
        assert(attr_map(extra@) =~= attr_map(old(extra)@).insert(key@, value@));
    }
}

/// Executable counterpart of [`str_or_empty`].
pub fn value_str_or_empty(v: &AttrValue) -> (r: String)
    ensures
        r@ == str_or_empty(v@),
{
    match v {
        AttrValue::Str(s) => s.clone(),
        _ => String::new(),
    }
}

/// Executable counterpart of [`int_or_zero`].
pub fn value_int_or_zero(v: &AttrValue) -> (r: i64)
    ensures
        r as int == int_or_zero(v@),
{
    match v {
        AttrValue::Int(n) => *n,
        _ => 0,
    }
}

} // verus!
