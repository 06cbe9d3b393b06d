//! The query-string decoder: turns a raw `key=value&...` fragment into
//! a multi-valued mapping. Decoding never fails: every fragment yields
//! a definite mapping.
//!
//! The fragment is split on `&` into segments (empty segments
//! included); each segment is split at its first `=` into a key and a
//! verbatim value (no `=` means the whole segment is the key and the
//! value is empty). A key seen once holds `Single(value)`; a key seen
//! more than once holds `Multiple` of its values in first-to-last
//! order.

use vstd::prelude::*;
use crate::scan::{eq_char, find_char, find_first, lemma_find_first, str_eq};

verus! {

/// The values of one key: `Single` for a key seen exactly once,
/// `Multiple` (always two or more entries) for a key seen again.
#[derive(Debug)]
pub enum Value {
    Single(String),
    Multiple(Vec<String>),
}

/// The list of values a `Value` stands for.
pub open spec fn value_model(v: Value) -> Seq<Seq<char>> {
    match v {
        Value::Single(s) => seq![s@],
        Value::Multiple(vs) => vs.deep_view(),
    }
}

/// A `Multiple` holds at least the two values that made it.
pub open spec fn value_wf(v: Value) -> bool {
    match v {
        Value::Single(_) => true,
        Value::Multiple(vs) => vs@.len() >= 2,
    }
}

/// The segments of `raw`: the pieces between `&` separators, in order,
/// empty pieces included.
pub open spec fn segments(raw: Seq<char>) -> Seq<Seq<char>>
    decreases raw.len(),
    via segments_dec
{
    match find_first(raw, eq_char('&')) {
        None => seq![raw],
        Some(i) => seq![raw.take(i)] + segments(raw.skip(i + 1)),
    }
}

#[via_fn]
proof fn segments_dec(raw: Seq<char>) {
    lemma_find_first(raw, eq_char('&'));
}

/// The key of a segment: everything before its first `=`, or the whole
/// segment when it has none.
pub open spec fn seg_key(seg: Seq<char>) -> Seq<char> {
    match find_first(seg, eq_char('=')) {
        None => seg,
        Some(i) => seg.take(i),
    }
}

/// The value of a segment: everything after its first `=`, taken
/// verbatim (later `=` characters included), or empty when it has none.
pub open spec fn seg_val(seg: Seq<char>) -> Seq<char> {
    match find_first(seg, eq_char('=')) {
        None => Seq::empty(),
        Some(i) => seg.skip(i + 1),
    }
}

/// The values of `key` among `segs`, in first-to-last order.
pub open spec fn values_for(segs: Seq<Seq<char>>, key: Seq<char>) -> Seq<Seq<char>>
    decreases segs.len(),
{
    if segs.len() == 0 {
        Seq::empty()
    } else {
        values_for(segs.drop_last(), key) + (if seg_key(segs.last()) == key {
            seq![seg_val(segs.last())]
        } else {
            Seq::empty()
        })
    }
}

/// Adds one value for `key` to the mapping: appended to the key's list
/// when the key is present, a fresh one-element list when it is new.
pub open spec fn upsert(
    m: Map<Seq<char>, Seq<Seq<char>>>,
    key: Seq<char>,
    val: Seq<char>,
) -> Map<Seq<char>, Seq<Seq<char>>> {
    if m.contains_key(key) {
        m.insert(key, m[key].push(val))
    } else {
        m.insert(key, seq![val])
    }
}

/// The mapping accumulated by upserting each segment's key and value,
/// in order.
pub open spec fn table_of(segs: Seq<Seq<char>>) -> Map<Seq<char>, Seq<Seq<char>>>
    decreases segs.len(),
{
    if segs.len() == 0 {
        Map::empty()
    } else {
        upsert(table_of(segs.drop_last()), seg_key(segs.last()), seg_val(segs.last()))
    }
}

/// The mapping a raw query fragment decodes to: each present key mapped
/// to its list of values in first-to-last order.
pub open spec fn query_string_model(raw: Seq<char>) -> Map<Seq<char>, Seq<Seq<char>>> {
    table_of(segments(raw))
}

/// The accumulated mapping holds exactly the keys with at least one
/// value among the segments, each mapped to its full value list.
pub proof fn lemma_table_values(segs: Seq<Seq<char>>, key: Seq<char>)
    ensures
        table_of(segs).contains_key(key) <==> values_for(segs, key).len() > 0,
        table_of(segs).contains_key(key) ==> table_of(segs)[key] == values_for(segs, key),
    decreases segs.len(),
{
    if segs.len() > 0 {
        lemma_table_values(segs.drop_last(), key);
        let prev = table_of(segs.drop_last());
        let k = seg_key(segs.last());
        let v = seg_val(segs.last());
        if k == key {
            if prev.contains_key(key) {
                assert(prev[key].push(v) =~= values_for(segs, key));
            } else {
                assert(seq![v] =~= values_for(segs, key));
            }
        } else {
            assert(values_for(segs, key) =~= values_for(segs.drop_last(), key));
        }
    }
}

/// A decoded query string: a mapping from key to `Value`, keys unique.
#[derive(Debug)]
pub struct QueryString {
    pairs: Vec<(String, Value)>,
}

/// The mapping the key/value pairs stand for.
pub open spec fn pairs_table(pairs: Seq<(String, Value)>) -> Map<Seq<char>, Seq<Seq<char>>>
    decreases pairs.len(),
{
    if pairs.len() == 0 {
        Map::empty()
    } else {
        pairs_table(pairs.drop_last()).insert(pairs.last().0@, value_model(pairs.last().1))
    }
}

/// The stored `Value` of `key` among the pairs, if any.
pub open spec fn pairs_get(pairs: Seq<(String, Value)>, key: Seq<char>) -> Option<Value>
    decreases pairs.len(),
{
    if pairs.len() == 0 {
        None
    } else if pairs.last().0@ == key {
        Some(pairs.last().1)
    } else {
        pairs_get(pairs.drop_last(), key)
    }
}

/// The stored value agrees with the mapping: a key is found among the
/// pairs exactly when the mapping holds it, and its stored `Value`
/// stands for the mapped list.
pub proof fn lemma_pairs_get_table(pairs: Seq<(String, Value)>, key: Seq<char>)
    ensures
        match pairs_get(pairs, key) {
            None => !pairs_table(pairs).contains_key(key),
            Some(v) => pairs_table(pairs).contains_key(key) && pairs_table(pairs)[key]
                == value_model(v) && exists|i: int| 0 <= i < pairs.len() && pairs[i].1 == v,
        },
    decreases pairs.len(),
{
    if pairs.len() > 0 && pairs.last().0@ != key {
        lemma_pairs_get_table(pairs.drop_last(), key);
        if pairs_get(pairs.drop_last(), key) is Some {
            let v = pairs_get(pairs.drop_last(), key)->0;
            let i = choose|i: int| 0 <= i < pairs.drop_last().len() && pairs.drop_last()[i].1 == v;
            assert(pairs[i].1 == v);
        }
    }
}

/// Keys occur at most once among the pairs.
pub open spec fn keys_unique(pairs: Seq<(String, Value)>) -> bool {
    forall|i: int, j: int| 0 <= i < j < pairs.len() ==> pairs[i].0@ != pairs[j].0@
}

/// Replacing the value stored at one key rewrites exactly that key's
/// entry of the mapping.
pub proof fn lemma_pairs_table_update(pairs: Seq<(String, Value)>, i: int, newv: Value)
    requires
        0 <= i < pairs.len(),
        keys_unique(pairs),
    ensures
        pairs_table(pairs.update(i, (pairs[i].0, newv))) == pairs_table(pairs).insert(
            pairs[i].0@,
            value_model(newv),
        ),
    decreases pairs.len(),
{
    let updated = pairs.update(i, (pairs[i].0, newv));
    if i == pairs.len() - 1 {
        assert(updated.drop_last() =~= pairs.drop_last());
        assert(pairs_table(updated) =~= pairs_table(pairs).insert(pairs[i].0@, value_model(newv)));
    } else {
        lemma_pairs_table_update(pairs.drop_last(), i, newv);
        assert(updated.drop_last() =~= pairs.drop_last().update(i, (pairs[i].0, newv)));
        assert(updated.last() == pairs.last());
        assert(pairs[i].0@ != pairs.last().0@);
        assert(pairs_table(updated) =~= pairs_table(pairs).insert(pairs[i].0@, value_model(newv)));
    }
}

/// The mapping holds the key stored at any index, mapped to the list
/// its stored `Value` stands for.
pub proof fn lemma_key_at_index(pairs: Seq<(String, Value)>, i: int)
    requires
        0 <= i < pairs.len(),
        keys_unique(pairs),
    ensures
        pairs_table(pairs).contains_key(pairs[i].0@),
        pairs_table(pairs)[pairs[i].0@] == value_model(pairs[i].1),
        pairs_get(pairs, pairs[i].0@) == Some(pairs[i].1),
    decreases pairs.len(),
{
    if i < pairs.len() - 1 {
        lemma_key_at_index(pairs.drop_last(), i);
        assert(pairs[i].0@ != pairs.last().0@);
    }
}

/// A key stored at no index is absent from the mapping.
pub proof fn lemma_absent_key(pairs: Seq<(String, Value)>, key: Seq<char>)
    requires
        forall|i: int| 0 <= i < pairs.len() ==> pairs[i].0@ != key,
    ensures
        !pairs_table(pairs).contains_key(key),
        pairs_get(pairs, key) is None,
    decreases pairs.len(),
{
    if pairs.len() > 0 {
        lemma_absent_key(pairs.drop_last(), key);
    }
}

impl QueryString {
    /// The key/value pairs, for specification.
    pub closed spec fn spec_pairs(self) -> Seq<(String, Value)> {
        self.pairs@
    }

    /// Well-formedness: keys are unique, and every `Multiple` holds at
    /// least two values.
    pub open spec fn wf(self) -> bool {
        &&& keys_unique(self.spec_pairs())
        &&& forall|i: int| 0 <= i < self.spec_pairs().len() ==> value_wf(self.spec_pairs()[i].1)
    }

    /// The stored `Value` of `key`, for specification.
    pub open spec fn spec_get(self, key: Seq<char>) -> Option<Value> {
        pairs_get(self.spec_pairs(), key)
    }

    /// Looks a key up; `None` exactly when the key is absent.
    pub fn get(&self, key: &str) -> (r: Option<&Value>)
        ensures
            match r {
                Some(v) => self.spec_get(key@) == Some(*v),
                None => self.spec_get(key@) is None,
            },
    {
        let n = self.pairs.len();
        let mut i: usize = n;
        proof {
            assert(self.spec_pairs().take(n as int) =~= self.spec_pairs());
        }
        while i > 0
            invariant
                n == self.spec_pairs().len(),
                i <= n,
                pairs_get(self.spec_pairs(), key@) == pairs_get(
                    self.spec_pairs().take(i as int),
                    key@,
                ),
            decreases i,
        {
            i = i - 1;
            let ghost taken = self.spec_pairs().take(i as int + 1);
            proof {
                assert(taken.drop_last() =~= self.spec_pairs().take(i as int));
                assert(taken.last() == self.spec_pairs()[i as int]);
            }
            if str_eq(self.pairs[i].0.as_str(), key) {
                return Some(&self.pairs[i].1);
            }
        }
        proof {
            assert(self.spec_pairs().take(0).len() == 0);
        }
        None
    }

    /// The position of `key` among the pairs, if it is stored.
    fn find_key_index(&self, key: &str) -> (r: Option<usize>)
        ensures
            match r {
                Some(i) => i < self.spec_pairs().len() && self.spec_pairs()[i as int].0@ == key@,
                None => forall|j: int|
                    0 <= j < self.spec_pairs().len() ==> self.spec_pairs()[j].0@ != key@,
            },
    {
        let n = self.pairs.len();
        let mut i: usize = 0;
        while i < n
            invariant
                n == self.spec_pairs().len(),
                i <= n,
                forall|j: int| 0 <= j < i ==> self.spec_pairs()[j].0@ != key@,
            decreases n - i,
        {
            if str_eq(self.pairs[i].0.as_str(), key) {
                return Some(i);
            }
            i = i + 1;
        }
        None
    }

    /// Records one more occurrence of `key` with value `val`: a new key
    /// is stored as `Single`, a repeated key coalesces into `Multiple`
    /// with its values in first-to-last order.
    fn add_pair(&mut self, key: String, val: String)
        requires
            old(self).wf(),
        ensures
            final(self).wf(),
            final(self)@ == upsert(old(self)@, key@, val@),
    {
        let ghost p0 = self.spec_pairs();
        match self.find_key_index(key.as_str()) {
            None => {
                proof {
                    lemma_absent_key(p0, key@);
                }
                self.pairs.push((key, Value::Single(val)));
                proof {
                    assert(self.spec_pairs().drop_last() =~= p0);
                    assert(value_model(self.spec_pairs().last().1) =~= seq![val@]);
                    assert(self@ =~= upsert(old(self)@, key@, val@));
                }
            },
            Some(i) => {
                proof {
                    lemma_key_at_index(p0, i as int);
                }
                let (k, oldv) = self.pairs.remove(i);
                let ghost oldmodel = value_model(oldv);
                let newv = match oldv {
                    Value::Single(prev) => {
                        let mut vs: Vec<String> = Vec::new();
                        vs.push(prev);
                        vs.push(val);
                        Value::Multiple(vs)
                    },
                    Value::Multiple(mut vs) => {
                        vs.push(val);
                        Value::Multiple(vs)
                    },
                };
                proof {
                    assert(value_model(newv) =~= oldmodel.push(val@));
                    assert(value_wf(newv));
                }
                self.pairs.insert(i, (k, newv));
                proof {
                    assert(self.spec_pairs() =~= p0.update(i as int, (p0[i as int].0, newv)));
                    lemma_pairs_table_update(p0, i as int, newv);
                    assert(self@ =~= upsert(old(self)@, key@, val@));
                    assert forall|a: int, b: int|
                        0 <= a < b < self.spec_pairs().len() implies self.spec_pairs()[a].0@
                        != self.spec_pairs()[b].0@ by {
                        assert(p0[a].0@ != p0[b].0@);
                    }
                }
            },
        }
    }

    /// Splits one segment at its first `=` into an owned key and value.
    fn split_segment(seg: &str) -> (r: (String, String))
        ensures
            r.0@ == seg_key(seg@),
            r.1@ == seg_val(seg@),
    {
        match find_char(seg, '=') {
            None => (String::from_str(seg), String::new()),
            Some(i) => {
                let n = seg.unicode_len();
                let key = String::from_str(seg.substring_char(0, i));
                let val = String::from_str(seg.substring_char(i + 1, n));
                proof {
                    assert(key@ =~= seg_key(seg@));
                    assert(val@ =~= seg_val(seg@));
                }
                (key, val)
            },
        }
    }

    /// Decodes a raw query fragment (everything after the `?` of a
    /// path, the `?` itself stripped by the caller). This cannot fail:
    /// every fragment yields a well-formed mapping.
    pub fn from(s: &str) -> (q: QueryString)
        ensures
            q.wf(),
            q@ == query_string_model(s@),
    {
        let mut q = QueryString { pairs: Vec::new() };
        let ghost mut done: Seq<Seq<char>> = Seq::empty();
        let mut rem: &str = s;
        let mut finished = false;
        proof {
            assert(q@ =~= table_of(done));
            assert(segments(s@) =~= done + segments(s@));
        }
        while !finished
            invariant
                q.wf(),
                !finished ==> q@ == table_of(done) && segments(s@) == done + segments(rem@),
                finished ==> q@ == query_string_model(s@),
            decreases (if finished {
                0int
            } else {
                rem@.len() as int + 1
            }),
        {
            match find_char(rem, '&') {
                None => {
                    let (key, val) = Self::split_segment(rem);
                    q.add_pair(key, val);
                    proof {
                        let d2 = done.push(rem@);
                        assert(d2.drop_last() =~= done);
                        assert(q@ == table_of(d2));
                        assert(d2 =~= segments(s@));
                    }
                    finished = true;
                },
                Some(i) => {
                    let n = rem.unicode_len();
                    let seg = rem.substring_char(0, i);
                    let rest = rem.substring_char(i + 1, n);
                    let (key, val) = Self::split_segment(seg);
                    q.add_pair(key, val);
                    proof {
                        assert(seg@ =~= rem@.take(i as int));
                        assert(rest@ =~= rem@.skip(i as int + 1));
                        let d2 = done.push(seg@);
                        assert(d2.drop_last() =~= done);
                        assert(q@ == table_of(d2));
                        assert(segments(s@) =~= d2 + segments(rest@));
                        done = d2;
                    }
                    rem = rest;
                },
            }
        }
        q
    }
}

/// For any decoded query text, a key's value is `Single` exactly when
/// that key occurs exactly once among the `&`-separated segments;
/// otherwise it is `Multiple`, holding one value per occurrence, in
/// first-to-last order. An absent key occurs in no segment.
pub proof fn lemma_single_iff_once(q: QueryString, raw: Seq<char>, key: Seq<char>)
    requires
        q.wf(),
        q@ == query_string_model(raw),
    ensures
        match q.spec_get(key) {
            None => values_for(segments(raw), key).len() == 0,
            Some(v) => {
                &&& value_model(v) == values_for(segments(raw), key)
                &&& (v is Single <==> values_for(segments(raw), key).len() == 1)
                &&& (v is Multiple <==> values_for(segments(raw), key).len() >= 2)
            },
        },
{
    lemma_table_values(segments(raw), key);
    lemma_pairs_get_table(q.spec_pairs(), key);
    match q.spec_get(key) {
        None => {},
        Some(v) => {
            let i = choose|i: int| 0 <= i < q.spec_pairs().len() && q.spec_pairs()[i].1 == v;
            assert(value_wf(v));
        },
    }
}

impl View for QueryString {
    type V = Map<Seq<char>, Seq<Seq<char>>>;

    open spec fn view(&self) -> Map<Seq<char>, Seq<Seq<char>>> {
        pairs_table(self.spec_pairs())
    }
}

} // verus!
