use crate::numeral::int_rep;
use crate::numeral::int_string;
use vstd::prelude::*;

verus! {

/// A generic structured value of the hosting pipeline, reduced to the kinds
/// the header translation reads: text, integers, booleans, records of named
/// fields, lists, and everything else (which never converts to text).
pub enum FlexValue {
    Str(String),
    Int(i64),
    Bool(bool),
    Record(Vec<(String, FlexValue)>),
    List(Vec<FlexValue>),
    Other,
}

/// The text a value coerces to, when it has one: text itself, an integer in
/// decimal, a boolean as `true` or `false`.
pub open spec fn coerce_spec(v: FlexValue) -> Option<Seq<char>> {
    match v {
        FlexValue::Str(s) => Some(s@),
        FlexValue::Int(i) => Some(int_rep(i as int)),
        FlexValue::Bool(b) => Some(
            if b {
                "true"@
            } else {
                "false"@
            },
        ),
        _ => None,
    }
}

/// Coerce one value to text, when it can be.
pub fn coerce_into_string(v: &FlexValue) -> (r: Option<String>)
    ensures
        (r matches Some(s) ==> coerce_spec(*v) == Some(s@)),
        (r is None <==> coerce_spec(*v) is None),
{
    match v {
        FlexValue::Str(s) => Some(s.clone()),
        FlexValue::Int(i) => Some(int_string(*i)),
        FlexValue::Bool(b) => Some(
            if *b {
                "true".to_owned()
            } else {
                "false".to_owned()
            },
        ),
        _ => None,
    }
}

/// The string-keyed mapping a list of entries denotes, a later entry for the
/// same key overriding an earlier one.
pub open spec fn map_of(entries: Seq<(String, String)>) -> Map<Seq<char>, Seq<char>>
    decreases entries.len(),
{
    if entries.len() == 0 {
        Map::empty()
    } else {
        map_of(entries.drop_last()).insert(entries.last().0@, entries.last().1@)
    }
}

/// No two entries name the same header.
pub open spec fn unique_keys(entries: Seq<(String, String)>) -> bool {
    forall|i: int, j: int|
        0 <= i < j < entries.len() ==> (#[trigger] entries[i]).0@ != (#[trigger] entries[j]).0@
}

/// Whether some entry holds this name.
pub open spec fn holds_key(entries: Seq<(String, String)>, k: Seq<char>) -> bool {
    exists|j: int| 0 <= j < entries.len() && (#[trigger] entries[j]).0@ == k
}

proof fn lemma_map_of_key_absent(entries: Seq<(String, String)>, k: Seq<char>)
    requires
        forall|i: int| 0 <= i < entries.len() ==> (#[trigger] entries[i]).0@ != k,
    ensures
        !map_of(entries).contains_key(k),
    decreases entries.len(),
{
    if entries.len() > 0 {
        assert forall|i: int| 0 <= i < entries.drop_last().len() implies (#[trigger] entries.drop_last()[i]).0@
            != k by {
            assert(entries.drop_last()[i] == entries[i]);
        }
        lemma_map_of_key_absent(entries.drop_last(), k);
    }
}

proof fn lemma_unique_drop_last(entries: Seq<(String, String)>)
    requires
        unique_keys(entries),
        entries.len() > 0,
    ensures
        unique_keys(entries.drop_last()),
        forall|i: int|
            0 <= i < entries.len() - 1 ==> (#[trigger] entries[i]).0@ != entries.last().0@,
{
    assert forall|i: int, j: int| 0 <= i < j < entries.drop_last().len() implies (
    #[trigger] entries.drop_last()[i]).0@ != (#[trigger] entries.drop_last()[j]).0@ by {
        assert(entries.drop_last()[i] == entries[i]);
        assert(entries.drop_last()[j] == entries[j]);
    }
    assert forall|i: int| 0 <= i < entries.len() - 1 implies (#[trigger] entries[i]).0@
        != entries.last().0@ by {
        assert(entries[i].0@ != entries[entries.len() - 1].0@);
    }
}

proof fn lemma_map_of_key_at(entries: Seq<(String, String)>, i: int)
    requires
        unique_keys(entries),
        0 <= i < entries.len(),
    ensures
        map_of(entries).contains_key(entries[i].0@),
        map_of(entries)[entries[i].0@] == entries[i].1@,
    decreases entries.len(),
{
    lemma_unique_drop_last(entries);
    if i < entries.len() - 1 {
        lemma_map_of_key_at(entries.drop_last(), i);
        assert(entries.drop_last()[i] == entries[i]);
    }
}

proof fn lemma_map_of_update(entries: Seq<(String, String)>, i: int, e: (String, String))
    requires
        unique_keys(entries),
        0 <= i < entries.len(),
        e.0@ == entries[i].0@,
    ensures
        map_of(entries.update(i, e)) == map_of(entries).insert(e.0@, e.1@),
    decreases entries.len(),
{
    lemma_unique_drop_last(entries);
    let s2 = entries.update(i, e);
    if i == entries.len() - 1 {
        assert(s2.drop_last() =~= entries.drop_last());
        assert(s2.last() == e);
        assert(map_of(s2) =~= map_of(entries).insert(e.0@, e.1@));
    } else {
        assert(s2.drop_last() =~= entries.drop_last().update(i, e));
        assert(s2.last() == entries.last());
        assert(entries.drop_last()[i] == entries[i]);
        lemma_map_of_update(entries.drop_last(), i, e);
        assert(map_of(s2) =~= map_of(entries).insert(e.0@, e.1@));
    }
}

proof fn lemma_map_of_remove(entries: Seq<(String, String)>, i: int)
    requires
        unique_keys(entries),
        0 <= i < entries.len(),
    ensures
        map_of(entries.remove(i)) == map_of(entries).remove(entries[i].0@),
    decreases entries.len(),
{
    lemma_unique_drop_last(entries);
    if i == entries.len() - 1 {
        assert(entries.remove(i) =~= entries.drop_last());
        lemma_map_of_key_absent(entries.drop_last(), entries[i].0@);
        assert(map_of(entries.remove(i)) =~= map_of(entries).remove(entries[i].0@));
    } else {
        assert(entries.remove(i).drop_last() =~= entries.drop_last().remove(i));
        assert(entries.remove(i).last() == entries.last());
        assert(entries.drop_last()[i] == entries[i]);
        lemma_map_of_remove(entries.drop_last(), i);
        assert(map_of(entries.remove(i)) =~= map_of(entries).remove(entries[i].0@));
    }
}

/// A plain string-to-string header mapping: the normalized form the engine
/// consumes, duplicate keys already resolved by last-write-wins.
pub struct HeaderMap {
    entries: Vec<(String, String)>,
}

impl View for HeaderMap {
    type V = Map<Seq<char>, Seq<char>>;

    closed spec fn view(&self) -> Map<Seq<char>, Seq<char>> {
        map_of(self.entries@)
    }
}

impl HeaderMap {
    /// The entries in insertion order; every key appears once.
    pub closed spec fn entries_seq(&self) -> Seq<(String, String)> {
        self.entries@
    }

    /// Each header name is held exactly once.
    pub closed spec fn wf(&self) -> bool {
        unique_keys(self.entries@)
    }

    /// An empty mapping.
    pub fn new() -> (r: Self)
        ensures
            r@ == Map::<Seq<char>, Seq<char>>::empty(),
            r.wf(),
            r.entries_seq().len() == 0,
    {
        HeaderMap { entries: Vec::new() }
    }

    /// How many headers are held.
    pub fn len(&self) -> (r: usize)
        ensures
            r == self.entries_seq().len(),
    {
        self.entries.len()
    }

    /// The entries, in insertion order.
    pub fn entries(&self) -> (r: &Vec<(String, String)>)
        ensures
            r@ == self.entries_seq(),
    {
        &self.entries
    }

    fn position_of(&self, key: &String) -> (r: Option<usize>)
        ensures
            (r matches Some(i) ==> i < self.entries_seq().len()
                && self.entries_seq()[i as int].0@ == key@),
            (r is None ==> forall|j: int|
                0 <= j < self.entries_seq().len() ==> (#[trigger] self.entries_seq()[j]).0@
                    != key@),
    {
        let n = self.entries.len();
        let mut i: usize = 0;
        while i < n
            invariant
                i <= n,
                n == self.entries@.len(),
                forall|j: int| 0 <= j < i ==> (#[trigger] self.entries@[j]).0@ != key@,
            decreases n - i,
        {
            let pair = &self.entries[i];
            if pair.0 == *key {
                return Some(i);
            }
            i = i + 1;
        }
        None
    }

    /// Set one header, overriding any earlier value under the same name: a
    /// new name is appended to the entry list, a held name is updated in
    /// place.
    pub fn insert(&mut self, key: String, value: String)
        requires
            old(self).wf(),
        ensures
            final(self).wf(),
            final(self)@ == old(self)@.insert(key@, value@),
            (!holds_key(old(self).entries_seq(), key@) ==> final(self).entries_seq() == old(
                self,
            ).entries_seq().push((key, value))),
            (holds_key(old(self).entries_seq(), key@) ==> exists|j: int|
                {
                    &&& 0 <= j < old(self).entries_seq().len()
                    &&& (#[trigger] old(self).entries_seq()[j]).0@ == key@
                    &&& final(self).entries_seq() == old(self).entries_seq().update(
                        j,
                        (key, value),
                    )
                }),
    {
        match self.position_of(&key) {
            Some(i) => {
                let ghost before = self.entries@;
                let _ = self.entries.remove(i);
                self.entries.insert(i, (key, value));
                proof {
                    assert(self.entries@ =~= before.update(i as int, self.entries@[i as int]));
                    lemma_map_of_update(before, i as int, self.entries@[i as int]);
                    assert forall|a: int, b: int| 0 <= a < b < self.entries@.len() implies (
                    #[trigger] self.entries@[a]).0@ != (#[trigger] self.entries@[b]).0@ by {
                        assert(before[a].0@ != before[b].0@);
                    }
                }
            },
            None => {
                let ghost before = self.entries@;
                self.entries.push((key, value));
                proof {
                    assert(self.entries@.drop_last() =~= before);
                    assert forall|a: int, b: int| 0 <= a < b < self.entries@.len() implies (
                    #[trigger] self.entries@[a]).0@ != (#[trigger] self.entries@[b]).0@ by {
                        if b < self.entries@.len() - 1 {
                            assert(before[a].0@ != before[b].0@);
                        } else {
                            assert(old(self).entries_seq()[a].0@ != key@);
                        }
                    }
                }
            },
        }
    }

    /// Drop one header, when it is held; a name not held changes nothing.
    pub fn remove(&mut self, key: &String)
        requires
            old(self).wf(),
        ensures
            final(self).wf(),
            final(self)@ == old(self)@.remove(key@),
            (!holds_key(old(self).entries_seq(), key@) ==> final(self).entries_seq() == old(
                self,
            ).entries_seq()),
            (holds_key(old(self).entries_seq(), key@) ==> exists|j: int|
                {
                    &&& 0 <= j < old(self).entries_seq().len()
                    &&& (#[trigger] old(self).entries_seq()[j]).0@ == key@
                    &&& final(self).entries_seq() == old(self).entries_seq().remove(j)
                }),
    {
        match self.position_of(key) {
            Some(i) => {
                let ghost before = self.entries@;
                let _ = self.entries.remove(i);
                proof {
                    lemma_map_of_remove(before, i as int);
                    assert forall|a: int, b: int| 0 <= a < b < self.entries@.len() implies (
                    #[trigger] self.entries@[a]).0@ != (#[trigger] self.entries@[b]).0@ by {
                        let a0: int = if a < i { a } else { a + 1 };
                        let b0: int = if b < i { b } else { b + 1 };
                        assert(self.entries@[a] == before[a0]);
                        assert(self.entries@[b] == before[b0]);
                        assert(before[a0].0@ != before[b0].0@);
                    }
                }
            },
            None => {
                proof {
                    assert forall|j: int| 0 <= j < self.entries@.len() implies (
                    #[trigger] self.entries@[j]).0@ != key@ by {
                        assert(self.entries_seq()[j].0@ != key@);
                    }
                    lemma_map_of_key_absent(self.entries@, key@);
                    assert(self@.remove(key@) =~= self@);
                }
            },
        }
    }

    /// Look one header up by name.
    pub fn get(&self, key: &String) -> (r: Option<&String>)
        requires
            self.wf(),
        ensures
            (r matches Some(v) ==> self@.contains_key(key@) && v@ == self@[key@]),
            (r is None ==> !self@.contains_key(key@)),
    {
        match self.position_of(key) {
            Some(i) => {
                proof {
                    lemma_map_of_key_at(self.entries@, i as int);
                }
                Some(&self.entries[i].1)
            },
            None => {
                proof {
                    assert forall|j: int| 0 <= j < self.entries@.len() implies (
                    #[trigger] self.entries@[j]).0@ != key@ by {
                        assert(self.entries_seq()[j].0@ != key@);
                    }
                    lemma_map_of_key_absent(self.entries@, key@);
                }
                None
            },
        }
    }
}


/// Law: the mapping a header map denotes is exactly the last-write-wins
/// reading of its entry list, so what the handshake sends (the entry list)
/// and what the contracts speak of (the mapping) agree.
pub proof fn lemma_view_is_map_of_entries(m: &HeaderMap)
    ensures
        m@ == map_of(m.entries_seq()),
{
}

/// Why a header argument could not be translated.
#[derive(Clone, Copy, PartialEq, Eq, Structural, Debug)]
pub enum HeaderError {
    /// The argument is not a record, a one-row table, or a key-value list
    /// whose keys convert to text.
    NotConvertible,
}

/// The mapping a list of deduplication-pending pairs denotes, a later pair
/// for the same key overriding an earlier one.
pub open spec fn flex_map_of(pairs: Seq<(Seq<char>, FlexValue)>) -> Map<Seq<char>, FlexValue>
    decreases pairs.len(),
{
    if pairs.len() == 0 {
        Map::empty()
    } else {
        flex_map_of(pairs.drop_last()).insert(pairs.last().0, pairs.last().1)
    }
}

/// The headers drawn from a deduplicated value mapping: exactly the keys
/// whose value converts to text, each mapped to that text.
pub open spec fn coerced_headers(m: Map<Seq<char>, FlexValue>) -> Map<Seq<char>, Seq<char>> {
    Map::new(
        |k: Seq<char>| m.contains_key(k) && coerce_spec(m[k]) is Some,
        |k: Seq<char>| coerce_spec(m[k])->Some_0,
    )
}

/// The pairs a record's fields denote.
pub open spec fn field_pairs(fields: Seq<(String, FlexValue)>) -> Seq<(Seq<char>, FlexValue)> {
    fields.map_values(|p: (String, FlexValue)| (p.0@, p.1))
}

/// The pairs a flat key-value list denotes, read two elements at a time;
/// None when some key does not convert to text. A trailing element without
/// a partner is dropped.
pub open spec fn chunk_pairs(vals: Seq<FlexValue>) -> Option<Seq<(Seq<char>, FlexValue)>>
    decreases vals.len(),
{
    if vals.len() < 2 {
        Some(Seq::empty())
    } else {
        match coerce_spec(vals[0]) {
            Some(k) => match chunk_pairs(vals.skip(2)) {
                Some(rest) => Some(seq![(k, vals[1])] + rest),
                None => None,
            },
            None => None,
        }
    }
}

/// The key-value pairs a header argument denotes, before deduplication:
/// a record's fields; a single-row table's fields; a flat key-value list
/// read in pairs. None for every other shape.
pub open spec fn header_pairs(headers: Option<FlexValue>) -> Option<Seq<(Seq<char>, FlexValue)>> {
    match headers {
        Option::None => Some(Seq::empty()),
        Option::Some(v) => match v {
            FlexValue::Record(fields) => Some(field_pairs(fields@)),
            FlexValue::List(vals) => if vals@.len() == 1 {
                match vals@[0] {
                    FlexValue::Record(fields) => Some(field_pairs(fields@)),
                    _ => None,
                }
            } else {
                chunk_pairs(vals@)
            },
            _ => None,
        },
    }
}

/// Deduplicate pending pairs in order and keep those whose value converts to
/// text: a pair overrides every earlier pair with its key, and a key whose
/// final value does not convert is absent from the result.
fn fold_headers(raw: &Vec<(String, FlexValue)>) -> (r: HeaderMap)
    ensures
        r.wf(),
        r@ == coerced_headers(flex_map_of(field_pairs(raw@))),
{
    let mut out = HeaderMap::new();
    let n = raw.len();
    let mut i: usize = 0;
    proof {
        assert(field_pairs(raw@).take(0) =~= Seq::<(Seq<char>, FlexValue)>::empty());
        assert(out@ =~= coerced_headers(flex_map_of(field_pairs(raw@).take(0))));
    }
    while i < n
        invariant
            i <= n,
            n == raw@.len(),
            out.wf(),
            out@ == coerced_headers(flex_map_of(field_pairs(raw@).take(i as int))),
        decreases n - i,
    {
        let ghost taken = field_pairs(raw@).take(i as int);
        let ghost fm = flex_map_of(taken);
        let pair = &raw[i];
        let coerced = coerce_into_string(&pair.1);
        proof {
            assert(field_pairs(raw@)[i as int] == (raw@[i as int].0@, raw@[i as int].1));
            assert(field_pairs(raw@).take(i + 1).drop_last() =~= taken);
            assert(flex_map_of(field_pairs(raw@).take(i + 1)) == fm.insert(
                raw@[i as int].0@,
                raw@[i as int].1,
            ));
        }
        match coerced {
            Some(s) => {
                out.insert(pair.0.clone(), s);
                proof {
                    assert(coerced_headers(fm.insert(raw@[i as int].0@, raw@[i as int].1)) =~= coerced_headers(
                        fm,
                    ).insert(raw@[i as int].0@, coerce_spec(raw@[i as int].1)->Some_0));
                }
            },
            None => {
                out.remove(&pair.0);
                proof {
                    assert(coerced_headers(fm.insert(raw@[i as int].0@, raw@[i as int].1)) =~= coerced_headers(
                        fm,
                    ).remove(raw@[i as int].0@));
                }
            },
        }
        i = i + 1;
    }
    proof {
        assert(field_pairs(raw@).take(n as int) =~= field_pairs(raw@));
    }
    out
}

/// Translate the generic header argument into a plain string-to-string
/// mapping: a record or single-row table contributes its fields, a flat list
/// contributes consecutive key-value pairs, duplicate keys resolve by
/// last-write-wins, and values that do not convert to text are dropped. Any
/// other shape, or a list key that does not convert, is rejected.
pub fn request_headers(headers: Option<FlexValue>) -> (r: Result<HeaderMap, HeaderError>)
    ensures
        (r matches Ok(m) ==> (header_pairs(headers) matches Some(pairs) && m.wf() && m@
            == coerced_headers(flex_map_of(pairs)))),
        (r is Err <==> header_pairs(headers) is None),
{
    let raw: Vec<(String, FlexValue)> = match headers {
        Option::None => Vec::new(),
        Option::Some(FlexValue::Record(fields)) => fields,
        Option::Some(FlexValue::List(vals)) => {
            if vals.len() == 1 {
                let mut vals = vals;
                let first = vals.remove(0);
                match first {
                    FlexValue::Record(fields) => fields,
                    _ => {
                        return Err(HeaderError::NotConvertible);
                    },
                }
            } else {
                let ghost orig = vals@;
                let mut vals = vals;
                let mut pairs: Vec<(String, FlexValue)> = Vec::new();
                proof {
                    assert(field_pairs(pairs@) =~= Seq::<(Seq<char>, FlexValue)>::empty());
                    if chunk_pairs(orig) is Some {
                        assert(field_pairs(pairs@) + chunk_pairs(orig)->Some_0 =~= chunk_pairs(
                            orig,
                        )->Some_0);
                    }
                }
                while vals.len() >= 2
                    invariant
                        header_pairs(headers) == chunk_pairs(orig),
                        (match chunk_pairs(vals@) {
                            Option::Some(rest) => chunk_pairs(orig) == Some(
                                field_pairs(pairs@) + rest,
                            ),
                            Option::None => chunk_pairs(orig) is None,
                        }),
                    decreases vals@.len(),
                {
                    let ghost before = vals@;
                    let ghost done = pairs@;
                    let kv = vals.remove(0);
                    let vv = vals.remove(0);
                    proof {
                        assert(vals@ =~= before.skip(2));
                        assert(kv == before[0]);
                        assert(vv == before[1]);
                    }
                    match coerce_into_string(&kv) {
                        Some(ks) => {
                            pairs.push((ks, vv));
                            proof {
                                assert(field_pairs(pairs@).drop_last() =~= field_pairs(done));
                                assert(field_pairs(pairs@).last() == (ks@, vv));
                                if chunk_pairs(before.skip(2)) is Some {
                                    let rest = chunk_pairs(before.skip(2))->Some_0;
                                    assert(chunk_pairs(before) == Some(seq![(ks@, vv)] + rest));
                                    assert(field_pairs(done) + (seq![(ks@, vv)] + rest)
                                        =~= field_pairs(pairs@) + rest);
                                }
                            }
                        },
                        None => {
                            proof {
                                assert(chunk_pairs(before) is None);
                            }
                            return Err(HeaderError::NotConvertible);
                        },
                    }
                }
                proof {
                    assert(chunk_pairs(vals@) == Some(Seq::<(Seq<char>, FlexValue)>::empty()));
                    assert(field_pairs(pairs@) + Seq::<(Seq<char>, FlexValue)>::empty()
                        =~= field_pairs(pairs@));
                }
                pairs
            }
        },
        Option::Some(_) => {
            return Err(HeaderError::NotConvertible);
        },
    };
    Ok(fold_headers(&raw))
}

/// Assemble the handshake's header list: the synthesized Origin header first,
/// then every caller-supplied header, verbatim and in order. Nothing checks
/// for a collision: a caller-supplied Origin is sent alongside the
/// synthesized one, exactly as given.
pub fn build_handshake_headers(origin: String, custom: &HeaderMap) -> (r: Vec<(String, String)>)
    ensures
        r@.len() == 1 + custom.entries_seq().len(),
        r@[0].0@ == "Origin"@,
        r@[0].1 == origin,
        forall|i: int|
            0 <= i < custom.entries_seq().len() ==> r@[i + 1] == custom.entries_seq()[i],
{
    let mut out: Vec<(String, String)> = Vec::new();
    out.push(("Origin".to_owned(), origin));
    let entries = custom.entries();
    let n = entries.len();
    let mut i: usize = 0;
    while i < n
        invariant
            i <= n,
            n == custom.entries_seq().len(),
            entries@ == custom.entries_seq(),
            out@.len() == 1 + i,
            out@[0].0@ == "Origin"@,
            out@[0].1 == origin,
            forall|j: int| 0 <= j < i ==> out@[j + 1] == custom.entries_seq()[j],
        decreases n - i,
    {
        let pair = &entries[i];
        out.push((pair.0.clone(), pair.1.clone()));
        i = i + 1;
    }
    out
}

} // verus!
