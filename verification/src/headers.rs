use vstd::prelude::*;
use vstd::map::*;
use vstd::pervasive::VecAdditionalExecFns;
use crate::lower_bytes;
use crate::fields::Fields;

verus! {

/// The map modelled by an association list, later entries winning.
pub open spec fn assoc_map(s: Seq<(Seq<u8>, Seq<u8>)>) -> Map<Seq<u8>, Seq<u8>>
    decreases s.len(),
{
    if s.len() == 0 {
        Map::empty()
    } else {
        assoc_map(s.drop_last()).insert(s.last().0, s.last().1)
    }
}

/// A key is in the modelled map exactly when some entry holds it.
pub proof fn lemma_assoc_map_dom(s: Seq<(Seq<u8>, Seq<u8>)>, k: Seq<u8>)
    ensures
        assoc_map(s).dom().contains(k) <==> exists|i: int|
            0 <= i < s.len() && (#[trigger] s[i]).0 == k,
    decreases s.len(),
{
    if s.len() > 0 {
        lemma_assoc_map_dom(s.drop_last(), k);
        if s.last().0 == k {
            assert(s[s.len() - 1].0 == k);
        } else {
            if exists|i: int| 0 <= i < s.len() && (#[trigger] s[i]).0 == k {
                let i = choose|i: int| 0 <= i < s.len() && (#[trigger] s[i]).0 == k;
                assert(i < s.len() - 1);
                assert(s.drop_last()[i].0 == k);
            }
        }
    }
}

/// No two entries hold the same key.
pub open spec fn unique_keys(s: Seq<(Seq<u8>, Seq<u8>)>) -> bool {
    forall|i: int, j: int|
        0 <= i < j < s.len() ==> (#[trigger] s[i]).0 != (#[trigger] s[j]).0
}

/// Under unique keys, the modelled map sends each held key to its value.
pub proof fn lemma_assoc_map_index(s: Seq<(Seq<u8>, Seq<u8>)>, i: int)
    requires
        unique_keys(s),
        0 <= i < s.len(),
    ensures
        assoc_map(s).dom().contains(s[i].0),
        assoc_map(s)[s[i].0] == s[i].1,
    decreases s.len(),
{
    lemma_assoc_map_dom(s, s[i].0);
    if i == s.len() - 1 {
    } else {
        assert(s.drop_last()[i] == s[i]);
        lemma_assoc_map_index(s.drop_last(), i);
        assert(s.last().0 != s[i].0);
    }
}

/// Appending an entry models a map insertion.
pub proof fn lemma_assoc_map_push(s: Seq<(Seq<u8>, Seq<u8>)>, k: Seq<u8>, v: Seq<u8>)
    ensures
        assoc_map(s.push((k, v))) == assoc_map(s).insert(k, v),
{
    assert(s.push((k, v)).drop_last() =~= s);
    assert(s.push((k, v)).last() == (k, v));
}

/// Overwriting the entry that holds a key models a map insertion.
pub proof fn lemma_assoc_map_update(s: Seq<(Seq<u8>, Seq<u8>)>, i: int, k: Seq<u8>, v: Seq<u8>)
    requires
        unique_keys(s),
        0 <= i < s.len(),
        s[i].0 == k,
    ensures
        assoc_map(s.update(i, (k, v))) == assoc_map(s).insert(k, v),
    decreases s.len(),
{
    let t = s.update(i, (k, v));
    if i == s.len() - 1 {
        assert(t.drop_last() =~= s.drop_last());
        assert(t.last() == (k, v));
        assert(assoc_map(s.drop_last()).insert(k, s.last().1).insert(k, v) =~= assoc_map(
            s.drop_last(),
        ).insert(k, v));
    } else {
        assert(t.drop_last() =~= s.drop_last().update(i, (k, v)));
        assert(t.last() == s.last());
        assert(s.drop_last()[i] == s[i]);
        lemma_assoc_map_update(s.drop_last(), i, k, v);
        assert(s.last().0 != k);
        assert(assoc_map(s.drop_last()).insert(k, v).insert(s.last().0, s.last().1) =~= assoc_map(
            s.drop_last(),
        ).insert(s.last().0, s.last().1).insert(k, v));
    }
}

/// Removing the entry that holds a key models a map removal.
pub proof fn lemma_assoc_map_remove(s: Seq<(Seq<u8>, Seq<u8>)>, i: int)
    requires
        unique_keys(s),
        0 <= i < s.len(),
    ensures
        assoc_map(s.remove(i)) == assoc_map(s).remove(s[i].0),
    decreases s.len(),
{
    let k = s[i].0;
    let t = s.remove(i);
    if i == s.len() - 1 {
        assert(t =~= s.drop_last());
        lemma_assoc_map_dom(s.drop_last(), k);
        assert(forall|j: int|
            0 <= j < s.drop_last().len() ==> (#[trigger] s.drop_last()[j]) == s[j]);
        assert(!assoc_map(s.drop_last()).dom().contains(k));
        assert(assoc_map(s.drop_last()).insert(k, s.last().1).remove(k) =~= assoc_map(
            s.drop_last(),
        ));
    } else {
        assert(t.drop_last() =~= s.drop_last().remove(i));
        assert(t.last() == s.last());
        assert(s.drop_last()[i] == s[i]);
        lemma_assoc_map_remove(s.drop_last(), i);
        assert(s.last().0 != k);
        assert(assoc_map(s.drop_last()).remove(k).insert(s.last().0, s.last().1) =~= assoc_map(
            s.drop_last(),
        ).insert(s.last().0, s.last().1).remove(k));
    }
}

/// An association list over lowered header names and values, modelling a
/// finite map with unique keys.
pub struct ByteMap {
    entries: Vec<(Vec<u8>, Vec<u8>)>,
}

impl ByteMap {
    /// The sequence of entry views.
    pub closed spec fn entries_view(&self) -> Seq<(Seq<u8>, Seq<u8>)> {
        self.entries@.map_values(|e: (Vec<u8>, Vec<u8>)| (e.0@, e.1@))
    }

    /// The map this list models.
    pub open spec fn as_map(&self) -> Map<Seq<u8>, Seq<u8>> {
        assoc_map(self.entries_view())
    }

    /// The keys are unique.
    pub open spec fn wf(&self) -> bool {
        unique_keys(self.entries_view())
    }

    /// An empty map.
    pub fn new() -> (r: ByteMap)
        ensures
            r.wf(),
            r.as_map() == Map::<Seq<u8>, Seq<u8>>::empty(),
            r.as_map().dom() =~= Set::<Seq<u8>>::empty(),
    {
        let r = ByteMap { entries: Vec::new() };
        proof {
            assert(r.entries_view() =~= Seq::<(Seq<u8>, Seq<u8>)>::empty());
        }
        r
    }

    fn find(&self, k: &Vec<u8>) -> (r: Option<usize>)
        ensures
            r matches Some(i) ==> i < self.entries_view().len() && self.entries_view()[i as int].0
                == k@,
            r is None ==> forall|i: int|
                0 <= i < self.entries_view().len() ==> (#[trigger] self.entries_view()[i]).0 != k@,
    {
        let mut i: usize = 0;
        while i < self.entries.len()
            invariant
                i <= self.entries@.len(),
                self.entries_view().len() == self.entries@.len(),
                forall|j: int|
                    0 <= j < i ==> (#[trigger] self.entries_view()[j]).0 != k@,
            decreases self.entries@.len() - i,
        {
            if &self.entries[i].0 == k {
                assert(self.entries_view()[i as int].0 == k@);
                return Some(i);
            }
            assert(self.entries_view()[i as int].0 != k@);
            i = i + 1;
        }
        None
    }

    /// Inserts a key/value pair, overwriting the value of a present key.
    pub fn insert(&mut self, k: Vec<u8>, v: Vec<u8>)
        requires
            old(self).wf(),
        ensures
            final(self).wf(),
            final(self).as_map() == old(self).as_map().insert(k@, v@),
    {
        let found = self.find(&k);
        match found {
            Some(i) => {
                let ghost old_view = self.entries_view();
                self.entries.set(i, (k, v));
                proof {
                    assert(self.entries_view() =~= old_view.update(i as int, (k@, v@)));
                    lemma_assoc_map_update(old_view, i as int, k@, v@);
                    assert forall|a: int, b: int|
                        0 <= a < b < self.entries_view().len() implies (
                    #[trigger] self.entries_view()[a]).0 != (#[trigger] self.entries_view()[b]).0 by {
                        assert(old_view[a].0 != old_view[b].0);
                    }
                }
            },
            None => {
                let ghost old_view = self.entries_view();
                self.entries.push((k, v));
                proof {
                    assert(self.entries_view() =~= old_view.push((k@, v@)));
                    lemma_assoc_map_push(old_view, k@, v@);
                    assert forall|a: int, b: int|
                        0 <= a < b < self.entries_view().len() implies (
                    #[trigger] self.entries_view()[a]).0 != (#[trigger] self.entries_view()[b]).0 by {
                        if b < old_view.len() {
                            assert(old_view[a].0 != old_view[b].0);
                        } else {
                            assert(self.entries_view()[b].0 == k@);
                            assert(self.entries_view()[a] == old_view[a]);
                        }
                    }
                }
            },
        }
    }

    /// Removes a key, returning its value when it was present.
    pub fn remove(&mut self, k: &Vec<u8>) -> (r: Option<Vec<u8>>)
        requires
            old(self).wf(),
        ensures
            final(self).wf(),
            r is Some <==> old(self).as_map().dom().contains(k@),
            r matches Some(v) ==> v@ == old(self).as_map()[k@] && final(self).as_map() == old(
                self,
            ).as_map().remove(k@),
            r is None ==> *final(self) == *old(self),
    {
        let found = self.find(&k);
        proof {
            lemma_assoc_map_dom(self.entries_view(), k@);
        }
        match found {
            Some(i) => {
                let ghost old_view = self.entries_view();
                proof {
                    lemma_assoc_map_index(old_view, i as int);
                    lemma_assoc_map_remove(old_view, i as int);
                }
                let (_, v) = self.entries.remove(i);
                proof {
                    assert(self.entries_view() =~= old_view.remove(i as int));
                    assert forall|a: int, b: int|
                        0 <= a < b < self.entries_view().len() implies (
                    #[trigger] self.entries_view()[a]).0 != (#[trigger] self.entries_view()[b]).0 by {
                        let ra = if a < i { a } else { a + 1 };
                        let rb = if b < i { b } else { b + 1 };
                        assert(self.entries_view()[a] == old_view[ra]);
                        assert(self.entries_view()[b] == old_view[rb]);
                        assert(old_view[ra].0 != old_view[rb].0);
                    }
                }
                Some(v)
            },
            None => None,
        }
    }

    /// Whether the map is empty.
    pub fn is_empty(&self) -> (r: bool)
        ensures
            r <==> self.as_map().dom() =~= Set::<Seq<u8>>::empty(),
    {
        proof {
            if self.entries_view().len() == 0 {
                assert(self.entries_view() =~= Seq::<(Seq<u8>, Seq<u8>)>::empty());
                assert(self.as_map().dom() =~= Set::<Seq<u8>>::empty());
            } else {
                lemma_assoc_map_index_free(self.entries_view());
            }
        }
        self.entries.len() == 0
    }

    /// The lowered names still held, in order.
    pub fn keys(&self) -> (r: Vec<Vec<u8>>)
        ensures
            r@.len() == self.entries_view().len(),
            forall|i: int|
                0 <= i < r@.len() ==> (#[trigger] r@[i])@ == self.entries_view()[i].0,
    {
        let mut r: Vec<Vec<u8>> = Vec::new();
        let mut i: usize = 0;
        while i < self.entries.len()
            invariant
                i <= self.entries@.len(),
                self.entries_view().len() == self.entries@.len(),
                r@.len() == i,
                forall|j: int|
                    0 <= j < i ==> (#[trigger] r@[j])@ == self.entries_view()[j].0,
            decreases self.entries@.len() - i,
        {
            let k = crate::fields::clone_byte_vec(&self.entries[i].0);
            r.push(k);
            i = i + 1;
        }
        r
    }
}

/// A non-empty association list models a non-empty map.
proof fn lemma_assoc_map_index_free(s: Seq<(Seq<u8>, Seq<u8>)>)
    requires
        s.len() > 0,
    ensures
        assoc_map(s).dom().contains(s.last().0),
{
}

/// One expected header of a response template: a name, optionally a value
/// to compare, and whether the header may be absent.
pub struct ExpectedHeader {
    pub name: String,
    pub value: Option<String>,
    pub optional: bool,
}

/// The reason a header assertion failed.
#[derive(Debug)]
pub enum HeaderFailure {
    /// A required expected header was absent from the response.
    MissingRequired(String),
    /// An expected header was present with a different value.
    ValueMismatch(String),
    /// Actual headers remained after all expected ones were matched;
    /// their lowered names are carried for diagnosis.
    UnexpectedHeaders(Vec<Vec<u8>>),
}

/// Text lowered for comparison: the ASCII-lowercased UTF-8 bytes.
pub open spec fn lower_text(s: Seq<char>) -> Seq<u8> {
    lower_bytes(vstd::utf8::encode_utf8(s))
}

/// Actual headers lowered for comparison, in order.
pub open spec fn lowered_actual(actual: Seq<(Seq<char>, Seq<u8>)>) -> Seq<(Seq<u8>, Seq<u8>)> {
    actual.map_values(|e: (Seq<char>, Seq<u8>)| (lower_text(e.0), lower_bytes(e.1)))
}

/// Walks the expected headers against the map of remaining actual headers.
///
/// An absent name passes only when the header is optional; a present name
/// with a declared value must match it case-insensitively and is then
/// removed.  `None` is a failed assertion; `Some` carries the headers
/// still unmatched.
pub open spec fn check_expected(exp: Seq<ExpectedHeader>, m: Map<Seq<u8>, Seq<u8>>) -> Option<
    Map<Seq<u8>, Seq<u8>>,
>
    decreases exp.len(),
{
    if exp.len() == 0 {
        Some(m)
    } else {
        let e = exp[0];
        let key = lower_text(e.name@);
        if !m.dom().contains(key) {
            if e.optional {
                check_expected(exp.drop_first(), m)
            } else {
                None
            }
        } else if (match e.value {
            Some(v) => lower_text(v@) != m[key],
            None => false,
        }) {
            None
        } else {
            check_expected(exp.drop_first(), m.remove(key))
        }
    }
}

/// The whole header assertion: every expected header is matched by name
/// case-insensitively under its optional/value rules, and no actual
/// header is left unmatched.
pub open spec fn headers_match(exp: Seq<ExpectedHeader>, actual: Seq<(Seq<char>, Seq<u8>)>) -> bool {
    match check_expected(exp, assoc_map(lowered_actual(actual))) {
        Some(m) => m.dom() =~= Set::<Seq<u8>>::empty(),
        None => false,
    }
}

/// Whether a key list carries a given lowered name.
pub open spec fn lists_key(ks: Seq<Vec<u8>>, k: Seq<u8>) -> bool {
    exists|x: int| 0 <= x < ks.len() && (#[trigger] ks[x])@ == k
}

/// The classified outcome of the header walk: how the assertion fails,
/// when it does.
pub enum HeaderVerdict {
    /// Every expected header matched and no actual header was left.
    Accepted,
    /// The named required expected header was absent.
    MissingRequired(Seq<char>),
    /// The named expected header was present with a different value.
    ValueMismatch(Seq<char>),
    /// Actual headers remained after the walk, as a map over their
    /// lowered names.
    Unexpected(Map<Seq<u8>, Seq<u8>>),
}

/// The walk of `check_expected`, classifying which failure ends it: the
/// first absent required name, the first differing declared value, or the
/// headers left over after all expected ones were processed.
pub open spec fn header_verdict(exp: Seq<ExpectedHeader>, m: Map<Seq<u8>, Seq<u8>>) -> HeaderVerdict
    decreases exp.len(),
{
    if exp.len() == 0 {
        if m.dom() =~= Set::<Seq<u8>>::empty() {
            HeaderVerdict::Accepted
        } else {
            HeaderVerdict::Unexpected(m)
        }
    } else {
        let e = exp[0];
        let key = lower_text(e.name@);
        if !m.dom().contains(key) {
            if e.optional {
                header_verdict(exp.drop_first(), m)
            } else {
                HeaderVerdict::MissingRequired(e.name@)
            }
        } else if (match e.value {
            Some(v) => lower_text(v@) != m[key],
            None => false,
        }) {
            HeaderVerdict::ValueMismatch(e.name@)
        } else {
            header_verdict(exp.drop_first(), m.remove(key))
        }
    }
}

/// The lowered names of the actual headers are pairwise distinct.
pub open spec fn distinct_lowered_names(actual: Seq<(Seq<char>, Seq<u8>)>) -> bool {
    forall|i: int, j: int|
        0 <= i < j < actual.len() ==> lower_text((#[trigger] actual[i]).0) != lower_text(
            (#[trigger] actual[j]).0,
        )
}

/// Each expected header echoes the actual header at the same position:
/// the same name up to case, and, where a value is declared, the same
/// value up to case.
pub open spec fn echoes(exp: Seq<ExpectedHeader>, actual: Seq<(Seq<char>, Seq<u8>)>) -> bool {
    &&& exp.len() == actual.len()
    &&& forall|i: int|
        0 <= i < exp.len() ==> lower_text((#[trigger] exp[i]).name@) == lower_text(actual[i].0)
    &&& forall|i: int|
        0 <= i < exp.len() ==> (match (#[trigger] exp[i]).value {
            Some(v) => lower_text(v@) == lower_bytes(actual[i].1),
            None => true,
        })
}

/// Law (round trip): when a handler echoes every declared header
/// unchanged — names and values compared case-insensitively, positions
/// aligned, and the lowered names distinct — the header assertion
/// succeeds.
pub proof fn lemma_header_roundtrip(exp: Seq<ExpectedHeader>, actual: Seq<(Seq<char>, Seq<u8>)>)
    requires
        echoes(exp, actual),
        distinct_lowered_names(actual),
    ensures
        headers_match(exp, actual),
    decreases exp.len(),
{
    let low = lowered_actual(actual);
    assert(unique_keys(low));
    if exp.len() == 0 {
        assert(low =~= Seq::<(Seq<u8>, Seq<u8>)>::empty());
        assert(assoc_map(low).dom() =~= Set::<Seq<u8>>::empty());
    } else {
        let m0 = assoc_map(low);
        let key = lower_text(exp[0].name@);
        assert(low[0] == (lower_text(actual[0].0), lower_bytes(actual[0].1)));
        lemma_assoc_map_index(low, 0);
        assert(m0.dom().contains(key));
        assert(m0[key] == lower_bytes(actual[0].1));
        lemma_assoc_map_remove(low, 0);
        let rest = actual.drop_first();
        assert(low.remove(0) =~= lowered_actual(rest));
        assert(m0.remove(key) == assoc_map(lowered_actual(rest)));
        let exp_rest = exp.drop_first();
        assert(echoes(exp_rest, rest)) by {
            assert forall|i: int| 0 <= i < exp_rest.len() implies lower_text(
                (#[trigger] exp_rest[i]).name@,
            ) == lower_text(rest[i].0) && (match exp_rest[i].value {
                Some(v) => lower_text(v@) == lower_bytes(rest[i].1),
                None => true,
            }) by {
                assert(exp_rest[i] == exp[i + 1]);
                assert(rest[i] == actual[i + 1]);
            }
        }
        assert(distinct_lowered_names(rest)) by {
            assert forall|i: int, j: int| 0 <= i < j < rest.len() implies lower_text(
                (#[trigger] rest[i]).0,
            ) != lower_text((#[trigger] rest[j]).0) by {
                assert(rest[i] == actual[i + 1]);
                assert(rest[j] == actual[j + 1]);
            }
        }
        lemma_header_roundtrip(exp_rest, rest);
        assert(check_expected(exp, m0) == check_expected(exp_rest, m0.remove(key)));
    }
}

/// A passing walk keeps every required expected name present in the map
/// it starts from.
proof fn lemma_check_requires_presence(exp: Seq<ExpectedHeader>, m: Map<Seq<u8>, Seq<u8>>, i: int)
    requires
        check_expected(exp, m) is Some,
        0 <= i < exp.len(),
        !exp[i].optional,
    ensures
        m.dom().contains(lower_text(exp[i].name@)),
    decreases exp.len(),
{
    let key0 = lower_text(exp[0].name@);
    if i == 0 {
    } else {
        if !m.dom().contains(key0) {
            lemma_check_requires_presence(exp.drop_first(), m, i - 1);
            assert(exp.drop_first()[i - 1] == exp[i]);
        } else {
            lemma_check_requires_presence(exp.drop_first(), m.remove(key0), i - 1);
            assert(exp.drop_first()[i - 1] == exp[i]);
        }
    }
}

/// Law (missing header): a required expected header whose lowered name no
/// actual header carries fails the assertion.
pub proof fn lemma_missing_header_fails(
    exp: Seq<ExpectedHeader>,
    actual: Seq<(Seq<char>, Seq<u8>)>,
    i: int,
)
    requires
        0 <= i < exp.len(),
        !exp[i].optional,
        forall|j: int|
            0 <= j < actual.len() ==> lower_text((#[trigger] actual[j]).0) != lower_text(
                exp[i].name@,
            ),
    ensures
        !headers_match(exp, actual),
{
    let low = lowered_actual(actual);
    let m0 = assoc_map(low);
    let key = lower_text(exp[i].name@);
    lemma_assoc_map_dom(low, key);
    assert(!m0.dom().contains(key));
    if check_expected(exp, m0) is Some {
        lemma_check_requires_presence(exp, m0, i);
    }
}

/// A passing walk leaves every key that no expected name lowers to.
proof fn lemma_check_keeps_foreign_keys(
    exp: Seq<ExpectedHeader>,
    m: Map<Seq<u8>, Seq<u8>>,
    k: Seq<u8>,
)
    requires
        check_expected(exp, m) is Some,
        m.dom().contains(k),
        forall|j: int| 0 <= j < exp.len() ==> lower_text((#[trigger] exp[j]).name@) != k,
    ensures
        check_expected(exp, m)->Some_0.dom().contains(k),
    decreases exp.len(),
{
    if exp.len() == 0 {
    } else {
        let key0 = lower_text(exp[0].name@);
        if !m.dom().contains(key0) {
            lemma_check_keeps_foreign_keys(exp.drop_first(), m, k);
        } else {
            assert(key0 != k);
            lemma_check_keeps_foreign_keys(exp.drop_first(), m.remove(key0), k);
        }
    }
}

/// Law (extra header): an actual header whose lowered name no expected
/// header carries fails the assertion, whatever else matches.
pub proof fn lemma_extra_header_fails(
    exp: Seq<ExpectedHeader>,
    actual: Seq<(Seq<char>, Seq<u8>)>,
    i: int,
)
    requires
        0 <= i < actual.len(),
        forall|j: int|
            0 <= j < exp.len() ==> lower_text((#[trigger] exp[j]).name@) != lower_text(
                actual[i].0,
            ),
    ensures
        !headers_match(exp, actual),
{
    let low = lowered_actual(actual);
    let m0 = assoc_map(low);
    let k = lower_text(actual[i].0);
    assert(low[i].0 == k);
    lemma_assoc_map_dom(low, k);
    assert(m0.dom().contains(k));
    if check_expected(exp, m0) is Some {
        lemma_check_keeps_foreign_keys(exp, m0, k);
        assert(check_expected(exp, m0)->Some_0.dom().contains(k));
    }
}

/// A walk fails on an expected header whose declared value differs from
/// the value the map holds for its name, when no earlier expected header
/// lowers to the same name.
proof fn lemma_check_value_mismatch(
    exp: Seq<ExpectedHeader>,
    m: Map<Seq<u8>, Seq<u8>>,
    i: int,
)
    requires
        0 <= i < exp.len(),
        m.dom().contains(lower_text(exp[i].name@)),
        exp[i].value matches Some(v) && lower_text(v@) != m[lower_text(exp[i].name@)],
        forall|j: int|
            0 <= j < i ==> lower_text((#[trigger] exp[j]).name@) != lower_text(exp[i].name@),
    ensures
        check_expected(exp, m) is None,
    decreases exp.len(),
{
    let key = lower_text(exp[i].name@);
    let key0 = lower_text(exp[0].name@);
    if i == 0 {
    } else {
        assert(key0 != key);
        if !m.dom().contains(key0) {
            if exp[0].optional {
                lemma_check_value_mismatch(exp.drop_first(), m, i - 1);
                assert(exp.drop_first()[i - 1] == exp[i]);
            }
        } else {
            if (match exp[0].value {
                Some(v) => lower_text(v@) != m[key0],
                None => false,
            }) {
            } else {
                assert(m.remove(key0).dom().contains(key));
                assert(m.remove(key0)[key] == m[key]);
                lemma_check_value_mismatch(exp.drop_first(), m.remove(key0), i - 1);
                assert(exp.drop_first()[i - 1] == exp[i]);
            }
        }
    }
}

/// Law (value mismatch): an expected header with a declared value that
/// differs, case-insensitively, from the like-named actual header's value
/// fails the assertion, when no earlier expected header shares its
/// lowered name.
pub proof fn lemma_value_mismatch_fails(
    exp: Seq<ExpectedHeader>,
    actual: Seq<(Seq<char>, Seq<u8>)>,
    i: int,
    j: int,
)
    requires
        0 <= i < exp.len(),
        0 <= j < actual.len(),
        lower_text(exp[i].name@) == lower_text(actual[j].0),
        exp[i].value matches Some(v) && lower_text(v@) != lower_bytes(actual[j].1),
        distinct_lowered_names(actual),
        forall|k: int|
            0 <= k < i ==> lower_text((#[trigger] exp[k]).name@) != lower_text(exp[i].name@),
    ensures
        !headers_match(exp, actual),
{
    let low = lowered_actual(actual);
    assert(unique_keys(low));
    let m0 = assoc_map(low);
    assert(low[j] == (lower_text(actual[j].0), lower_bytes(actual[j].1)));
    lemma_assoc_map_index(low, j);
    assert(m0.dom().contains(lower_text(exp[i].name@)));
    assert(m0[lower_text(exp[i].name@)] == lower_bytes(actual[j].1));
    lemma_check_value_mismatch(exp, m0, i);
}


/// A walk never turns on an optional expected header whose lowered name
/// the map does not hold: the walk with and without it agree.
proof fn lemma_check_skip_optional(exp: Seq<ExpectedHeader>, m: Map<Seq<u8>, Seq<u8>>, i: int)
    requires
        0 <= i < exp.len(),
        exp[i].optional,
        !m.dom().contains(lower_text(exp[i].name@)),
    ensures
        check_expected(exp, m) == check_expected(exp.remove(i), m),
    decreases exp.len(),
{
    let key0 = lower_text(exp[0].name@);
    if i == 0 {
        assert(exp.remove(0) =~= exp.drop_first());
    } else {
        assert(exp.remove(i)[0] == exp[0]);
        assert(exp.remove(i).len() > 0);
        assert(exp.remove(i).drop_first() =~= exp.drop_first().remove(i - 1));
        assert(exp.drop_first()[i - 1] == exp[i]);
        if !m.dom().contains(key0) {
            if exp[0].optional {
                lemma_check_skip_optional(exp.drop_first(), m, i - 1);
            }
        } else {
            if (match exp[0].value {
                Some(v) => lower_text(v@) != m[key0],
                None => false,
            }) {
            } else {
                assert(!m.remove(key0).dom().contains(lower_text(exp[i].name@)));
                lemma_check_skip_optional(exp.drop_first(), m.remove(key0), i - 1);
            }
        }
    }
}

/// Law (optional headers): an optional expected header whose lowered name
/// no actual header carries may be dropped from the expectation without
/// changing the assertion's outcome; in particular its absence alone
/// never fails the assertion.
pub proof fn lemma_optional_absent_header_skipped(
    exp: Seq<ExpectedHeader>,
    actual: Seq<(Seq<char>, Seq<u8>)>,
    i: int,
)
    requires
        0 <= i < exp.len(),
        exp[i].optional,
        forall|j: int|
            0 <= j < actual.len() ==> lower_text((#[trigger] actual[j]).0) != lower_text(
                exp[i].name@,
            ),
    ensures
        headers_match(exp, actual) <==> headers_match(exp.remove(i), actual),
{
    let low = lowered_actual(actual);
    let m0 = assoc_map(low);
    let key = lower_text(exp[i].name@);
    lemma_assoc_map_dom(low, key);
    assert(!m0.dom().contains(key));
    lemma_check_skip_optional(exp, m0, i);
}

/// The lowered UTF-8 bytes of a string.
fn lower_str_bytes(s: &str) -> (r: Vec<u8>)
    ensures
        r@ == lower_text(s@),
{
    let b = vstd::string::StrSliceExecFns::as_bytes_vec(s);
    crate::lower_vec(&b)
}

/// Checks the actual headers of a response against the expected list.
///
/// Matches the `headers_match` assertion exactly: each expected header is
/// looked up by lowered name among the actual headers (later duplicates
/// winning), an absent optional header is skipped, an absent required one
/// fails, a declared value is compared lowered, and any actual header
/// left after the walk fails the assertion.
pub fn check_headers(expected: &Vec<ExpectedHeader>, actual: &Fields) -> (r: Result<
    (),
    HeaderFailure,
>)
    ensures
        r is Ok <==> headers_match(expected@, actual@),
        r is Ok <==> header_verdict(expected@, assoc_map(lowered_actual(actual@)))
            is Accepted,
        r matches Err(HeaderFailure::MissingRequired(n)) ==> header_verdict(
            expected@,
            assoc_map(lowered_actual(actual@)),
        ) == HeaderVerdict::MissingRequired(n@),
        r matches Err(HeaderFailure::ValueMismatch(n)) ==> header_verdict(
            expected@,
            assoc_map(lowered_actual(actual@)),
        ) == HeaderVerdict::ValueMismatch(n@),
        r matches Err(HeaderFailure::UnexpectedHeaders(ks)) ==> header_verdict(
            expected@,
            assoc_map(lowered_actual(actual@)),
        ) is Unexpected,
        r matches Err(HeaderFailure::UnexpectedHeaders(ks)) ==> (forall|x: int|
            0 <= x < ks@.len() ==> header_verdict(
                expected@,
                assoc_map(lowered_actual(actual@)),
            )->Unexpected_0.dom().contains((#[trigger] ks@[x])@)),
        r matches Err(HeaderFailure::UnexpectedHeaders(ks)) ==> (forall|k: Seq<u8>|
            #[trigger] header_verdict(
                expected@,
                assoc_map(lowered_actual(actual@)),
            )->Unexpected_0.dom().contains(k) ==> lists_key(ks@, k)),
{
    let ghost goal = assoc_map(lowered_actual(actual@));
    let mut map = ByteMap::new();
    let mut i: usize = 0;
    while i < actual.len()
        invariant
            i <= actual@.len(),
            map.wf(),
            map.as_map() == assoc_map(lowered_actual(actual@).take(i as int)),
        decreases actual@.len() - i,
    {
        let entry = actual.entry_at(i);
        let key = lower_str_bytes(entry.0.as_str());
        let value = crate::lower_vec(&entry.1);
        proof {
            lemma_assoc_map_push(lowered_actual(actual@).take(i as int), key@, value@);
            assert(lowered_actual(actual@).take(i as int).push((key@, value@)) =~= lowered_actual(
                actual@,
            ).take(i + 1));
        }
        map.insert(key, value);
        i = i + 1;
    }
    proof {
        assert(lowered_actual(actual@).take(actual@.len() as int) =~= lowered_actual(actual@));
        assert(expected@.skip(0) =~= expected@);
    }
    let mut j: usize = 0;
    while j < expected.len()
        invariant
            j <= expected@.len(),
            map.wf(),
            goal == assoc_map(lowered_actual(actual@)),
            check_expected(expected@, goal) == check_expected(expected@.skip(j as int), map.as_map()),
            header_verdict(expected@, goal) == header_verdict(
                expected@.skip(j as int),
                map.as_map(),
            ),
        decreases expected@.len() - j,
    {
        let ghost before = map.as_map();
        proof {
            assert(expected@.skip(j as int).len() > 0);
            assert(expected@.skip(j as int)[0] == expected@[j as int]);
            assert(expected@.skip(j as int).drop_first() =~= expected@.skip(j + 1));
        }
        let e = &expected[j];
        let key = lower_str_bytes(e.name.as_str());
        let removed = map.remove(&key);
        match removed {
            None => {
                if e.optional {
                    j = j + 1;
                } else {
                    proof {
                        assert(!before.dom().contains(lower_text(expected@[j as int].name@)));
                        assert(check_expected(expected@.skip(j as int), before) is None);
                        assert(!headers_match(expected@, actual@));
                        assert(header_verdict(expected@.skip(j as int), before)
                            == HeaderVerdict::MissingRequired(expected@[j as int].name@));
                    }
                    return Err(HeaderFailure::MissingRequired(e.name.clone()));
                }
            },
            Some(actual_value) => {
                let value_ok = match &e.value {
                    Some(v) => {
                        let lowered = lower_str_bytes(v.as_str());
                        crate::bytes_eq(&lowered, &actual_value)
                    },
                    None => true,
                };
                if !value_ok {
                    proof {
                        let key_s = lower_text(expected@[j as int].name@);
                        assert(before.dom().contains(key_s));
                        assert(actual_value@ == before[key_s]);
                        assert(expected@[j as int].value matches Some(v) && lower_text(v@)
                            != before[key_s]);
                        assert(check_expected(expected@.skip(j as int), before) is None);
                        assert(!headers_match(expected@, actual@));
                        assert(header_verdict(expected@.skip(j as int), before)
                            == HeaderVerdict::ValueMismatch(expected@[j as int].name@));
                    }
                    return Err(HeaderFailure::ValueMismatch(e.name.clone()));
                }
                proof {
                    let key_s = lower_text(expected@[j as int].name@);
                    assert(map.as_map() == before.remove(key_s));
                    assert(check_expected(expected@.skip(j as int), before) == check_expected(
                        expected@.skip(j + 1),
                        before.remove(key_s),
                    ));
                    assert(header_verdict(expected@.skip(j as int), before) == header_verdict(
                        expected@.skip(j + 1),
                        before.remove(key_s),
                    ));
                }
                j = j + 1;
            },
        }
    }
    proof {
        assert(expected@.skip(expected@.len() as int) =~= Seq::<ExpectedHeader>::empty());
        assert(check_expected(expected@, goal) == Some(map.as_map()));
    }
    if map.is_empty() {
        Ok(())
    } else {
        let ks = map.keys();
        proof {
            assert(header_verdict(expected@, goal) == HeaderVerdict::Unexpected(map.as_map()));
            assert forall|x: int| 0 <= x < ks@.len() implies map.as_map().dom().contains(
                (#[trigger] ks@[x])@,
            ) by {
                lemma_assoc_map_index(map.entries_view(), x);
            }
            assert(header_verdict(expected@, assoc_map(lowered_actual(actual@)))
                == HeaderVerdict::Unexpected(map.as_map()));
            assert forall|k: Seq<u8>| #[trigger] header_verdict(
                expected@,
                assoc_map(lowered_actual(actual@)),
            )->Unexpected_0.dom().contains(k) implies lists_key(ks@, k) by {
                assert(map.as_map().dom().contains(k));
                lemma_assoc_map_dom(map.entries_view(), k);
                let x = choose|x: int|
                    0 <= x < map.entries_view().len() && (#[trigger] map.entries_view()[x]).0 == k;
                assert(ks@[x]@ == k);
            }
        }
        Err(HeaderFailure::UnexpectedHeaders(ks))
    }
}

} // verus!
