//! The code table: an immutable mapping from stroke codes to ordered
//! candidate lists, built once at startup from plain key/candidate pairs.
//! Keys are case-folded when the table is built; keys that collide after
//! folding have their candidate lists merged, de-duplicated, in first-seen
//! order.

use vstd::prelude::*;

verus! {

/// One key of the code table together with its candidates, in table order.
#[derive(Clone)]
pub struct DictEntry {
    pub code: Vec<char>,
    pub candidates: Vec<String>,
}

/// The mathematical shape of the table: each key with its candidate texts,
/// in table order.
pub type DictModel = Seq<(Seq<char>, Seq<Seq<char>>)>;

/// ASCII upper-case letters fold to lower case; everything else is kept.
pub open spec fn fold_char(c: char) -> char {
    if 'A' <= c && c <= 'Z' {
        ((c as u32 + 32) as char)
    } else {
        c
    }
}

/// A whole code, folded character by character.
pub open spec fn fold_code(s: Seq<char>) -> Seq<char> {
    s.map_values(|c: char| fold_char(c))
}

/// First entry whose key equals `code`, if any.
pub open spec fn lookup_m(m: DictModel, code: Seq<char>) -> Option<Seq<Seq<char>>>
    decreases m.len(),
{
    if m.len() == 0 {
        None
    } else if m[0].0 == code {
        Some(m[0].1)
    } else {
        lookup_m(m.drop_first(), code)
    }
}

/// `p` is a proper prefix of `s`: strictly shorter and matching throughout.
pub open spec fn is_strict_prefix(p: Seq<char>, s: Seq<char>) -> bool {
    p.len() < s.len() && s.subrange(0, p.len() as int) == p
}

/// Some key of the table strictly extends `code`.
pub open spec fn has_prefix_m(m: DictModel, code: Seq<char>) -> bool {
    exists|i: int| 0 <= i < m.len() && is_strict_prefix(code, m[i].0)
}

/// `incoming` folded into `existing`: each text not already present is
/// appended, keeping first-seen order.
pub open spec fn merge_candidates(existing: Seq<Seq<char>>, incoming: Seq<Seq<char>>) -> Seq<
    Seq<char>,
>
    decreases incoming.len(),
{
    if incoming.len() == 0 {
        existing
    } else {
        let grown = if existing.contains(incoming[0]) {
            existing
        } else {
            existing.push(incoming[0])
        };
        merge_candidates(grown, incoming.drop_first())
    }
}

/// One key/candidate pair folded into the table: a fresh key is appended,
/// a colliding key has the incoming candidates merged into its list.
pub open spec fn upsert_m(m: DictModel, key: Seq<char>, cands: Seq<Seq<char>>) -> DictModel
    decreases m.len(),
{
    if m.len() == 0 {
        seq![(key, cands)]
    } else if m[0].0 == key {
        seq![(m[0].0, merge_candidates(m[0].1, cands))] + m.drop_first()
    } else {
        seq![m[0]] + upsert_m(m.drop_first(), key, cands)
    }
}

/// The table built from raw pairs, processed left to right, keys folded.
pub open spec fn build_m(pairs: Seq<(Seq<char>, Seq<Seq<char>>)>) -> DictModel
    decreases pairs.len(),
{
    if pairs.len() == 0 {
        Seq::empty()
    } else {
        upsert_m(build_m(pairs.drop_last()), fold_code(pairs.last().0), pairs.last().1)
    }
}

/// Raw pairs, seen mathematically: each key with its candidate texts.
pub open spec fn pairs_model(pairs: Seq<(Vec<char>, Vec<String>)>) -> Seq<
    (Seq<char>, Seq<Seq<char>>),
> {
    pairs.map_values(|p: (Vec<char>, Vec<String>)| (p.0@, p.1.deep_view()))
}

/// Folding a pair whose key is absent appends it at the end.
proof fn lemma_upsert_fresh(m: DictModel, key: Seq<char>, cands: Seq<Seq<char>>)
    requires
        forall|j: int| 0 <= j < m.len() ==> m[j].0 != key,
    ensures
        upsert_m(m, key, cands) =~= m.push((key, cands)),
    decreases m.len(),
{
    if m.len() == 0 {
    } else {
        lemma_upsert_fresh(m.drop_first(), key, cands);
    }
}

/// Folding a pair whose key sits at position `k` (and nowhere earlier)
/// merges the incoming candidates into that entry and moves nothing.
proof fn lemma_upsert_found(m: DictModel, key: Seq<char>, cands: Seq<Seq<char>>, k: int)
    requires
        0 <= k < m.len(),
        m[k].0 == key,
        forall|j: int| 0 <= j < k ==> m[j].0 != key,
    ensures
        upsert_m(m, key, cands) =~= m.update(k, (key, merge_candidates(m[k].1, cands))),
    decreases m.len(),
{
    if k == 0 {
    } else {
        lemma_upsert_found(m.drop_first(), key, cands, k - 1);
    }
}

/// Case-fold one character, exactly as `fold_char` says.
pub fn fold_char_exec(c: char) -> (r: char)
    ensures
        r == fold_char(c),
{
    if 'A' <= c && c <= 'Z' {
        ((c as u8) + 32) as char
    } else {
        c
    }
}

/// Character-sequence equality.
pub(crate) fn chars_eq(a: &Vec<char>, b: &Vec<char>) -> (r: bool)
    ensures
        r == (a@ == b@),
{
    if a.len() != b.len() {
        return false;
    }
    let mut i: usize = 0;
    while i < a.len()
        invariant
            a.len() == b.len(),
            i <= a.len(),
            forall|j: int| 0 <= j < i ==> a@[j] == b@[j],
        decreases a.len() - i,
    {
        if a[i] != b[i] {
            return false;
        }
        i += 1;
    }
    proof {
        assert(a@ =~= b@);
    }
    true
}

/// Whether `p` is a proper prefix of `s`.
pub(crate) fn chars_strict_prefix(p: &Vec<char>, s: &Vec<char>) -> (r: bool)
    ensures
        r == is_strict_prefix(p@, s@),
{
    if p.len() >= s.len() {
        return false;
    }
    let mut i: usize = 0;
    while i < p.len()
        invariant
            p.len() < s.len(),
            i <= p.len(),
            forall|j: int| 0 <= j < i ==> p@[j] == s@[j],
        decreases p.len() - i,
    {
        if p[i] != s[i] {
            proof {
                assert(s@.subrange(0, p@.len() as int)[i as int] == s@[i as int]);
            }
            return false;
        }
        i += 1;
    }
    proof {
        assert(s@.subrange(0, p@.len() as int) =~= p@);
    }
    true
}

/// Whether some text of `v` equals `s`.
fn contains_string(v: &Vec<String>, s: &String) -> (r: bool)
    ensures
        r == v.deep_view().contains(s@),
{
    let mut i: usize = 0;
    while i < v.len()
        invariant
            i <= v.len(),
            forall|j: int| 0 <= j < i ==> v.deep_view()[j] != s@,
        decreases v.len() - i,
    {
        if v[i] == *s {
            proof {
                assert(v.deep_view()[i as int] == s@);
            }
            return true;
        }
        i += 1;
    }
    false
}

/// A copy of a character vector, same characters.
pub(crate) fn clone_chars(v: &Vec<char>) -> (r: Vec<char>)
    ensures
        r@ == v@,
{
    let r = v.clone();
    proof {
        assert forall|i: int| 0 <= i < v@.len() implies r@[i] == v@[i] by {
            assert(cloned::<char>(v@[i], r@[i]));
        }
        assert(v@ =~= r@);
    }
    r
}

/// A copy of a text vector, same texts.
pub(crate) fn clone_strings(v: &Vec<String>) -> (r: Vec<String>)
    ensures
        r@ == v@,
{
    let r = v.clone();
    proof {
        assert forall|i: int| 0 <= i < v@.len() implies r@[i] == v@[i] by {
            assert(cloned::<String>(v@[i], r@[i]));
        }
        assert(v@ =~= r@);
    }
    r
}

/// Position of the first entry whose key equals `key`, if any.
fn find_key(es: &Vec<DictEntry>, key: &Vec<char>) -> (r: Option<usize>)
    ensures
        match r {
            Some(k) => k < es@.len() && entries_model(es@)[k as int].0 == key@ && forall|j: int|
                0 <= j < k ==> entries_model(es@)[j].0 != key@,
            None => forall|j: int| 0 <= j < es@.len() ==> entries_model(es@)[j].0 != key@,
        },
{
    let mut i: usize = 0;
    while i < es.len()
        invariant
            i <= es.len(),
            forall|j: int| 0 <= j < i ==> entries_model(es@)[j].0 != key@,
        decreases es.len() - i,
    {
        if chars_eq(&es[i].code, key) {
            return Some(i);
        }
        i += 1;
    }
    None
}

/// The code table. `pinyi_data` is an optional homophone side table that the
/// composition logic never reads.
#[derive(Clone)]
pub struct Dictionary {
    pub entries: Vec<DictEntry>,
    pub pinyi_data: Option<Vec<String>>,
}

/// Entries, seen mathematically.
pub open spec fn entries_model(es: Seq<DictEntry>) -> DictModel {
    Seq::new(es.len(), |i: int| (es[i].code@, es[i].candidates.deep_view()))
}

impl Dictionary {
    /// The table as a sequence of key/candidates pairs.
    pub open spec fn table(self) -> DictModel {
        entries_model(self.entries@)
    }

    /// Keys are pairwise distinct.
    pub open spec fn wf(self) -> bool {
        forall|i: int, j: int|
            0 <= i < j < self.table().len() ==> self.table()[i].0 != self.table()[j].0
    }

    /// Exact lookup of a code: the candidates of the entry whose key equals
    /// `code`, if there is one.
    pub fn lookup(&self, code: &Vec<char>) -> (r: Option<&Vec<String>>)
        ensures
            match r {
                Some(v) => lookup_m(self.table(), code@) == Some(v.deep_view()),
                None => lookup_m(self.table(), code@) is None,
            },
    {
        let mut i: usize = 0;
        proof {
            assert(self.table().skip(0) =~= self.table());
        }
        while i < self.entries.len()
            invariant
                i <= self.entries.len(),
                lookup_m(self.table(), code@) == lookup_m(self.table().skip(i as int), code@),
            decreases self.entries.len() - i,
        {
            proof {
                assert(self.table().skip(i as int)[0] == self.table()[i as int]);
            }
            if chars_eq(&self.entries[i].code, code) {
                return Some(&self.entries[i].candidates);
            }
            proof {
                assert(self.table().skip(i as int).drop_first() =~= self.table().skip(
                    i as int + 1,
                ));
            }
            i += 1;
        }
        proof {
            assert(self.table().skip(i as int) =~= Seq::<(Seq<char>, Seq<Seq<char>>)>::empty());
        }
        None
    }

    /// How many candidates the table holds for `code`; zero when absent.
    pub fn get_candidate_count(&self, code: &Vec<char>) -> (n: usize)
        ensures
            n == (match lookup_m(self.table(), code@) {
                Some(v) => v.len(),
                None => 0,
            }),
    {
        match self.lookup(code) {
            Some(v) => v.len(),
            None => 0,
        }
    }

    /// Build the table from raw key/candidate pairs: keys are case-folded,
    /// pairs are folded in left to right, a key seen again merges its new
    /// candidates into the earlier list without duplicates, first seen first.
    pub fn from_pairs(pairs: Vec<(Vec<char>, Vec<String>)>) -> (d: Dictionary)
        ensures
            d.table() == build_m(pairs_model(pairs@)),
            d.wf(),
            d.pinyi_data is None,
    {
        let ghost pm = pairs_model(pairs@);
        let mut entries: Vec<DictEntry> = Vec::new();
        proof {
            assert(entries_model(entries@) =~= build_m(pm.take(0)));
        }
        let mut i: usize = 0;
        while i < pairs.len()
            invariant
                i <= pairs.len(),
                pm == pairs_model(pairs@),
                entries_model(entries@) == build_m(pm.take(i as int)),
                forall|a: int, b: int|
                    0 <= a < b < entries@.len() ==> entries_model(entries@)[a].0 != entries_model(
                        entries@,
                    )[b].0,
            decreases pairs.len() - i,
        {
            let ghost pre = entries_model(entries@);
            // fold the key, character by character
            let mut kf: Vec<char> = Vec::new();
            let mut t: usize = 0;
            while t < pairs[i].0.len()
                invariant
                    i < pairs@.len(),
                    t <= pairs@[i as int].0@.len(),
                    kf@.len() == t,
                    forall|j: int| 0 <= j < t ==> kf@[j] == fold_char(pairs@[i as int].0@[j]),
                decreases pairs@[i as int].0@.len() - t,
            {
                let c = pairs[i].0[t];
                kf.push(fold_char_exec(c));
                t += 1;
            }
            proof {
                assert(kf@ =~= fold_code(pairs@[i as int].0@));
                assert(pm[i as int] == (pairs@[i as int].0@, pairs@[i as int].1.deep_view()));
            }
            let ghost inc = pairs@[i as int].1.deep_view();
            match find_key(&entries, &kf) {
                None => {
                    let cands = clone_strings(&pairs[i].1);
                    entries.push(DictEntry { code: kf, candidates: cands });
                    proof {
                        lemma_upsert_fresh(pre, kf@, inc);
                        assert(entries_model(entries@) =~= pre.push((kf@, inc)));
                    }
                },
                Some(k) => {
                    let code_copy = clone_chars(&entries[k].code);
                    let mut merged = clone_strings(&entries[k].candidates);
                    let ghost orig = entries@[k as int].candidates.deep_view();
                    proof {
                        assert(merged.deep_view() =~= orig);
                        assert(inc.skip(0) =~= inc);
                    }
                    let mut t2: usize = 0;
                    while t2 < pairs[i].1.len()
                        invariant
                            i < pairs@.len(),
                            t2 <= inc.len(),
                            inc == pairs@[i as int].1.deep_view(),
                            merge_candidates(orig, inc) == merge_candidates(
                                merged.deep_view(),
                                inc.skip(t2 as int),
                            ),
                        decreases inc.len() - t2,
                    {
                        proof {
                            assert(inc.skip(t2 as int)[0] == inc[t2 as int]);
                            assert(inc.skip(t2 as int).drop_first() =~= inc.skip(t2 as int + 1));
                        }
                        let ghost before = merged.deep_view();
                        if !contains_string(&merged, &pairs[i].1[t2]) {
                            merged.push(pairs[i].1[t2].clone());
                            proof {
                                assert(merged.deep_view() =~= before.push(inc[t2 as int]));
                            }
                        }
                        t2 += 1;
                    }
                    proof {
                        assert(inc.skip(inc.len() as int) =~= Seq::<Seq<char>>::empty());
                        assert(merged.deep_view() == merge_candidates(orig, inc));
                    }
                    entries.set(k, DictEntry { code: code_copy, candidates: merged });
                    proof {
                        lemma_upsert_found(pre, kf@, inc, k as int);
                        assert(entries_model(entries@) =~= pre.update(
                            k as int,
                            (kf@, merge_candidates(orig, inc)),
                        ));
                    }
                },
            }
            proof {
                assert(pm.take(i as int + 1).drop_last() =~= pm.take(i as int));
                assert(pm.take(i as int + 1).last() == pm[i as int]);
            }
            i += 1;
        }
        proof {
            assert(pm.take(pairs@.len() as int) =~= pm);
        }
        Dictionary { entries, pinyi_data: None }
    }

    /// Whether some key of the table strictly extends `prefix`.
    pub fn has_prefix(&self, prefix: &Vec<char>) -> (r: bool)
        ensures
            r == has_prefix_m(self.table(), prefix@),
    {
        let mut i: usize = 0;
        while i < self.entries.len()
            invariant
                i <= self.entries.len(),
                forall|j: int| 0 <= j < i ==> !is_strict_prefix(prefix@, self.table()[j].0),
            decreases self.entries.len() - i,
        {
            if chars_strict_prefix(prefix, &self.entries[i].code) {
                proof {
                    assert(is_strict_prefix(prefix@, self.table()[i as int].0));
                }
                return true;
            }
            i += 1;
        }
        false
    }
}

} // verus!
