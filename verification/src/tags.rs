//! Protocol tags and the map that is built from them.
//!
//! A tag map holds each key once and keeps its entries sorted by key, so
//! that equal maps are written identically.

use vstd::prelude::*;
use crate::text::{
    debug_quoted, join, joined, lemma_lex_less_asymmetric, lemma_lex_less_irreflexive,
    lemma_lex_less_total, lemma_lex_less_transitive, lex_less, ron_quoted, ron_string_text,
    str_debug_text, str_equal, str_less, texts,
};

verus! {

/// A key with its value, both as plain text.
pub type Pair = (Seq<char>, Seq<char>);

/// A protocol tag: a key and an optional value.
#[derive(Debug, Clone, PartialEq, Eq)]
pub struct Tag(pub String, pub Option<String>);

impl View for Tag {
    type V = (Seq<char>, Option<Seq<char>>);

    open spec fn view(&self) -> (Seq<char>, Option<Seq<char>>) {
        (
            self.0@,
            match self.1 {
                Some(v) => Some(v@),
                None => None,
            },
        )
    }
}

/// The key of a tag with the value it stands for: a tag without a value
/// stands for the empty string.
pub open spec fn tag_pair(tag: (Seq<char>, Option<Seq<char>>)) -> Pair {
    (
        tag.0,
        match tag.1 {
            Some(v) => v,
            None => Seq::empty(),
        },
    )
}

/// The tags of an event as a sequence of pairs; an event without a tag list
/// has none.
pub open spec fn tag_pairs(tags: Option<Vec<Tag>>) -> Seq<Pair> {
    match tags {
        Some(v) => Seq::new(v@.len(), |i: int| tag_pair(v@[i]@)),
        None => Seq::empty(),
    }
}

/// The map that results from entering `pairs` one after another, a later
/// pair replacing an earlier one with the same key.
pub open spec fn pairs_map(pairs: Seq<Pair>) -> Map<Seq<char>, Seq<char>>
    decreases pairs.len(),
{
    if pairs.len() == 0 {
        Map::empty()
    } else {
        pairs_map(pairs.drop_last()).insert(pairs.last().0, pairs.last().1)
    }
}

/// Whether no key occurs twice in `pairs`.
pub open spec fn distinct_keys(pairs: Seq<Pair>) -> bool {
    forall|i: int, j: int|
        0 <= i < pairs.len() && 0 <= j < pairs.len() && i != j ==> (#[trigger] pairs[i]).0 != (
        #[trigger] pairs[j]).0
}

/// Whether the keys of `pairs` strictly ascend.
pub open spec fn sorted_by_key(pairs: Seq<Pair>) -> bool {
    forall|i: int, j: int|
        0 <= i < j < pairs.len() ==> lex_less((#[trigger] pairs[i]).0, (#[trigger] pairs[j]).0)
}

/// The entries of `m` in canonical order: sorted by key.
pub open spec fn canonical_entries(m: Map<Seq<char>, Seq<char>>) -> Seq<Pair> {
    choose|s: Seq<Pair>| sorted_by_key(s) && pairs_map(s) == m
}

/// Strictly ascending keys are distinct.
pub proof fn lemma_sorted_distinct(pairs: Seq<Pair>)
    requires
        sorted_by_key(pairs),
    ensures
        distinct_keys(pairs),
{
    assert forall|i: int, j: int|
        0 <= i < pairs.len() && 0 <= j < pairs.len() && i != j implies (#[trigger] pairs[i]).0 != (
    #[trigger] pairs[j]).0 by {
        lemma_lex_less_irreflexive(pairs[i].0);
    }
}

/// What `pairs_map` holds: exactly the keys of `pairs`, and, where no key
/// occurs twice, each with the value beside it.
pub proof fn lemma_pairs_map_contents(pairs: Seq<Pair>)
    ensures
        forall|k: Seq<char>| #[trigger]
            pairs_map(pairs).contains_key(k) <==> exists|i: int|
                0 <= i < pairs.len() && (#[trigger] pairs[i]).0 == k,
        distinct_keys(pairs) ==> forall|i: int|
            0 <= i < pairs.len() ==> pairs_map(pairs)[(#[trigger] pairs[i]).0] == pairs[i].1,
    decreases pairs.len(),
{
    if pairs.len() > 0 {
        let init = pairs.drop_last();
        let last = pairs.last();
        lemma_pairs_map_contents(init);
        assert forall|k: Seq<char>| #[trigger]
            pairs_map(pairs).contains_key(k) <==> exists|i: int|
                0 <= i < pairs.len() && (#[trigger] pairs[i]).0 == k by {
            if pairs_map(pairs).contains_key(k) && k != last.0 {
                assert(pairs_map(init).contains_key(k));
            }
            if exists|i: int| 0 <= i < pairs.len() && (#[trigger] pairs[i]).0 == k {
                let i = choose|i: int| 0 <= i < pairs.len() && (#[trigger] pairs[i]).0 == k;
                if i < init.len() {
                    assert(init[i].0 == k);
                    assert(pairs_map(init).contains_key(k));
                }
            }
        }
        if distinct_keys(pairs) {
            assert forall|i: int| 0 <= i < pairs.len() implies pairs_map(pairs)[(
            #[trigger] pairs[i]).0] == pairs[i].1 by {
                if i < init.len() {
                    assert(init[i].0 == pairs[i].0);
                }
            }
        }
    }
}

/// Two sequences sorted by key that build the same map are the same
/// sequence: the canonical order of a map is unique.
pub proof fn lemma_sorted_entries_unique(a: Seq<Pair>, b: Seq<Pair>)
    requires
        sorted_by_key(a),
        sorted_by_key(b),
        pairs_map(a) == pairs_map(b),
    ensures
        a == b,
    decreases a.len(),
{
    lemma_pairs_map_contents(a);
    lemma_pairs_map_contents(b);
    lemma_sorted_distinct(a);
    lemma_sorted_distinct(b);
    if a.len() == 0 {
        if b.len() > 0 {
            assert(pairs_map(b).contains_key(b[0].0));
        }
        assert(a =~= b);
    } else if b.len() == 0 {
        assert(pairs_map(a).contains_key(a[0].0));
    } else {
        let x = a.last();
        let y = b.last();
        // Each last key occurs in the other sequence, so neither can come
        // before the other: the last keys are the same key.
        assert(pairs_map(a).contains_key(a[a.len() - 1].0));
        assert(pairs_map(b).contains_key(b[b.len() - 1].0));
        let j = choose|j: int| 0 <= j < b.len() && (#[trigger] b[j]).0 == x.0;
        let i = choose|i: int| 0 <= i < a.len() && (#[trigger] a[i]).0 == y.0;
        if j < b.len() - 1 {
            assert(lex_less(b[j].0, b[b.len() - 1].0));
            if i < a.len() - 1 {
                assert(lex_less(a[i].0, a[a.len() - 1].0));
                lemma_lex_less_asymmetric(x.0, y.0);
            } else {
                lemma_lex_less_irreflexive(x.0);
            }
        }
        assert(x == y);
        // Without their last pair both sequences still build the same map.
        lemma_drop_last_removes(a);
        lemma_drop_last_removes(b);
        lemma_sorted_entries_unique(a.drop_last(), b.drop_last());
        assert(a =~= a.drop_last().push(x));
        assert(b =~= b.drop_last().push(y));
    }
}

/// Where no key occurs twice, the map of all pairs but the last is the map
/// of all pairs without the last key.
pub proof fn lemma_drop_last_removes(pairs: Seq<Pair>)
    requires
        pairs.len() > 0,
        distinct_keys(pairs),
    ensures
        pairs_map(pairs.drop_last()) == pairs_map(pairs).remove(pairs.last().0),
{
    let init = pairs.drop_last();
    lemma_pairs_map_contents(init);
}

/// Tag lists that hold the same pairs, none of them with a repeated key,
/// build the same map and are written identically, whatever the order of
/// the pairs.
pub proof fn lemma_tag_order_irrelevant(a: Seq<Pair>, b: Seq<Pair>)
    requires
        distinct_keys(a),
        a.to_multiset() == b.to_multiset(),
    ensures
        pairs_map(a) == pairs_map(b),
        tag_map_text(pairs_map(a)) == tag_map_text(pairs_map(b)),
{
    a.to_multiset_ensures();
    b.to_multiset_ensures();
    a.lemma_multiset_has_no_duplicates();
    b.lemma_multiset_has_no_duplicates_conv();
    assert(distinct_keys(b)) by {
        assert forall|i: int, j: int| 0 <= i < b.len() && 0 <= j < b.len() && i != j implies (
        #[trigger] b[i]).0 != (#[trigger] b[j]).0 by {
            assert(b.to_multiset().count(b[i]) > 0);
            assert(b.to_multiset().count(b[j]) > 0);
        }
    }
    lemma_pairs_map_contents(a);
    lemma_pairs_map_contents(b);
    assert forall|k: Seq<char>| pairs_map(a).contains_key(k) == pairs_map(b).contains_key(k) by {
        if pairs_map(a).contains_key(k) {
            let i = choose|i: int| 0 <= i < a.len() && (#[trigger] a[i]).0 == k;
            assert(a.to_multiset().count(a[i]) > 0);
        }
        if pairs_map(b).contains_key(k) {
            let i = choose|i: int| 0 <= i < b.len() && (#[trigger] b[i]).0 == k;
            assert(b.to_multiset().count(b[i]) > 0);
        }
    }
    assert forall|k: Seq<char>| pairs_map(a).contains_key(k) implies pairs_map(a)[k] == pairs_map(
        b,
    )[k] by {
        let i = choose|i: int| 0 <= i < a.len() && (#[trigger] a[i]).0 == k;
        assert(a.to_multiset().count(a[i]) > 0);
    }
}

/// A map from tag keys to tag values that holds each key once, its entries
/// kept sorted by key.
#[derive(Debug, PartialEq, Eq)]
pub struct TagMap {
    entries: Vec<(String, String)>,
}

impl View for TagMap {
    type V = Map<Seq<char>, Seq<char>>;

    open spec fn view(&self) -> Map<Seq<char>, Seq<char>> {
        pairs_map(self.entries())
    }
}

impl TagMap {
    /// The entries as they are stored.
    pub closed spec fn entries(&self) -> Seq<Pair> {
        pairs_of(self.entries@)
    }

    /// The invariant of the type: the stored entries are sorted by key.
    #[verifier::type_invariant]
    pub open spec fn wf(&self) -> bool {
        sorted_by_key(self.entries())
    }

    /// The stored entries are the canonical entries of the map.
    pub proof fn lemma_entries_canonical(&self)
        requires
            self.wf(),
        ensures
            self.entries() == canonical_entries(self@),
    {
        let c = canonical_entries(self@);
        lemma_sorted_entries_unique(self.entries(), c);
    }

    /// Tag maps that hold the same entries store them in the same order,
    /// and are written identically.
    pub proof fn lemma_equal_maps_written_alike(&self, other: &TagMap)
        requires
            self.wf(),
            other.wf(),
            self@ == other@,
        ensures
            self.entries() == other.entries(),
            tag_map_text(self@) == tag_map_text(other@),
            tag_map_debug_text(self@) == tag_map_debug_text(other@),
    {
        lemma_sorted_entries_unique(self.entries(), other.entries());
    }

    /// The empty map.
    pub fn new() -> (m: TagMap)
        ensures
            m@ == Map::<Seq<char>, Seq<char>>::empty(),
    {
        let m = TagMap { entries: Vec::new() };
        m
    }

    /// The number of stored entries whose key comes before `key`: the place
    /// at which `key` stands or would be entered.
    fn position(&self, key: &str) -> (p: usize)
        ensures
            p <= self.entries().len(),
            forall|i: int| 0 <= i < p ==> lex_less((#[trigger] self.entries()[i]).0, key@),
            p < self.entries().len() ==> !lex_less(self.entries()[p as int].0, key@),
    {
        let mut p: usize = 0;
        while p < self.entries.len()
            invariant
                p <= self.entries.len(),
                self.entries().len() == self.entries.len(),
                forall|i: int| 0 <= i < p ==> lex_less((#[trigger] self.entries()[i]).0, key@),
            decreases self.entries.len() - p,
        {
            if !str_less(self.entries[p].0.as_str(), key) {
                return p;
            }
            p += 1;
        }
        p
    }

    /// The value that stands under `key`, if any.
    pub fn get(&self, key: &str) -> (r: Option<&String>)
        ensures
            match r {
                Some(v) => self@.contains_key(key@) && self@[key@] == v@,
                None => !self@.contains_key(key@),
            },
    {
        proof {
            use_type_invariant(self);
            lemma_pairs_map_contents(self.entries());
            lemma_sorted_distinct(self.entries());
        }
        let p = self.position(key);
        if p < self.entries.len() && str_equal(self.entries[p].0.as_str(), key) {
            Some(&self.entries[p].1)
        } else {
            proof {
                if self@.contains_key(key@) {
                    lemma_lex_less_irreflexive(key@);
                }
            }
            None
        }
    }

    /// Enters `value` under `key`, in place of any value that stood there.
    pub fn insert(&mut self, key: String, value: String)
        ensures
            final(self)@ == old(self)@.insert(key@, value@),
    {
        proof {
            use_type_invariant(&*self);
        }
        let p = self.position(key.as_str());
        let ghost before = self.entries();
        let ghost pair = (key@, value@);
        let replace = p < self.entries.len() && str_equal(
            self.entries[p].0.as_str(),
            key.as_str(),
        );
        let mut entries: Vec<(String, String)> = Vec::new();
        core::mem::swap(&mut self.entries, &mut entries);
        if replace {
            entries.set(p, (key, value));
            proof {
                assert(pairs_of(entries@) =~= before.update(p as int, pair));
                lemma_update_same_key(before, p as int, pair);
            }
        } else {
            proof {
                if p < before.len() {
                    lemma_lex_less_total(before[p as int].0, key@);
                }
            }
            entries.insert(p, (key, value));
            proof {
                assert(pairs_of(entries@) =~= before.insert(p as int, pair));
                lemma_insert_new_key(before, p as int, pair);
            }
        }
        core::mem::swap(&mut self.entries, &mut entries);
    }

    /// The map as a RON literal: `{`, the entries in canonical order, each
    /// as key, `:` and value, both as RON string literals, with `,` between
    /// entries, and `}`.
    pub fn to_ron(&self) -> (r: String)
        ensures
            r@ == tag_map_text(self@),
    {
        proof {
            use_type_invariant(self);
            self.lemma_entries_canonical();
        }
        let mut quoted: Vec<(String, String)> = Vec::new();
        let mut i: usize = 0;
        while i < self.entries.len()
            invariant
                i <= self.entries.len(),
                pairs_of(quoted@) == ron_pairs(pairs_of(self.entries@)).take(i as int),
            decreases self.entries.len() - i,
        {
            let ghost before = quoted@;
            let k = ron_quoted(self.entries[i].0.as_str());
            let v = ron_quoted(self.entries[i].1.as_str());
            quoted.push((k, v));
            proof {
                let all = ron_pairs(pairs_of(self.entries@));
                assert(pairs_of(quoted@) =~= pairs_of(before).push(all[i as int]));
            }
            i += 1;
        }
        proof {
            let all = ron_pairs(pairs_of(self.entries@));
            assert(all.take(self.entries.len() as int) =~= all);
        }
        frame_entries(&quoted, ":", ",")
    }

    /// The map as `{:?}` writes a map of strings: `{`, the entries in
    /// canonical order, each as key, `: ` and value, both as Rust string
    /// literals, with `, ` between entries, and `}`.
    pub fn to_debug(&self) -> (r: String)
        ensures
            r@ == tag_map_debug_text(self@),
    {
        proof {
            use_type_invariant(self);
            self.lemma_entries_canonical();
        }
        let mut quoted: Vec<(String, String)> = Vec::new();
        let mut i: usize = 0;
        while i < self.entries.len()
            invariant
                i <= self.entries.len(),
                pairs_of(quoted@) == debug_pairs(pairs_of(self.entries@)).take(i as int),
            decreases self.entries.len() - i,
        {
            let ghost before = quoted@;
            let k = debug_quoted(self.entries[i].0.as_str());
            let v = debug_quoted(self.entries[i].1.as_str());
            quoted.push((k, v));
            proof {
                let all = debug_pairs(pairs_of(self.entries@));
                assert(pairs_of(quoted@) =~= pairs_of(before).push(all[i as int]));
            }
            i += 1;
        }
        proof {
            let all = debug_pairs(pairs_of(self.entries@));
            assert(all.take(self.entries.len() as int) =~= all);
        }
        frame_entries(&quoted, ": ", ", ")
    }

    /// The entries in canonical order, as owned pairs.
    pub fn to_pairs(&self) -> (r: Vec<(String, String)>)
        ensures
            pairs_of(r@) == canonical_entries(self@),
    {
        proof {
            use_type_invariant(self);
            self.lemma_entries_canonical();
        }
        let r = copy_pairs(&self.entries);
        r
    }
}

impl Clone for TagMap {
    fn clone(&self) -> (r: TagMap)
        ensures
            r@ == self@,
    {
        proof {
            use_type_invariant(self);
        }
        TagMap { entries: copy_pairs(&self.entries) }
    }
}

/// A copy of `v`, pair by pair.
fn copy_pairs(v: &Vec<(String, String)>) -> (r: Vec<(String, String)>)
    ensures
        pairs_of(r@) == pairs_of(v@),
{
    let mut out: Vec<(String, String)> = Vec::new();
    let mut i: usize = 0;
    while i < v.len()
        invariant
            i <= v.len(),
            pairs_of(out@) == pairs_of(v@).take(i as int),
        decreases v.len() - i,
    {
        let ghost before = out@;
        out.push((v[i].0.clone(), v[i].1.clone()));
        assert(pairs_of(out@) =~= pairs_of(before).push((v@[i as int].0@, v@[i as int].1@)));
        i += 1;
    }
    out
}

/// The texts of a sequence of owned pairs.
pub open spec fn pairs_of(v: Seq<(String, String)>) -> Seq<Pair> {
    Seq::new(v.len(), |i: int| (v[i].0@, v[i].1@))
}

/// Replacing the value beside a key leaves the order and updates the map.
proof fn lemma_update_same_key(pairs: Seq<Pair>, p: int, pair: Pair)
    requires
        sorted_by_key(pairs),
        0 <= p < pairs.len(),
        pairs[p].0 == pair.0,
    ensures
        sorted_by_key(pairs.update(p, pair)),
        pairs_map(pairs.update(p, pair)) == pairs_map(pairs).insert(pair.0, pair.1),
{
    let after = pairs.update(p, pair);
    lemma_sorted_distinct(pairs);
    lemma_sorted_distinct(after);
    lemma_pairs_map_contents(pairs);
    lemma_pairs_map_contents(after);
    let want = pairs_map(pairs).insert(pair.0, pair.1);
    assert forall|k: Seq<char>| pairs_map(after).contains_key(k) == want.contains_key(k) by {
        if want.contains_key(k) && k != pair.0 {
            let i = choose|i: int| 0 <= i < pairs.len() && (#[trigger] pairs[i]).0 == k;
            assert(after[i].0 == k);
        }
        if k == pair.0 {
            assert(after[p].0 == k);
        }
    }
}

/// Entering a new key at its place leaves the order and extends the map.
proof fn lemma_insert_new_key(pairs: Seq<Pair>, p: int, pair: Pair)
    requires
        sorted_by_key(pairs),
        0 <= p <= pairs.len(),
        forall|i: int| 0 <= i < p ==> lex_less((#[trigger] pairs[i]).0, pair.0),
        p < pairs.len() ==> lex_less(pair.0, pairs[p].0),
    ensures
        sorted_by_key(pairs.insert(p, pair)),
        pairs_map(pairs.insert(p, pair)) == pairs_map(pairs).insert(pair.0, pair.1),
{
    let after = pairs.insert(p, pair);
    assert forall|i: int, j: int| 0 <= i < j < after.len() implies lex_less(
        (#[trigger] after[i]).0,
        (#[trigger] after[j]).0,
    ) by {
        if i == p && j - 1 > p {
            lemma_lex_less_transitive(pair.0, pairs[p].0, pairs[j - 1].0);
        }
    }
    lemma_sorted_distinct(pairs);
    lemma_sorted_distinct(after);
    lemma_pairs_map_contents(pairs);
    lemma_pairs_map_contents(after);
    let want = pairs_map(pairs).insert(pair.0, pair.1);
    assert forall|k: Seq<char>| pairs_map(after).contains_key(k) == want.contains_key(k) by {
        if want.contains_key(k) && k != pair.0 {
            let i = choose|i: int| 0 <= i < pairs.len() && (#[trigger] pairs[i]).0 == k;
            if i < p {
                assert(after[i].0 == k);
            } else {
                assert(after[i + 1].0 == k);
            }
        }
        if k == pair.0 {
            assert(after[p].0 == k);
        }
    }
    assert forall|k: Seq<char>| pairs_map(after).contains_key(k) implies pairs_map(after)[k]
        == want[k] by {
        let i = choose|i: int| 0 <= i < after.len() && (#[trigger] after[i]).0 == k;
        if i < p {
            lemma_lex_less_irreflexive(pair.0);
        } else if i > p {
            assert(after[p].0 != after[i].0);
        }
    }
}

/// Each pair written as key, `colon`, value.
pub open spec fn entry_texts(parts: Seq<Pair>, colon: Seq<char>) -> Seq<Seq<char>> {
    Seq::new(parts.len(), |i: int| parts[i].0 + colon + parts[i].1)
}

/// `{`, the entries with `comma` between them, `}`; an entry is its key,
/// `colon` and its value.
pub open spec fn framed_entries(parts: Seq<Pair>, colon: Seq<char>, comma: Seq<char>) -> Seq<
    char,
> {
    "{"@ + joined(entry_texts(parts, colon), comma) + "}"@
}

/// Key and value of each pair as RON string literals.
pub open spec fn ron_pairs(pairs: Seq<Pair>) -> Seq<Pair> {
    Seq::new(pairs.len(), |i: int| (ron_string_text(pairs[i].0), ron_string_text(pairs[i].1)))
}

/// Key and value of each pair as Rust string literals.
pub open spec fn debug_pairs(pairs: Seq<Pair>) -> Seq<Pair> {
    Seq::new(pairs.len(), |i: int| (str_debug_text(pairs[i].0), str_debug_text(pairs[i].1)))
}

/// The canonical text of a tag map in a log record.
pub open spec fn tag_map_text(m: Map<Seq<char>, Seq<char>>) -> Seq<char> {
    framed_entries(ron_pairs(canonical_entries(m)), ":"@, ","@)
}

/// The text of a tag map in a diagnostic.
pub open spec fn tag_map_debug_text(m: Map<Seq<char>, Seq<char>>) -> Seq<char> {
    framed_entries(debug_pairs(canonical_entries(m)), ": "@, ", "@)
}

/// Writes a map whose keys and values are already in their written form:
/// `{`, the entries with `comma` between them, `}`.
pub fn frame_entries(parts: &Vec<(String, String)>, colon: &str, comma: &str) -> (r: String)
    ensures
        r@ == framed_entries(pairs_of(parts@), colon@, comma@),
{
    let mut items: Vec<String> = Vec::new();
    let mut i: usize = 0;
    while i < parts.len()
        invariant
            i <= parts.len(),
            texts(items@) == entry_texts(pairs_of(parts@), colon@).take(i as int),
        decreases parts.len() - i,
    {
        let ghost before = items@;
        let mut item = parts[i].0.clone();
        item.append(colon);
        item.append(parts[i].1.as_str());
        items.push(item);
        proof {
            let all = entry_texts(pairs_of(parts@), colon@);
            assert(texts(items@) =~= texts(before).push(all[i as int]));
        }
        i += 1;
    }
    proof {
        let all = entry_texts(pairs_of(parts@), colon@);
        assert(all.take(parts.len() as int) =~= all);
    }
    let mut out = String::from_str("{");
    let body = join(&items, comma);
    out.append(body.as_str());
    out.append("}");
    out
}

/// The tag map of an event: each tag entered in turn under its key, a tag
/// without a value as the empty string, a later tag replacing an earlier one
/// with the same key.
pub fn tags_to_map(tags: Option<Vec<Tag>>) -> (m: TagMap)
    ensures
        m@ == pairs_map(tag_pairs(tags)),
{
    tag_map_of(&tags)
}

/// The tag map of an event, from its borrowed tags: as [`tags_to_map`].
pub fn tag_map_of(tags: &Option<Vec<Tag>>) -> (m: TagMap)
    ensures
        m@ == pairs_map(tag_pairs(*tags)),
{
    let mut m = TagMap::new();
    match tags {
        None => {},
        Some(v) => {
            let mut i: usize = 0;
            while i < v.len()
                invariant
                    i <= v.len(),
                    *tags == Some(*v),
                    m@ == pairs_map(tag_pairs(*tags).take(i as int)),
                decreases v.len() - i,
            {
                let value = match &v[i].1 {
                    Some(x) => x.clone(),
                    None => String::new(),
                };
                m.insert(v[i].0.clone(), value);
                proof {
                    let all = tag_pairs(*tags);
                    assert(all.take(i + 1).drop_last() =~= all.take(i as int));
                }
                i += 1;
            }
            assert(tag_pairs(*tags).take(v.len() as int) =~= tag_pairs(*tags));
        },
    }
    m
}

} // verus!
