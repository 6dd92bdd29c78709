//! The store of accepted webmentions, keyed by target page and, within a
//! page, by source page. Mutated only by the processing pass; a mention
//! that is applied again from the same source replaces the earlier one.

use vstd::prelude::*;
use vstd::std_specs::vec::vec_index_mut;

verus! {

/// An accepted mention of one of our pages, with the metadata kept for
/// rendering.
#[derive(Debug, Clone)]
pub struct VerifiedMention {
    pub source_url: String,
    pub title: Option<String>,
    pub author: Option<String>,
}

/// The mathematical shape of a stored mention.
pub struct MentionView {
    pub source_url: Seq<char>,
    pub title: Option<Seq<char>>,
    pub author: Option<Seq<char>>,
}

impl View for VerifiedMention {
    type V = MentionView;

    open spec fn view(&self) -> MentionView {
        MentionView {
            source_url: self.source_url@,
            title: match self.title {
                Some(t) => Some(t@),
                None => None,
            },
            author: match self.author {
                Some(a) => Some(a@),
                None => None,
            },
        }
    }
}

/// The mentions of one page, keyed by source.
pub open spec fn mentions_map(s: Seq<VerifiedMention>) -> Map<Seq<char>, MentionView>
    decreases s.len(),
{
    if s.len() == 0 {
        Map::empty()
    } else {
        mentions_map(s.drop_last()).insert(s.last().source_url@, s.last()@)
    }
}

/// The whole store, keyed by target page.
pub open spec fn entries_map(s: Seq<(String, Vec<VerifiedMention>)>) -> Map<
    Seq<char>,
    Map<Seq<char>, MentionView>,
>
    decreases s.len(),
{
    if s.len() == 0 {
        Map::empty()
    } else {
        entries_map(s.drop_last()).insert(s.last().0@, mentions_map(s.last().1@))
    }
}

pub open spec fn unique_sources(s: Seq<VerifiedMention>) -> bool {
    forall|i: int, j: int|
        0 <= i < j < s.len() ==> (#[trigger] s[i]).source_url@ != (#[trigger] s[j]).source_url@
}

proof fn lemma_mentions_map_key(s: Seq<VerifiedMention>, src: Seq<char>)
    ensures
        mentions_map(s).contains_key(src) <==> exists|i: int|
            0 <= i < s.len() && (#[trigger] s[i]).source_url@ == src,
    decreases s.len(),
{
    if s.len() > 0 {
        lemma_mentions_map_key(s.drop_last(), src);
        if mentions_map(s).contains_key(src) {
            if s.last().source_url@ == src {
                assert(s[s.len() - 1].source_url@ == src);
            } else {
                let i = choose|i: int|
                    0 <= i < s.drop_last().len() && (#[trigger] s.drop_last()[i]).source_url@
                        == src;
                assert(s[i].source_url@ == src);
            }
        }
        if exists|i: int| 0 <= i < s.len() && (#[trigger] s[i]).source_url@ == src {
            let i = choose|i: int| 0 <= i < s.len() && (#[trigger] s[i]).source_url@ == src;
            if i < s.len() - 1 {
                assert(s.drop_last()[i].source_url@ == src);
            }
        }
    }
}

proof fn lemma_mentions_map_update(s: Seq<VerifiedMention>, k: int, m: VerifiedMention)
    requires
        unique_sources(s),
        0 <= k < s.len(),
        s[k].source_url@ == m.source_url@,
    ensures
        mentions_map(s.update(k, m)) == mentions_map(s).insert(m.source_url@, m@),
    decreases s.len(),
{
    let t = s.drop_last();
    if k == s.len() - 1 {
        assert(s.update(k, m).drop_last() =~= t);
        assert(s.update(k, m).last() == m);
        assert(mentions_map(s).insert(m.source_url@, m@) =~= mentions_map(t).insert(
            m.source_url@,
            m@,
        ));
    } else {
        assert(unique_sources(t));
        lemma_mentions_map_update(t, k, m);
        assert(s.update(k, m).drop_last() =~= t.update(k, m));
        assert(s.update(k, m).last() == s.last());
        assert(s[k].source_url@ != s.last().source_url@);
        assert(mentions_map(t).insert(m.source_url@, m@).insert(s.last().source_url@, s.last()@)
            =~= mentions_map(t).insert(s.last().source_url@, s.last()@).insert(m.source_url@, m@));
    }
}

proof fn lemma_mentions_map_remove(s: Seq<VerifiedMention>, k: int)
    requires
        unique_sources(s),
        0 <= k < s.len(),
    ensures
        mentions_map(s.remove(k)) == mentions_map(s).remove(s[k].source_url@),
    decreases s.len(),
{
    let t = s.drop_last();
    if k == s.len() - 1 {
        assert(s.remove(k) =~= t);
        lemma_mentions_map_key(t, s[k].source_url@);
        assert(!mentions_map(t).contains_key(s[k].source_url@));
        assert(mentions_map(t) =~= mentions_map(t).insert(s.last().source_url@, s.last()@).remove(
            s[k].source_url@,
        ));
    } else {
        assert(unique_sources(t));
        lemma_mentions_map_remove(t, k);
        assert(s.remove(k) =~= t.remove(k).push(s.last()));
        assert(s.remove(k).drop_last() =~= t.remove(k));
        assert(s.remove(k).last() == s.last());
        assert(s[k].source_url@ != s.last().source_url@);
        assert(mentions_map(t).remove(s[k].source_url@).insert(s.last().source_url@, s.last()@)
            =~= mentions_map(t).insert(s.last().source_url@, s.last()@).remove(s[k].source_url@));
    }
}

proof fn lemma_entries_map_key(s: Seq<(String, Vec<VerifiedMention>)>, t: Seq<char>)
    ensures
        entries_map(s).contains_key(t) <==> exists|i: int|
            0 <= i < s.len() && (#[trigger] s[i]).0@ == t,
    decreases s.len(),
{
    if s.len() > 0 {
        lemma_entries_map_key(s.drop_last(), t);
        if entries_map(s).contains_key(t) {
            if s.last().0@ == t {
                assert(s[s.len() - 1].0@ == t);
            } else {
                let i = choose|i: int|
                    0 <= i < s.drop_last().len() && (#[trigger] s.drop_last()[i]).0@ == t;
                assert(s[i].0@ == t);
            }
        }
        if exists|i: int| 0 <= i < s.len() && (#[trigger] s[i]).0@ == t {
            let i = choose|i: int| 0 <= i < s.len() && (#[trigger] s[i]).0@ == t;
            if i < s.len() - 1 {
                assert(s.drop_last()[i].0@ == t);
            }
        }
    }
}

proof fn lemma_entries_map_at(s: Seq<(String, Vec<VerifiedMention>)>, i: int)
    requires
        forall|a: int, b: int| 0 <= a < b < s.len() ==> (#[trigger] s[a]).0@ != (#[trigger] s[b]).0@,
        0 <= i < s.len(),
    ensures
        entries_map(s).contains_key(s[i].0@),
        entries_map(s)[s[i].0@] == mentions_map(s[i].1@),
    decreases s.len(),
{
    if i == s.len() - 1 {
    } else {
        let t = s.drop_last();
        assert(t[i] == s[i]);
        lemma_entries_map_at(t, i);
        assert(s[i].0@ != s.last().0@);
    }
}

proof fn lemma_entries_map_update(
    s: Seq<(String, Vec<VerifiedMention>)>,
    i: int,
    e: (String, Vec<VerifiedMention>),
)
    requires
        forall|a: int, b: int| 0 <= a < b < s.len() ==> (#[trigger] s[a]).0@ != (#[trigger] s[b]).0@,
        0 <= i < s.len(),
        s[i].0@ == e.0@,
    ensures
        entries_map(s.update(i, e)) == entries_map(s).insert(e.0@, mentions_map(e.1@)),
    decreases s.len(),
{
    let t = s.drop_last();
    if i == s.len() - 1 {
        assert(s.update(i, e).drop_last() =~= t);
        assert(s.update(i, e).last() == e);
        assert(entries_map(s).insert(e.0@, mentions_map(e.1@)) =~= entries_map(t).insert(
            e.0@,
            mentions_map(e.1@),
        ));
    } else {
        lemma_entries_map_update(t, i, e);
        assert(s.update(i, e).drop_last() =~= t.update(i, e));
        assert(s.update(i, e).last() == s.last());
        assert(s[i].0@ != s.last().0@);
        assert(entries_map(t).insert(e.0@, mentions_map(e.1@)).insert(
            s.last().0@,
            mentions_map(s.last().1@),
        ) =~= entries_map(t).insert(s.last().0@, mentions_map(s.last().1@)).insert(
            e.0@,
            mentions_map(e.1@),
        ));
    }
}

/// What applying an accepted mention does to the store's map: the mention
/// is put under its target and its source, replacing any earlier mention
/// from the same source.
pub open spec fn spec_apply(
    m: Map<Seq<char>, Map<Seq<char>, MentionView>>,
    target: Seq<char>,
    v: MentionView,
) -> Map<Seq<char>, Map<Seq<char>, MentionView>> {
    let inner = if m.contains_key(target) {
        m[target]
    } else {
        Map::empty()
    };
    m.insert(target, inner.insert(v.source_url, v))
}

/// What a retraction does to the store's map: the mention of `target` from
/// `source` goes away; anything else stays.
pub open spec fn spec_remove(
    m: Map<Seq<char>, Map<Seq<char>, MentionView>>,
    target: Seq<char>,
    source: Seq<char>,
) -> Map<Seq<char>, Map<Seq<char>, MentionView>> {
    if m.contains_key(target) {
        m.insert(target, m[target].remove(source))
    } else {
        m
    }
}

/// Index of the first mention from `source`, if the list has one.
fn find_mention_index(mentions: &Vec<VerifiedMention>, source: &String) -> (r: Option<usize>)
    ensures
        r matches Some(k) ==> k < mentions@.len() && mentions@[k as int].source_url@ == source@,
        r is None ==> forall|j: int|
            0 <= j < mentions@.len() ==> (#[trigger] mentions@[j]).source_url@ != source@,
{
    let n = mentions.len();
    let mut k: usize = 0;
    while k < n
        invariant
            k <= n,
            n == mentions@.len(),
            forall|j: int| 0 <= j < k ==> (#[trigger] mentions@[j]).source_url@ != source@,
        decreases n - k,
    {
        if mentions[k].source_url == *source {
            return Some(k);
        }
        k += 1;
    }
    None
}

/// The authoritative collection of accepted webmentions per target page.
pub struct WebmentionStore {
    entries: Vec<(String, Vec<VerifiedMention>)>,
}

impl View for WebmentionStore {
    type V = Map<Seq<char>, Map<Seq<char>, MentionView>>;

    closed spec fn view(&self) -> Map<Seq<char>, Map<Seq<char>, MentionView>> {
        entries_map(self.entries@)
    }
}

impl WebmentionStore {
    /// Target keys are unique, and so are source keys within one target.
    pub closed spec fn well_formed(self) -> bool {
        &&& forall|a: int, b: int|
            0 <= a < b < self.entries@.len() ==> (#[trigger] self.entries@[a]).0@ != (
            #[trigger] self.entries@[b]).0@
        &&& forall|i: int|
            0 <= i < self.entries@.len() ==> unique_sources((#[trigger] self.entries@[i]).1@)
    }

    pub fn new() -> (s: WebmentionStore)
        ensures
            s@ == Map::<Seq<char>, Map<Seq<char>, MentionView>>::empty(),
            s.well_formed(),
    {
        WebmentionStore { entries: Vec::new() }
    }

    /// Index of the entry for `target`, if the store has one.
    fn find_entry(&self, target: &String) -> (r: Option<usize>)
        ensures
            r matches Some(i) ==> i < self.entries@.len() && self.entries@[i as int].0@ == target@,
            r is None ==> !self@.contains_key(target@),
    {
        let n = self.entries.len();
        let mut i: usize = 0;
        while i < n
            invariant
                i <= n,
                n == self.entries@.len(),
                forall|j: int| 0 <= j < i ==> (#[trigger] self.entries@[j]).0@ != target@,
            decreases n - i,
        {
            if self.entries[i].0 == *target {
                return Some(i);
            }
            i += 1;
        }
        proof {
            lemma_entries_map_key(self.entries@, target@);
        }
        None
    }

    /// The accepted mentions of `target`, where it has any.
    pub fn get(&self, target: &str) -> (r: Option<&Vec<VerifiedMention>>)
        requires
            self.well_formed(),
        ensures
            r is Some <==> self@.contains_key(target@),
            r matches Some(v) ==> mentions_map(v@) == self@[target@],
    {
        let t = target.to_owned();
        match self.find_entry(&t) {
            Some(i) => {
                proof {
                    lemma_entries_map_at(self.entries@, i as int);
                }
                Some(&self.entries[i].1)
            },
            None => None,
        }
    }

    /// Puts an accepted mention under its target page, replacing any
    /// earlier mention of that page from the same source.
    pub fn apply(&mut self, target: &str, mention: VerifiedMention)
        requires
            old(self).well_formed(),
        ensures
            final(self).well_formed(),
            final(self)@ == spec_apply(old(self)@, target@, mention@),
    {
        let t = target.to_owned();
        match self.find_entry(&t) {
            Some(i) => {
                proof {
                    lemma_entries_map_at(self.entries@, i as int);
                }
                let ghost old_entries = self.entries@;
                let ghost old_inner = self.entries@[i as int].1@;
                let found = find_mention_index(&self.entries[i].1, &mention.source_url);
                match found {
                    Some(f) => {
                        proof {
                            lemma_mentions_map_update(old_inner, f as int, mention);
                        }
                        let entry = vec_index_mut(&mut self.entries, i);
                        let slot = vec_index_mut(&mut entry.1, f);
                        *slot = mention;
                        proof {
                            let ghost new_inner = old_inner.update(f as int, mention);
                            assert(self.entries@ =~= old_entries.update(
                                i as int,
                                (old_entries[i as int].0, self.entries@[i as int].1),
                            ));
                            assert(self.entries@[i as int].1@ == new_inner);
                            lemma_entries_map_update(
                                old_entries,
                                i as int,
                                old_entries.update(
                                    i as int,
                                    (old_entries[i as int].0, self.entries@[i as int].1),
                                )[i as int],
                            );
                            assert(unique_sources(new_inner));
                        }
                    },
                    None => {
                        proof {
                            lemma_mentions_map_key(old_inner, mention.source_url@);
                        }
                        let entry = vec_index_mut(&mut self.entries, i);
                        entry.1.push(mention);
                        proof {
                            let ghost new_inner = old_inner.push(mention);
                            assert(self.entries@ =~= old_entries.update(
                                i as int,
                                (old_entries[i as int].0, self.entries@[i as int].1),
                            ));
                            assert(self.entries@[i as int].1@ == new_inner);
                            assert(new_inner.drop_last() =~= old_inner);
                            assert(mentions_map(new_inner) == mentions_map(old_inner).insert(
                                mention.source_url@,
                                mention@,
                            ));
                            lemma_entries_map_update(
                                old_entries,
                                i as int,
                                old_entries.update(
                                    i as int,
                                    (old_entries[i as int].0, self.entries@[i as int].1),
                                )[i as int],
                            );
                            assert(unique_sources(new_inner));
                        }
                    },
                }
            },
            None => {
                let mentions = vec![mention];
                self.entries.push((t, mentions));
                proof {
                    let s = self.entries@;
                    assert(s.drop_last() =~= old(self).entries@);
                    let single = s.last().1@;
                    assert(single.len() == 1);
                    assert(single.drop_last() =~= Seq::<VerifiedMention>::empty());
                    assert(mentions_map(Seq::<VerifiedMention>::empty()) == Map::<
                        Seq<char>,
                        MentionView,
                    >::empty());
                    assert(single.last() == single[0]);
                    assert(mentions_map(single) =~= Map::<Seq<char>, MentionView>::empty().insert(
                        single[0].source_url@,
                        single[0]@,
                    ));
                    lemma_entries_map_key(old(self).entries@, target@);
                    assert(unique_sources(single));
                }
            },
        }
    }

    /// Retracts the mention of `target` from `source`, where the store has
    /// one; anything else is left as it was.
    pub fn remove(&mut self, target: &str, source: &str)
        requires
            old(self).well_formed(),
        ensures
            final(self).well_formed(),
            final(self)@ == spec_remove(old(self)@, target@, source@),
    {
        let t = target.to_owned();
        let s = source.to_owned();
        match self.find_entry(&t) {
            Some(i) => {
                proof {
                    lemma_entries_map_at(self.entries@, i as int);
                }
                let ghost old_entries = self.entries@;
                let ghost old_inner = self.entries@[i as int].1@;
                let found = find_mention_index(&self.entries[i].1, &s);
                match found {
                    Some(f) => {
                        proof {
                            lemma_mentions_map_remove(old_inner, f as int);
                        }
                        let entry = vec_index_mut(&mut self.entries, i);
                        entry.1.remove(f);
                        proof {
                            let ghost new_inner = old_inner.remove(f as int);
                            assert(self.entries@ =~= old_entries.update(
                                i as int,
                                (old_entries[i as int].0, self.entries@[i as int].1),
                            ));
                            assert(self.entries@[i as int].1@ == new_inner);
                            lemma_entries_map_update(
                                old_entries,
                                i as int,
                                old_entries.update(
                                    i as int,
                                    (old_entries[i as int].0, self.entries@[i as int].1),
                                )[i as int],
                            );
                            assert(unique_sources(new_inner));
                        }
                    },
                    None => {
                        proof {
                            lemma_mentions_map_key(old_inner, source@);
                            assert(!mentions_map(old_inner).contains_key(source@));
                            assert(mentions_map(old_inner).remove(source@) =~= mentions_map(
                                old_inner,
                            ));
                            assert(old(self)@.insert(target@, mentions_map(old_inner)) =~= old(
                                self,
                            )@);
                        }
                    },
                }
            },
            None => {
            },
        }
    }
}

} // verus!
