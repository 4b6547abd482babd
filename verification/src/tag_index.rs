//! The index from tags to the entries that carry them.

use crate::data::{strings_view, Knowledge, KnowledgeView};
use vstd::prelude::*;

verus! {

/// One occurrence of a tag: the tag and the position of the entry that
/// carries it.
pub type Occurrence = (Seq<char>, int);

/// The occurrences of the tags `tags` of the entry at position `index`.
pub open spec fn occurrences_in(tags: Seq<Seq<char>>, index: int) -> Seq<Occurrence> {
    Seq::new(tags.len(), |j: int| (tags[j], index))
}

/// All occurrences of tags in `entries`, entry by entry and, within an
/// entry, in the order of its tags.
pub open spec fn occurrences(entries: Seq<KnowledgeView>) -> Seq<Occurrence>
    decreases entries.len(),
{
    if entries.len() == 0 {
        Seq::empty()
    } else {
        occurrences(entries.drop_last()) + occurrences_in(
            entries.last().tag,
            entries.len() - 1,
        )
    }
}

/// The tags of `occs`, each once, in the order in which they first occur.
pub open spec fn tags_of(occs: Seq<Occurrence>) -> Seq<Seq<char>>
    decreases occs.len(),
{
    if occs.len() == 0 {
        Seq::empty()
    } else {
        let before = tags_of(occs.drop_last());
        if before.contains(occs.last().0) {
            before
        } else {
            before.push(occs.last().0)
        }
    }
}

/// The positions of the entries that carry `tag`, in the order of `occs`.
pub open spec fn bucket_of(occs: Seq<Occurrence>, tag: Seq<char>) -> Seq<int>
    decreases occs.len(),
{
    if occs.len() == 0 {
        Seq::empty()
    } else if occs.last().0 == tag {
        bucket_of(occs.drop_last(), tag).push(occs.last().1)
    } else {
        bucket_of(occs.drop_last(), tag)
    }
}

/// The index of `entries`: under each tag that some entry carries, the
/// positions of the entries that carry it, in order.
pub open spec fn tag_index(entries: Seq<KnowledgeView>) -> Map<Seq<char>, Seq<int>> {
    Map::new(
        |tag: Seq<char>| tags_of(occurrences(entries)).contains(tag),
        |tag: Seq<char>| bucket_of(occurrences(entries), tag),
    )
}

/// The views of `entries`, in order.
pub open spec fn entries_view(entries: Seq<Knowledge>) -> Seq<KnowledgeView> {
    Seq::new(entries.len(), |i: int| entries[i]@)
}

/// The positions in `bucket` as mathematical integers.
pub open spec fn positions(bucket: Seq<usize>) -> Seq<int> {
    Seq::new(bucket.len(), |i: int| bucket[i] as int)
}

/// True when `tag` occurs in `occs`, with whatever position.
pub open spec fn occurs(occs: Seq<Occurrence>, tag: Seq<char>) -> bool {
    exists|k: int| 0 <= k < occs.len() && (#[trigger] occs[k]).0 == tag
}

/// A tag is among `tags_of(occs)` exactly when it occurs in `occs`.
pub proof fn lemma_tags_of(occs: Seq<Occurrence>, tag: Seq<char>)
    ensures
        tags_of(occs).contains(tag) <==> occurs(occs, tag),
    decreases occs.len(),
{
    if occs.len() > 0 {
        let init = occs.drop_last();
        let before = tags_of(init);
        lemma_tags_of(init, tag);
        if tags_of(occs).contains(tag) {
            if before.contains(tag) {
                let k = choose|k: int| 0 <= k < init.len() && (#[trigger] init[k]).0 == tag;
                assert(occs[k].0 == tag);
            } else {
                let at = choose|at: int|
                    0 <= at < tags_of(occs).len() && tags_of(occs)[at] == tag;
                if at < before.len() {
                    assert(before[at] == tag);
                }
                assert(occs[occs.len() - 1].0 == tag);
            }
        }
        if occurs(occs, tag) {
            let k = choose|k: int| 0 <= k < occs.len() && (#[trigger] occs[k]).0 == tag;
            if k < init.len() {
                assert(init[k].0 == tag);
                assert(occurs(init, tag));
                let at = choose|at: int| 0 <= at < before.len() && before[at] == tag;
                assert(tags_of(occs)[at] == tag);
            } else if !before.contains(tag) {
                assert(tags_of(occs)[before.len() as int] == tag);
            } else {
                let at = choose|at: int| 0 <= at < before.len() && before[at] == tag;
                assert(tags_of(occs)[at] == tag);
            }
        }
    }
}

/// No tag is listed twice in `tags_of(occs)`.
pub proof fn lemma_tags_of_distinct(occs: Seq<Occurrence>)
    ensures
        tags_of(occs).no_duplicates(),
    decreases occs.len(),
{
    if occs.len() > 0 {
        lemma_tags_of_distinct(occs.drop_last());
    }
}

/// The bucket of a tag holds a position exactly when the two occur together
/// in `occs`.
pub proof fn lemma_bucket_of(occs: Seq<Occurrence>, tag: Seq<char>, index: int)
    ensures
        bucket_of(occs, tag).contains(index) <==> occs.contains((tag, index)),
    decreases occs.len(),
{
    if occs.len() > 0 {
        let init = occs.drop_last();
        let before = bucket_of(init, tag);
        let bucket = bucket_of(occs, tag);
        lemma_bucket_of(init, tag, index);
        if bucket.contains(index) {
            let at = choose|at: int| 0 <= at < bucket.len() && bucket[at] == index;
            if at < before.len() {
                assert(before[at] == index);
                assert(before.contains(index));
                let k = choose|k: int| 0 <= k < init.len() && init[k] == (tag, index);
                assert(occs[k] == (tag, index));
            } else {
                assert(occs[occs.len() - 1] == (tag, index));
            }
        }
        if occs.contains((tag, index)) {
            let k = choose|k: int| 0 <= k < occs.len() && occs[k] == (tag, index);
            if k < init.len() {
                assert(init[k] == (tag, index));
                assert(init.contains((tag, index)));
                let at = choose|at: int| 0 <= at < before.len() && before[at] == index;
                assert(bucket[at] == index);
            } else {
                assert(bucket[before.len() as int] == index);
            }
        }
    }
}

/// `occurrences(entries)` holds the pair of a tag and a position exactly
/// when the entry at that position carries the tag.
pub proof fn lemma_occurrences(entries: Seq<KnowledgeView>)
    ensures
        forall|tag: Seq<char>, index: int| #[trigger]
            occurrences(entries).contains((tag, index)) <==> 0 <= index < entries.len()
                && entries[index].tag.contains(tag),
    decreases entries.len(),
{
    if entries.len() > 0 {
        let init = entries.drop_last();
        let last = entries.len() - 1;
        let tail = occurrences_in(entries.last().tag, last);
        lemma_occurrences(init);
        assert forall|tag: Seq<char>, index: int| #[trigger]
            occurrences(entries).contains((tag, index)) <==> 0 <= index < entries.len()
                && entries[index].tag.contains(tag) by {
            let all = occurrences(entries);
            if all.contains((tag, index)) {
                let k = choose|k: int| 0 <= k < all.len() && all[k] == (tag, index);
                if k < occurrences(init).len() {
                    assert(occurrences(init)[k] == (tag, index));
                    assert(occurrences(init).contains((tag, index)));
                    assert(init[index] == entries[index]);
                } else {
                    assert(tail[k - occurrences(init).len()] == (tag, index));
                    assert(entries[last].tag[k - occurrences(init).len()] == tag);
                }
            }
            if 0 <= index < entries.len() && entries[index].tag.contains(tag) {
                if index < last {
                    assert(init[index] == entries[index]);
                    assert(occurrences(init).contains((tag, index)));
                    let k = choose|k: int|
                        0 <= k < occurrences(init).len() && occurrences(init)[k] == (tag, index);
                    assert(all[k] == (tag, index));
                } else {
                    let j = choose|j: int|
                        0 <= j < entries[last].tag.len() && entries[last].tag[j] == tag;
                    assert(tail[j] == (tag, index));
                    assert(all[occurrences(init).len() + j] == (tag, index));
                }
            }
        }
    }
}

/// Tag index completeness: an entry stands in the bucket of a tag exactly
/// when it carries that tag, and a tag has a bucket exactly when some entry
/// carries it. So every entry is found under each of its tags, and an entry
/// without tags is in no bucket.
pub proof fn lemma_tag_index_complete(entries: Seq<KnowledgeView>)
    ensures
        forall|tag: Seq<char>, index: int|
            #![trigger tag_index(entries)[tag].contains(index)]
            tag_index(entries).dom().contains(tag) && tag_index(entries)[tag].contains(index)
                <==> 0 <= index < entries.len() && entries[index].tag.contains(tag),
        forall|tag: Seq<char>, index: int|
            #![trigger entries[index].tag.contains(tag)]
            0 <= index < entries.len() && entries[index].tag.contains(tag) ==> tag_index(
                entries,
            ).dom().contains(tag),
        forall|tag: Seq<char>| #[trigger]
            tag_index(entries).dom().contains(tag) ==> exists|index: int|
                0 <= index < entries.len() && (#[trigger] entries[index]).tag.contains(tag),
{
    let occs = occurrences(entries);
    lemma_occurrences(entries);
    assert forall|tag: Seq<char>, index: int|
        #![trigger tag_index(entries)[tag].contains(index)]
        tag_index(entries).dom().contains(tag) && tag_index(entries)[tag].contains(index) <==> 0
            <= index < entries.len() && entries[index].tag.contains(tag) by {
        lemma_bucket_of(occs, tag, index);
        lemma_tags_of(occs, tag);
        if occs.contains((tag, index)) {
            let k = choose|k: int| 0 <= k < occs.len() && occs[k] == (tag, index);
            assert(occs[k].0 == tag);
        }
    }
    assert forall|tag: Seq<char>, index: int|
        #![trigger entries[index].tag.contains(tag)]
        0 <= index < entries.len() && entries[index].tag.contains(tag) implies tag_index(
        entries,
    ).dom().contains(tag) by {
        lemma_tags_of(occs, tag);
        assert(occs.contains((tag, index)));
        let k = choose|k: int| 0 <= k < occs.len() && occs[k] == (tag, index);
        assert(occs[k].0 == tag);
    }
    assert forall|tag: Seq<char>| #[trigger]
        tag_index(entries).dom().contains(tag) implies exists|index: int|
        0 <= index < entries.len() && (#[trigger] entries[index]).tag.contains(tag) by {
        lemma_tags_of(occs, tag);
        let k = choose|k: int| 0 <= k < occs.len() && (#[trigger] occs[k]).0 == tag;
        assert(occs.contains((tag, occs[k].1)));
        assert(entries[occs[k].1].tag.contains(tag));
    }
}

/// A tag that does not occur has an empty bucket.
pub proof fn lemma_bucket_of_absent(occs: Seq<Occurrence>, tag: Seq<char>)
    requires
        !occurs(occs, tag),
    ensures
        bucket_of(occs, tag) == Seq::<int>::empty(),
{
    let bucket = bucket_of(occs, tag);
    if bucket.len() > 0 {
        assert(bucket.contains(bucket[0]));
        lemma_bucket_of(occs, tag, bucket[0]);
        let k = choose|k: int| 0 <= k < occs.len() && occs[k] == (tag, bucket[0]);
        assert(occs[k].0 == tag);
    }
    assert(bucket =~= Seq::<int>::empty());
}

/// True when the tags `tags` with the buckets `buckets` are the index of
/// the occurrences `occs`.
pub open spec fn represents(
    tags: Seq<String>,
    buckets: Seq<Vec<usize>>,
    occs: Seq<Occurrence>,
) -> bool {
    &&& strings_view(tags) == tags_of(occs)
    &&& buckets.len() == tags.len()
    &&& forall|k: int|
        0 <= k < tags.len() ==> positions((#[trigger] buckets[k])@) == bucket_of(occs, tags[k]@)
}

/// The position of `tag` among `tags`, or their number when it is not
/// there.
fn position_of(tags: &Vec<String>, tag: &String) -> (at: usize)
    ensures
        at <= tags.len(),
        at < tags.len() ==> tags@[at as int]@ == tag@,
        forall|k: int| 0 <= k < at ==> tags@[k]@ != tag@,
{
    let mut at: usize = 0;
    while at < tags.len()
        invariant
            at <= tags.len(),
            forall|k: int| 0 <= k < at ==> tags@[k]@ != tag@,
        decreases tags.len() - at,
    {
        if tags[at] == *tag {
            return at;
        }
        at = at + 1;
    }
    at
}

/// Records that the entry at `position` carries `tag`.
fn add_occurrence(
    tags: &mut Vec<String>,
    buckets: &mut Vec<Vec<usize>>,
    tag: &String,
    position: usize,
    Ghost(occs): Ghost<Seq<Occurrence>>,
)
    requires
        represents(old(tags)@, old(buckets)@, occs),
    ensures
        represents(final(tags)@, final(buckets)@, occs.push((tag@, position as int))),
{
    let ghost after = occs.push((tag@, position as int));
    let ghost keys = strings_view(tags@);
    proof {
        assert(after.drop_last() =~= occs);
        lemma_tags_of(occs, tag@);
        lemma_tags_of_distinct(occs);
    }
    let at = position_of(tags, tag);
    if at < tags.len() {
        assert(keys[at as int] == tag@);
        buckets[at].push(position);
        assert forall|k: int| 0 <= k < tags.len() implies positions((#[trigger] buckets[k])@)
            == bucket_of(after, tags[k]@) by {
            if k == at {
                assert(positions(buckets[k]@) =~= positions(old(buckets)[k]@).push(
                    position as int,
                ));
            } else {
                assert(keys[k] != keys[at as int]);
            }
        }
    } else {
        assert(!keys.contains(tag@)) by {
            if keys.contains(tag@) {
                let k = choose|k: int| 0 <= k < keys.len() && keys[k] == tag@;
                assert(tags@[k]@ == tag@);
            }
        }
        proof {
            lemma_bucket_of_absent(occs, tag@);
        }
        let mut bucket: Vec<usize> = Vec::new();
        bucket.push(position);
        tags.push(tag.clone());
        buckets.push(bucket);
        assert(strings_view(tags@) =~= keys.push(tag@));
        assert forall|k: int| 0 <= k < tags.len() implies positions((#[trigger] buckets[k])@)
            == bucket_of(after, tags[k]@) by {
            if k == at {
                assert(positions(buckets[k]@) =~= Seq::<int>::empty().push(position as int));
            } else {
                assert(keys[k] == tags[k]@);
                assert(keys.contains(keys[k]));
            }
        }
    }
}

/// The index from tags to the entries that carry them. The tags are kept
/// in the order in which they first occur, the entries of a tag in the
/// order of the repository.
pub struct TagIndex {
    tags: Vec<String>,
    buckets: Vec<Vec<usize>>,
}

impl TagIndex {
    /// Each tag has its bucket, and no tag is listed twice.
    #[verifier::type_invariant]
    spec fn inv(self) -> bool {
        &&& self.buckets@.len() == self.tags@.len()
        &&& strings_view(self.tags@).no_duplicates()
    }

    /// The tags of the index, in the order in which they first occurred.
    pub closed spec fn keys(&self) -> Seq<Seq<char>> {
        strings_view(self.tags@)
    }

    /// The positions of the entries under `tag`, where the index has it.
    pub closed spec fn bucket(&self, tag: Seq<char>) -> Seq<int> {
        positions(self.buckets@[self.keys().index_of(tag)]@)
    }

    /// The index of `entries`.
    pub fn build(entries: &Vec<Knowledge>) -> (index: TagIndex)
        ensures
            index.keys() == tags_of(occurrences(entries_view(entries@))),
            index@ == tag_index(entries_view(entries@)),
    {
        let ghost views = entries_view(entries@);
        let mut tags: Vec<String> = Vec::new();
        let mut buckets: Vec<Vec<usize>> = Vec::new();
        let ghost mut occs: Seq<Occurrence> = Seq::empty();
        let mut i: usize = 0;
        assert(strings_view(tags@) =~= tags_of(occs));
        assert(views.take(0) =~= Seq::<KnowledgeView>::empty());
        while i < entries.len()
            invariant
                i <= entries.len(),
                views == entries_view(entries@),
                represents(tags@, buckets@, occs),
                occs == occurrences(views.take(i as int)),
            decreases entries.len() - i,
        {
            let entry = &entries[i];
            let ghost before = occs;
            let mut j: usize = 0;
            assert(occurrences_in(views[i as int].tag.take(0), i as int) =~= Seq::<
                Occurrence,
            >::empty());
            assert(before + Seq::<Occurrence>::empty() =~= before);
            while j < entry.tag.len()
                invariant
                    j <= entry.tag.len(),
                    i < entries.len(),
                    entry == entries@[i as int],
                    views == entries_view(entries@),
                    represents(tags@, buckets@, occs),
                    occs == before + occurrences_in(views[i as int].tag.take(j as int), i as int),
                decreases entry.tag.len() - j,
            {
                add_occurrence(&mut tags, &mut buckets, &entry.tag[j], i, Ghost(occs));
                proof {
                    let entry_tags = views[i as int].tag;
                    assert(entry_tags[j as int] == entry.tag@[j as int]@);
                    assert(occurrences_in(entry_tags.take(j + 1), i as int)
                        =~= occurrences_in(entry_tags.take(j as int), i as int).push(
                        (entry_tags[j as int], i as int),
                    ));
                    assert((before + occurrences_in(entry_tags.take(j as int), i as int)).push(
                        (entry_tags[j as int], i as int),
                    ) =~= before + occurrences_in(entry_tags.take(j + 1), i as int));
                    occs = occs.push((entry_tags[j as int], i as int));
                }
                j = j + 1;
            }
            proof {
                let entry_tags = views[i as int].tag;
                assert(entry_tags.take(j as int) =~= entry_tags);
                assert(views.take(i + 1).drop_last() =~= views.take(i as int));
                assert(views.take(i + 1).last() == views[i as int]);
            }
            i = i + 1;
        }
        assert(views.take(i as int) =~= views);
        proof {
            lemma_tags_of_distinct(occs);
        }
        let index = TagIndex { tags, buckets };
        proof {
            assert(index@ =~= tag_index(views)) by {
                assert forall|tag: Seq<char>| index@.dom().contains(tag) implies #[trigger] index@[tag]
                    == tag_index(views)[tag] by {
                    let k = index.keys().index_of(tag);
                    assert(index.keys()[k] == tag);
                    assert(index.tags@[k]@ == tag);
                }
            }
        }
        index
    }

    /// The tags of the index, in the order in which they first occurred.
    pub fn tags(&self) -> (tags: &Vec<String>)
        ensures
            strings_view(tags@) == self.keys(),
    {
        &self.tags
    }

    /// The positions of the entries that carry `tag`, or `None` where no
    /// entry carries it.
    pub fn get(&self, tag: &str) -> (bucket: Option<&Vec<usize>>)
        ensures
            bucket is Some <==> self@.dom().contains(tag@),
            bucket matches Some(b) ==> positions(b@) == self@[tag@],
    {
        proof {
            use_type_invariant(self);
        }
        let tag = String::from_str(tag);
        let at = position_of(&self.tags, &tag);
        if at < self.tags.len() {
            proof {
                let keys = self.keys();
                assert(keys[at as int] == tag@);
                assert(keys.contains(tag@));
                let k = keys.index_of(tag@);
                assert(keys[k] == tag@);
            }
            Some(&self.buckets[at])
        } else {
            assert(!self.keys().contains(tag@)) by {
                if self.keys().contains(tag@) {
                    let k = choose|k: int| 0 <= k < self.keys().len() && self.keys()[k] == tag@;
                    assert(self.tags@[k]@ == tag@);
                }
            }
            None
        }
    }
}

impl View for TagIndex {
    type V = Map<Seq<char>, Seq<int>>;

    closed spec fn view(&self) -> Map<Seq<char>, Seq<int>> {
        Map::new(|tag: Seq<char>| self.keys().contains(tag), |tag: Seq<char>| self.bucket(tag))
    }
}

/// One line of the listing by tags: a tag, or the entry at a position of
/// the repository.
#[derive(Debug)]
pub enum RightItem {
    Knowledge(usize),
    Parent(String),
}

/// The mathematical content of a line of the listing by tags.
pub enum RightItemView {
    Knowledge(int),
    Parent(Seq<char>),
}

impl View for RightItem {
    type V = RightItemView;

    open spec fn view(&self) -> RightItemView {
        match *self {
            RightItem::Knowledge(position) => RightItemView::Knowledge(position as int),
            RightItem::Parent(tag) => RightItemView::Parent(tag@),
        }
    }
}

/// The views of `items`, in order.
pub open spec fn items_view(items: Seq<RightItem>) -> Seq<RightItemView> {
    Seq::new(items.len(), |i: int| items[i]@)
}

/// The listing by tags: at the top, the tags; under a tag, its entries;
/// under a tag that no entry carries, nothing.
pub open spec fn list_of(
    keys: Seq<Seq<char>>,
    index: Map<Seq<char>, Seq<int>>,
    hierarchy: Option<Seq<char>>,
) -> Seq<RightItemView> {
    match hierarchy {
        Some(tag) => if index.dom().contains(tag) {
            Seq::new(index[tag].len(), |i: int| RightItemView::Knowledge(index[tag][i]))
        } else {
            Seq::empty()
        },
        None => Seq::new(keys.len(), |i: int| RightItemView::Parent(keys[i])),
    }
}

/// What the listing by tags shows: without a tag chosen, the tags in the
/// order of the index; under the tag `hierarchy`, the entries that carry
/// it.
pub fn get_list(mapping: &TagIndex, hierarchy: &Option<String>) -> (items: Vec<RightItem>)
    ensures
        items_view(items@) == list_of(
            mapping.keys(),
            mapping@,
            crate::config::string_view(*hierarchy),
        ),
{
    let mut items: Vec<RightItem> = Vec::new();
    match hierarchy {
        Some(tag) => match mapping.get(tag.as_str()) {
            Some(bucket) => {
                let mut i: usize = 0;
                while i < bucket.len()
                    invariant
                        i <= bucket.len(),
                        items@.len() == i,
                        forall|k: int|
                            0 <= k < i ==> (#[trigger] items@[k])@ == RightItemView::Knowledge(
                                bucket@[k] as int,
                            ),
                    decreases bucket.len() - i,
                {
                    items.push(RightItem::Knowledge(bucket[i]));
                    i = i + 1;
                }
                assert(items_view(items@) =~= list_of(mapping.keys(), mapping@, Some(tag@))) by {
                    assert(positions(bucket@) == mapping@[tag@]);
                    assert forall|k: int| 0 <= k < bucket@.len() implies mapping@[tag@][k]
                        == bucket@[k] as int by {
                        assert(positions(bucket@)[k] == bucket@[k] as int);
                    }
                }
            },
            None => {
                assert(items_view(items@) =~= Seq::<RightItemView>::empty());
            },
        },
        None => {
            let tags = mapping.tags();
            let mut i: usize = 0;
            while i < tags.len()
                invariant
                    i <= tags.len(),
                    items@.len() == i,
                    forall|k: int|
                        0 <= k < i ==> (#[trigger] items@[k])@ == RightItemView::Parent(tags@[k]@),
                decreases tags.len() - i,
            {
                items.push(RightItem::Parent(tags[i].clone()));
                i = i + 1;
            }
            assert(items_view(items@) =~= list_of(mapping.keys(), mapping@, None)) by {
                assert forall|k: int| 0 <= k < tags@.len() implies mapping.keys()[k] == tags@[k]@ by {
                    assert(strings_view(tags@)[k] == tags@[k]@);
                }
            }
        },
    }
    items
}

} // verus!
