//! Tag mappings: the features that a map object carries.

use vstd::prelude::*;

verus! {

/// A tag mapping as a list of key and value pairs, in the order of insertion.
pub type TagSeq = Seq<(Seq<char>, Seq<char>)>;

/// Whether no key occurs twice in `tags`.
pub open spec fn distinct_keys(tags: TagSeq) -> bool {
    forall|i: int, j: int| 0 <= i < j < tags.len() ==> tags[i].0 != tags[j].0
}

/// The position of `key` in `tags`, or the length of `tags` where no entry has
/// that key.
pub open spec fn key_index(tags: TagSeq, key: Seq<char>) -> int
    decreases tags.len(),
{
    if tags.len() == 0 {
        0
    } else if tags[0].0 == key {
        0
    } else {
        1 + key_index(tags.drop_first(), key)
    }
}

/// The value that `tags` maps `key` to.
pub open spec fn tag_value(tags: TagSeq, key: Seq<char>) -> Option<Seq<char>> {
    if key_index(tags, key) < tags.len() {
        Some(tags[key_index(tags, key)].1)
    } else {
        None
    }
}

/// `tags` with `key` mapped to `value`: the entry of `key` gets the new value
/// in its place, and a new key goes to the end.
pub open spec fn with_tag(tags: TagSeq, key: Seq<char>, value: Seq<char>) -> TagSeq {
    if key_index(tags, key) < tags.len() {
        tags.update(key_index(tags, key), (key, value))
    } else {
        tags.push((key, value))
    }
}

/// `key_index` is the first position that holds the key.
pub proof fn lemma_key_index(tags: TagSeq, key: Seq<char>)
    ensures
        0 <= key_index(tags, key) <= tags.len(),
        forall|k: int| 0 <= k < key_index(tags, key) ==> (#[trigger] tags[k]).0 != key,
        key_index(tags, key) < tags.len() ==> tags[key_index(tags, key)].0 == key,
    decreases tags.len(),
{
    if tags.len() > 0 && tags[0].0 != key {
        let rest = tags.drop_first();
        lemma_key_index(rest, key);
        assert forall|k: int| 0 <= k < key_index(tags, key) implies (#[trigger] tags[k]).0
            != key by {
            if k > 0 {
                assert(tags[k] == rest[k - 1]);
            }
        }
        if key_index(tags, key) < tags.len() {
            assert(tags[key_index(tags, key)] == rest[key_index(rest, key)]);
        }
    }
}

/// The first position that holds the key is `key_index`.
pub proof fn lemma_key_index_is(tags: TagSeq, key: Seq<char>, at: int)
    requires
        0 <= at <= tags.len(),
        forall|k: int| 0 <= k < at ==> (#[trigger] tags[k]).0 != key,
        at < tags.len() ==> tags[at].0 == key,
    ensures
        key_index(tags, key) == at,
{
    lemma_key_index(tags, key);
    let found = key_index(tags, key);
    if found < at {
        assert(tags[found].0 != key);
    }
    if at < found {
        assert(tags[at].0 != key);
    }
}

/// Setting a tag keeps the keys distinct, and afterwards the key has the new
/// value and every other key the value it had.
pub proof fn lemma_with_tag(tags: TagSeq, key: Seq<char>, value: Seq<char>)
    requires
        distinct_keys(tags),
    ensures
        distinct_keys(with_tag(tags, key, value)),
        tag_value(with_tag(tags, key, value), key) == Some(value),
        forall|other: Seq<char>|
            other != key ==> #[trigger] tag_value(with_tag(tags, key, value), other) == tag_value(
                tags,
                other,
            ),
{
    let after = with_tag(tags, key, value);
    let at = key_index(tags, key);
    lemma_key_index(tags, key);
    assert(distinct_keys(after)) by {
        assert forall|i: int, j: int| 0 <= i < j < after.len() implies after[i].0
            != after[j].0 by {
            if at < tags.len() {
                assert(after[i].0 == tags[i].0);
                assert(after[j].0 == tags[j].0);
            } else if j == tags.len() {
                assert(tags[i].0 != key);
            }
        }
    }
    lemma_key_index_is(after, key, at);
    assert forall|other: Seq<char>| other != key implies #[trigger] tag_value(after, other)
        == tag_value(tags, other) by {
        lemma_key_index(tags, other);
        let found = key_index(tags, other);
        if found < tags.len() {
            assert forall|k: int| 0 <= k < found implies (#[trigger] after[k]).0 != other by {
                assert(tags[k].0 != other);
            }
            lemma_key_index_is(after, other, found);
        } else {
            assert forall|k: int| 0 <= k < after.len() implies (#[trigger] after[k]).0
                != other by {
                if k < tags.len() {
                    assert(tags[k].0 != other);
                }
            }
            lemma_key_index_is(after, other, after.len() as int);
        }
    }
}

/// One tag: a key and its value.
#[derive(Debug)]
pub struct Tag {
    pub key: String,
    pub value: String,
}

impl View for Tag {
    type V = (Seq<char>, Seq<char>);

    open spec fn view(&self) -> (Seq<char>, Seq<char>) {
        (self.key@, self.value@)
    }
}

impl Clone for Tag {
    fn clone(&self) -> (r: Tag)
        ensures
            r@ == self@,
    {
        Tag { key: self.key.clone(), value: self.value.clone() }
    }
}

/// The tags of one map object: a mapping from keys to values in which no key
/// occurs twice.
#[derive(Debug)]
pub struct Tags {
    entries: Vec<Tag>,
}

impl View for Tags {
    type V = TagSeq;

    closed spec fn view(&self) -> TagSeq {
        self.entries@.map_values(|t: Tag| t@)
    }
}

impl Tags {
    /// Whether no key occurs twice: every value made by this type's functions
    /// is well formed.
    pub open spec fn wf(&self) -> bool {
        distinct_keys(self@)
    }

    /// The empty mapping.
    pub fn new() -> (r: Tags)
        ensures
            r@ == TagSeq::empty(),
            r.wf(),
    {
        let r = Tags { entries: Vec::new() };
        assert(r@ == TagSeq::empty());
        r
    }

    /// The number of tags.
    pub fn len(&self) -> (n: usize)
        ensures
            n == self@.len(),
    {
        self.entries.len()
    }

    /// Whether there is no tag.
    pub fn is_empty(&self) -> (b: bool)
        ensures
            b == (self@.len() == 0),
    {
        self.entries.len() == 0
    }

    /// The tag at position `i`, in the order of insertion.
    pub fn entry(&self, i: usize) -> (t: &Tag)
        requires
            i < self@.len(),
        ensures
            t@ == self@[i as int],
    {
        &self.entries[i]
    }

    /// The position of the tag with the given key.
    fn position(&self, key: &String) -> (at: usize)
        ensures
            at == key_index(self@, key@),
            at <= self@.len(),
    {
        let n = self.entries.len();
        let mut i: usize = 0;
        while i < n
            invariant
                n == self.entries.len(),
                i <= n,
                forall|k: int| 0 <= k < i ==> (#[trigger] self@[k]).0 != key@,
            decreases n - i,
        {
            if self.entries[i].key == *key {
                proof {
                    lemma_key_index_is(self@, key@, i as int);
                }
                return i;
            }
            i = i + 1;
        }
        proof {
            lemma_key_index_is(self@, key@, n as int);
        }
        n
    }

    /// The value of `key`, where there is one.
    pub fn get(&self, key: &String) -> (r: Option<&String>)
        ensures
            r matches Some(v) ==> tag_value(self@, key@) == Some(v@),
            r is None ==> tag_value(self@, key@) is None,
    {
        let at = self.position(key);
        if at < self.entries.len() {
            Some(&self.entries[at].value)
        } else {
            None
        }
    }

    /// Whether `key` is mapped to some value.
    pub fn contains_key(&self, key: &String) -> (b: bool)
        ensures
            b == tag_value(self@, key@).is_some(),
    {
        self.position(key) < self.entries.len()
    }

    /// Whether `key` is mapped to `value`.
    pub fn contains(&self, key: &String, value: &String) -> (b: bool)
        ensures
            b == (tag_value(self@, key@) == Some(value@)),
    {
        let at = self.position(key);
        at < self.entries.len() && self.entries[at].value == *value
    }

    /// Maps `key` to `value`, in place of the value it had, if any.
    pub fn insert(&mut self, key: String, value: String)
        ensures
            final(self)@ == with_tag(old(self)@, key@, value@),
            old(self).wf() ==> final(self).wf(),
    {
        let at = self.position(&key);
        proof {
            if self.wf() {
                lemma_with_tag(self@, key@, value@);
            }
        }
        if at < self.entries.len() {
            self.entries.set(at, Tag { key, value });
            assert(self@ == with_tag(old(self)@, key@, value@));
        } else {
            self.entries.push(Tag { key, value });
            assert(self@ == with_tag(old(self)@, key@, value@));
        }
    }
}

impl Clone for Tags {
    fn clone(&self) -> (r: Tags)
        ensures
            r@ == self@,
    {
        let n = self.entries.len();
        let mut entries: Vec<Tag> = Vec::new();
        let mut i: usize = 0;
        while i < n
            invariant
                n == self.entries.len(),
                i <= n,
                entries@.map_values(|t: Tag| t@) == self@.subrange(0, i as int),
            decreases n - i,
        {
            let tag = self.entries[i].clone();
            let ghost before = entries@;
            entries.push(tag);
            i = i + 1;
            proof {
                let shown = entries@.map_values(|t: Tag| t@);
                let wanted = self@.subrange(0, i as int);
                assert(before.map_values(|t: Tag| t@) == self@.subrange(0, i - 1));
                assert forall|k: int| 0 <= k < shown.len() implies shown[k] == wanted[k] by {
                    if k < i - 1 {
                        assert(entries@[k] == before[k]);
                        assert(before.map_values(|t: Tag| t@)[k] == self@.subrange(0, i - 1)[k]);
                    } else {
                        assert(entries@[k] == tag);
                        assert(self@[k] == self.entries@[k]@);
                    }
                }
                assert(shown =~= wanted);
            }
        }
        let r = Tags { entries };
        assert(r@ == self@.subrange(0, n as int));
        assert(self@.subrange(0, n as int) == self@);
        r
    }
}

} // verus!
