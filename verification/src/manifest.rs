//! Checksum manifests: one line that pairs a digest with a file name.

use crate::text::{char_is_space, chars_of, is_space, trim_bounds, trimmed};
use vstd::prelude::*;

verus! {

/// The position of the first white space character in `s`, or the length of
/// `s` where it has none.
pub open spec fn first_space(s: Seq<char>) -> int
    decreases s.len(),
{
    if s.len() == 0 || is_space(s[0]) {
        0
    } else {
        1 + first_space(s.drop_first())
    }
}

/// The digest field of a manifest: the text before the first white space.
pub open spec fn digest_field(text: Seq<char>) -> Seq<char> {
    text.subrange(0, first_space(text))
}

/// The name field of a manifest: the text from the first white space on,
/// trimmed.
pub open spec fn name_field(text: Seq<char>) -> Seq<char> {
    trimmed(text.skip(first_space(text)))
}

/// Whether a manifest has its two fields: neither is empty.
pub open spec fn has_two_fields(text: Seq<char>) -> bool {
    digest_field(text).len() > 0 && name_field(text).len() > 0
}

/// The text of `path` after its last `/`: the name of the file in its
/// directory.
pub open spec fn base_name(path: Seq<char>) -> Seq<char>
    decreases path.len(),
{
    if path.len() == 0 {
        path
    } else if path.last() == '/' {
        Seq::empty()
    } else {
        base_name(path.drop_last()).push(path.last())
    }
}

/// Before the first white space stands none, and at it stands one.
pub proof fn lemma_first_space(s: Seq<char>)
    ensures
        0 <= first_space(s) <= s.len(),
        forall|k: int| 0 <= k < first_space(s) ==> !is_space(#[trigger] s[k]),
        first_space(s) < s.len() ==> is_space(s[first_space(s)]),
    decreases s.len(),
{
    if s.len() > 0 && !is_space(s[0]) {
        let rest = s.drop_first();
        lemma_first_space(rest);
        assert forall|k: int| 0 <= k < first_space(s) implies !is_space(#[trigger] s[k]) by {
            if k > 0 {
                assert(s[k] == rest[k - 1]);
            }
        }
        if first_space(s) < s.len() {
            assert(s[first_space(s)] == rest[first_space(rest)]);
        }
    }
}

/// The first white space is where a white space stands with none before it.
pub proof fn lemma_first_space_is(s: Seq<char>, at: int)
    requires
        0 <= at <= s.len(),
        forall|k: int| 0 <= k < at ==> !is_space(#[trigger] s[k]),
        at < s.len() ==> is_space(s[at]),
    ensures
        first_space(s) == at,
{
    lemma_first_space(s);
    let found = first_space(s);
    if found < at {
        assert(!is_space(s[found]));
    }
    if at < found {
        assert(!is_space(s[at]));
    }
}

/// The base name is the text from `from` on, where `from` follows the last
/// `/` or is the start of a path without one.
pub proof fn lemma_base_name_is(path: Seq<char>, from: int)
    requires
        0 <= from <= path.len(),
        forall|k: int| from <= k < path.len() ==> #[trigger] path[k] != '/',
        from > 0 ==> path[from - 1] == '/',
    ensures
        base_name(path) == path.skip(from),
    decreases path.len(),
{
    if path.len() == 0 {
        assert(path.skip(0) == path);
    } else if path.last() == '/' {
        assert(from == path.len()) by {
            if from < path.len() {
                assert(path[path.len() - 1] != '/');
            }
        }
        assert(path.skip(from) == Seq::<char>::empty());
    } else {
        let front = path.drop_last();
        assert(from < path.len());
        assert forall|k: int| from <= k < front.len() implies #[trigger] front[k] != '/' by {
            assert(front[k] == path[k]);
        }
        lemma_base_name_is(front, from);
        assert(front.skip(from).push(path.last()) == path.skip(from));
    }
}

/// What a checksum manifest says.
#[derive(Debug)]
pub struct Manifest {
    /// The digest of the file, in hexadecimal.
    pub digest: String,
    /// The name of the file that the digest is of.
    pub file_name: String,
}

/// Reads a manifest, or tells that it lacks one of its two fields.
pub fn parse_manifest(text: &str) -> (r: Option<Manifest>)
    ensures
        r is Some <==> has_two_fields(text@),
        r matches Some(m) ==> m.digest@ == digest_field(text@) && m.file_name@ == name_field(
            text@,
        ),
{
    let s = chars_of(text);
    let n = s.len();
    let mut i: usize = 0;
    while i < n && !char_is_space(s[i])
        invariant
            n == s.len(),
            i <= n,
            forall|k: int| 0 <= k < i ==> !is_space(#[trigger] s@[k]),
        decreases n - i,
    {
        i = i + 1;
    }
    proof {
        lemma_first_space_is(s@, i as int);
        assert(s@.subrange(i as int, n as int) == text@.skip(i as int));
    }
    let (a, b) = trim_bounds(&s, i, n);
    if i == 0 || a == b {
        return None;
    }
    let digest = String::from_str(text.substring_char(0, i));
    let file_name = String::from_str(text.substring_char(a, b));
    Some(Manifest { digest, file_name })
}

/// The name of the file that `path` leads to.
pub fn file_name_of(path: &str) -> (name: String)
    ensures
        name@ == base_name(path@),
{
    let s = chars_of(path);
    let n = s.len();
    let mut from: usize = n;
    while from > 0 && s[from - 1] != '/'
        invariant
            n == s.len(),
            from <= n,
            forall|k: int| from <= k < n ==> #[trigger] s@[k] != '/',
        decreases from,
    {
        from = from - 1;
    }
    proof {
        lemma_base_name_is(s@, from as int);
        assert(s@.subrange(from as int, n as int) == s@.skip(from as int));
    }
    String::from_str(path.substring_char(from, n))
}

} // verus!
