//! Storage of blobs as ANS-104 DataItems on the ~s3@1.0 device: the tags a
//! DataItem carries, the object key it is stored under, and which blobs of
//! a block are stored (each versioned hash once, at its first occurrence).
use vstd::prelude::*;
use crate::text::{push_str, string_views};
use crate::types::BlobInfo;

verus! {

/// The tags of a blob's DataItem, as (name, value) pairs:
/// `content-type: application/json` and `Protocol: Load-Blobscan`.
pub open spec fn is_data_item_tags(tags: Seq<(String, String)>) -> bool {
    &&& tags.len() == 2
    &&& tags[0].0@ == "content-type"@
    &&& tags[0].1@ == "application/json"@
    &&& tags[1].0@ == "Protocol"@
    &&& tags[1].1@ == "Load-Blobscan"@
}

/// The tags put on every blob's DataItem.
pub fn data_item_tags() -> (tags: Vec<(String, String)>)
    ensures
        is_data_item_tags(tags@),
{
    let mut tags: Vec<(String, String)> = Vec::new();
    tags.push((String::from_str("content-type"), String::from_str("application/json")));
    tags.push((String::from_str("Protocol"), String::from_str("Load-Blobscan")));
    tags
}

/// `<dir>/<name>.ans104`
pub open spec fn object_key_text(dir: Seq<char>, name: Seq<char>) -> Seq<char> {
    dir + "/"@ + name + ".ans104"@
}

/// The key under which the object `name` is kept in the directory `dir`
/// of the storage bucket.
pub fn object_key(dir: &str, name: &str) -> (key: String)
    ensures
        key@ == object_key_text(dir@, name@),
{
    let mut key = String::from_str(dir);
    push_str(&mut key, "/");
    push_str(&mut key, name);
    push_str(&mut key, ".ans104");
    proof {
        reveal_strlit("/");
        reveal_strlit(".ans104");
        assert(key@ =~= object_key_text(dir@, name@));
    }
    key
}

/// `<bucket>/<dir>/<name>.ans104`, the key layout that prefixes the bucket.
pub open spec fn bucket_object_key_text(bucket: Seq<char>, dir: Seq<char>, name: Seq<char>) -> Seq<
    char,
> {
    bucket + "/"@ + object_key_text(dir, name)
}

/// The key of the object `name` in `dir`, prefixed with the bucket name.
pub fn bucket_object_key(bucket: &str, dir: &str, name: &str) -> (key: String)
    ensures
        key@ == bucket_object_key_text(bucket@, dir@, name@),
{
    let mut key = String::from_str(bucket);
    push_str(&mut key, "/");
    let rest = object_key(dir, name);
    push_str(&mut key, rest.as_str());
    proof {
        reveal_strlit("/");
        assert(key@ =~= bucket_object_key_text(bucket@, dir@, name@));
    }
    key
}

/// The versioned hashes of a sequence of blobs.
pub open spec fn hashes(blobs: Seq<BlobInfo>) -> Seq<Seq<char>> {
    blobs.map_values(|b: BlobInfo| b.versioned_hash@)
}

/// The blobs that are stored when a block's blobs are inserted, in order:
/// each blob whose versioned hash did not occur earlier in the block.
pub open spec fn first_occurrences(blobs: Seq<BlobInfo>) -> Seq<BlobInfo>
    decreases blobs.len(),
{
    if blobs.len() == 0 {
        Seq::empty()
    } else {
        let kept = first_occurrences(blobs.drop_last());
        if hashes(kept).contains(blobs.last().versioned_hash@) {
            kept
        } else {
            kept.push(blobs.last())
        }
    }
}

fn contains_hash(seen: &Vec<String>, hash: &String) -> (r: bool)
    ensures
        r == string_views(seen@).contains(hash@),
{
    let mut i: usize = 0;
    while i < seen.len()
        invariant
            i <= seen@.len(),
            forall|k: int| 0 <= k < i ==> seen@[k]@ != hash@,
        decreases seen@.len() - i,
    {
        if seen[i] == *hash {
            assert(string_views(seen@)[i as int] == hash@);
            return true;
        }
        i = i + 1;
    }
    proof {
        let views = string_views(seen@);
        if views.contains(hash@) {
            let k = choose|k: int| 0 <= k < views.len() && views[k] == hash@;
            assert(seen@[k]@ == hash@);
        }
    }
    false
}

/// The blobs of a block that are to be stored, in order: a blob is skipped
/// when a blob with the same versioned hash came before it.
pub fn blobs_to_store(blobs: &Vec<BlobInfo>) -> (r: Vec<BlobInfo>)
    ensures
        r@ == first_occurrences(blobs@),
{
    let mut out: Vec<BlobInfo> = Vec::new();
    let mut seen: Vec<String> = Vec::new();
    let mut i: usize = 0;
    while i < blobs.len()
        invariant
            i <= blobs@.len(),
            out@ == first_occurrences(blobs@.take(i as int)),
            string_views(seen@) == hashes(out@),
        decreases blobs@.len() - i,
    {
        assert(blobs@.take(i + 1).drop_last() =~= blobs@.take(i as int));
        assert(blobs@.take(i + 1).last() == blobs@[i as int]);
        if !contains_hash(&seen, &blobs[i].versioned_hash) {
            let ghost before_out = out@;
            let ghost before_seen = seen@;
            let b = blobs[i].clone();
            let h = blobs[i].versioned_hash.clone();
            assert(b == blobs@[i as int]);
            assert(h@ == b.versioned_hash@);
            out.push(b);
            seen.push(h);
            assert(out@ == before_out.push(blobs@[i as int]));
            assert(seen@ == before_seen.push(h));
            assert(string_views(before_seen) == hashes(before_out));
            assert(before_seen.len() == string_views(before_seen).len());
            assert(before_out.len() == hashes(before_out).len());
            assert forall|k: int| 0 <= k < out@.len() implies #[trigger] string_views(seen@)[k] == hashes(out@)[k] by {
                if k < before_out.len() {
                    assert(seen@[k] == before_seen[k]);
                    assert(string_views(before_seen)[k] == hashes(before_out)[k]);
                }
            }
            assert(string_views(seen@) =~= hashes(out@));
        }
        i = i + 1;
    }
    assert(blobs@.take(i as int) =~= blobs@);
    out
}

proof fn lemma_hashes_push(blobs: Seq<BlobInfo>, b: BlobInfo)
    ensures
        hashes(blobs.push(b)) == hashes(blobs).push(b.versioned_hash@),
{
    assert(hashes(blobs.push(b)) =~= hashes(blobs).push(b.versioned_hash@));
}

/// No two stored blobs of a block share a versioned hash.
pub proof fn lemma_stored_hashes_distinct(blobs: Seq<BlobInfo>)
    ensures
        hashes(first_occurrences(blobs)).no_duplicates(),
    decreases blobs.len(),
{
    if blobs.len() > 0 {
        let kept = first_occurrences(blobs.drop_last());
        lemma_stored_hashes_distinct(blobs.drop_last());
        if !hashes(kept).contains(blobs.last().versioned_hash@) {
            lemma_hashes_push(kept, blobs.last());
        }
    }
}

/// Every versioned hash of the block is stored: no blob is lost except as a
/// repeat of a hash already stored.
pub proof fn lemma_every_hash_stored(blobs: Seq<BlobInfo>)
    ensures
        forall|i: int|
            0 <= i < blobs.len() ==> hashes(first_occurrences(blobs)).contains(
                #[trigger] blobs[i].versioned_hash@,
            ),
    decreases blobs.len(),
{
    if blobs.len() > 0 {
        let prefix = blobs.drop_last();
        let kept = first_occurrences(prefix);
        lemma_every_hash_stored(prefix);
        let last = blobs.last();
        if !hashes(kept).contains(last.versioned_hash@) {
            lemma_hashes_push(kept, last);
            assert forall|i: int| 0 <= i < blobs.len() implies hashes(
                first_occurrences(blobs),
            ).contains(#[trigger] blobs[i].versioned_hash@) by {
                if i < prefix.len() {
                    assert(prefix[i] == blobs[i]);
                    assert(hashes(kept).contains(prefix[i].versioned_hash@));
                    let j = choose|j: int|
                        0 <= j < hashes(kept).len() && hashes(kept)[j] == prefix[i].versioned_hash@;
                    assert(hashes(first_occurrences(blobs))[j] == hashes(kept)[j]);
                } else {
                    assert(hashes(first_occurrences(blobs))[hashes(kept).len() as int]
                        == last.versioned_hash@);
                }
            }
        } else {
            assert forall|i: int| 0 <= i < blobs.len() implies hashes(
                first_occurrences(blobs),
            ).contains(#[trigger] blobs[i].versioned_hash@) by {
                if i < prefix.len() {
                    assert(prefix[i] == blobs[i]);
                }
            }
        }
    }
}

/// Each stored blob is a blob of the block, and it is the first blob of the
/// block with its versioned hash.
pub proof fn lemma_stored_are_first_occurrences(blobs: Seq<BlobInfo>)
    ensures
        forall|k: int|
            0 <= k < first_occurrences(blobs).len() ==> exists|i: int|
                0 <= i < blobs.len() && #[trigger] first_occurrences(blobs)[k] == blobs[i] && (
                forall|j: int| 0 <= j < i ==> blobs[j].versioned_hash@ != blobs[i].versioned_hash@),
    decreases blobs.len(),
{
    if blobs.len() > 0 {
        let prefix = blobs.drop_last();
        let kept = first_occurrences(prefix);
        let last = blobs.last();
        lemma_stored_are_first_occurrences(prefix);
        lemma_every_hash_stored(prefix);
        assert forall|k: int| 0 <= k < first_occurrences(blobs).len() implies exists|i: int|
            0 <= i < blobs.len() && #[trigger] first_occurrences(blobs)[k] == blobs[i] && (
            forall|j: int| 0 <= j < i ==> blobs[j].versioned_hash@ != blobs[i].versioned_hash@) by {
            if k < kept.len() {
                assert(first_occurrences(blobs)[k] == kept[k]);
                let i = choose|i: int|
                    0 <= i < prefix.len() && #[trigger] kept[k] == prefix[i] && (forall|j: int|
                        0 <= j < i ==> prefix[j].versioned_hash@ != prefix[i].versioned_hash@);
                assert(prefix[i] == blobs[i]);
                assert forall|j: int| 0 <= j < i implies blobs[j].versioned_hash@
                    != blobs[i].versioned_hash@ by {
                    assert(prefix[j] == blobs[j]);
                }
            } else {
                let i = blobs.len() - 1;
                assert(first_occurrences(blobs)[k] == last);
                assert(!hashes(kept).contains(last.versioned_hash@));
                assert forall|j: int| 0 <= j < i implies blobs[j].versioned_hash@
                    != blobs[i].versioned_hash@ by {
                    assert(prefix[j] == blobs[j]);
                    assert(hashes(kept).contains(prefix[j].versioned_hash@));
                }
            }
        }
    }
}

proof fn lemma_distinct_kept_whole(blobs: Seq<BlobInfo>)
    requires
        hashes(blobs).no_duplicates(),
    ensures
        first_occurrences(blobs) == blobs,
    decreases blobs.len(),
{
    if blobs.len() > 0 {
        let prefix = blobs.drop_last();
        let last = blobs.last();
        assert(hashes(prefix) =~= hashes(blobs).drop_last());
        assert(hashes(prefix).no_duplicates()) by {
            assert forall|i: int, j: int|
                0 <= i < hashes(prefix).len() && 0 <= j < hashes(prefix).len() && i != j implies
                hashes(prefix)[i] != hashes(prefix)[j] by {
                assert(hashes(prefix)[i] == hashes(blobs)[i]);
                assert(hashes(prefix)[j] == hashes(blobs)[j]);
            }
        }
        lemma_distinct_kept_whole(prefix);
        if hashes(prefix).contains(last.versioned_hash@) {
            let j = choose|j: int|
                0 <= j < hashes(prefix).len() && hashes(prefix)[j] == last.versioned_hash@;
            assert(hashes(blobs)[j] == hashes(blobs)[blobs.len() - 1]);
        }
        assert(prefix.push(last) =~= blobs);
    }
}

/// Storing is idempotent: the blobs stored for the stored blobs are the
/// stored blobs themselves.
pub proof fn lemma_store_idempotent(blobs: Seq<BlobInfo>)
    ensures
        first_occurrences(first_occurrences(blobs)) == first_occurrences(blobs),
{
    lemma_stored_hashes_distinct(blobs);
    lemma_distinct_kept_whole(first_occurrences(blobs));
}


/// An object key carries the directory and the whole object name, character
/// for character: `<dir>` then `/`, the name, then `.ans104` (7 characters),
/// so the key is `len(dir) + len(name) + 8` long, the name is recovered by
/// removing the prefix and the suffix, and distinct names in one directory
/// give distinct keys.
pub proof fn lemma_object_key_holds_name(dir: Seq<char>, name: Seq<char>, other: Seq<char>)
    ensures
        object_key_text(dir, name).len() == dir.len() as int + name.len() as int + 8,
        object_key_text(dir, name).subrange(0, dir.len() as int) == dir,
        object_key_text(dir, name)[dir.len() as int] == '/',
        object_key_text(dir, name).subrange(dir.len() as int + 1, dir.len() as int + 1 + name.len() as int) == name,
        object_key_text(dir, name).subrange(dir.len() as int + 1 + name.len() as int, dir.len() as int + name.len() as int + 8)
            == ".ans104"@,
        object_key_text(dir, name) == object_key_text(dir, other) ==> name == other,
{
    reveal_strlit("/");
    reveal_strlit(".ans104");
    let k = object_key_text(dir, name);
    let d = dir.len() as int;
    let n = name.len() as int;
    assert(k.subrange(0, d) =~= dir);
    assert(k.subrange(d + 1, d + 1 + n) =~= name);
    assert(k.subrange(d + 1 + n, d + n + 8) =~= ".ans104"@);
    let k2 = object_key_text(dir, other);
    assert(k2.subrange(d + 1, d + 1 + other.len() as int) =~= other);
    if k == k2 {
        assert(n == other.len() as int);
    }
}

} // verus!
