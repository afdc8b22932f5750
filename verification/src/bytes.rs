//! Sequences of byte chunks, seen as the one byte sequence that they make up.

use vstd::prelude::*;

verus! {

/// The bytes of all chunks, in order.
pub open spec fn joined(chunks: Seq<Seq<u8>>) -> Seq<u8>
    decreases chunks.len(),
{
    if chunks.len() == 0 {
        Seq::empty()
    } else {
        joined(chunks.drop_last()) + chunks.last()
    }
}

/// Whether neither sequence contradicts the other: one of them begins with the other.
pub open spec fn agree<T>(a: Seq<T>, b: Seq<T>) -> bool {
    a.is_prefix_of(b) || b.is_prefix_of(a)
}

/// One more chunk adds its bytes at the end.
pub proof fn lemma_joined_push(chunks: Seq<Seq<u8>>, chunk: Seq<u8>)
    ensures
        joined(chunks.push(chunk)) == joined(chunks) + chunk,
{
    assert(chunks.push(chunk).drop_last() =~= chunks);
}

/// The first chunks make up the first bytes.
pub proof fn lemma_joined_prefix(first: Seq<Seq<u8>>, all: Seq<Seq<u8>>)
    requires
        first.is_prefix_of(all),
    ensures
        joined(first).is_prefix_of(joined(all)),
    decreases all.len(),
{
    if first.len() == all.len() {
        assert(first =~= all);
    } else {
        lemma_joined_prefix(first, all.drop_last());
        assert(joined(all) =~= joined(all.drop_last()) + all.last());
    }
}

/// Of two beginnings of one sequence neither contradicts the other.
pub proof fn lemma_prefixes_agree<T>(a: Seq<T>, b: Seq<T>, whole: Seq<T>)
    requires
        a.is_prefix_of(whole),
        b.is_prefix_of(whole),
    ensures
        agree(a, b),
{
    if a.len() <= b.len() {
        assert(a =~= b.subrange(0, a.len() as int));
    } else {
        assert(b =~= a.subrange(0, b.len() as int));
    }
}

/// Joining keeps every byte and its place: no chunks have no bytes, one chunk has its own, and the
/// bytes of some chunks followed by others are the bytes of the first followed by those of the
/// others.
pub proof fn law_joining_concatenates(a: Seq<Seq<u8>>, b: Seq<Seq<u8>>, chunk: Seq<u8>)
    ensures
        joined(Seq::<Seq<u8>>::empty()).len() == 0,
        joined(seq![chunk]) == chunk,
        joined(a + b) == joined(a) + joined(b),
    decreases b.len(),
{
    lemma_joined_push(Seq::empty(), chunk);
    assert(Seq::<Seq<u8>>::empty().push(chunk) =~= seq![chunk]);
    assert(joined(seq![chunk]) =~= chunk);
    if b.len() == 0 {
        assert(a + b =~= a);
        assert(joined(a + b) =~= joined(a) + joined(b));
    } else {
        law_joining_concatenates(a, b.drop_last(), chunk);
        assert((a + b).drop_last() =~= a + b.drop_last());
        assert((a + b).last() == b.last());
        assert(joined(a + b) =~= joined(a) + joined(b));
    }
}

/// Two sequences agree if, and only if, they are the same as far as both go.
pub proof fn law_agreeing_is_being_the_same<T>(a: Seq<T>, b: Seq<T>)
    ensures
        agree(a, b) <==> (forall|i: int|
            0 <= i < a.len() && i < b.len() ==> #[trigger] a[i] == #[trigger] b[i]),
{
    if forall|i: int| 0 <= i < a.len() && i < b.len() ==> #[trigger] a[i] == #[trigger] b[i] {
        if a.len() <= b.len() {
            assert(a =~= b.subrange(0, a.len() as int));
        } else {
            assert(b =~= a.subrange(0, b.len() as int));
        }
    }
    if a.is_prefix_of(b) {
        assert forall|i: int| 0 <= i < a.len() && i < b.len() implies #[trigger] a[i]
            == #[trigger] b[i] by {
            assert(b.subrange(0, a.len() as int)[i] == b[i]);
        }
    }
    if b.is_prefix_of(a) {
        assert forall|i: int| 0 <= i < a.len() && i < b.len() implies #[trigger] a[i]
            == #[trigger] b[i] by {
            assert(a.subrange(0, b.len() as int)[i] == a[i]);
        }
    }
}

} // verus!
