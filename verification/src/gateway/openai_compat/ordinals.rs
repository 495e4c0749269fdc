//! Numbering the tool calls of a streamed reply.
use vstd::prelude::*;

verus! {

/// The tool calls seen in a stream, by choice and by the key the provider gave
/// each, in the order they first came.
///
/// A client tells the calls of one choice apart by position. Providers number
/// them by whatever they count, so each is given the next position when it is
/// first seen, and keeps it.
#[derive(Debug)]
pub struct ToolCallOrdinals {
    seen: Vec<(u32, u32)>,
}

/// The position of a call: how many calls of its choice were seen before it.
pub open spec fn rank(seen: Seq<(u32, u32)>, choice: u32, key: u32) -> nat
    decreases seen.len(),
{
    if seen.len() == 0 || seen[0] == (choice, key) {
        0
    } else {
        (if seen[0].0 == choice {
            1nat
        } else {
            0nat
        }) + rank(seen.drop_first(), choice, key)
    }
}

/// The calls seen once a call has been.
pub open spec fn noted(seen: Seq<(u32, u32)>, choice: u32, key: u32) -> Seq<(u32, u32)> {
    if seen.contains((choice, key)) {
        seen
    } else {
        seen.push((choice, key))
    }
}

/// How many calls of a choice were seen.
pub open spec fn calls_seen(seen: Seq<(u32, u32)>, choice: u32) -> nat
    decreases seen.len(),
{
    if seen.len() == 0 {
        0
    } else {
        (if seen[0].0 == choice {
            1nat
        } else {
            0nat
        }) + calls_seen(seen.drop_first(), choice)
    }
}

impl View for ToolCallOrdinals {
    type V = Seq<(u32, u32)>;

    closed spec fn view(&self) -> Seq<(u32, u32)> {
        self.seen@
    }
}

impl ToolCallOrdinals {
    /// No call is noted twice.
    #[verifier::type_invariant]
    closed spec fn each_once(self) -> bool {
        self.seen@.no_duplicates()
    }

    /// No call seen yet.
    pub fn new() -> (r: Self)
        ensures
            r@ == Seq::<(u32, u32)>::empty(),
    {
        ToolCallOrdinals { seen: Vec::new() }
    }

    /// The position of a call, which is noted if it is new.
    pub fn ordinal(&mut self, choice: u32, key: u32) -> (r: u32)
        ensures
            r == rank(old(self)@, choice, key),
            final(self)@ == noted(old(self)@, choice, key),
    {
        proof {
            use_type_invariant(&*self);
        }
        let ghost seen = self.seen@;
        let mut position: u64 = 0;
        assert(seen.skip(0) =~= seen);
        let n: usize = self.seen.len();
        for i in 0..n
            invariant
                seen == self.seen@,
                seen == old(self)@,
                n == seen.len(),
                position <= i,
                seen.no_duplicates(),
                rank(seen, choice, key) == position + rank(seen.skip(i as int), choice, key),
                forall|j: int| 0 <= j < i ==> seen[j] != (choice, key),
        {
            assert(seen.skip(i as int).drop_first() =~= seen.skip(i + 1));
            let (seen_choice, seen_key) = self.seen[i];
            if seen_choice == choice && seen_key == key {
                assert(seen.contains((choice, key))) by {
                    assert(seen[i as int] == (choice, key));
                }
                proof {
                    lemma_rank_fits(seen, choice, key);
                }
                return position as u32;
            }
            if seen_choice == choice {
                position = position + 1;
            }
        }
        assert(!seen.contains((choice, key)));
        proof {
            lemma_rank_fits(seen, choice, key);
        }
        self.seen = extended(&self.seen, (choice, key));
        position as u32
    }
}

/// The entries with one more.
fn extended(entries: &Vec<(u32, u32)>, entry: (u32, u32)) -> (r: Vec<(u32, u32)>)
    ensures
        r@ == entries@.push(entry),
{
    let mut out: Vec<(u32, u32)> = Vec::new();
    for i in 0..entries.len()
        invariant
            out@ == entries@.take(i as int),
    {
        out.push(entries[i]);
        assert(out@ =~= entries@.take(i + 1));
    }
    assert(out@ =~= entries@);
    out.push(entry);
    out
}

/// The keys of a choice that were seen before a call.
spec fn keys_before(seen: Seq<(u32, u32)>, choice: u32, key: u32) -> Seq<int>
    decreases seen.len(),
{
    if seen.len() == 0 || seen[0] == (choice, key) {
        Seq::empty()
    } else {
        (if seen[0].0 == choice {
            seq![seen[0].1 as int]
        } else {
            Seq::empty()
        }) + keys_before(seen.drop_first(), choice, key)
    }
}

proof fn lemma_keys_before(seen: Seq<(u32, u32)>, choice: u32, key: u32)
    requires
        seen.no_duplicates(),
    ensures
        keys_before(seen, choice, key).len() == rank(seen, choice, key),
        keys_before(seen, choice, key).no_duplicates(),
        forall|k: int|
            #[trigger] keys_before(seen, choice, key).contains(k) ==> 0 <= k <= u32::MAX && k != key
                && seen.contains((choice, k as u32)),
    decreases seen.len(),
{
    if seen.len() > 0 && seen[0] != (choice, key) {
        let rest = seen.drop_first();
        assert(rest.no_duplicates()) by {
            assert forall|i: int, j: int| 0 <= i < j < rest.len() implies rest[i] != rest[j] by {
                assert(rest[i] == seen[i + 1]);
                assert(rest[j] == seen[j + 1]);
            }
        }
        lemma_keys_before(rest, choice, key);
        let tail = keys_before(rest, choice, key);
        let all = keys_before(seen, choice, key);
        assert forall|k: (u32, u32)| rest.contains(k) implies seen.contains(k) by {
            let i = choose|i: int| 0 <= i < rest.len() && rest[i] == k;
            assert(seen[i + 1] == k);
        }
        if seen[0].0 == choice {
            let first = seen[0].1 as int;
            assert(!tail.contains(first)) by {
                if tail.contains(first) {
                    assert(rest.contains((choice, first as u32)));
                    let i = choose|i: int|
                        0 <= i < rest.len() && rest[i] == (choice, first as u32);
                    assert(seen[i + 1] == seen[0]);
                }
            }
            assert(all =~= seq![first] + tail);
            assert forall|k: int| #[trigger] all.contains(k) implies 0 <= k <= u32::MAX && k != key
                && seen.contains((choice, k as u32)) by {
                let i = choose|i: int| 0 <= i < all.len() && all[i] == k;
                if i > 0 {
                    assert(tail[i - 1] == k);
                    assert(tail.contains(k));
                } else {
                    assert(seen[0] == (choice, k as u32));
                }
            }
            assert forall|i: int, j: int| 0 <= i < j < all.len() implies all[i] != all[j] by {
                assert(all[j] == tail[j - 1]);
                assert(tail.contains(all[j]));
                if i > 0 {
                    assert(all[i] == tail[i - 1]);
                }
            }
        } else {
            assert(all =~= tail);
        }
    }
}

/// There are only so many keys, so a position always fits.
proof fn lemma_rank_fits(seen: Seq<(u32, u32)>, choice: u32, key: u32)
    requires
        seen.no_duplicates(),
    ensures
        rank(seen, choice, key) <= u32::MAX,
{
    lemma_keys_before(seen, choice, key);
    let keys = keys_before(seen, choice, key);
    let all = vstd::set_lib::set_int_range(0, u32::MAX + 1);
    vstd::set_lib::lemma_int_range(0, u32::MAX + 1);
    keys.unique_seq_to_set();
    assert(keys.to_set().subset_of(all.remove(key as int))) by {
        assert forall|k: int| keys.to_set().contains(k) implies all.remove(
            key as int,
        ).contains(k) by {
            assert(keys.contains(k));
        }
    }
    vstd::set_lib::lemma_len_subset(keys.to_set(), all.remove(key as int));
}

/// A call that was seen keeps its position, whatever comes after.
pub proof fn law_a_position_is_kept(
    seen: Seq<(u32, u32)>,
    later: Seq<(u32, u32)>,
    choice: u32,
    key: u32,
)
    requires
        seen.contains((choice, key)),
    ensures
        rank(seen + later, choice, key) == rank(seen, choice, key),
    decreases seen.len(),
{
    if seen.len() > 0 {
        assert((seen + later)[0] == seen[0]);
        if seen[0] != (choice, key) {
            let rest = seen.drop_first();
            assert((seen + later).drop_first() =~= rest + later);
            let i = choose|i: int| 0 <= i < seen.len() && seen[i] == (choice, key);
            assert(rest[i - 1] == (choice, key));
            law_a_position_is_kept(rest, later, choice, key);
        }
    }
}

/// A new call takes the next position of its choice.
pub proof fn law_a_new_call_takes_the_next_position(
    seen: Seq<(u32, u32)>,
    choice: u32,
    key: u32,
)
    requires
        !seen.contains((choice, key)),
    ensures
        rank(seen, choice, key) == calls_seen(seen, choice),
        calls_seen(noted(seen, choice, key), choice) == calls_seen(seen, choice) + 1,
    decreases seen.len(),
{
    if seen.len() > 0 {
        let rest = seen.drop_first();
        assert(seen[0] != (choice, key));
        assert(!rest.contains((choice, key))) by {
            if rest.contains((choice, key)) {
                let i = choose|i: int| 0 <= i < rest.len() && rest[i] == (choice, key);
                assert(seen[i + 1] == (choice, key));
            }
        }
        law_a_new_call_takes_the_next_position(rest, choice, key);
        assert(seen.push((choice, key)).drop_first() =~= rest.push((choice, key)));
    } else {
        let one = seen.push((choice, key));
        assert(one.drop_first() =~= Seq::<(u32, u32)>::empty());
        assert(calls_seen(one.drop_first(), choice) == 0);
        assert(calls_seen(one, choice) == 1);
    }
}

/// No two calls of a choice share a position.
pub proof fn law_no_two_calls_share_a_position(
    seen: Seq<(u32, u32)>,
    choice: u32,
    key1: u32,
    key2: u32,
)
    requires
        seen.contains((choice, key1)),
        seen.contains((choice, key2)),
        key1 != key2,
    ensures
        rank(seen, choice, key1) != rank(seen, choice, key2),
    decreases seen.len(),
{
    let rest = seen.drop_first();
    if seen[0] == (choice, key1) || seen[0] == (choice, key2) {
    } else {
        let i = choose|i: int| 0 <= i < seen.len() && seen[i] == (choice, key1);
        let j = choose|j: int| 0 <= j < seen.len() && seen[j] == (choice, key2);
        assert(rest[i - 1] == (choice, key1));
        assert(rest[j - 1] == (choice, key2));
        law_no_two_calls_share_a_position(rest, choice, key1, key2);
    }
}

/// The calls of each choice came numbered from zero up without a gap.
pub open spec fn dense(seen: Seq<(u32, u32)>) -> bool {
    forall|i: int|
        0 <= i < seen.len() ==> (#[trigger] seen[i]).1 == calls_seen(seen.take(i), seen[i].0)
}

proof fn lemma_calls_seen_push(seen: Seq<(u32, u32)>, entry: (u32, u32), choice: u32)
    ensures
        calls_seen(seen.push(entry), choice) == calls_seen(seen, choice) + (if entry.0 == choice {
            1nat
        } else {
            0nat
        }),
    decreases seen.len(),
{
    if seen.len() == 0 {
        assert(seen.push(entry).drop_first() =~= Seq::<(u32, u32)>::empty());
        assert(calls_seen(seen.push(entry).drop_first(), choice) == 0);
    } else {
        assert(seen.push(entry).drop_first() =~= seen.drop_first().push(entry));
        lemma_calls_seen_push(seen.drop_first(), entry, choice);
    }
}

/// In a dense stream every number below the count of its choice was seen.
proof fn lemma_dense_contains(seen: Seq<(u32, u32)>, choice: u32, key: u32)
    requires
        dense(seen),
        key < calls_seen(seen, choice),
    ensures
        seen.contains((choice, key)),
        rank(seen, choice, key) == key,
    decreases seen.len(),
{
    let before = seen.drop_last();
    let last = seen.last();
    assert(seen =~= before.push(last));
    lemma_calls_seen_push(before, last, choice);
    assert(dense(before)) by {
        assert forall|i: int| 0 <= i < before.len() implies (#[trigger] before[i]).1 == calls_seen(
            before.take(i),
            before[i].0,
        ) by {
            assert(before[i] == seen[i]);
            assert(before.take(i) =~= seen.take(i));
        }
    }
    assert(seen.take(seen.len() - 1) =~= before);
    assert(last.1 == calls_seen(before, last.0));
    if key < calls_seen(before, choice) {
        lemma_dense_contains(before, choice, key);
        law_a_position_is_kept(before, seq![last], choice, key);
        assert(before + seq![last] =~= seen);
        let i = choose|i: int| 0 <= i < before.len() && before[i] == (choice, key);
        assert(seen[i] == (choice, key));
    } else {
        assert(last == (choice, key));
        assert(seen[seen.len() - 1] == (choice, key));
        if before.contains((choice, key)) {
            lemma_contained_below(before, choice, key);
        }
        law_a_new_call_takes_the_next_position(before, choice, key);
        lemma_rank_of_last(before, choice, key);
    }
}

/// A call seen in a dense stream has a number below the count of its choice.
proof fn lemma_contained_below(seen: Seq<(u32, u32)>, choice: u32, key: u32)
    requires
        dense(seen),
        seen.contains((choice, key)),
    ensures
        key < calls_seen(seen, choice),
    decreases seen.len(),
{
    let before = seen.drop_last();
    let last = seen.last();
    assert(seen =~= before.push(last));
    lemma_calls_seen_push(before, last, choice);
    assert(seen.take(seen.len() - 1) =~= before);
    assert(last.1 == calls_seen(before, last.0));
    if last != (choice, key) {
        let i = choose|i: int| 0 <= i < seen.len() && seen[i] == (choice, key);
        assert(before[i] == (choice, key));
        assert(dense(before)) by {
            assert forall|j: int| 0 <= j < before.len() implies (#[trigger] before[j]).1
                == calls_seen(before.take(j), before[j].0) by {
                assert(before[j] == seen[j]);
                assert(before.take(j) =~= seen.take(j));
            }
        }
        lemma_contained_below(before, choice, key);
    }
}

proof fn lemma_rank_of_last(before: Seq<(u32, u32)>, choice: u32, key: u32)
    requires
        !before.contains((choice, key)),
    ensures
        rank(before.push((choice, key)), choice, key) == rank(before, choice, key),
    decreases before.len(),
{
    let seen = before.push((choice, key));
    if before.len() > 0 {
        assert(seen[0] == before[0]);
        assert(seen.drop_first() =~= before.drop_first().push((choice, key)));
        let rest = before.drop_first();
        assert(!rest.contains((choice, key))) by {
            if rest.contains((choice, key)) {
                let i = choose|i: int| 0 <= i < rest.len() && rest[i] == (choice, key);
                assert(before[i + 1] == (choice, key));
            }
        }
        lemma_rank_of_last(rest, choice, key);
    }
}

/// Where a provider numbers the calls of each choice from zero up, each keeps its
/// own number: a call seen before, and the next new one. The stream stays so.
pub proof fn law_dense_numbers_are_kept(seen: Seq<(u32, u32)>, choice: u32, key: u32)
    requires
        dense(seen),
        key <= calls_seen(seen, choice),
    ensures
        rank(seen, choice, key) == key,
        dense(noted(seen, choice, key)),
{
    if key < calls_seen(seen, choice) {
        lemma_dense_contains(seen, choice, key);
    } else {
        if seen.contains((choice, key)) {
            lemma_contained_below(seen, choice, key);
        }
        law_a_new_call_takes_the_next_position(seen, choice, key);
        let after = noted(seen, choice, key);
        assert forall|i: int| 0 <= i < after.len() implies (#[trigger] after[i]).1 == calls_seen(
            after.take(i),
            after[i].0,
        ) by {
            if i < seen.len() {
                assert(after[i] == seen[i]);
                assert(after.take(i) =~= seen.take(i));
            } else {
                assert(after.take(i) =~= seen);
            }
        }
    }
}

} // verus!
