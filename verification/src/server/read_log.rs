//! The record of the reads a decoder makes from a stream.
//!
//! Each read is recorded as the index it wrote from and the count it
//! returned, none when the read failed. A decoder reads at the end of the
//! bytes read so far, so each read starts where the bytes of the ones before
//! it end.
use vstd::prelude::*;

verus! {

/// How many bytes a recorded read gave: its count, or none when it failed.
pub open spec fn count_of(read: (usize, Option<usize>)) -> int {
    match read.1 {
        Some(n) => n as int,
        None => 0,
    }
}

/// Whether a recorded read gave bytes.
pub open spec fn gave_bytes(read: (usize, Option<usize>)) -> bool {
    count_of(read) > 0
}

/// Where the bytes read end after the first `k` reads of `log`, when they
/// ended at `end` before them.
pub open spec fn end_after(log: Seq<(usize, Option<usize>)>, end: int, k: int) -> int
    decreases k,
{
    if k <= 0 {
        end
    } else {
        end_after(log, end, k - 1) + count_of(log[k - 1])
    }
}

/// Whether each read of `log` was made at the end of the bytes read before
/// it, starting from `end`.
pub open spec fn reads_at_end(log: Seq<(usize, Option<usize>)>, end: int) -> bool {
    forall|i: int| 0 <= i < log.len() ==> (#[trigger] log[i]).0 == end_after(log, end, i)
}

/// Whether every read of `log` was made below the index `limit`.
pub open spec fn reads_below(log: Seq<(usize, Option<usize>)>, limit: int) -> bool {
    forall|i: int| 0 <= i < log.len() ==> (#[trigger] log[i]).0 < limit
}

/// Whether every read of `log` gave bytes.
pub open spec fn all_gave_bytes(log: Seq<(usize, Option<usize>)>) -> bool {
    forall|i: int| 0 <= i < log.len() ==> gave_bytes(#[trigger] log[i])
}

/// Whether every read of `log` but the last gave bytes.
pub open spec fn gave_bytes_before_last(log: Seq<(usize, Option<usize>)>) -> bool {
    forall|i: int| 0 <= i < log.len() - 1 ==> gave_bytes(#[trigger] log[i])
}

/// Whether the reads of `log` went one after the other to the end of the
/// bytes read, starting from `end`, each while the bytes read still ended
/// below `limit`, and every one but the last gave bytes.
pub open spec fn reads_in_order(log: Seq<(usize, Option<usize>)>, end: int, limit: int) -> bool {
    &&& reads_at_end(log, end)
    &&& reads_below(log, limit)
    &&& gave_bytes_before_last(log)
}

/// Whether the last read of `log` gave no bytes: the stream has ended.
pub open spec fn ended(log: Seq<(usize, Option<usize>)>) -> bool {
    log.len() > 0 && log.last().1 == Some(0usize)
}

/// Whether the last read of `log` failed.
pub open spec fn failed(log: Seq<(usize, Option<usize>)>) -> bool {
    log.len() > 0 && log.last().1 is None
}

/// Whether `after` is `before` with more reads recorded after it.
pub open spec fn extends(
    before: Seq<(usize, Option<usize>)>,
    after: Seq<(usize, Option<usize>)>,
) -> bool {
    before.len() <= after.len() && after.take(before.len() as int) == before
}

/// The reads recorded in `after` since `before`.
pub open spec fn reads_since(
    before: Seq<(usize, Option<usize>)>,
    after: Seq<(usize, Option<usize>)>,
) -> Seq<(usize, Option<usize>)> {
    after.skip(before.len() as int)
}

/// Reads that all gave bytes neither ended nor failed.
pub proof fn lemma_all_gave_bytes(log: Seq<(usize, Option<usize>)>)
    requires
        all_gave_bytes(log),
    ensures
        !ended(log),
        !failed(log),
{
    if log.len() > 0 {
        assert(gave_bytes(log[log.len() - 1]));
    }
}

proof fn lemma_end_after_prefix(
    a: Seq<(usize, Option<usize>)>,
    b: Seq<(usize, Option<usize>)>,
    end: int,
    k: int,
)
    requires
        0 <= k <= a.len(),
    ensures
        end_after(a + b, end, k) == end_after(a, end, k),
    decreases k,
{
    if k > 0 {
        lemma_end_after_prefix(a, b, end, k - 1);
        assert((a + b)[k - 1] == a[k - 1]);
    }
}

proof fn lemma_end_after_concat(
    a: Seq<(usize, Option<usize>)>,
    b: Seq<(usize, Option<usize>)>,
    end: int,
    k: int,
)
    requires
        0 <= k <= b.len(),
    ensures
        end_after(a + b, end, a.len() + k) == end_after(b, end_after(a, end, a.len() as int), k),
    decreases k,
{
    if k == 0 {
        lemma_end_after_prefix(a, b, end, a.len() as int);
    } else {
        lemma_end_after_concat(a, b, end, k - 1);
        assert((a + b)[a.len() + k - 1] == b[k - 1]);
    }
}

/// Reads in order from `end` below `la` that all gave bytes, followed by
/// reads in order from where they left the end, below `lb`, are reads in
/// order from `end` below `lb`; they end, fail or end the bytes read as the
/// later ones do.
pub proof fn lemma_reads_chain(
    a: Seq<(usize, Option<usize>)>,
    b: Seq<(usize, Option<usize>)>,
    end: int,
    la: int,
    lb: int,
)
    requires
        reads_in_order(a, end, la),
        all_gave_bytes(a),
        reads_in_order(b, end_after(a, end, a.len() as int), lb),
        la <= lb,
    ensures
        reads_in_order(a + b, end, lb),
        end_after(a + b, end, (a + b).len() as int) == end_after(
            b,
            end_after(a, end, a.len() as int),
            b.len() as int,
        ),
        all_gave_bytes(b) ==> all_gave_bytes(a + b),
        ended(a + b) == ended(b),
        failed(a + b) == failed(b),
{
    let ab = a + b;
    let ea = end_after(a, end, a.len() as int);
    assert forall|i: int| 0 <= i < ab.len() implies (#[trigger] ab[i]).0 == end_after(
        ab,
        end,
        i,
    ) by {
        if i < a.len() {
            assert(ab[i] == a[i]);
            lemma_end_after_prefix(a, b, end, i);
        } else {
            assert(ab[i] == b[i - a.len()]);
            lemma_end_after_concat(a, b, end, i - a.len());
        }
    }
    assert forall|i: int| 0 <= i < ab.len() implies (#[trigger] ab[i]).0 < lb by {
        if i < a.len() {
            assert(ab[i] == a[i]);
        } else {
            assert(ab[i] == b[i - a.len()]);
        }
    }
    assert forall|i: int| 0 <= i < ab.len() - 1 implies gave_bytes(#[trigger] ab[i]) by {
        if i < a.len() {
            assert(ab[i] == a[i]);
        } else {
            assert(ab[i] == b[i - a.len()]);
        }
    }
    if all_gave_bytes(b) {
        assert forall|i: int| 0 <= i < ab.len() implies gave_bytes(#[trigger] ab[i]) by {
            if i < a.len() {
                assert(ab[i] == a[i]);
            } else {
                assert(ab[i] == b[i - a.len()]);
            }
        }
    }
    lemma_end_after_concat(a, b, end, b.len() as int);
    if b.len() == 0 {
        assert(ab =~= a);
        if a.len() > 0 {
            assert(gave_bytes(a[a.len() - 1]));
        }
    } else {
        assert(ab.last() == b.last());
    }
}

/// One more read at the end of the bytes read keeps the reads in order.
pub proof fn lemma_reads_push(
    a: Seq<(usize, Option<usize>)>,
    read: (usize, Option<usize>),
    end: int,
)
    requires
        reads_at_end(a, end),
        read.0 == end_after(a, end, a.len() as int),
    ensures
        reads_at_end(a.push(read), end),
        end_after(a.push(read), end, a.len() + 1int) == end_after(a, end, a.len() as int)
            + count_of(read),
{
    let b = seq![read];
    assert(a.push(read) =~= a + b);
    assert forall|i: int| 0 <= i < a.push(read).len() implies (#[trigger] a.push(read)[i]).0
        == end_after(a.push(read), end, i) by {
        lemma_end_after_prefix(a, b, end, i);
        if i < a.len() {
            assert(a.push(read)[i] == a[i]);
        }
    }
    lemma_end_after_prefix(a, b, end, a.len() as int);
}

/// Records that extend each other: what the later ones add since the first
/// is what each adds in turn.
pub proof fn lemma_extends_chain(
    a: Seq<(usize, Option<usize>)>,
    b: Seq<(usize, Option<usize>)>,
    c: Seq<(usize, Option<usize>)>,
)
    requires
        extends(a, b),
        extends(b, c),
    ensures
        extends(a, c),
        reads_since(a, c) == reads_since(a, b) + reads_since(b, c),
{
    assert(c.take(a.len() as int) =~= c.take(b.len() as int).take(a.len() as int));
    assert(reads_since(a, c) =~= reads_since(a, b) + reads_since(b, c)) by {
        assert forall|i: int| 0 <= i < reads_since(a, c).len() implies reads_since(a, c)[i] == (
        reads_since(a, b) + reads_since(b, c))[i] by {
            if i < b.len() - a.len() {
                assert(c.take(b.len() as int)[a.len() + i] == b[a.len() + i]);
            }
        }
    }
}

/// A record extends itself, with nothing added.
pub proof fn lemma_extends_refl(a: Seq<(usize, Option<usize>)>)
    ensures
        extends(a, a),
        reads_since(a, a) == Seq::<(usize, Option<usize>)>::empty(),
{
    assert(a.take(a.len() as int) =~= a);
    assert(reads_since(a, a) =~= Seq::<(usize, Option<usize>)>::empty());
}

/// A record with one more read extends it, and adds that read to what was
/// added since an earlier one.
pub proof fn lemma_extends_push(
    a: Seq<(usize, Option<usize>)>,
    b: Seq<(usize, Option<usize>)>,
    read: (usize, Option<usize>),
)
    requires
        extends(a, b),
    ensures
        extends(a, b.push(read)),
        reads_since(a, b.push(read)) == reads_since(a, b).push(read),
{
    assert(b.push(read).take(a.len() as int) =~= b.take(a.len() as int));
    assert(reads_since(a, b.push(read)) =~= reads_since(a, b).push(read));
}

} // verus!
