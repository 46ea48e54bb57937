//! Planning of embedding runs. The model takes exactly 512 tokens at
//! a time; longer inputs slide a 512-token window with a 448-token
//! stride (64 tokens of overlap), and each window is zero-padded to
//! 512. Too-short inputs skip the model and embed as the zero vector.
//! The model itself, and the floating-point pooling of its output,
//! live outside the library; everything it is fed is planned here.

use vstd::prelude::*;

use crate::errors::JobError;

verus! {

/// Tokens the model reads at a time.
pub const MAX_MODEL_INPUT_LENGTH: usize = 512;

/// Tokens shared by consecutive windows.
pub const WINDOW_OVERLAP: usize = 64;

/// Fewest tokens worth embedding; anything shorter embeds as the zero
/// vector.
pub const MIN_EMBED_TOKENS: usize = 8;

/// Whether a text is embedded by the model or as the zero vector.
#[derive(Debug, Clone, Copy, PartialEq, Eq, Structural)]
pub enum EmbedAction {
    /// Trimmed-empty or shorter than `MIN_EMBED_TOKENS`: the zero
    /// vector, without running the model.
    ZeroVector,
    /// Tokenize, window, run the model and pool.
    RunModel,
}

/// A text embeds as the zero vector exactly when it trims to nothing
/// or tokenizes to fewer than eight tokens.
pub fn embed_action(trimmed_empty: bool, token_count: usize) -> (r: EmbedAction)
    ensures
        r == EmbedAction::ZeroVector <==> (trimmed_empty || token_count < MIN_EMBED_TOKENS),
        r == EmbedAction::ZeroVector || r == EmbedAction::RunModel,
{
    if trimmed_empty || token_count < MIN_EMBED_TOKENS {
        EmbedAction::ZeroVector
    } else {
        EmbedAction::RunModel
    }
}

/// One padded model input: 512 token ids and their attention mask.
#[derive(Debug, Clone, PartialEq, Eq)]
pub struct ModelWindow {
    pub input_ids: Vec<i64>,
    pub attention_mask: Vec<i64>,
}

/// The window start offsets for a token sequence of length `len`,
/// beginning at `pos`: each window starts 448 tokens after the one
/// before, and the last is the first to reach the end.
pub open spec fn window_starts(len: int, pos: int) -> Seq<int>
    decreases len - pos when pos < len
{
    if pos + 512 >= len {
        seq![pos]
    } else {
        seq![pos] + window_starts(len, pos + 448)
    }
}

/// Shape of the window offsets: they begin at the given position,
/// step by 448, every window but the last stops short of the end, and
/// the last one reaches it.
pub proof fn lemma_window_starts_shape(len: int, pos: int)
    requires
        pos < len,
    ensures
        window_starts(len, pos).len() > 0,
        window_starts(len, pos)[0] == pos,
        forall|k: int|
            0 <= k < window_starts(len, pos).len() - 1 ==> #[trigger] window_starts(len, pos)[k]
                + 448 == window_starts(len, pos)[k + 1] && window_starts(len, pos)[k] + 512 < len,
        window_starts(len, pos).last() + 512 >= len,
        forall|k: int| 0 <= k < window_starts(len, pos).len() ==> pos
            <= #[trigger] window_starts(len, pos)[k] < len,
    decreases len - pos,
{
    if pos + 512 >= len {
    } else {
        lemma_window_starts_shape(len, pos + 448);
        let tail = window_starts(len, pos + 448);
        let s = window_starts(len, pos);
        assert(s == seq![pos] + tail);
        assert(s[0] == pos);
        assert forall|k: int|
            0 <= k < s.len() - 1 implies #[trigger] s[k] + 448 == s[k + 1] && s[k] + 512
            < len by {
            if k == 0 {
                assert(s[1] == tail[0]);
            } else {
                assert(s[k] == tail[k - 1]);
                assert(s[k + 1] == tail[k]);
            }
        }
        assert(s.last() == tail.last());
    }
}

/// Computes the window start offsets for `len` tokens.
fn window_start_list(len: usize) -> (r: Vec<usize>)
    requires
        1 <= len,
        len + 512 <= usize::MAX,
    ensures
        starts_as_ints(r@) == window_starts(len as int, 0),
        forall|k: int| 0 <= k < r@.len() ==> #[trigger] r@[k] < len,
{
    let mut starts: Vec<usize> = Vec::new();
    let mut pos: usize = 0;
    while pos + 512 < len
        invariant
            len + 512 <= usize::MAX,
            pos < len,
            forall|k: int| 0 <= k < starts@.len() ==> #[trigger] starts@[k] < len,
            window_starts(len as int, 0) == starts_as_ints(starts@) + window_starts(
                len as int,
                pos as int,
            ),
        decreases len - pos,
    {
        let ghost old_starts = starts@;
        starts.push(pos);
        proof {
            assert(window_starts(len as int, pos as int) == seq![pos as int] + window_starts(
                len as int,
                pos + 448,
            ));
            assert(starts_as_ints(starts@) =~= starts_as_ints(old_starts) + seq![pos as int]);
            assert(starts_as_ints(old_starts) + (seq![pos as int] + window_starts(
                len as int,
                pos + 448,
            )) =~= starts_as_ints(starts@) + window_starts(len as int, pos + 448));
        }
        pos = pos + 448;
    }
    let ghost old_starts = starts@;
    starts.push(pos);
    proof {
        assert(window_starts(len as int, pos as int) == seq![pos as int]);
        assert(starts_as_ints(starts@) =~= starts_as_ints(old_starts) + seq![pos as int]);
        assert(starts_as_ints(old_starts) + seq![pos as int] =~= window_starts(len as int, 0));
    }
    starts
}

/// The offsets of a start list, as mathematical integers.
pub open spec fn starts_as_ints(v: Seq<usize>) -> Seq<int> {
    v.map_values(|x: usize| x as int)
}

/// A window correctly cut and padded at `start`: 512 ids and mask
/// values, the input's own past the start, zeros beyond its end.
pub open spec fn window_ok(win: ModelWindow, start: int, ids: Seq<u32>, mask: Seq<u32>) -> bool {
    &&& win.input_ids@.len() == 512
    &&& win.attention_mask@.len() == 512
    &&& forall|j: int|
        0 <= j < 512 ==> #[trigger] win.input_ids@[j] == (if start + j < ids.len() {
            ids[start + j] as int
        } else {
            0int
        })
    &&& forall|j: int|
        0 <= j < 512 ==> #[trigger] win.attention_mask@[j] == (if start + j < mask.len() {
            mask[start + j] as int
        } else {
            0int
        })
}

/// Cuts a token sequence into padded model inputs: one window per
/// start offset, each holding the 512 tokens from its offset, zero
/// padded past the input's end.
pub fn plan_windows(ids: &Vec<u32>, mask: &Vec<u32>) -> (r: Vec<ModelWindow>)
    requires
        ids@.len() == mask@.len(),
        1 <= ids@.len(),
        ids@.len() + 512 <= usize::MAX,
    ensures
        r@.len() == window_starts(ids@.len() as int, 0).len(),
        forall|w: int|
            0 <= w < r@.len() ==> window_ok(
                #[trigger] r@[w],
                window_starts(ids@.len() as int, 0)[w],
                ids@,
                mask@,
            ),
{
    let len = ids.len();
    let starts = window_start_list(len);
    let mut r: Vec<ModelWindow> = Vec::new();
    let mut w: usize = 0;
    while w < starts.len()
        invariant
            w <= starts@.len(),
            ids@.len() == mask@.len(),
            len == ids@.len(),
            len + 512 <= usize::MAX,
            starts_as_ints(starts@) == window_starts(ids@.len() as int, 0),
            forall|k: int| 0 <= k < starts@.len() ==> #[trigger] starts@[k] < len,
            r@.len() == w,
            forall|k: int|
                0 <= k < w ==> window_ok(
                    #[trigger] r@[k],
                    window_starts(ids@.len() as int, 0)[k],
                    ids@,
                    mask@,
                ),
        decreases starts@.len() - w,
    {
        let start = starts[w];
        let mut iv: Vec<i64> = Vec::new();
        let mut mv: Vec<i64> = Vec::new();
        let mut j: usize = 0;
        while j < 512
            invariant
                j <= 512,
                ids@.len() == mask@.len(),
                len == ids@.len(),
                len + 512 <= usize::MAX,
                start < len,
                iv@.len() == j,
                mv@.len() == j,
                forall|q: int|
                    0 <= q < j ==> #[trigger] iv@[q] == (if start + q < ids@.len() {
                        ids@[start + q] as int
                    } else {
                        0int
                    }),
                forall|q: int|
                    0 <= q < j ==> #[trigger] mv@[q] == (if start + q < mask@.len() {
                        mask@[start + q] as int
                    } else {
                        0int
                    }),
            decreases 512 - j,
        {
            if start + j < len {
                iv.push(ids[start + j] as i64);
                mv.push(mask[start + j] as i64);
            } else {
                iv.push(0);
                mv.push(0);
            }
            j = j + 1;
        }
        r.push(ModelWindow { input_ids: iv, attention_mask: mv });
        proof {
            assert(starts_as_ints(starts@)[w as int] == starts@[w as int] as int);
        }
        w = w + 1;
    }
    proof {
        assert(starts@.len() == starts_as_ints(starts@).len());
    }
    r
}

/// No result carries this index as its tag.
pub open spec fn index_unclaimed<T>(results: Seq<(usize, T)>, i: int) -> bool {
    forall|k: int| 0 <= k < results.len() ==> (#[trigger] results[k]).0 != i
}

/// Some input index has no result tagged with it.
pub open spec fn some_index_unclaimed<T>(results: Seq<(usize, T)>) -> bool {
    exists|i: int| 0 <= i < results.len() && #[trigger] index_unclaimed(results, i)
}

/// Some result carries this index as its tag, and the value at that
/// slot of the output is its value.
pub open spec fn slot_filled<T>(results: Seq<(usize, T)>, out: Seq<T>, i: int) -> bool {
    exists|k: int|
        0 <= k < results.len() && (#[trigger] results[k]).0 == i && out[i] == results[k].1
}

/// Puts index-tagged results back into input order: slot `i` of the
/// output takes the value tagged `i`. Fails where some index has no
/// value, which cannot happen when the tags are exactly `0..n`.
#[verifier::loop_isolation(false)]
pub fn order_results<T>(results: Vec<(usize, T)>) -> (r: Result<Vec<T>, JobError>)
    ensures
        match r {
            Ok(out) => out@.len() == results@.len() && forall|i: int|
                0 <= i < out@.len() ==> #[trigger] slot_filled(results@, out@, i),
            Err(e) => e is Embedding && some_index_unclaimed(results@),
        },
{
    broadcast use vstd::seq_lib::group_to_multiset_ensures;
    broadcast use vstd::multiset::group_multiset_axioms;

    let ghost orig = results@;
    let n = results.len();
    let mut src = results;
    proof {
        assert(src@ == orig);
    }
    let mut out: Vec<T> = Vec::new();
    let mut i: usize = 0;
    while i < n
        invariant
            i <= n,
            n == orig.len(),
            out@.len() == i,
            forall|x: (usize, T)| #[trigger] src@.to_multiset().count(x)
                <= orig.to_multiset().count(x),
            forall|x: (usize, T)|
                x.0 >= i ==> #[trigger] src@.to_multiset().count(x) == orig.to_multiset().count(
                    x,
                ),
            forall|ii: int| 0 <= ii < i ==> #[trigger] slot_filled(orig, out@, ii),
        decreases n - i,
    {
        match find_index(&src, i) {
            Some(k) => {
                let ghost old_src = src@;
                let ghost old_out = out@;
                let e = src.remove(k);
                out.push(e.1);
                proof {
                    assert(e == old_src[k as int]);
                    assert(e.0 == i);
                    vstd::seq_lib::to_multiset_remove(old_src, k as int);
                    assert(src@.to_multiset() == old_src.to_multiset().remove(e));
                    // the element moved out is one of the input pairs
                    assert(old_src.contains(e));
                    vstd::seq_lib::to_multiset_contains(old_src, e);
                    vstd::seq_lib::to_multiset_contains(orig, e);
                    assert(orig.contains(e));
                    let ko = choose|ko: int| 0 <= ko < orig.len() && orig[ko] == e;
                    // the new slot is filled by the element just moved
                    assert(out@[i as int] == orig[ko].1);
                    assert(slot_filled(orig, out@, i as int));
                    // earlier slots keep their values
                    assert forall|ii: int| 0 <= ii < i implies #[trigger] slot_filled(
                        orig,
                        out@,
                        ii,
                    ) by {
                        assert(slot_filled(orig, old_out, ii));
                        let k2 = choose|k2: int|
                            0 <= k2 < orig.len() && (#[trigger] orig[k2]).0 == ii && old_out[ii]
                                == orig[k2].1;
                        assert(out@[ii] == old_out[ii]);
                        assert(orig[k2].0 == ii && out@[ii] == orig[k2].1);
                    }
                }
            },
            None => {
                proof {
                    assert forall|ko: int|
                        0 <= ko < orig.len() implies (#[trigger] orig[ko]).0 != i by {
                        if orig[ko].0 == i {
                            let x = orig[ko];
                            assert(orig.contains(x));
                            vstd::seq_lib::to_multiset_contains(orig, x);
                            assert(orig.to_multiset().count(x) > 0);
                            assert(src@.to_multiset().count(x) == orig.to_multiset().count(x));
                            vstd::seq_lib::to_multiset_contains(src@, x);
                            assert(src@.contains(x));
                            let w = choose|w: int| 0 <= w < src@.len() && src@[w] == x;
                            assert((src@[w]).0 != i);
                        }
                    }
                    assert(index_unclaimed(orig, i as int));
                    assert(0 <= (i as int) && (i as int) < orig.len());
                    assert(some_index_unclaimed(orig));
                }
                return Err(
                    JobError::Embedding(String::from_str("batch results missing an input index")),
                );
            },
        }
        i = i + 1;
    }
    Ok(out)
}

/// First position whose tag equals `i`, if any.
fn find_index<T>(src: &Vec<(usize, T)>, i: usize) -> (r: Option<usize>)
    ensures
        match r {
            Some(k) => k < src@.len() && src@[k as int].0 == i,
            None => forall|q: int| 0 <= q < src@.len() ==> (#[trigger] src@[q]).0 != i,
        },
{
    let mut ks: usize = 0;
    while ks < src.len()
        invariant
            ks <= src@.len(),
            forall|q: int| 0 <= q < ks ==> (#[trigger] src@[q]).0 != i,
        decreases src@.len() - ks,
    {
        if src[ks].0 == i {
            return Some(ks);
        }
        ks = ks + 1;
    }
    None
}

/// Embedding batches written to the store at once during the backfill.
pub const DEFAULT_EMBED_BATCH_SIZE: usize = 32;

/// Cap on concurrent embedding-write database operations.
pub const MAX_DB_EMBED_CONCURRENCY: usize = 8;

/// Batch and write budgets of the backfill's embedding pass.
pub struct InitEmbedder;

impl InitEmbedder {
    /// Records per embedding batch: the configured override, or 32.
    pub fn get_embed_batch_size(configured: Option<usize>) -> (r: usize)
        ensures
            r == (if configured is Some {
                configured->0 as int
            } else {
                DEFAULT_EMBED_BATCH_SIZE as int
            }),
    {
        match configured {
            Some(n) => n,
            None => DEFAULT_EMBED_BATCH_SIZE,
        }
    }

    /// Concurrent embedding writes: the configured override, or the
    /// machine's parallelism capped at eight.
    pub fn get_db_concurrency(configured: Option<usize>, base: usize) -> (r: usize)
        ensures
            r == (if configured is Some {
                configured->0 as int
            } else if base < MAX_DB_EMBED_CONCURRENCY {
                base as int
            } else {
                MAX_DB_EMBED_CONCURRENCY as int
            }),
    {
        match configured {
            Some(n) => n,
            None => if base < MAX_DB_EMBED_CONCURRENCY {
                base
            } else {
                MAX_DB_EMBED_CONCURRENCY
            },
        }
    }
}

} // verus!
