//! Where a model's weight bytes lie: by block, and outside the blocks.

use crate::estimate::types::{ExpertKind, NonLayer};
use crate::gguf::{GgufSummary, GgufTensor};
use crate::text;
use vstd::prelude::*;
use vstd::string::*;

verus! {

/// What begins the name of a tensor that belongs to a block.
pub const BLOCK_PREFIX: &'static str = "blk.";

/// The block number and the rest of a name of the form `blk.N.rest`, both
/// as text.
pub open spec fn block_parts(name: Seq<char>) -> Option<(Seq<char>, Seq<char>)> {
    if BLOCK_PREFIX@.is_prefix_of(name) {
        text::split_once_at(name.skip(BLOCK_PREFIX@.len() as int), '.')
    } else {
        None
    }
}

/// The block a tensor belongs to.
pub open spec fn block_index(name: Seq<char>) -> Option<u32> {
    match block_parts(name) {
        Some(parts) => text::number(parts.0),
        None => None,
    }
}

fn split_block<'a>(name: &'a str) -> (r: Option<(&'a str, &'a str)>)
    ensures
        match r {
            Some(p) => block_parts(name@) == Some((p.0@, p.1@)),
            None => block_parts(name@) is None,
        },
{
    if !text::starts_with(name, BLOCK_PREFIX) {
        return None;
    }
    let n: usize = name.unicode_len();
    let m: usize = BLOCK_PREFIX.unicode_len();
    let rest = name.substring_char(m, n);
    assert(rest@ =~= name@.skip(BLOCK_PREFIX@.len() as int));
    text::split_once(rest, '.')
}

/// The block a tensor belongs to.
pub fn layer_index(name: &str) -> (r: Option<u32>)
    ensures
        r == block_index(name@),
{
    match split_block(name) {
        Some(parts) => text::parse_u32(parts.0),
        None => None,
    }
}

/// The projection of an expert tensor, `blk.N.ffn_{gate,up,down}_exps…`.
/// Shared experts are none: they are always on and never offloaded.
pub open spec fn expert_of(name: Seq<char>) -> Option<ExpertKind> {
    match block_parts(name) {
        Some(parts) => if text::occurs(parts.1, "shexp"@) {
            None
        } else if "ffn_gate_exps"@.is_prefix_of(parts.1) {
            Some(ExpertKind::Gate)
        } else if "ffn_up_exps"@.is_prefix_of(parts.1) {
            Some(ExpertKind::Up)
        } else if "ffn_down_exps"@.is_prefix_of(parts.1) {
            Some(ExpertKind::Down)
        } else {
            None
        },
        None => None,
    }
}

/// The projection of an expert tensor.
pub fn expert_kind(name: &str) -> (r: Option<ExpertKind>)
    ensures
        r == expert_of(name@),
{
    match split_block(name) {
        Some(parts) => if text::contains(parts.1, "shexp") {
            None
        } else if text::starts_with(parts.1, "ffn_gate_exps") {
            Some(ExpertKind::Gate)
        } else if text::starts_with(parts.1, "ffn_up_exps") {
            Some(ExpertKind::Up)
        } else if text::starts_with(parts.1, "ffn_down_exps") {
            Some(ExpertKind::Down)
        } else {
            None
        },
        None => None,
    }
}

/// The name of a tensor of block `n`.
pub open spec fn block_tensor(n: u32, rest: Seq<char>) -> Seq<char> {
    BLOCK_PREFIX@ + text::digits(n as nat) + "."@ + rest
}

/// The name of a block's tensor gives back the block and the rest.
pub proof fn lemma_block_tensor(n: u32, rest: Seq<char>)
    ensures
        block_parts(block_tensor(n, rest)) == Some((text::digits(n as nat), rest)),
        block_index(block_tensor(n, rest)) == Some(n),
{
    let number = text::digits(n as nat);
    let at = number.len() as int;
    let name = block_tensor(n, rest);
    let tail = name.skip(BLOCK_PREFIX@.len() as int);
    reveal_strlit(".");
    text::lemma_digits_read(n as nat);
    assert(BLOCK_PREFIX@.is_prefix_of(name));
    assert(tail =~= number + "."@ + rest);
    assert forall|j: int| 0 <= j < number.len() implies tail[j] != '.' by {
        assert(tail[j] == number[j]);
    }
    assert(tail[at] == '.');
    text::lemma_first_position(tail, '.', at);
    assert(tail.take(at) =~= number);
    assert(tail.skip(at + 1) =~= rest);
    assert(number[0] != '+');
}

proof fn lemma_expert_names(kind: ExpertKind)
    ensures
        ({
            let stem = "ffn_"@ + kind.token();
            let expert = stem + "_exps.weight"@;
            let shared = stem + "_shexp.weight"@;
            let plain = stem + ".weight"@;
            &&& !text::occurs(expert, "shexp"@)
            &&& text::occurs(shared, "shexp"@)
            &&& "ffn_gate_exps"@.is_prefix_of(expert) == (kind is Gate)
            &&& "ffn_up_exps"@.is_prefix_of(expert) == (kind is Up)
            &&& "ffn_down_exps"@.is_prefix_of(expert) == (kind is Down)
            &&& !"ffn_gate_exps"@.is_prefix_of(plain)
            &&& !"ffn_up_exps"@.is_prefix_of(plain)
            &&& !"ffn_down_exps"@.is_prefix_of(plain)
        }),
{
    reveal_strlit("ffn_");
    reveal_strlit("gate");
    reveal_strlit("up");
    reveal_strlit("down");
    reveal_strlit("_exps.weight");
    reveal_strlit("_shexp.weight");
    reveal_strlit(".weight");
    reveal_strlit("shexp");
    reveal_strlit("ffn_gate_exps");
    reveal_strlit("ffn_up_exps");
    reveal_strlit("ffn_down_exps");
    let stem = "ffn_"@ + kind.token();
    let expert = stem + "_exps.weight"@;
    let shared = stem + "_shexp.weight"@;
    let plain = stem + ".weight"@;
    let at = stem.len() as int + 1;
    assert(text::found_at(shared, "shexp"@, at)) by {
        assert(shared.subrange(at, at + 5) =~= "shexp"@);
    }
    assert forall|i: int| !text::found_at(expert, "shexp"@, i) by {
        if text::found_at(expert, "shexp"@, i) {
            let part = expert.subrange(i, i + 5);
            assert(part[0] == 's' && part[1] == 'h');
            assert(expert[i] == 's' && expert[i + 1] == 'h');
        }
    }
    let gate = "ffn_gate_exps"@;
    let up = "ffn_up_exps"@;
    let down = "ffn_down_exps"@;
    match kind {
        ExpertKind::Gate => {
            assert(gate =~= expert.take(13));
            assert(expert[4] != up[4] && expert[4] != down[4]);
            assert(plain[4] != up[4] && plain[4] != down[4] && plain[8] != gate[8]);
        },
        ExpertKind::Up => {
            assert(up =~= expert.take(11));
            assert(expert[4] != gate[4] && expert[4] != down[4]);
            assert(plain[4] != gate[4] && plain[4] != down[4] && plain[6] != up[6]);
        },
        ExpertKind::Down => {
            assert(down =~= expert.take(13));
            assert(expert[4] != up[4] && expert[4] != gate[4]);
            assert(plain[4] != up[4] && plain[4] != gate[4] && plain[8] != down[8]);
        },
    }
}

/// The name made with a projection's word gives the projection back, in every
/// block. A shared expert's name gives none, nor does a name without `_exps`
/// or one that does not begin as a block's.
pub proof fn lemma_token_names_its_expert(kind: ExpertKind, n: u32, other: Seq<char>)
    ensures
        ({
            let stem = "ffn_"@ + kind.token();
            let expert = block_tensor(n, stem + "_exps.weight"@);
            &&& expert_of(expert) == Some(kind)
            &&& block_index(expert) == Some(n)
            &&& expert_of(block_tensor(n, stem + "_shexp.weight"@)) is None
            &&& expert_of(block_tensor(n, stem + ".weight"@)) is None
        }),
        !BLOCK_PREFIX@.is_prefix_of(other) ==> expert_of(other) is None,
{
    let stem = "ffn_"@ + kind.token();
    lemma_block_tensor(n, stem + "_exps.weight"@);
    lemma_block_tensor(n, stem + "_shexp.weight"@);
    lemma_block_tensor(n, stem + ".weight"@);
    lemma_expert_names(kind);
}

/// Bytes of the tensors that `filter` selects.
pub open spec fn sum_where(
    tensors: Seq<(Seq<char>, GgufTensor)>,
    filter: spec_fn((Seq<char>, GgufTensor)) -> bool,
) -> int
    decreases tensors.len(),
{
    if tensors.len() == 0 {
        0
    } else {
        sum_where(tensors.drop_last(), filter) + (if filter(tensors.last()) {
            tensors.last().1.byte_size as int
        } else {
            0
        })
    }
}

/// Selects every tensor.
pub open spec fn every() -> spec_fn((Seq<char>, GgufTensor)) -> bool {
    |t: (Seq<char>, GgufTensor)| true
}

/// Selects the tensors of block `i`.
pub open spec fn in_block(i: int) -> spec_fn((Seq<char>, GgufTensor)) -> bool {
    |t: (Seq<char>, GgufTensor)| block_index(t.0) == Some(i as u32)
}

/// Selects the expert tensors of block `i`.
pub open spec fn expert_in_block(i: int) -> spec_fn((Seq<char>, GgufTensor)) -> bool {
    |t: (Seq<char>, GgufTensor)| block_index(t.0) == Some(i as u32) && expert_of(t.0) is Some
}

/// Where a tensor outside the blocks is accounted: the output head, the
/// token embeddings, or the rest.
pub open spec fn outside_kind(name: Seq<char>) -> int {
    if name == "output.weight"@ {
        0
    } else if name == "token_embd.weight"@ || name == "per_layer_token_embd.weight"@ {
        1
    } else {
        2
    }
}

/// Selects the tensors outside the blocks that are accounted under `kind`.
pub open spec fn outside(kind: int) -> spec_fn((Seq<char>, GgufTensor)) -> bool {
    |t: (Seq<char>, GgufTensor)| block_index(t.0) is None && outside_kind(t.0) == kind
}

/// Selects the token-embedding table.
pub open spec fn embedding_table() -> spec_fn((Seq<char>, GgufTensor)) -> bool {
    |t: (Seq<char>, GgufTensor)| block_index(t.0) is None && t.0 == "token_embd.weight"@
}

/// Selects what a model of `n` blocks loads: every tensor but those of
/// blocks beyond the last.
pub open spec fn loaded(n: int) -> spec_fn((Seq<char>, GgufTensor)) -> bool {
    |t: (Seq<char>, GgufTensor)|
        match block_index(t.0) {
            Some(i) => i < n,
            None => true,
        }
}

/// Bytes of the first `n` blocks.
pub open spec fn blocks_sum(tensors: Seq<(Seq<char>, GgufTensor)>, n: int) -> int
    decreases n,
{
    if n <= 0 {
        0
    } else {
        blocks_sum(tensors, n - 1) + sum_where(tensors, in_block(n - 1))
    }
}

/// Sum of a list of sizes.
pub open spec fn total(sizes: Seq<u64>) -> int
    decreases sizes.len(),
{
    if sizes.len() == 0 {
        0
    } else {
        total(sizes.drop_last()) + sizes.last()
    }
}

/// All selected tensors together are never more than the whole.
pub proof fn lemma_sum_bounded(
    tensors: Seq<(Seq<char>, GgufTensor)>,
    k: int,
    filter: spec_fn((Seq<char>, GgufTensor)) -> bool,
)
    requires
        0 <= k <= tensors.len(),
    ensures
        0 <= sum_where(tensors.take(k), filter) <= sum_where(tensors, every()),
        sum_where(tensors.take(k), filter) <= sum_where(tensors, filter),
    decreases tensors.len(),
{
    if k < tensors.len() {
        lemma_sum_bounded(tensors.drop_last(), k, filter);
        assert(tensors.drop_last().take(k) =~= tensors.take(k));
    } else {
        assert(tensors.take(k) =~= tensors);
        if tensors.len() > 0 {
            lemma_sum_bounded(tensors.drop_last(), tensors.len() - 1, filter);
            assert(tensors.drop_last().take(tensors.len() - 1) =~= tensors.drop_last());
        }
    }
}

/// A narrower selection is no larger.
pub proof fn lemma_sum_narrower(
    tensors: Seq<(Seq<char>, GgufTensor)>,
    narrow: spec_fn((Seq<char>, GgufTensor)) -> bool,
    wide: spec_fn((Seq<char>, GgufTensor)) -> bool,
)
    requires
        forall|t: (Seq<char>, GgufTensor)| #[trigger] narrow(t) ==> wide(t),
    ensures
        0 <= sum_where(tensors, narrow) <= sum_where(tensors, wide),
    decreases tensors.len(),
{
    if tensors.len() > 0 {
        lemma_sum_narrower(tensors.drop_last(), narrow, wide);
    }
}

proof fn lemma_blocks_step(tensors: Seq<(Seq<char>, GgufTensor)>, n: int)
    requires
        tensors.len() > 0,
        0 <= n <= u32::MAX + 1,
    ensures
        blocks_sum(tensors, n) == blocks_sum(tensors.drop_last(), n) + (match block_index(
            tensors.last().0,
        ) {
            Some(i) => if i < n {
                tensors.last().1.byte_size as int
            } else {
                0
            },
            None => 0,
        }),
    decreases n,
{
    if n > 0 {
        lemma_blocks_step(tensors, n - 1);
    }
}

/// The blocks, the output head, the embeddings and the rest together are
/// what a model of `n` blocks loads, each tensor counted once.
pub proof fn lemma_weights_partition(tensors: Seq<(Seq<char>, GgufTensor)>, n: int)
    requires
        0 <= n <= u32::MAX + 1,
    ensures
        blocks_sum(tensors, n) + sum_where(tensors, outside(0)) + sum_where(tensors, outside(1))
            + sum_where(tensors, outside(2)) == sum_where(tensors, loaded(n)),
    decreases tensors.len(),
{
    if tensors.len() == 0 {
        lemma_blocks_empty(tensors, n);
    } else {
        lemma_weights_partition(tensors.drop_last(), n);
        lemma_blocks_step(tensors, n);
    }
}

proof fn lemma_blocks_empty(tensors: Seq<(Seq<char>, GgufTensor)>, n: int)
    requires
        tensors.len() == 0,
    ensures
        blocks_sum(tensors, n) == 0,
    decreases n,
{
    if n > 0 {
        lemma_blocks_empty(tensors, n - 1);
    }
}

proof fn lemma_total_is_blocks(sizes: Seq<u64>, tensors: Seq<(Seq<char>, GgufTensor)>, n: int)
    requires
        0 <= n <= sizes.len(),
        forall|i: int|
            0 <= i < sizes.len() ==> #[trigger] sizes[i] == sum_where(tensors, in_block(i)),
    ensures
        total(sizes.take(n)) == blocks_sum(tensors, n),
    decreases n,
{
    if n > 0 {
        lemma_total_is_blocks(sizes, tensors, n - 1);
        assert(sizes.take(n).drop_last() =~= sizes.take(n - 1));
        assert(sizes.take(n).last() == sizes[n - 1]);
    }
}

/// Whether `sizes` are the bytes of each of a model's `n` blocks.
pub open spec fn sizes_blocks(
    sizes: Seq<u64>,
    tensors: Seq<(Seq<char>, GgufTensor)>,
    n: int,
) -> bool {
    &&& sizes.len() == n
    &&& forall|i: int| 0 <= i < n ==> #[trigger] sizes[i] == sum_where(tensors, in_block(i))
}

/// The sizes of all blocks add up to the bytes of the blocks.
pub proof fn lemma_sizes_total(sizes: Seq<u64>, tensors: Seq<(Seq<char>, GgufTensor)>, n: int)
    requires
        sizes_blocks(sizes, tensors, n),
    ensures
        total(sizes) == blocks_sum(tensors, n),
{
    lemma_total_is_blocks(sizes, tensors, n);
    assert(sizes.take(n) =~= sizes);
}

/// Whether `out` accounts for the tensors outside the blocks. The table is
/// the head too where there is no separate head.
pub open spec fn accounts_outside(out: NonLayer, tensors: Seq<(Seq<char>, GgufTensor)>) -> bool {
    &&& out.output_head_bytes == sum_where(tensors, outside(0))
    &&& out.token_embd_bytes == sum_where(tensors, outside(1))
    &&& out.other_bytes == sum_where(tensors, outside(2))
    &&& out.tied_head_bytes == (if sum_where(tensors, outside(0)) == 0 {
        sum_where(tensors, embedding_table())
    } else {
        0
    })
}

/// A list of `n` zeros.
pub fn zeros(n: u32) -> (r: Vec<u64>)
    ensures
        r@.len() == n,
        forall|i: int| 0 <= i < n ==> r@[i] == 0,
{
    let mut r: Vec<u64> = Vec::new();
    let mut i: u32 = 0;
    while i < n
        invariant
            i <= n,
            r@.len() == i,
            forall|j: int| 0 <= j < i ==> r@[j] == 0,
        decreases n - i,
    {
        r.push(0);
        i += 1;
    }
    r
}

/// Sum of a list of sizes.
pub fn sum(sizes: &[u64]) -> (r: u64)
    requires
        total(sizes@) <= u64::MAX,
    ensures
        r == total(sizes@),
{
    let mut r: u64 = 0;
    for i in 0..sizes.len()
        invariant
            total(sizes@) <= u64::MAX,
            r == total(sizes@.take(i as int)),
    {
        proof {
            lemma_total_prefix(sizes@, i + 1);
            assert(sizes@.take(i + 1).drop_last() =~= sizes@.take(i as int));
        }
        r = r + sizes[i];
    }
    assert(sizes@.take(sizes@.len() as int) =~= sizes@);
    r
}

/// A part of a list of sizes adds up to no more than the whole.
pub proof fn lemma_total_prefix(sizes: Seq<u64>, k: int)
    requires
        0 <= k <= sizes.len(),
    ensures
        0 <= total(sizes.take(k)) <= total(sizes),
    decreases sizes.len(),
{
    if k < sizes.len() {
        lemma_total_prefix(sizes.drop_last(), k);
        assert(sizes.drop_last().take(k) =~= sizes.take(k));
    } else {
        assert(sizes.take(k) =~= sizes);
        if sizes.len() > 0 {
            lemma_total_prefix(sizes.drop_last(), sizes.len() - 1);
        }
    }
}

/// Weight bytes by block.
pub fn collect_per_layer(summary: &GgufSummary, n_layers: u32) -> (r: Vec<u64>)
    requires
        sum_where(summary.tensors.pairs(), every()) <= u64::MAX,
    ensures
        sizes_blocks(r@, summary.tensors.pairs(), n_layers as int),
{
    let ghost tensors = summary.tensors.pairs();
    let mut sizes: Vec<u64> = zeros(n_layers);
    let n: usize = summary.tensors.len();
    for k in 0..n
        invariant
            n == tensors.len(),
            tensors == summary.tensors.pairs(),
            sum_where(tensors, every()) <= u64::MAX,
            sizes@.len() == n_layers,
            forall|i: int|
                0 <= i < n_layers ==> #[trigger] sizes@[i] == sum_where(
                    tensors.take(k as int),
                    in_block(i),
                ),
    {
        let ghost before = sizes@;
        proof {
            assert(tensors.take(k + 1).drop_last() =~= tensors.take(k as int));
            assert(tensors.take(k + 1).last() == tensors[k as int]);
        }
        let bytes: u64 = summary.tensors.value_at(k).byte_size;
        let index: Option<u32> = layer_index(summary.tensors.key_at(k));
        if let Some(idx) = index {
            if (idx as usize) < sizes.len() {
                proof {
                    lemma_sum_bounded(tensors, k + 1, in_block(idx as int));
                }
                let was: u64 = sizes[idx as usize];
                sizes[idx as usize] = was + bytes;
            }
        }
        proof {
            assert forall|i: int| 0 <= i < n_layers implies #[trigger] sizes@[i] == sum_where(
                tensors.take(k + 1),
                in_block(i),
            ) by {
                assert(before[i] == sum_where(tensors.take(k as int), in_block(i)));
            }
        }
    }
    assert(tensors.take(n as int) =~= tensors);
    sizes
}

/// The tensors outside the blocks.
pub fn collect_non_layer(summary: &GgufSummary) -> (r: NonLayer)
    requires
        sum_where(summary.tensors.pairs(), every()) <= u64::MAX,
    ensures
        accounts_outside(r, summary.tensors.pairs()),
{
    let ghost tensors = summary.tensors.pairs();
    let mut head: u64 = 0;
    let mut embd: u64 = 0;
    let mut other: u64 = 0;
    let mut table: u64 = 0;
    let n: usize = summary.tensors.len();
    for k in 0..n
        invariant
            n == tensors.len(),
            tensors == summary.tensors.pairs(),
            sum_where(tensors, every()) <= u64::MAX,
            head == sum_where(tensors.take(k as int), outside(0)),
            embd == sum_where(tensors.take(k as int), outside(1)),
            other == sum_where(tensors.take(k as int), outside(2)),
            table == sum_where(tensors.take(k as int), embedding_table()),
    {
        proof {
            assert(tensors.take(k + 1).drop_last() =~= tensors.take(k as int));
            assert(tensors.take(k + 1).last() == tensors[k as int]);
            lemma_sum_bounded(tensors, k + 1, outside(0));
            lemma_sum_bounded(tensors, k + 1, outside(1));
            lemma_sum_bounded(tensors, k + 1, outside(2));
            lemma_sum_bounded(tensors, k + 1, embedding_table());
        }
        let name: &str = summary.tensors.key_at(k);
        let bytes: u64 = summary.tensors.value_at(k).byte_size;
        if layer_index(name).is_none() {
            if text::same(name, "token_embd.weight") {
                table = table + bytes;
            }
            if text::same(name, "output.weight") {
                head = head + bytes;
            } else if text::same(name, "token_embd.weight") || text::same(
                name,
                "per_layer_token_embd.weight",
            ) {
                embd = embd + bytes;
            } else {
                other = other + bytes;
            }
        }
    }
    assert(tensors.take(n as int) =~= tensors);
    NonLayer {
        output_head_bytes: head,
        token_embd_bytes: embd,
        tied_head_bytes: if head == 0 {
            table
        } else {
            0
        },
        other_bytes: other,
    }
}

} // verus!
