//! Turning raw disassembler text into instruction listings.
use vstd::prelude::*;
use vstd::string::*;

verus! {

/// Whether `c` is kept when the columns of a line are joined.
pub open spec fn not_tab(c: char) -> bool {
    c != '\t'
}

/// Whether `line` holds a tab character.
pub open spec fn has_tab(line: Seq<char>) -> bool {
    exists|i: int| 0 <= i < line.len() && line[i] == '\t'
}

/// What follows the first tab of `line`, if it holds one.
pub open spec fn after_first_tab(line: Seq<char>) -> Option<Seq<char>>
    decreases line.len(),
{
    if line.len() == 0 {
        None
    } else if line[0] == '\t' {
        Some(line.drop_first())
    } else {
        after_first_tab(line.drop_first())
    }
}

/// An instruction line with its address column removed: the columns after the
/// first tab, joined without their tabs. A line without a tab is kept as it is.
pub open spec fn strip_columns(line: Seq<char>) -> Seq<char> {
    match after_first_tab(line) {
        Some(rest) => rest.filter(|c: char| not_tab(c)),
        None => line,
    }
}

/// The block of one function: the marker line (the function's name) followed by
/// the disassembler's lines, without the second line of that combined list,
/// which is the disassembler's banner.
pub open spec fn block_of(function: Seq<char>, raw: Seq<Seq<char>>) -> Seq<Seq<char>> {
    let combined = seq![function] + raw;
    if combined.len() > 1 {
        combined.remove(1)
    } else {
        combined
    }
}

/// A block with every line but its marker stripped of its address column.
pub open spec fn format_block(block: Seq<Seq<char>>) -> Seq<Seq<char>> {
    Seq::new(block.len(), |j: int| if j == 0 { block[0] } else { strip_columns(block[j]) })
}

/// The flat listing of a sequence of blocks, in their order.
pub open spec fn listing(blocks: Seq<Seq<Seq<char>>>) -> Seq<Seq<char>> {
    blocks.map_values(|b: Seq<Seq<char>>| format_block(b)).flatten()
}

proof fn lemma_after_first_tab_skip(line: Seq<char>, i: int)
    requires
        0 <= i < line.len(),
        line[i] != '\t',
    ensures
        after_first_tab(line.subrange(i, line.len() as int)) == after_first_tab(
            line.subrange(i + 1, line.len() as int),
        ),
{
    assert(line.subrange(i, line.len() as int).drop_first() =~= line.subrange(
        i + 1,
        line.len() as int,
    ));
}

proof fn lemma_after_first_tab_found(line: Seq<char>, i: int)
    requires
        0 <= i < line.len(),
        line[i] == '\t',
    ensures
        after_first_tab(line.subrange(i, line.len() as int)) == Some(
            line.subrange(i + 1, line.len() as int),
        ),
{
    assert(line.subrange(i, line.len() as int).drop_first() =~= line.subrange(
        i + 1,
        line.len() as int,
    ));
}

/// Removes the address column of one disassembly line.
pub fn strip_line(line: &String) -> (r: String)
    ensures
        r@ == strip_columns(line@),
{
    let s = line.as_str();
    let n = s.unicode_len();
    let mut out = String::new();
    let mut seen_tab = false;
    let ghost mut tab: int = 0;
    let mut i: usize = 0;
    assert(line@.subrange(0, n as int) =~= line@);
    while i < n
        invariant
            s@ == line@,
            n == line@.len(),
            i <= n,
            !seen_tab ==> after_first_tab(line@) == after_first_tab(
                line@.subrange(i as int, n as int),
            ),
            !seen_tab ==> out@ == Seq::<char>::empty(),
            seen_tab ==> 0 <= tab < i,
            seen_tab ==> after_first_tab(line@) == Some(line@.subrange(tab + 1, n as int)),
            seen_tab ==> out@ == line@.subrange(tab + 1, i as int).filter(|c: char| not_tab(c)),
        decreases n - i,
    {
        let c = s.get_char(i);
        proof {
            if seen_tab {
                let prev = line@.subrange(tab + 1, i as int);
                assert(line@.subrange(tab + 1, i + 1) =~= prev.push(c));
                prev.lemma_filter_push(c, |c: char| not_tab(c));
            }
        }
        if !seen_tab {
            if c == '\t' {
                proof {
                    lemma_after_first_tab_found(line@, i as int);
                    tab = i as int;
                    assert(line@.subrange(tab + 1, i + 1) =~= Seq::<char>::empty());
                    reveal(Seq::filter);
                }
                seen_tab = true;
            } else {
                proof {
                    lemma_after_first_tab_skip(line@, i as int);
                }
            }
        } else if c != '\t' {
            out.append(s.substring_char(i, i + 1));
            proof {
                assert(line@.subrange(i as int, i + 1) =~= seq![c]);
            }
        }
        i = i + 1;
    }
    if !seen_tab {
        proof {
            assert(line@.subrange(n as int, n as int).len() == 0);
        }
        line.clone()
    } else {
        proof {
            assert(line@.subrange(tab + 1, n as int) == line@.subrange(tab + 1, i as int));
        }
        out
    }
}

/// Builds the block of one function from the disassembler's lines: the
/// function's name as marker, then every line but the first (the banner).
pub fn normalize_block(function: &String, raw: &Vec<String>) -> (r: Vec<String>)
    ensures
        r.deep_view() == block_of(function@, raw.deep_view()),
{
    let mut out: Vec<String> = Vec::new();
    out.push(function.clone());
    if raw.len() == 0 {
        proof {
            assert(seq![function@] + raw.deep_view() =~= out.deep_view());
        }
        return out;
    }
    let mut i: usize = 1;
    assert(out.deep_view() =~= seq![function@] + raw.deep_view().subrange(1, 1));
    while i < raw.len()
        invariant
            1 <= i <= raw.len(),
            out.deep_view() =~= seq![function@] + raw.deep_view().subrange(1, i as int),
        decreases raw.len() - i,
    {
        let ghost prev = out.deep_view();
        let line = raw[i].clone();
        out.push(line);
        proof {
            assert(out.deep_view() =~= prev.push(line@));
            assert(raw.deep_view()[i as int] == line@);
        }
        i = i + 1;
    }
    proof {
        let combined = seq![function@] + raw.deep_view();
        assert(combined.remove(1) =~= out.deep_view());
    }
    out
}

/// Flattens the blocks of all functions, in their order, into one listing: the
/// marker of each block is kept verbatim, every other line loses its address
/// column.
pub fn format_output(output: Vec<Vec<String>>) -> (r: Vec<String>)
    ensures
        r.deep_view() == listing(output.deep_view()),
{
    flatten_blocks(&output)
}

/// The listing of borrowed blocks; see [`format_output`].
pub fn flatten_blocks(output: &Vec<Vec<String>>) -> (r: Vec<String>)
    ensures
        r.deep_view() == listing(output.deep_view()),
{
    let ghost blocks = output.deep_view();
    let mut out: Vec<String> = Vec::new();
    let mut i: usize = 0;
    while i < output.len()
        invariant
            blocks == output.deep_view(),
            i <= output.len(),
            out.deep_view() == blocks.subrange(0, i as int).map_values(
                |b: Seq<Seq<char>>| format_block(b),
            ).flatten(),
        decreases output.len() - i,
    {
        let block = &output[i];
        let ghost before = out.deep_view();
        let mut j: usize = 0;
        while j < block.len()
            invariant
                blocks == output.deep_view(),
                i < output.len(),
                block == output[i as int],
                j <= block.len(),
                out.deep_view() =~= before + format_block(blocks[i as int]).subrange(0, j as int),
            decreases block.len() - j,
        {
            let ghost prev = out.deep_view();
            let line = if j == 0 {
                block[0].clone()
            } else {
                strip_line(&block[j])
            };
            proof {
                assert(blocks[i as int][j as int] == block[j as int]@);
                assert(line@ == format_block(blocks[i as int])[j as int]);
            }
            out.push(line);
            proof {
                assert(out.deep_view() =~= prev.push(line@));
                assert(format_block(blocks[i as int]).subrange(0, j + 1) =~= format_block(
                    blocks[i as int],
                ).subrange(0, j as int).push(line@));
            }
            j = j + 1;
        }
        proof {
            let f = |b: Seq<Seq<char>>| format_block(b);
            let prev = blocks.subrange(0, i as int);
            assert(blocks.subrange(0, i + 1) =~= prev.push(blocks[i as int]));
            assert(prev.push(blocks[i as int]).map_values(f) =~= prev.map_values(f).push(
                format_block(blocks[i as int]),
            ));
            prev.map_values(f).lemma_flatten_push(format_block(blocks[i as int]));
            assert(format_block(blocks[i as int]).subrange(0, j as int) =~= format_block(
                blocks[i as int],
            ));
        }
        i = i + 1;
    }
    proof {
        assert(blocks.subrange(0, i as int) =~= blocks);
    }
    out
}

/// The blocks of the requested functions, each built from its own raw lines.
pub open spec fn blocks_of(functions: Seq<Seq<char>>, raws: Seq<Seq<Seq<char>>>) -> Seq<
    Seq<Seq<char>>,
> {
    Seq::new(functions.len(), |i: int| block_of(functions[i], raws[i]))
}

/// Whether `order` lists each index below its length exactly once.
pub open spec fn is_permutation(order: Seq<int>) -> bool {
    &&& forall|k: int| 0 <= k < order.len() ==> 0 <= #[trigger] order[k] < order.len()
    &&& forall|k1: int, k2: int|
        0 <= k1 < order.len() && 0 <= k2 < order.len() && k1 != k2 ==> order[k1] != order[k2]
    &&& forall|i: int| 0 <= i < order.len() ==> #[trigger] appears_in(order, i)
}

/// Whether index `i` is listed in `order`.
pub open spec fn appears_in(order: Seq<int>, i: int) -> bool {
    exists|k: int| 0 <= k < order.len() && order[k] == i
}

/// Blocks produced in the execution order `order` (the `k`-th produced block is
/// that of function `order[k]`), put back in request order.
pub open spec fn reassemble(order: Seq<int>, done: Seq<Seq<Seq<char>>>) -> Seq<Seq<Seq<char>>> {
    Seq::new(
        order.len(),
        |i: int| done[choose|k: int| 0 <= k < order.len() && order[k] == i],
    )
}

proof fn lemma_no_tab_when_none(line: Seq<char>)
    requires
        after_first_tab(line) is None,
    ensures
        !has_tab(line),
    decreases line.len(),
{
    if line.len() > 0 {
        lemma_no_tab_when_none(line.drop_first());
        assert forall|i: int| 0 <= i < line.len() implies line[i] != '\t' by {
            if i > 0 {
                assert(line.drop_first()[i - 1] == line[i]);
            }
        }
    }
}

/// A stripped line holds no tab.
pub proof fn lemma_strip_leaves_no_tab(line: Seq<char>)
    ensures
        !has_tab(strip_columns(line)),
{
    match after_first_tab(line) {
        Some(rest) => {
            let kept = rest.filter(|c: char| not_tab(c));
            assert forall|i: int| 0 <= i < kept.len() implies kept[i] != '\t' by {
                rest.lemma_filter_pred(|c: char| not_tab(c), i);
            }
        },
        None => {
            lemma_no_tab_when_none(line);
        },
    }
}

/// Normalising a raw block removes exactly one line: the second line of the
/// combined marker-and-raw list, whatever it holds. The marker comes first and
/// every other raw line follows in its order.
pub proof fn lemma_banner_removed(function: Seq<char>, raw: Seq<Seq<char>>)
    requires
        raw.len() >= 1,
    ensures
        block_of(function, raw).len() == (seq![function] + raw).len() - 1,
        block_of(function, raw) == (seq![function] + raw).remove(1),
        block_of(function, raw)[0] == function,
        forall|j: int| 1 <= j < raw.len() ==> #[trigger] block_of(function, raw)[j] == raw[j],
        forall|banner: Seq<char>|
            #[trigger] block_of(function, raw.update(0, banner)) == block_of(function, raw),
{
    assert forall|banner: Seq<char>|
        #[trigger] block_of(function, raw.update(0, banner)) == block_of(function, raw) by {
        assert(block_of(function, raw.update(0, banner)) =~= block_of(function, raw));
    }
}

/// After a successful compile of functions `f1 .. fn`, the flat listing splits
/// into exactly `n` contiguous segments; segment `i` starts with `fi`, and no
/// other line of it holds a tab, so none keeps an address column.
pub proof fn lemma_listing_segments(functions: Seq<Seq<char>>, raws: Seq<Seq<Seq<char>>>)
    requires
        raws.len() == functions.len(),
    ensures
        exists|segments: Seq<Seq<Seq<char>>>|
            {
                &&& segments.len() == functions.len()
                &&& segments.flatten() == listing(blocks_of(functions, raws))
                &&& forall|i: int|
                    0 <= i < segments.len() ==> #[trigger] segments[i].len() >= 1
                        && segments[i][0] == functions[i]
                &&& forall|i: int, j: int|
                    0 <= i < segments.len() && 1 <= j < segments[i].len() ==> !has_tab(
                        #[trigger] segments[i][j],
                    )
            },
{
    let blocks = blocks_of(functions, raws);
    let segments = blocks.map_values(|b: Seq<Seq<char>>| format_block(b));
    assert forall|i: int| 0 <= i < segments.len() implies #[trigger] segments[i].len() >= 1
        && segments[i][0] == functions[i] by {
        let raw = raws[i];
        assert((seq![functions[i]] + raw)[0] == functions[i]);
        if raw.len() > 0 {
            assert((seq![functions[i]] + raw).remove(1)[0] == functions[i]);
        }
    }
    assert forall|i: int, j: int|
        0 <= i < segments.len() && 1 <= j < segments[i].len() implies !has_tab(
        #[trigger] segments[i][j],
    ) by {
        lemma_strip_leaves_no_tab(blocks[i][j]);
    }
}

/// Running the per-function disassembly in any order gives the same listing,
/// once the blocks are put back in request order.
pub proof fn lemma_reordered_execution(
    functions: Seq<Seq<char>>,
    raws: Seq<Seq<Seq<char>>>,
    order: Seq<int>,
    done: Seq<Seq<Seq<char>>>,
)
    requires
        raws.len() == functions.len(),
        order.len() == functions.len(),
        done.len() == functions.len(),
        is_permutation(order),
        forall|k: int|
            0 <= k < done.len() ==> #[trigger] done[k] == block_of(
                functions[order[k]],
                raws[order[k]],
            ),
    ensures
        listing(reassemble(order, done)) == listing(blocks_of(functions, raws)),
{
    let back = reassemble(order, done);
    assert forall|i: int| 0 <= i < back.len() implies back[i] == blocks_of(functions, raws)[i] by {
        assert(appears_in(order, i));
        let k = choose|k: int| 0 <= k < order.len() && order[k] == i;
        assert(done[k] == block_of(functions[order[k]], raws[order[k]]));
    }
    assert(back =~= blocks_of(functions, raws));
}

} // verus!
