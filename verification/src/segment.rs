//! The isolation of the last commands in a snapshot of terminal text.
//!
//! A snapshot is a sequence of lines, oldest first.  The shell's prompt is
//! the only delimiter: a line that starts with it is a boundary.  The
//! snapshot is scanned from its last line upwards.  The first boundary met is
//! the prompt at which this tool itself was started; each further boundary
//! opens one of the wanted command blocks.
//!
//! [`segment`] says which lines are wanted, [`scan`] how they are found, and
//! [`lemma_scan_gives_segment`] that the two agree.  The lemmas after it
//! say what that means for each shape that a snapshot can have.

use vstd::prelude::*;

verus! {

/// The neutral text that stands for the prompt in what is handed on, so that
/// nothing of the user's own prompt leaves the machine.
pub open spec fn marker() -> Seq<char> {
    ">>> "@
}

/// Whether a line is a boundary: whether it starts with the prompt.  Nothing
/// else is looked at, so output that happens to start with the prompt's text
/// is a boundary too.
pub open spec fn is_boundary(line: Seq<char>, prompt: Seq<char>) -> bool {
    prompt.is_prefix_of(line)
}

/// A line as it is handed on: a boundary with the marker in place of the
/// prompt at its start, any other line as it is.
pub open spec fn neutral(line: Seq<char>, prompt: Seq<char>) -> Seq<char> {
    if is_boundary(line, prompt) {
        marker() + line.skip(prompt.len() as int)
    } else {
        line
    }
}

/// The number of boundaries among the lines.
pub open spec fn boundaries(lines: Seq<Seq<char>>, prompt: Seq<char>) -> nat
    decreases lines.len(),
{
    if lines.len() == 0 {
        0
    } else if is_boundary(lines.last(), prompt) {
        boundaries(lines.drop_last(), prompt) + 1
    } else {
        boundaries(lines.drop_last(), prompt)
    }
}

/// The lines, each made neutral.
pub open spec fn neutral_lines(lines: Seq<Seq<char>>, prompt: Seq<char>) -> Seq<Seq<char>> {
    lines.map_values(|line: Seq<char>| neutral(line, prompt))
}

/// The place of the newest boundary, or `-1` where no line is one.  In a
/// snapshot that is the prompt at which this tool itself was started.
pub open spec fn newest_boundary(lines: Seq<Seq<char>>, prompt: Seq<char>) -> int
    decreases lines.len(),
{
    if lines.len() == 0 {
        -1
    } else if is_boundary(lines.last(), prompt) {
        lines.len() - 1
    } else {
        newest_boundary(lines.drop_last(), prompt)
    }
}

/// The place at which the last `count` command blocks of `lines` begin: the
/// boundary that has `count - 1` boundaries after it.  Lines that hold fewer
/// than `count` boundaries are taken from the first on.  Where no block is
/// wanted, the place is the end of the lines.
pub open spec fn blocks_start(lines: Seq<Seq<char>>, prompt: Seq<char>, count: nat) -> int
    decreases lines.len(),
{
    if count == 0 {
        lines.len() as int
    } else if lines.len() == 0 {
        0
    } else if !is_boundary(lines.last(), prompt) {
        blocks_start(lines.drop_last(), prompt, count)
    } else if count == 1 {
        lines.len() - 1
    } else {
        blocks_start(lines.drop_last(), prompt, (count - 1) as nat)
    }
}

/// The lines of the last `count` commands of a snapshot, oldest first, each
/// made neutral: of the lines before the newest boundary, those from the
/// start of the last `count` blocks on.  A snapshot without a boundary gives
/// nothing.
pub open spec fn segment(lines: Seq<Seq<char>>, prompt: Seq<char>, count: nat) -> Seq<Seq<char>> {
    let invoking = newest_boundary(lines, prompt);
    if invoking < 0 {
        Seq::empty()
    } else {
        let before = lines.take(invoking);
        neutral_lines(before.skip(blocks_start(before, prompt, count)), prompt)
    }
}

/// The buffer that the backward scan of `lines` fills, newest line first,
/// where `hits` boundaries were met below `lines` already and `count` blocks
/// are wanted.
///
/// A boundary raises the number of hits.  The first one is only recorded; a
/// later one is kept, made neutral.  The scan ends at the boundary that
/// brings the hits to `count + 1`.  Any other line is kept as it is once a
/// boundary was met, and passed over before.
pub open spec fn scan(lines: Seq<Seq<char>>, prompt: Seq<char>, count: nat, hits: nat) -> Seq<
    Seq<char>,
>
    decreases lines.len(),
{
    if lines.len() == 0 {
        Seq::empty()
    } else {
        let line = lines.last();
        let older = lines.drop_last();
        if is_boundary(line, prompt) {
            let kept = if hits >= 1 {
                seq![neutral(line, prompt)]
            } else {
                Seq::empty()
            };
            if hits + 1 == count + 1 {
                kept
            } else {
                kept + scan(older, prompt, count, hits + 1)
            }
        } else if hits > 0 {
            seq![line] + scan(older, prompt, count, hits)
        } else {
            scan(older, prompt, count, hits)
        }
    }
}

/// Lines that hold a boundary hold at least one.
pub proof fn lemma_boundaries_positive(lines: Seq<Seq<char>>, prompt: Seq<char>, at: int)
    requires
        0 <= at < lines.len(),
        is_boundary(lines[at], prompt),
    ensures
        boundaries(lines, prompt) >= 1,
    decreases lines.len(),
{
    if at < lines.len() - 1 {
        lemma_boundaries_positive(lines.drop_last(), prompt, at);
    }
}

/// Before its first boundary the scan passes over every line: lines after the
/// newest boundary never reach the result.
pub proof fn lemma_scan_passes_trailing(
    lines: Seq<Seq<char>>,
    trailing: Seq<Seq<char>>,
    prompt: Seq<char>,
    count: nat,
)
    requires
        boundaries(trailing, prompt) == 0,
    ensures
        scan(lines + trailing, prompt, count, 0) == scan(lines, prompt, count, 0),
    decreases trailing.len(),
{
    if trailing.len() == 0 {
        assert(lines + trailing =~= lines);
    } else {
        assert((lines + trailing).drop_last() =~= lines + trailing.drop_last());
        lemma_scan_passes_trailing(lines, trailing.drop_last(), prompt, count);
    }
}

/// Once a boundary was met, the scan keeps every line of `blocks` and ends at
/// its first line, where that line is the boundary that completes the count.
pub proof fn lemma_scan_ends_at_boundary(
    older: Seq<Seq<char>>,
    blocks: Seq<Seq<char>>,
    prompt: Seq<char>,
    count: nat,
    hits: nat,
)
    requires
        hits >= 1,
        blocks.len() >= 1,
        is_boundary(blocks[0], prompt),
        boundaries(blocks, prompt) + hits == count + 1,
    ensures
        scan(older + blocks, prompt, count, hits) == neutral_lines(blocks, prompt).reverse(),
    decreases blocks.len(),
{
    let all = older + blocks;
    let line = blocks.last();
    let fewer = blocks.drop_last();
    assert(all.last() == line);
    assert(all.drop_last() =~= older + fewer);
    if blocks.len() == 1 {
        assert(boundaries(fewer, prompt) == 0);
        assert(scan(all, prompt, count, hits) =~= neutral_lines(blocks, prompt).reverse());
    } else {
        lemma_boundaries_positive(fewer, prompt, 0);
        if is_boundary(line, prompt) {
            lemma_scan_ends_at_boundary(older, fewer, prompt, count, hits + 1);
        } else {
            lemma_scan_ends_at_boundary(older, fewer, prompt, count, hits);
        }
        assert(scan(all, prompt, count, hits) =~= neutral_lines(blocks, prompt).reverse());
    }
}

/// Once a boundary was met, the scan keeps every line down to the first where
/// the lines hold too few boundaries to complete the count.
pub proof fn lemma_scan_exhausts(lines: Seq<Seq<char>>, prompt: Seq<char>, count: nat, hits: nat)
    requires
        hits >= 1,
        boundaries(lines, prompt) + hits <= count,
    ensures
        scan(lines, prompt, count, hits) == neutral_lines(lines, prompt).reverse(),
    decreases lines.len(),
{
    if lines.len() == 0 {
        assert(scan(lines, prompt, count, hits) =~= neutral_lines(lines, prompt).reverse());
    } else {
        if is_boundary(lines.last(), prompt) {
            lemma_scan_exhausts(lines.drop_last(), prompt, count, hits + 1);
        } else {
            lemma_scan_exhausts(lines.drop_last(), prompt, count, hits);
        }
        assert(scan(lines, prompt, count, hits) =~= neutral_lines(lines, prompt).reverse());
    }
}

/// The newest boundary is a boundary, and no line after it is one.  There
/// is none exactly where the lines hold no boundary.
pub proof fn lemma_newest_boundary(lines: Seq<Seq<char>>, prompt: Seq<char>)
    ensures
        -1 <= newest_boundary(lines, prompt) < lines.len(),
        newest_boundary(lines, prompt) < 0 <==> boundaries(lines, prompt) == 0,
        newest_boundary(lines, prompt) >= 0 ==> is_boundary(
            lines[newest_boundary(lines, prompt)],
            prompt,
        ) && boundaries(lines.skip(newest_boundary(lines, prompt) + 1), prompt) == 0,
    decreases lines.len(),
{
    if lines.len() > 0 {
        let older = lines.drop_last();
        lemma_newest_boundary(older, prompt);
        let newest = newest_boundary(lines, prompt);
        if is_boundary(lines.last(), prompt) {
            assert(lines.skip(newest + 1) =~= Seq::<Seq<char>>::empty());
        } else if newest >= 0 {
            let after = lines.skip(newest + 1);
            assert(after.last() == lines.last());
            assert(after.drop_last() =~= older.skip(newest + 1));
        }
    }
}

/// The last blocks begin at a place among the lines, or at their end.
pub proof fn lemma_blocks_start_within(lines: Seq<Seq<char>>, prompt: Seq<char>, count: nat)
    ensures
        0 <= blocks_start(lines, prompt, count) <= lines.len(),
    decreases lines.len(),
{
    if count > 0 && lines.len() > 0 {
        if !is_boundary(lines.last(), prompt) {
            lemma_blocks_start_within(lines.drop_last(), prompt, count);
        } else if count > 1 {
            lemma_blocks_start_within(lines.drop_last(), prompt, (count - 1) as nat);
        }
    }
}

/// From their start on, the last blocks hold `count` boundaries, or all that
/// there are where those are fewer; and they begin with a boundary, unless
/// the lines hold fewer than `count` and are taken from the first on.
pub proof fn lemma_blocks_start_counts(lines: Seq<Seq<char>>, prompt: Seq<char>, count: nat)
    ensures
        boundaries(lines.skip(blocks_start(lines, prompt, count)), prompt) == if boundaries(
            lines,
            prompt,
        ) < count {
            boundaries(lines, prompt)
        } else {
            count
        },
        boundaries(lines, prompt) < count ==> blocks_start(lines, prompt, count) == 0,
        1 <= count <= boundaries(lines, prompt) ==> blocks_start(lines, prompt, count)
            < lines.len() && is_boundary(lines[blocks_start(lines, prompt, count)], prompt),
    decreases lines.len(),
{
    let start = blocks_start(lines, prompt, count);
    if count == 0 {
        assert(lines.skip(start) =~= Seq::<Seq<char>>::empty());
    } else if lines.len() == 0 {
        assert(lines.skip(start) =~= lines);
    } else {
        let older = lines.drop_last();
        if is_boundary(lines.last(), prompt) && count == 1 {
            let kept = lines.skip(start);
            assert(kept.last() == lines.last());
            assert(kept.drop_last() =~= Seq::<Seq<char>>::empty());
            assert(boundaries(kept.drop_last(), prompt) == 0);
        } else {
            let fewer = if is_boundary(lines.last(), prompt) {
                (count - 1) as nat
            } else {
                count
            };
            lemma_blocks_start_counts(older, prompt, fewer);
            lemma_blocks_start_within(older, prompt, fewer);
            assert(lines.skip(start).drop_last() =~= older.skip(start));
            assert(lines.skip(start).last() == lines.last());
        }
    }
}

/// Once a boundary was met, the scan keeps the lines from the start of the
/// blocks that are still wanted.
pub proof fn lemma_scan_keeps_blocks(
    lines: Seq<Seq<char>>,
    prompt: Seq<char>,
    count: nat,
    hits: nat,
)
    requires
        1 <= hits <= count,
    ensures
        scan(lines, prompt, count, hits) == neutral_lines(
            lines.skip(blocks_start(lines, prompt, (count + 1 - hits) as nat)),
            prompt,
        ).reverse(),
    decreases lines.len(),
{
    let wanted = (count + 1 - hits) as nat;
    let start = blocks_start(lines, prompt, wanted);
    let kept = neutral_lines(lines.skip(start), prompt);
    if lines.len() == 0 {
        assert(scan(lines, prompt, count, hits) =~= kept.reverse());
    } else {
        let older = lines.drop_last();
        if is_boundary(lines.last(), prompt) && wanted == 1 {
            assert(lines.skip(start) =~= seq![lines.last()]);
            assert(scan(lines, prompt, count, hits) =~= kept.reverse());
        } else {
            let fewer = if is_boundary(lines.last(), prompt) {
                (wanted - 1) as nat
            } else {
                wanted
            };
            let met = if is_boundary(lines.last(), prompt) {
                hits + 1
            } else {
                hits
            };
            lemma_scan_keeps_blocks(older, prompt, count, met);
            lemma_blocks_start_within(older, prompt, fewer);
            assert(start == blocks_start(older, prompt, fewer));
            assert(lines.skip(start) =~= older.skip(start).push(lines.last()));
            assert(kept =~= neutral_lines(older.skip(start), prompt).push(
                neutral(lines.last(), prompt),
            ));
            assert(scan(lines, prompt, count, hits) =~= kept.reverse());
        }
    }
}

/// The backward scan finds the wanted lines: its buffer, turned round, is
/// the segment.
pub proof fn lemma_scan_gives_segment(lines: Seq<Seq<char>>, prompt: Seq<char>, count: nat)
    ensures
        scan(lines, prompt, count, 0).reverse() == segment(lines, prompt, count),
{
    lemma_newest_boundary(lines, prompt);
    let invoking = newest_boundary(lines, prompt);
    if invoking < 0 {
        lemma_scan_passes_trailing(Seq::empty(), lines, prompt, count);
        assert(Seq::<Seq<char>>::empty() + lines =~= lines);
        assert(scan(lines, prompt, count, 0).reverse() =~= segment(lines, prompt, count));
    } else {
        let before = lines.take(invoking);
        let upto = before + seq![lines[invoking]];
        assert(lines =~= upto + lines.skip(invoking + 1));
        lemma_scan_passes_trailing(upto, lines.skip(invoking + 1), prompt, count);
        assert(upto.drop_last() =~= before);
        assert(upto.last() == lines[invoking]);
        if count == 0 {
            assert(before.skip(before.len() as int) =~= Seq::<Seq<char>>::empty());
            assert(scan(lines, prompt, count, 0).reverse() =~= segment(lines, prompt, count));
        } else {
            lemma_scan_keeps_blocks(before, prompt, count, 1);
            assert(scan(upto, prompt, count, 0) =~= scan(before, prompt, count, 1));
            lemma_reverse_twice(
                neutral_lines(before.skip(blocks_start(before, prompt, count)), prompt),
            );
        }
    }
}

/// Turning a sequence round twice gives it back.
pub proof fn lemma_reverse_twice(lines: Seq<Seq<char>>)
    ensures
        lines.reverse().reverse() == lines,
{
    assert(lines.reverse().reverse() =~= lines);
}

/// Enough history.  Let the snapshot be `older`, then `blocks`, then the
/// prompt line at which this tool was started, then lines without a boundary,
/// where `blocks` starts with a boundary and holds exactly `count` of them.
/// Then the result is `blocks`, made neutral: `count` command blocks, each
/// with exactly the lines between its two boundaries, oldest first, and
/// nothing of `older`.
pub proof fn lemma_segment_last_blocks(
    older: Seq<Seq<char>>,
    blocks: Seq<Seq<char>>,
    invoking: Seq<char>,
    trailing: Seq<Seq<char>>,
    prompt: Seq<char>,
    count: nat,
)
    requires
        count >= 1,
        blocks.len() >= 1,
        is_boundary(blocks[0], prompt),
        boundaries(blocks, prompt) == count,
        is_boundary(invoking, prompt),
        boundaries(trailing, prompt) == 0,
    ensures
        segment(older + blocks + seq![invoking] + trailing, prompt, count) == neutral_lines(
            blocks,
            prompt,
        ),
{
    let body = older + blocks;
    lemma_scan_gives_segment(older + blocks + seq![invoking] + trailing, prompt, count);
    lemma_scan_passes_trailing(body + seq![invoking], trailing, prompt, count);
    assert((body + seq![invoking]).drop_last() =~= body);
    lemma_scan_ends_at_boundary(older, blocks, prompt, count, 1);
    assert(scan(body + seq![invoking], prompt, count, 0) =~= scan(body, prompt, count, 1));
    lemma_reverse_twice(neutral_lines(blocks, prompt));
}

/// Too little history.  Let the snapshot be `before`, then the prompt line at
/// which this tool was started, then lines without a boundary, where `before`
/// holds fewer than `count` boundaries.  Then the result is all of `before`,
/// made neutral, and nothing of what follows the newest boundary: a shorter
/// result, and no failure.
pub proof fn lemma_segment_partial(
    before: Seq<Seq<char>>,
    invoking: Seq<char>,
    trailing: Seq<Seq<char>>,
    prompt: Seq<char>,
    count: nat,
)
    requires
        boundaries(before, prompt) < count,
        is_boundary(invoking, prompt),
        boundaries(trailing, prompt) == 0,
    ensures
        segment(before + seq![invoking] + trailing, prompt, count) == neutral_lines(before, prompt),
{
    lemma_scan_gives_segment(before + seq![invoking] + trailing, prompt, count);
    lemma_scan_passes_trailing(before + seq![invoking], trailing, prompt, count);
    assert((before + seq![invoking]).drop_last() =~= before);
    lemma_scan_exhausts(before, prompt, count, 1);
    assert(scan(before + seq![invoking], prompt, count, 0) =~= scan(before, prompt, count, 1));
    lemma_reverse_twice(neutral_lines(before, prompt));
}

/// A snapshot in which the prompt never starts a line gives nothing.
pub proof fn lemma_segment_without_boundary(lines: Seq<Seq<char>>, prompt: Seq<char>, count: nat)
    requires
        boundaries(lines, prompt) == 0,
    ensures
        segment(lines, prompt, count) == Seq::<Seq<char>>::empty(),
{
    lemma_newest_boundary(lines, prompt);
}

/// Asking for no command gives nothing, whatever the snapshot holds.
pub proof fn lemma_segment_none(lines: Seq<Seq<char>>, prompt: Seq<char>)
    ensures
        segment(lines, prompt, 0) == Seq::<Seq<char>>::empty(),
{
    let invoking = newest_boundary(lines, prompt);
    lemma_newest_boundary(lines, prompt);
    if invoking >= 0 {
        let before = lines.take(invoking);
        assert(before.skip(before.len() as int) =~= Seq::<Seq<char>>::empty());
    }
    assert(segment(lines, prompt, 0) =~= Seq::<Seq<char>>::empty());
}

/// The scan's buffer is the result turned round, and turning the result round
/// twice changes nothing: the order of the snapshot is kept.
pub proof fn lemma_segment_order(lines: Seq<Seq<char>>, prompt: Seq<char>, count: nat)
    ensures
        segment(lines, prompt, count).reverse() == scan(lines, prompt, count, 0),
        segment(lines, prompt, count).reverse().reverse() == segment(lines, prompt, count),
{
    lemma_scan_gives_segment(lines, prompt, count);
    lemma_reverse_twice(scan(lines, prompt, count, 0));
    lemma_reverse_twice(segment(lines, prompt, count));
}

/// Output that starts with the prompt's text bounds a block as a prompt line
/// does.  Let a command have printed the line `prompt + printed`, followed by
/// `output` without a boundary, before this tool was started.  Then the last
/// command's block starts at that printed line, and what the command printed
/// before it is cut off, as is the command line itself.
pub proof fn lemma_segment_prompt_in_output(
    older: Seq<Seq<char>>,
    printed: Seq<char>,
    output: Seq<Seq<char>>,
    invoking: Seq<char>,
    prompt: Seq<char>,
)
    requires
        boundaries(output, prompt) == 0,
        is_boundary(invoking, prompt),
    ensures
        segment(older + seq![prompt + printed] + output + seq![invoking], prompt, 1) == seq![
            marker() + printed,
        ] + output,
{
    let line = prompt + printed;
    let blocks = seq![line] + output;
    assert(is_boundary(line, prompt)) by {
        assert(line.subrange(0, prompt.len() as int) =~= prompt);
    }
    assert(line.skip(prompt.len() as int) =~= printed);
    lemma_boundaries_prepend(line, output, prompt);
    lemma_neutral_without_boundary(output, prompt);
    lemma_segment_last_blocks(older, blocks, invoking, Seq::empty(), prompt, 1);
    assert(older + blocks + seq![invoking] + Seq::<Seq<char>>::empty() =~= older + seq![line]
        + output + seq![invoking]);
    assert(neutral_lines(blocks, prompt) =~= seq![marker() + printed] + neutral_lines(
        output,
        prompt,
    ));
}

/// A line put before the others adds its own boundary to theirs.
pub proof fn lemma_boundaries_prepend(line: Seq<char>, lines: Seq<Seq<char>>, prompt: Seq<char>)
    ensures
        boundaries(seq![line] + lines, prompt) == boundaries(lines, prompt) + if is_boundary(
            line,
            prompt,
        ) {
            1nat
        } else {
            0nat
        },
    decreases lines.len(),
{
    let all = seq![line] + lines;
    if lines.len() == 0 {
        assert(all.last() == line);
        assert(all.drop_last() =~= lines);
    } else {
        assert(all.last() == lines.last());
        assert(all.drop_last() =~= seq![line] + lines.drop_last());
        lemma_boundaries_prepend(line, lines.drop_last(), prompt);
    }
}

/// Lines without a boundary are handed on as they are.
pub proof fn lemma_neutral_without_boundary(lines: Seq<Seq<char>>, prompt: Seq<char>)
    requires
        boundaries(lines, prompt) == 0,
    ensures
        neutral_lines(lines, prompt) == lines,
    decreases lines.len(),
{
    if lines.len() > 0 {
        let fewer = lines.drop_last();
        lemma_neutral_without_boundary(fewer, prompt);
        assert forall|i: int| 0 <= i < lines.len() implies neutral_lines(lines, prompt)[i]
            == lines[i] by {
            if i < fewer.len() {
                assert(neutral_lines(fewer, prompt)[i] == fewer[i]);
            }
        }
    }
    assert(neutral_lines(lines, prompt) =~= lines);
}

} // verus!
