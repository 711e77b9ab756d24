//! Line-delimited bytes: how a buffer falls into lines and how lines make a
//! buffer.

use vstd::prelude::*;

verus! {

/// The byte that ends a line.
pub const LINE_FEED: u8 = 0x0A;

/// `line` holds no line feed.
pub open spec fn is_line(line: Seq<u8>) -> bool {
    forall|i: int| 0 <= i < line.len() ==> line[i] != LINE_FEED
}

/// The number of bytes before the first line feed of `bytes`, which is the
/// length of `bytes` where it holds none.
pub open spec fn line_length(bytes: Seq<u8>) -> int
    decreases bytes.len(),
{
    if bytes.len() == 0 || bytes[0] == LINE_FEED {
        0
    } else {
        1 + line_length(bytes.drop_first())
    }
}

/// The lines of `bytes`. A line ends at a line feed or at the end of the
/// buffer; the line feed is no part of it; after the last line feed no empty
/// line follows.
pub open spec fn split_lines(bytes: Seq<u8>) -> Seq<Seq<u8>>
    decreases bytes.len(),
{
    let n = line_length(bytes);
    if bytes.len() == 0 {
        Seq::empty()
    } else if 0 <= n < bytes.len() {
        seq![bytes.take(n)] + split_lines(bytes.skip(n + 1))
    } else {
        seq![bytes]
    }
}

/// The buffer that holds `lines`, a line feed after each.
pub open spec fn join_lines(lines: Seq<Seq<u8>>) -> Seq<u8>
    decreases lines.len(),
{
    if lines.len() == 0 {
        Seq::empty()
    } else {
        lines[0] + seq![LINE_FEED] + join_lines(lines.drop_first())
    }
}

/// The first line of a buffer lies within it, holds no line feed and is
/// followed by one unless the buffer ends there.
pub proof fn lemma_line_length(bytes: Seq<u8>)
    ensures
        0 <= line_length(bytes) <= bytes.len(),
        is_line(bytes.take(line_length(bytes))),
        line_length(bytes) < bytes.len() ==> bytes[line_length(bytes)] == LINE_FEED,
    decreases bytes.len(),
{
    if bytes.len() > 0 && bytes[0] != LINE_FEED {
        let rest = bytes.drop_first();
        lemma_line_length(rest);
        let n = line_length(bytes);
        assert forall|i: int| 0 <= i < n implies bytes.take(n)[i] != LINE_FEED by {
            if i > 0 {
                assert(rest.take(n - 1)[i - 1] == bytes[i]);
            }
        }
    }
}

/// Where a buffer starts with a line that a line feed ends, its first line
/// has that line's length.
pub proof fn lemma_line_length_of_line(line: Seq<u8>, rest: Seq<u8>)
    requires
        is_line(line),
    ensures
        line_length(line + seq![LINE_FEED] + rest) == line.len(),
    decreases line.len(),
{
    let bytes = line + seq![LINE_FEED] + rest;
    if line.len() > 0 {
        assert(bytes.drop_first() =~= line.drop_first() + seq![LINE_FEED] + rest);
        lemma_line_length_of_line(line.drop_first(), rest);
    }
}

/// Lines that were joined come apart again as they were: the same lines in
/// the same order, provided that none of them holds a line feed.
pub proof fn lemma_split_join(lines: Seq<Seq<u8>>)
    requires
        forall|i: int| 0 <= i < lines.len() ==> is_line(#[trigger] lines[i]),
    ensures
        split_lines(join_lines(lines)) == lines,
    decreases lines.len(),
{
    if lines.len() > 0 {
        let rest = lines.drop_first();
        let tail = join_lines(rest);
        let bytes = join_lines(lines);
        lemma_line_length_of_line(lines[0], tail);
        lemma_split_join(rest);
        let n = lines[0].len() as int;
        assert(bytes.take(n) =~= lines[0]);
        assert(bytes.skip(n + 1) =~= tail);
    }
}

/// Joining one more line appends the line and a line feed to the buffer.
pub proof fn lemma_join_push(lines: Seq<Seq<u8>>, line: Seq<u8>)
    ensures
        join_lines(lines.push(line)) == join_lines(lines) + line + seq![LINE_FEED],
    decreases lines.len(),
{
    if lines.len() == 0 {
        assert(join_lines(lines.push(line).drop_first()) =~= Seq::<u8>::empty());
    } else {
        assert(lines.push(line).drop_first() =~= lines.drop_first().push(line));
        lemma_join_push(lines.drop_first(), line);
    }
}

/// The end of the line that starts at `start`: the place of the next line
/// feed, or the end of the buffer.
pub fn line_end(bytes: &[u8], start: usize) -> (end: usize)
    requires
        start <= bytes@.len(),
    ensures
        end == start + line_length(bytes@.skip(start as int)),
        start <= end <= bytes@.len(),
{
    let mut end = start;
    proof {
        lemma_line_length(bytes@.skip(start as int));
    }
    while end < bytes.len() && bytes[end] != LINE_FEED
        invariant
            start <= end <= bytes@.len(),
            start + line_length(bytes@.skip(start as int)) == end + line_length(
                bytes@.skip(end as int),
            ),
        decreases bytes@.len() - end,
    {
        assert(bytes@.skip(end as int).drop_first() =~= bytes@.skip(end + 1));
        end += 1;
    }
    proof {
        lemma_line_length(bytes@.skip(end as int));
    }
    end
}

} // verus!
