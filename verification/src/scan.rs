use vstd::prelude::*;

verus! {

/// The byte that separates the fields of a line.
pub const SPACE: u8 = 32;

/// The byte that separates the indices of a face corner.
pub const SLASH: u8 = 47;

/// The first position at or after `i` that holds no space. A position at or
/// past the end of the line holds none, so it is returned as it is.
pub open spec fn skip_spaces(line: Seq<u8>, i: int) -> int
    decreases line.len() - i,
{
    if 0 <= i < line.len() && line[i] == SPACE {
        skip_spaces(line, i + 1)
    } else {
        i
    }
}

/// The first position at or after `i` that holds a space or lies at or past
/// the end of the line.
pub open spec fn word_end(line: Seq<u8>, i: int) -> int
    decreases line.len() - i,
{
    if 0 <= i < line.len() && line[i] != SPACE {
        word_end(line, i + 1)
    } else {
        i
    }
}

/// The position after one slash, if `i` holds a slash; else `i`.
pub open spec fn skip_slash(line: Seq<u8>, i: int) -> int {
    if 0 <= i < line.len() && line[i] == SLASH {
        i + 1
    } else {
        i
    }
}

/// The first position at or after `i` that holds a space or a slash, or lies
/// at or past the end of the line.
pub open spec fn index_end(line: Seq<u8>, i: int) -> int
    decreases line.len() - i,
{
    if 0 <= i < line.len() && line[i] != SPACE && line[i] != SLASH {
        index_end(line, i + 1)
    } else {
        i
    }
}

/// `skip_spaces` stops at the first byte that is no space, and nowhere else.
pub proof fn lemma_skip_spaces(line: Seq<u8>, i: int)
    requires
        0 <= i,
    ensures
        i <= skip_spaces(line, i),
        i <= line.len() ==> skip_spaces(line, i) <= line.len(),
        i >= line.len() ==> skip_spaces(line, i) == i,
        forall|k: int| i <= k < skip_spaces(line, i) ==> line[k] == SPACE,
        skip_spaces(line, i) < line.len() ==> line[skip_spaces(line, i)] != SPACE,
    decreases line.len() - i,
{
    if i < line.len() && line[i] == SPACE {
        lemma_skip_spaces(line, i + 1);
    }
}

/// `word_end` stops at the first space, and nowhere else.
pub proof fn lemma_word_end(line: Seq<u8>, i: int)
    requires
        0 <= i,
    ensures
        i <= word_end(line, i),
        i <= line.len() ==> word_end(line, i) <= line.len(),
        i >= line.len() ==> word_end(line, i) == i,
        forall|k: int| i <= k < word_end(line, i) ==> line[k] != SPACE,
        word_end(line, i) < line.len() ==> line[word_end(line, i)] == SPACE,
    decreases line.len() - i,
{
    if i < line.len() && line[i] != SPACE {
        lemma_word_end(line, i + 1);
    }
}

/// `index_end` stops at the first space or slash, and nowhere else.
pub proof fn lemma_index_end(line: Seq<u8>, i: int)
    requires
        0 <= i,
    ensures
        i <= index_end(line, i),
        i <= line.len() ==> index_end(line, i) <= line.len(),
        i >= line.len() ==> index_end(line, i) == i,
        forall|k: int| i <= k < index_end(line, i) ==> line[k] != SPACE && line[k] != SLASH,
        index_end(line, i) < line.len() ==> line[index_end(line, i)] == SPACE || line[index_end(
            line,
            i,
        )] == SLASH,
    decreases line.len() - i,
{
    if i < line.len() && line[i] != SPACE && line[i] != SLASH {
        lemma_index_end(line, i + 1);
    }
}

/// Steps over the spaces at `i`, then over the word that follows, and returns
/// where the word starts and where it ends. The word is empty when the line
/// ends first.
pub fn find_next_space(i: usize, line: &[u8]) -> (r: (usize, usize))
    ensures
        r.0 == skip_spaces(line@, i as int),
        r.1 == word_end(line@, r.0 as int),
        i <= r.0 <= r.1,
        i <= line.len() ==> r.1 <= line.len(),
        i >= line.len() ==> r.0 == i && r.1 == i,
        forall|k: int| i <= k < r.0 ==> line@[k] == SPACE,
        forall|k: int| r.0 <= k < r.1 ==> line@[k] != SPACE,
        r.0 < line.len() ==> line@[r.0 as int] != SPACE,
        r.1 < line.len() ==> line@[r.1 as int] == SPACE,
{
    let mut start: usize = i;
    while start < line.len() && line[start] == SPACE
        invariant
            i <= start,
            skip_spaces(line@, start as int) == skip_spaces(line@, i as int),
        decreases line.len() - start,
    {
        start += 1;
    }
    let mut end: usize = start;
    while end < line.len() && line[end] != SPACE
        invariant
            start <= end,
            word_end(line@, end as int) == word_end(line@, start as int),
        decreases line.len() - end,
    {
        end += 1;
    }
    proof {
        lemma_skip_spaces(line@, i as int);
        lemma_word_end(line@, start as int);
    }
    (start, end)
}

/// Steps over one slash at `i`, if there is one, then over the index that
/// follows, and returns where the index starts and where it ends. The index
/// is empty when a space, another slash or the end of the line comes first.
pub fn find_next_slash(i: usize, line: &[u8]) -> (r: (usize, usize))
    ensures
        r.0 == skip_slash(line@, i as int),
        r.1 == index_end(line@, r.0 as int),
        i <= r.0 <= r.1,
        r.0 <= i + 1,
        i <= line.len() ==> r.1 <= line.len(),
        i >= line.len() ==> r.0 == i && r.1 == i,
        forall|k: int| r.0 <= k < r.1 ==> line@[k] != SPACE && line@[k] != SLASH,
        r.1 < line.len() ==> line@[r.1 as int] == SPACE || line@[r.1 as int] == SLASH,
{
    let mut start: usize = i;
    if start < line.len() && line[start] == SLASH {
        start += 1;
    }
    let end = scan_index(start, line);
    (start, end)
}

/// Steps over an index that starts at `i` and returns where it ends.
pub fn scan_index(i: usize, line: &[u8]) -> (end: usize)
    ensures
        end == index_end(line@, i as int),
        i <= end,
        i <= line.len() ==> end <= line.len(),
        i >= line.len() ==> end == i,
        forall|k: int| i <= k < end ==> line@[k] != SPACE && line@[k] != SLASH,
        end < line.len() ==> line@[end as int] == SPACE || line@[end as int] == SLASH,
{
    let mut end: usize = i;
    while end < line.len() && line[end] != SPACE && line[end] != SLASH
        invariant
            i <= end,
            index_end(line@, end as int) == index_end(line@, i as int),
        decreases line.len() - end,
    {
        end += 1;
    }
    proof {
        lemma_index_end(line@, i as int);
    }
    end
}

} // verus!
