//! Text cut into lines.
//!
//! A line ends with its newline; what follows the last newline is a line
//! too. The lines of a text, put together again, are the text.

use vstd::prelude::*;
use vstd::std_specs::iter::IteratorSpec;

verus! {

/// `String::pop` takes the last character off, if there is one. Trusted,
/// as the standard library documents it.
pub assume_specification[ String::pop ](text: &mut String) -> (last: Option<char>)
    ensures
        old(text)@.len() == 0 ==> last is None && final(text)@ == old(text)@,
        old(text)@.len() > 0 ==> last == Some(old(text)@.last()) && final(text)@ == old(
            text,
        )@.drop_last(),
;

/// What each of the strings `v` holds.
pub open spec fn texts(v: Seq<String>) -> Seq<Seq<char>> {
    v.map_values(|s: String| s@)
}

/// `s` ends in the middle of a line.
pub open spec fn unfinished(s: Seq<char>) -> bool {
    s.len() > 0 && s.last() != '\n'
}

/// The lines of `s`, each with the newline that ends it.
pub open spec fn split_lines(s: Seq<char>) -> Seq<Seq<char>>
    decreases s.len(),
{
    if s.len() == 0 {
        Seq::empty()
    } else {
        let before = split_lines(s.drop_last());
        if unfinished(s.drop_last()) && before.len() > 0 {
            before.drop_last().push(before.last().push(s.last()))
        } else {
            before.push(seq![s.last()])
        }
    }
}

/// `line` without the newline at its end, and without the carriage
/// return before that newline.
pub open spec fn strip_end(line: Seq<char>) -> Seq<char> {
    if line.len() >= 2 && line[line.len() - 1] == '\n' && line[line.len() - 2] == '\r' {
        line.take(line.len() - 2)
    } else if line.len() >= 1 && line[line.len() - 1] == '\n' {
        line.take(line.len() - 1)
    } else {
        line
    }
}

/// The lines of `s` without their ends.
pub open spec fn bare_lines(s: Seq<char>) -> Seq<Seq<char>> {
    split_lines(s).map_values(|line: Seq<char>| strip_end(line))
}

/// All of `lines`, one after the other.
pub open spec fn joined(lines: Seq<Seq<char>>) -> Seq<char>
    decreases lines.len(),
{
    if lines.len() == 0 {
        Seq::empty()
    } else {
        joined(lines.drop_last()) + lines.last()
    }
}

/// The lines of a text make up the text. None of them is empty, a newline
/// stands only at the end of a line, and only the last line may lack it.
pub proof fn lemma_split_lines(s: Seq<char>)
    ensures
        joined(split_lines(s)) == s,
        forall|i: int|
            0 <= i < split_lines(s).len() ==> (#[trigger] split_lines(s)[i]).len() > 0,
        forall|i: int, j: int|
            0 <= i < split_lines(s).len() && 0 <= j < split_lines(s)[i].len() - 1
                ==> #[trigger] split_lines(s)[i][j] != '\n',
        forall|i: int|
            0 <= i < split_lines(s).len() - 1 ==> (#[trigger] split_lines(s)[i]).last() == '\n',
        s.len() > 0 ==> split_lines(s).len() > 0 && split_lines(s).last().last() == s.last(),
    decreases s.len(),
{
    if s.len() > 0 {
        let init = s.drop_last();
        let before = split_lines(init);
        lemma_split_lines(init);
        let now = split_lines(s);
        if unfinished(init) && before.len() > 0 {
            let grown = before.last().push(s.last());
            assert(now.drop_last() =~= before.drop_last());
            assert(now.last() == grown);
            assert(joined(before) == joined(before.drop_last()) + before.last());
            assert(joined(now) == joined(now.drop_last()) + now.last());
            assert(init.push(s.last()) =~= s);
            assert((joined(before.drop_last()) + before.last()).push(s.last()) =~= joined(
                before.drop_last(),
            ) + grown);
            assert forall|i: int, j: int|
                0 <= i < now.len() && 0 <= j < now[i].len() - 1 implies #[trigger] now[i][j]
                != '\n' by {
                if i < now.len() - 1 {
                    assert(now[i] == before[i]);
                } else {
                    if j < before.last().len() - 1 {
                        assert(now[i][j] == before[i][j]);
                    } else {
                        assert(now[i][j] == before.last().last());
                    }
                }
            }
            assert forall|i: int| 0 <= i < now.len() - 1 implies (#[trigger] now[i]).last()
                == '\n' by {
                assert(now[i] == before[i]);
            }
        } else {
            assert(now.drop_last() =~= before);
            assert(joined(now) == joined(now.drop_last()) + now.last());
            assert(init + seq![s.last()] =~= s);
            assert forall|i: int, j: int|
                0 <= i < now.len() && 0 <= j < now[i].len() - 1 implies #[trigger] now[i][j]
                != '\n' by {
                if i < now.len() - 1 {
                    assert(now[i] == before[i]);
                }
            }
            assert forall|i: int| 0 <= i < now.len() - 1 implies (#[trigger] now[i]).last()
                == '\n' by {
                assert(now[i] == before[i]);
                if i == before.len() - 1 {
                    assert(init.len() > 0);
                    assert(before.last().last() == init.last());
                }
            }
        }
    }
}

/// Cuts `text` into its lines, each with the newline that ends it.
pub fn lines_with_ends(text: &str) -> (lines: Vec<String>)
    ensures
        texts(lines@) == split_lines(text@),
{
    let mut lines: Vec<String> = Vec::new();
    let mut current = String::new();
    let mut open = false;
    let mut it = text.chars();
    let ghost mut seen: int = 0;
    proof {
        assert(texts(lines@) =~= Seq::<Seq<char>>::empty());
    }
    loop
        invariant
            0 <= seen <= text@.len(),
            it.remaining() == text@.skip(seen),
            open == unfinished(text@.take(seen)),
            open ==> split_lines(text@.take(seen)) == texts(lines@).push(current@),
            !open ==> split_lines(text@.take(seen)) == texts(lines@) && current@.len() == 0,
        decreases text@.len() - seen,
    {
        match it.next() {
            None => {
                proof {
                    assert(text@.take(seen) =~= text@);
                }
                if open {
                    proof {
                        assert(texts(lines@.push(current)) =~= texts(lines@).push(current@));
                    }
                    lines.push(current);
                }
                return lines;
            },
            Some(c) => {
                let ghost done = texts(lines@);
                let ghost line = current@;
                current.push(c);
                proof {
                    let longer = text@.take(seen + 1);
                    assert(longer.drop_last() =~= text@.take(seen));
                    assert(longer.last() == c);
                    assert(text@.skip(seen).drop_first() =~= text@.skip(seen + 1));
                    if open {
                        assert(done.push(line).drop_last() =~= done);
                    } else {
                        assert(Seq::<char>::empty().push(c) =~= seq![c]);
                        assert(line =~= Seq::<char>::empty());
                    }
                    assert(split_lines(longer) == done.push(current@));
                }
                if c == '\n' {
                    proof {
                        assert(texts(lines@.push(current)) =~= done.push(current@));
                    }
                    lines.push(current);
                    current = String::new();
                    open = false;
                } else {
                    open = true;
                }
                proof {
                    seen = seen + 1;
                }
            },
        }
    }
}

/// Takes the end of a line off `line`.
pub fn strip_line_end(line: String) -> (bare: String)
    ensures
        bare@ == strip_end(line@),
{
    let mut bare = line;
    match bare.pop() {
        None => {},
        Some('\n') => {
            let ghost without = bare@;
            match bare.pop() {
                None => {},
                Some('\r') => {
                    proof {
                        assert(bare@ =~= line@.take(line@.len() - 2));
                    }
                },
                Some(other) => {
                    bare.push(other);
                    proof {
                        assert(bare@ =~= without);
                        assert(without =~= line@.take(line@.len() - 1));
                    }
                },
            }
            proof {
                if without.len() == 0 {
                    assert(bare@ =~= line@.take(line@.len() - 1));
                }
            }
        },
        Some(other) => {
            bare.push(other);
            proof {
                assert(bare@ =~= line@);
            }
        },
    }
    bare
}

/// Cuts `text` into its lines and takes the end off each.
pub fn lines_of(text: &str) -> (lines: Vec<String>)
    ensures
        texts(lines@) == bare_lines(text@),
{
    let mut whole = lines_with_ends(text);
    let mut lines: Vec<String> = Vec::new();
    let ghost full = whole@;
    let n = whole.len();
    let mut i: usize = 0;
    while i < n
        invariant
            i <= n == full.len(),
            whole@.len() == n,
            forall|j: int| i <= j < n ==> whole@[j]@ == full[j]@,
            lines@.len() == i,
            forall|j: int| 0 <= j < i ==> lines@[j]@ == strip_end(full[j]@),
        decreases n - i,
    {
        let mut line = String::new();
        core::mem::swap(&mut line, &mut whole[i]);
        lines.push(strip_line_end(line));
        i = i + 1;
    }
    proof {
        assert(texts(lines@) =~= texts(full).map_values(|line: Seq<char>| strip_end(line)));
    }
    lines
}

} // verus!
