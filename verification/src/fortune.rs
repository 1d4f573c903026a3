//! Fortunes: reading them from their files, picking one, and searching them.

use crate::decimal::Decimal;
use crate::failure::Failure;
use crate::pattern::Pattern;
use crate::split::texts;
use crate::text::{join, join_with};
use rand::rngs::StdRng;
use rand::seq::SliceRandom;
use rand::SeedableRng;
use vstd::prelude::*;

verus! {

/// A fortune and the name of the file that it comes from.
#[derive(Debug)]
pub struct Fortune {
    pub source: String,
    pub text: String,
}

/// A file of fortunes: its name and its lines, without their ends.
#[derive(Debug)]
pub struct FortuneFile {
    pub name: String,
    pub lines: Vec<String>,
}

/// A fortune as plain text: its source and its text.
pub struct FortuneText {
    pub source: Seq<char>,
    pub text: Seq<char>,
}

impl View for Fortune {
    type V = FortuneText;

    open spec fn view(&self) -> FortuneText {
        FortuneText { source: self.source@, text: self.text@ }
    }
}

/// What each of the fortunes `v` holds.
pub open spec fn fortune_texts(v: Seq<Fortune>) -> Seq<FortuneText> {
    v.map_values(|f: Fortune| f@)
}

/// The state of reading: the fortunes that are complete, and the lines of
/// the one that is being read.
pub struct Reading {
    pub fortunes: Seq<FortuneText>,
    pub pending: Seq<Seq<char>>,
}

/// Reading one more line of the file `source`. The line `%` ends a
/// fortune, which is kept where it has any lines; every other line
/// belongs to the fortune that is being read.
pub open spec fn read_line(state: Reading, source: Seq<char>, line: Seq<char>) -> Reading {
    if line == seq!['%'] {
        if state.pending.len() > 0 {
            Reading {
                fortunes: state.fortunes.push(
                    FortuneText { source, text: join_with(state.pending, seq!['\n']) },
                ),
                pending: Seq::empty(),
            }
        } else {
            state
        }
    } else {
        Reading { fortunes: state.fortunes, pending: state.pending.push(line) }
    }
}

/// Reading the lines `lines` of the file `source`, one after the other.
pub open spec fn read_lines(state: Reading, source: Seq<char>, lines: Seq<Seq<char>>) -> Reading
    decreases lines.len(),
{
    if lines.len() == 0 {
        state
    } else {
        read_line(read_lines(state, source, lines.drop_last()), source, lines.last())
    }
}

/// Reading `files`, one after the other. Lines that no `%` follows in
/// their file go into the first fortune of the next file.
pub open spec fn read_files(files: Seq<FortuneFile>) -> Reading
    decreases files.len(),
{
    if files.len() == 0 {
        Reading { fortunes: Seq::empty(), pending: Seq::empty() }
    } else {
        read_lines(read_files(files.drop_last()), files.last().name@, texts(files.last().lines@))
    }
}

/// `line` is the line `%`.
fn is_separator(line: &str) -> (r: bool)
    ensures
        r == (line@ == seq!['%']),
{
    let first = crate::decimal::first_char(line);
    let len = vstd::string::StrSliceExecFns::unicode_len(line);
    proof {
        if len == 1 && first == Some('%') {
            assert(line@ =~= seq!['%']);
        }
    }
    len == 1 && first == Some('%')
}

/// Reads the fortunes of `files`.
pub fn read_fortunes(files: &Vec<FortuneFile>) -> (fortunes: Vec<Fortune>)
    ensures
        fortune_texts(fortunes@) == read_files(files@).fortunes,
{
    let mut fortunes: Vec<Fortune> = Vec::new();
    let mut pending: Vec<String> = Vec::new();
    let mut f: usize = 0;
    proof {
        assert(files@.take(0) =~= Seq::<FortuneFile>::empty());
        assert(fortune_texts(fortunes@) =~= Seq::<FortuneText>::empty());
        assert(texts(pending@) =~= Seq::<Seq<char>>::empty());
    }
    while f < files.len()
        invariant
            f <= files@.len(),
            fortune_texts(fortunes@) == read_files(files@.take(f as int)).fortunes,
            texts(pending@) == read_files(files@.take(f as int)).pending,
        decreases files@.len() - f,
    {
        let file = &files[f];
        let lines = &file.lines;
        let ghost start = read_files(files@.take(f as int));
        let ghost all = texts(lines@);
        proof {
            let longer = files@.take(f + 1);
            assert(longer.drop_last() =~= files@.take(f as int));
            assert(longer.last() == files@[f as int]);
            assert(all.take(0) =~= Seq::<Seq<char>>::empty());
        }
        let mut i: usize = 0;
        while i < lines.len()
            invariant
                i <= lines@.len(),
                all == texts(lines@),
                file == files@[f as int],
                ({
                    let state = read_lines(start, file.name@, all.take(i as int));
                    &&& fortune_texts(fortunes@) == state.fortunes
                    &&& texts(pending@) == state.pending
                }),
            decreases lines@.len() - i,
        {
            let ghost before = read_lines(start, file.name@, all.take(i as int));
            proof {
                let longer = all.take(i + 1);
                assert(longer.drop_last() =~= all.take(i as int));
                assert(longer.last() == lines@[i as int]@);
            }
            if is_separator(lines[i].as_str()) {
                if pending.len() > 0 {
                    let text = join(&pending, "\n");
                    proof {
                        reveal_strlit("\n");
                        assert("\n"@ =~= seq!['\n']);
                    }
                    let ghost kept = fortune_texts(fortunes@);
                    fortunes.push(Fortune { source: file.name.clone(), text });
                    pending = Vec::new();
                    proof {
                        assert(fortune_texts(fortunes@) =~= kept.push(
                            FortuneText {
                                source: file.name@,
                                text: join_with(before.pending, seq!['\n']),
                            },
                        ));
                        assert(texts(pending@) =~= Seq::<Seq<char>>::empty());
                    }
                }
            } else {
                let ghost held = texts(pending@);
                pending.push(lines[i].clone());
                proof {
                    assert(texts(pending@) =~= held.push(lines@[i as int]@));
                }
            }
            i = i + 1;
        }
        proof {
            assert(all.take(i as int) =~= all);
        }
        f = f + 1;
    }
    proof {
        assert(files@.take(f as int) =~= files@);
    }
    fortunes
}

/// The position in `len` elements that `SliceRandom::choose` picks with a
/// generator that was seeded with `seed`.
pub uninterp spec fn seeded_index(seed: u64, len: nat) -> nat;

/// `text` is a copy of the text of one of `fortunes`, or nothing where
/// there are no fortunes.
pub open spec fn is_choice(fortunes: Seq<Fortune>, text: Option<String>) -> bool {
    if fortunes.len() == 0 {
        text is None
    } else {
        text is Some && exists|i: int|
            0 <= i < fortunes.len() && text->0@ == (#[trigger] fortunes[i]).text@
    }
}

/// `text` is a copy of the text of the fortune at `index`, which lies
/// within `fortunes`, or nothing where there are no fortunes.
pub open spec fn is_choice_at(fortunes: Seq<Fortune>, index: nat, text: Option<String>) -> bool {
    if fortunes.len() == 0 {
        text is None
    } else {
        index < fortunes.len() && text is Some && text->0@ == fortunes[index as int].text@
    }
}

/// Picks one of `fortunes` with `SliceRandom::choose` and a `StdRng` that
/// `seed_from_u64` made of `seed`, and hands out a copy of its text.
/// Trusted: of no fortunes none is picked; else the one at
/// [`seeded_index`], which lies within the slice.
#[verifier::external_body]
fn choose_seeded(fortunes: &[Fortune], seed: u64) -> (text: Option<String>)
    ensures
        is_choice_at(fortunes@, seeded_index(seed, fortunes@.len()), text),
{
    let mut rng = StdRng::seed_from_u64(seed);
    fortunes.choose(&mut rng).map(|fortune| fortune.text.clone())
}

/// Picks one of `fortunes` with `SliceRandom::choose` and the generator
/// of the thread, and hands out a copy of its text. Trusted: of no
/// fortunes none is picked, else one of them.
#[verifier::external_body]
fn choose_any(fortunes: &[Fortune]) -> (text: Option<String>)
    ensures
        is_choice(fortunes@, text),
{
    let mut rng = rand::thread_rng();
    fortunes.choose(&mut rng).map(|fortune| fortune.text.clone())
}

/// Picks a fortune: with a seed always the same one, else any.
pub fn pick_fortune(fortunes: &[Fortune], seed: Option<u64>) -> (text: Option<String>)
    ensures
        is_choice(fortunes@, text),
        seed matches Some(s) ==> is_choice_at(
            fortunes@,
            seeded_index(s, fortunes@.len()),
            text,
        ),
{
    match seed {
        Some(val) => {
            let text = choose_seeded(fortunes, val);
            proof {
                if fortunes@.len() > 0 {
                    let i = seeded_index(val, fortunes@.len()) as int;
                    assert(text->0@ == fortunes@[i].text@);
                }
            }
            text
        },
        None => choose_any(fortunes),
    }
}

/// The message for a seed that is no number.
pub open spec fn invalid_seed(text: Seq<char>) -> Seq<char> {
    "\""@ + text + "\" not a valid integer"@
}

/// Reads the seed of the generator.
pub fn parse_seed(val: &str) -> (r: Result<u64, Failure>)
    ensures
        match u64::read_spec(val@) {
            Some(seed) => r == Ok::<u64, Failure>(seed),
            None => r is Err && r->Err_0@ == invalid_seed(val@),
        },
{
    match u64::read(val) {
        Some(seed) => Ok(seed),
        None => Err(Failure::about("\"", val, "\" not a valid integer")),
    }
}

/// One piece of what a search prints.
#[derive(Debug, PartialEq, Eq)]
pub enum Found {
    /// The name of a file, which goes to the error stream.
    Source(String),
    /// The text of a fortune, which goes to the output.
    Text(String),
}

/// One piece of what a search prints, as plain text.
pub enum FoundText {
    Source(Seq<char>),
    Text(Seq<char>),
}

impl View for Found {
    type V = FoundText;

    open spec fn view(&self) -> FoundText {
        match self {
            Found::Source(s) => FoundText::Source(s@),
            Found::Text(t) => FoundText::Text(t@),
        }
    }
}

/// What each of the pieces `v` holds.
pub open spec fn found_texts(v: Seq<Found>) -> Seq<FoundText> {
    v.map_values(|f: Found| f@)
}

/// The source of the last of `fortunes` that `pattern` matches.
pub open spec fn last_source(fortunes: Seq<FortuneText>, pattern: Pattern) -> Option<Seq<char>>
    decreases fortunes.len(),
{
    if fortunes.len() == 0 {
        None
    } else if pattern.accepts(fortunes.last().text) {
        Some(fortunes.last().source)
    } else {
        last_source(fortunes.drop_last(), pattern)
    }
}

/// What a search for `pattern` prints of `fortunes`: the text of each one
/// that matches, and before it the name of its file where that differs
/// from the file of the match before.
pub open spec fn search_spec(fortunes: Seq<FortuneText>, pattern: Pattern) -> Seq<FoundText>
    decreases fortunes.len(),
{
    if fortunes.len() == 0 {
        Seq::empty()
    } else {
        let before = search_spec(fortunes.drop_last(), pattern);
        let fortune = fortunes.last();
        if !pattern.accepts(fortune.text) {
            before
        } else if last_source(fortunes.drop_last(), pattern) == Some(fortune.source) {
            before.push(FoundText::Text(fortune.text))
        } else {
            before.push(FoundText::Source(fortune.source)).push(FoundText::Text(fortune.text))
        }
    }
}

/// Searches `fortunes` for `pattern`.
pub fn search_fortunes(fortunes: &[Fortune], pattern: &Pattern) -> (out: Vec<Found>)
    ensures
        found_texts(out@) == search_spec(fortune_texts(fortunes@), *pattern),
{
    let mut out: Vec<Found> = Vec::new();
    let mut prev_source: Option<String> = None;
    let ghost all = fortune_texts(fortunes@);
    let mut i: usize = 0;
    proof {
        assert(all.take(0) =~= Seq::<FortuneText>::empty());
        assert(found_texts(out@) =~= Seq::<FoundText>::empty());
    }
    while i < fortunes.len()
        invariant
            i <= fortunes@.len(),
            all == fortune_texts(fortunes@),
            found_texts(out@) == search_spec(all.take(i as int), *pattern),
            match last_source(all.take(i as int), *pattern) {
                Some(s) => prev_source is Some && prev_source->0@ == s,
                None => prev_source is None,
            },
        decreases fortunes@.len() - i,
    {
        let fortune = &fortunes[i];
        proof {
            let longer = all.take(i + 1);
            assert(longer.drop_last() =~= all.take(i as int));
            assert(longer.last() == fortunes@[i as int]@);
        }
        if pattern.is_match(fortune.text.as_str()) {
            let same = match &prev_source {
                Some(s) => *s == fortune.source,
                None => false,
            };
            let ghost before = found_texts(out@);
            if !same {
                out.push(Found::Source(fortune.source.clone()));
                prev_source = Some(fortune.source.clone());
            }
            out.push(Found::Text(fortune.text.clone()));
            proof {
                if same {
                    assert(found_texts(out@) =~= before.push(FoundText::Text(fortune.text@)));
                } else {
                    assert(found_texts(out@) =~= before.push(
                        FoundText::Source(fortune.source@),
                    ).push(FoundText::Text(fortune.text@)));
                }
            }
        }
        i = i + 1;
    }
    proof {
        assert(all.take(i as int) =~= all);
    }
    out
}

} // verus!
