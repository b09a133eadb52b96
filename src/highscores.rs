use vstd::prelude::*;

use vstd::string::StringExecFns;

use crate::text::{
    chars_of, decimal, fields, parse_decimal, parse_u32, push_char, push_decimal, split_fields,
};

verus! {

/// How many entries each list of the highscore file keeps.
pub const NB_HIGHSCORES: usize = 5;

/// The numbers that the pieces `fs` spell, in order; pieces that are not a
/// `u32` are skipped.
pub open spec fn numbers(fs: Seq<Seq<char>>) -> Seq<u32>
    decreases fs.len(),
{
    if fs.len() == 0 {
        Seq::empty()
    } else {
        let rest = numbers(fs.drop_last());
        match parse_u32(fs.last()) {
            Some(n) => rest.push(n),
            None => rest,
        }
    }
}

/// The numbers of a space-separated line.
pub open spec fn line_numbers(line: Seq<char>) -> Seq<u32> {
    numbers(fields(line, ' '))
}

/// The numbers of `v` in decimal, separated by single spaces.
pub open spec fn joined(v: Seq<u32>) -> Seq<char>
    decreases v.len(),
{
    if v.len() == 0 {
        Seq::empty()
    } else if v.len() == 1 {
        decimal(v[0] as nat)
    } else {
        joined(v.drop_last()) + seq![' '] + decimal(v.last() as nat)
    }
}

/// The highscore file: the scores on the first line, the line counts on the
/// second, each line ended by a newline.
pub open spec fn file_text(highscores: Seq<u32>, lines: Seq<u32>) -> Seq<char> {
    joined(highscores) + seq!['\n'] + joined(lines) + seq!['\n']
}

/// `i` is the first entry of `s` that `value` strictly exceeds.
pub open spec fn first_exceeded(s: Seq<u32>, value: u32, i: int) -> bool {
    &&& 0 <= i < s.len()
    &&& value > s[i]
    &&& forall|j: int| 0 <= j < i ==> value <= #[trigger] s[j]
}

/// `value` enters the list: there is room, or it exceeds some entry.
pub open spec fn accepts(s: Seq<u32>, value: u32) -> bool {
    s.len() < NB_HIGHSCORES || exists|i: int| 0 <= i < s.len() && value > #[trigger] s[i]
}

/// The list after `value` is offered: appended where there is room, else
/// written over the first entry that it exceeds, else the list unchanged.
pub open spec fn after_update(s: Seq<u32>, value: u32) -> Seq<u32> {
    if s.len() < NB_HIGHSCORES {
        s.push(value)
    } else if accepts(s, value) {
        s.update(choose|i: int| first_exceeded(s, value, i), value)
    } else {
        s
    }
}

/// A list has at most one first entry that a value exceeds.
pub proof fn lemma_first_exceeded_unique(s: Seq<u32>, value: u32, i: int, k: int)
    requires
        first_exceeded(s, value, i),
        first_exceeded(s, value, k),
    ensures
        i == k,
{
    if i < k {
        assert(value <= s[i]);
    } else if k < i {
        assert(value <= s[k]);
    }
}

/// Offers `value` to a list of best results. With fewer than
/// `NB_HIGHSCORES` entries it is appended; otherwise it replaces the first
/// entry that it strictly exceeds (not the smallest one). Returns whether the
/// list changed.
pub fn update_vec(v: &mut Vec<u32>, value: u32) -> (r: bool)
    ensures
        r == accepts(old(v)@, value),
        final(v)@ == after_update(old(v)@, value),
{
    if v.len() < NB_HIGHSCORES {
        v.push(value);
        return true;
    }
    let mut i: usize = 0;
    while i < v.len()
        invariant
            v@ == old(v)@,
            v@.len() >= NB_HIGHSCORES,
            i <= v.len(),
            forall|j: int| 0 <= j < i ==> value <= #[trigger] v@[j],
        decreases v.len() - i,
    {
        if value > v[i] {
            proof {
                assert(first_exceeded(old(v)@, value, i as int));
                let k = choose|k: int| first_exceeded(old(v)@, value, k);
                lemma_first_exceeded_unique(old(v)@, value, i as int, k);
            }
            v.set(i, value);
            return true;
        }
        i += 1;
    }
    false
}

/// Writes the numbers of `slice` in decimal, separated by single spaces.
pub fn slice_to_string(slice: &[u32]) -> (s: String)
    ensures
        s@ == joined(slice@),
{
    let mut s = String::new();
    let mut i: usize = 0;
    while i < slice.len()
        invariant
            i <= slice.len(),
            s@ == joined(slice@.take(i as int)),
        decreases slice.len() - i,
    {
        if i > 0 {
            push_char(&mut s, ' ');
        }
        push_decimal(&mut s, slice[i]);
        proof {
            assert(slice@.take(i + 1).drop_last() =~= slice@.take(i as int));
        }
        i += 1;
    }
    assert(slice@.take(slice.len() as int) =~= slice@);
    s
}

/// The numbers of a space-separated line; pieces that are not a `u32` are
/// skipped.
pub fn line_to_slice(line: &str) -> (v: Vec<u32>)
    ensures
        v@ == line_numbers(line@),
{
    let chars = chars_of(line);
    numbers_of(&chars)
}

/// The numbers of a space-separated sequence of characters.
pub fn numbers_of(chars: &Vec<char>) -> (v: Vec<u32>)
    ensures
        v@ == line_numbers(chars@),
{
    let pieces = split_fields(chars, ' ');
    let ghost fs = pieces@.map_values(|f: Vec<char>| f@);
    let mut v: Vec<u32> = Vec::new();
    let mut i: usize = 0;
    while i < pieces.len()
        invariant
            fs == pieces@.map_values(|f: Vec<char>| f@),
            fs == fields(chars@, ' '),
            i <= pieces.len(),
            v@ == numbers(fs.take(i as int)),
        decreases pieces.len() - i,
    {
        let n = parse_decimal(&pieces[i]);
        proof {
            assert(fs.take(i + 1).drop_last() =~= fs.take(i as int));
            assert(fs[i as int] == pieces@[i as int]@);
        }
        match n {
            Some(x) => v.push(x),
            None => {},
        }
        i += 1;
    }
    assert(fs.take(pieces.len() as int) =~= fs);
    v
}

/// The text of the highscore file for these two lists.
pub fn save_highscores_and_lines(highscores: &[u32], number_of_lines: &[u32]) -> (s: String)
    ensures
        s@ == file_text(highscores@, number_of_lines@),
{
    let mut s = slice_to_string(highscores);
    push_char(&mut s, '\n');
    let second = slice_to_string(number_of_lines);
    s.append(second.as_str());
    push_char(&mut s, '\n');
    assert(s@ =~= file_text(highscores@, number_of_lines@));
    s
}

/// Reads the highscore file: the numbers of its first line and those of its
/// second. There is no result when the text has fewer than two newlines.
pub fn load_highscores_and_lines(content: &str) -> (r: Option<(Vec<u32>, Vec<u32>)>)
    ensures
        r is Some <==> fields(content@, '\n').len() >= 3,
        r matches Some(p) ==> {
            &&& p.0@ == line_numbers(fields(content@, '\n')[0])
            &&& p.1@ == line_numbers(fields(content@, '\n')[1])
        },
{
    let chars = chars_of(content);
    let lines = split_fields(&chars, '\n');
    if lines.len() < 3 {
        return None;
    }
    proof {
        assert(fields(content@, '\n')[0] == lines@[0]@);
        assert(fields(content@, '\n')[1] == lines@[1]@);
    }
    let highscores = numbers_of(&lines[0]);
    let lines_sent = numbers_of(&lines[1]);
    Some((highscores, lines_sent))
}

/// What the end of a game does to the highscore file. `loaded` is what the
/// file held, if it could be read. Returns whether the score and the line
/// count entered their lists, and the text to write back, if any.
pub fn record_game(loaded: Option<(Vec<u32>, Vec<u32>)>, score: u32, nb_lines: u32) -> (r: (
    bool,
    bool,
    Option<String>,
))
    ensures
        match loaded {
            Some(p) => {
                &&& r.0 == accepts(p.0@, score)
                &&& r.1 == accepts(p.1@, nb_lines)
                &&& (r.2 is Some <==> r.0 || r.1)
                &&& r.2 matches Some(t) ==> t@ == file_text(
                    after_update(p.0@, score),
                    after_update(p.1@, nb_lines),
                )
            },
            None => {
                &&& r.0 && r.1
                &&& r.2 matches Some(t) && t@ == file_text(seq![score], seq![nb_lines])
            },
        },
{
    match loaded {
        Some((mut highscores, mut lines_sent)) => {
            let new_highscore = update_vec(&mut highscores, score);
            let new_lines = update_vec(&mut lines_sent, nb_lines);
            if new_highscore || new_lines {
                let t = save_highscores_and_lines(highscores.as_slice(), lines_sent.as_slice());
                (new_highscore, new_lines, Some(t))
            } else {
                (new_highscore, new_lines, None)
            }
        },
        None => {
            let hs: Vec<u32> = vec![score];
            let ls: Vec<u32> = vec![nb_lines];
            assert(hs@ =~= seq![score]);
            assert(ls@ =~= seq![nb_lines]);
            let t = save_highscores_and_lines(hs.as_slice(), ls.as_slice());
            (true, true, Some(t))
        },
    }
}

} // verus!
