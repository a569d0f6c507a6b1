//! Verified helpers on strings, stated over their character sequences.

use vstd::prelude::*;
use vstd::string::*;

verus! {

/// The characters of each string of a sequence.
pub open spec fn texts(items: Seq<String>) -> Seq<Seq<char>> {
    items.map_values(|item: String| item@)
}

/// Whether two strings hold the same characters.
pub fn same_text(left: &str, right: &str) -> (same: bool)
    ensures
        same == (left@ == right@),
{
    let a: String = left.to_owned();
    let b: String = right.to_owned();
    a == b
}

/// Whether `text` begins with `prefix`.
pub fn has_prefix(text: &str, prefix: &str) -> (found: bool)
    ensures
        found == prefix@.is_prefix_of(text@),
{
    let wanted = prefix.unicode_len();
    if wanted > text.unicode_len() {
        return false;
    }
    same_text(text.substring_char(0, wanted), prefix)
}

/// `text` without its first `count` characters; nothing is left of a text
/// that has no more than `count`.
pub fn without_first(text: &str, count: usize) -> (rest: &str)
    ensures
        rest@ == if count <= text@.len() {
            text@.skip(count as int)
        } else {
            Seq::empty()
        },
{
    let total = text.unicode_len();
    if count <= total {
        text.substring_char(count, total)
    } else {
        text.substring_char(total, total)
    }
}

/// What separates the pieces of a text.
#[derive(Clone, Copy, Debug)]
pub enum Separator {
    /// One given character.
    Char(char),
    /// Any character with the Unicode property `White_Space`.
    Whitespace,
}

/// The characters with the Unicode property `White_Space`.
pub open spec fn is_whitespace(c: char) -> bool {
    let code = c as u32;
    ||| 0x09 <= code <= 0x0D
    ||| code == 0x20
    ||| code == 0x85
    ||| code == 0xA0
    ||| code == 0x1680
    ||| 0x2000 <= code <= 0x200A
    ||| code == 0x2028
    ||| code == 0x2029
    ||| code == 0x202F
    ||| code == 0x205F
    ||| code == 0x3000
}

impl Separator {
    /// Whether `c` separates.
    pub open spec fn matches(self, c: char) -> bool {
        match self {
            Separator::Char(sep) => c == sep,
            Separator::Whitespace => is_whitespace(c),
        }
    }

    /// Whether `c` separates.
    pub fn separates(self, c: char) -> (found: bool)
        ensures
            found == self.matches(c),
    {
        match self {
            Separator::Char(sep) => c == sep,
            Separator::Whitespace => {
                let code = c as u32;
                (0x09 <= code && code <= 0x0D) || code == 0x20 || code == 0x85 || code == 0xA0
                    || code == 0x1680 || (0x2000 <= code && code <= 0x200A) || code == 0x2028
                    || code == 0x2029 || code == 0x202F || code == 0x205F || code == 0x3000
            },
        }
    }
}

/// The pieces of `text` between its separators, empty ones included: a text
/// with `k` separators has `k + 1` pieces.
pub open spec fn split(text: Seq<char>, sep: Separator) -> Seq<Seq<char>>
    decreases text.len(),
{
    if text.len() == 0 {
        seq![Seq::empty()]
    } else {
        let before = split(text.drop_last(), sep);
        if sep.matches(text.last()) {
            before.push(Seq::empty())
        } else {
            before.drop_last().push(before.last().push(text.last()))
        }
    }
}

/// `split` always yields at least one piece.
pub proof fn lemma_split_nonempty(text: Seq<char>, sep: Separator)
    ensures
        split(text, sep).len() >= 1,
    decreases text.len(),
{
    if text.len() > 0 {
        lemma_split_nonempty(text.drop_last(), sep);
    }
}

/// Splits `text` at each separator.
pub fn split_text(text: &str, sep: Separator) -> (pieces: Vec<String>)
    ensures
        texts(pieces@) == split(text@, sep),
{
    let total = text.unicode_len();
    let mut pieces: Vec<String> = Vec::new();
    let mut start: usize = 0;
    let mut at: usize = 0;
    proof {
        assert(text@.take(0) =~= Seq::<char>::empty());
        assert(text@.subrange(0, 0) =~= Seq::<char>::empty());
        assert(texts(pieces@).push(text@.subrange(0, 0)) =~= split(text@.take(0), sep));
    }
    for c in it: text.chars()
        invariant
            it.seq() == text@,
            total == text@.len(),
            at == it.index(),
            start <= at <= total,
            texts(pieces@).push(text@.subrange(start as int, at as int)) == split(
                text@.take(at as int),
                sep,
            ),
    {
        proof {
            let seen = text@.take(at as int + 1);
            assert(seen.drop_last() =~= text@.take(at as int));
            assert(seen.last() == c);
            lemma_split_nonempty(text@.take(at as int), sep);
        }
        if sep.separates(c) {
            pieces.push(text.substring_char(start, at).to_owned());
            start = at + 1;
            proof {
                assert(text@.subrange(start as int, start as int) =~= Seq::<char>::empty());
                assert(texts(pieces@).push(Seq::<char>::empty()) =~= split(
                    text@.take(at as int + 1),
                    sep,
                ));
            }
        } else {
            proof {
                let before = split(text@.take(at as int), sep);
                assert(before.last() == text@.subrange(start as int, at as int));
                assert(before.drop_last() =~= texts(pieces@));
                assert(text@.subrange(start as int, at as int).push(c) =~= text@.subrange(
                    start as int,
                    at as int + 1,
                ));
            }
        }
        at = at + 1;
    }
    proof {
        assert(text@.take(at as int) =~= text@);
    }
    pieces.push(text.substring_char(start, at).to_owned());
    pieces
}

/// The pieces that hold at least one character, in their order.
pub open spec fn filled(pieces: Seq<Seq<char>>) -> Seq<Seq<char>>
    decreases pieces.len(),
{
    if pieces.len() == 0 {
        Seq::empty()
    } else if pieces.last().len() > 0 {
        filled(pieces.drop_last()).push(pieces.last())
    } else {
        filled(pieces.drop_last())
    }
}

/// Keeps the strings that hold at least one character.
pub fn keep_filled(pieces: &Vec<String>) -> (kept: Vec<String>)
    ensures
        texts(kept@) == filled(texts(pieces@)),
{
    let mut kept: Vec<String> = Vec::new();
    let mut at: usize = 0;
    proof {
        assert(texts(pieces@).take(0) =~= Seq::<Seq<char>>::empty());
        assert(texts(kept@) =~= filled(texts(pieces@).take(0)));
    }
    while at < pieces.len()
        invariant
            at <= pieces.len(),
            texts(kept@) == filled(texts(pieces@).take(at as int)),
        decreases pieces.len() - at,
    {
        proof {
            let seen = texts(pieces@).take(at as int + 1);
            assert(seen.drop_last() =~= texts(pieces@).take(at as int));
            assert(seen.last() == pieces@[at as int]@);
        }
        let ghost before = texts(kept@);
        if pieces[at].as_str().unicode_len() > 0 {
            kept.push(pieces[at].clone());
            proof {
                assert(texts(kept@) =~= before.push(pieces@[at as int]@));
            }
        }
        at = at + 1;
    }
    proof {
        assert(texts(pieces@).take(at as int) =~= texts(pieces@));
    }
    kept
}

/// `piece` without one carriage return at its end, if it has one there.
pub open spec fn without_return(piece: Seq<char>) -> Seq<char> {
    if piece.len() > 0 && piece.last() == '\r' {
        piece.drop_last()
    } else {
        piece
    }
}

/// The lines of a text.  A line ends at a line feed, which is dropped together
/// with a carriage return right before it.  What follows the last line feed
/// is a line of its own unless it is empty.  Blank lines are kept.
pub open spec fn lines_of(text: Seq<char>) -> Seq<Seq<char>> {
    let pieces = split(text, Separator::Char('\n'));
    let ended = pieces.drop_last().map_values(|piece: Seq<char>| without_return(piece));
    if pieces.last().len() == 0 {
        ended
    } else {
        ended.push(pieces.last())
    }
}

/// Splits `text` into its lines.
pub fn lines(text: &str) -> (found: Vec<String>)
    ensures
        texts(found@) == lines_of(text@),
{
    let pieces = split_text(text, Separator::Char('\n'));
    proof {
        lemma_split_nonempty(text@, Separator::Char('\n'));
    }
    let ghost ended = texts(pieces@).drop_last().map_values(
        |piece: Seq<char>| without_return(piece),
    );
    let last = pieces.len() - 1;
    let mut found: Vec<String> = Vec::new();
    let mut at: usize = 0;
    while at < last
        invariant
            last == pieces.len() - 1,
            at <= last,
            ended == texts(pieces@).drop_last().map_values(
                |piece: Seq<char>| without_return(piece),
            ),
            texts(found@) =~= ended.take(at as int),
        decreases last - at,
    {
        let piece = pieces[at].as_str();
        let size = piece.unicode_len();
        let ghost before = texts(found@);
        if size > 0 && piece.get_char(size - 1) == '\r' {
            found.push(piece.substring_char(0, size - 1).to_owned());
        } else {
            found.push(piece.to_owned());
        }
        proof {
            assert(piece@ == texts(pieces@).drop_last()[at as int]);
            assert(piece@.drop_last() =~= piece@.subrange(0, size - 1));
            assert(texts(found@) =~= before.push(without_return(piece@)));
            assert(ended.take(at as int + 1) =~= ended.take(at as int).push(ended[at as int]));
        }
        at = at + 1;
    }
    let ghost before = texts(found@);
    if pieces[last].as_str().unicode_len() > 0 {
        found.push(pieces[last].clone());
        proof {
            assert(texts(found@) =~= before.push(pieces@[last as int]@));
        }
    }
    proof {
        assert(ended.take(last as int) =~= ended);
        assert(texts(pieces@).last() == pieces@[last as int]@);
    }
    found
}

/// `text` without the `c`s at its start.
pub open spec fn trim_start(text: Seq<char>, c: char) -> Seq<char>
    decreases text.len(),
{
    if text.len() > 0 && text.first() == c {
        trim_start(text.drop_first(), c)
    } else {
        text
    }
}

/// `text` without the `c`s at its end.
pub open spec fn trim_end(text: Seq<char>, c: char) -> Seq<char>
    decreases text.len(),
{
    if text.len() > 0 && text.last() == c {
        trim_end(text.drop_last(), c)
    } else {
        text
    }
}

/// `text` without the `c`s at either end.
pub open spec fn trim(text: Seq<char>, c: char) -> Seq<char> {
    trim_end(trim_start(text, c), c)
}

/// `trim_start` drops exactly the leading run of `c`.
pub proof fn lemma_trim_start(text: Seq<char>, c: char, run: int)
    requires
        0 <= run <= text.len(),
        forall|i: int| 0 <= i < run ==> text[i] == c,
        run < text.len() ==> text[run] != c,
    ensures
        trim_start(text, c) == text.skip(run),
    decreases run,
{
    if run == 0 {
        assert(text.skip(0) =~= text);
    } else {
        lemma_trim_start(text.drop_first(), c, run - 1);
        assert(text.drop_first().skip(run - 1) =~= text.skip(run));
    }
}

/// `trim_end` drops exactly the trailing run of `c`.
pub proof fn lemma_trim_end(text: Seq<char>, c: char, keep: int)
    requires
        0 <= keep <= text.len(),
        forall|i: int| keep <= i < text.len() ==> text[i] == c,
        keep > 0 ==> text[keep - 1] != c,
    ensures
        trim_end(text, c) == text.take(keep),
    decreases text.len() - keep,
{
    if keep == text.len() {
        assert(text.take(keep) =~= text);
    } else {
        lemma_trim_end(text.drop_last(), c, keep);
        assert(text.drop_last().take(keep) =~= text.take(keep));
    }
}

/// Removes the `c`s at either end of `text`.
pub fn trim_text(text: &str, c: char) -> (trimmed: String)
    ensures
        trimmed@ == trim(text@, c),
{
    let total = text.unicode_len();
    let mut first: usize = total;
    let mut keep: usize = 0;
    let mut at: usize = 0;
    for d in it: text.chars()
        invariant
            it.seq() == text@,
            total == text@.len(),
            at == it.index(),
            at <= total,
            keep <= at,
            forall|i: int| keep <= i < at ==> text@[i] == c,
            keep > 0 ==> text@[keep - 1] != c,
            keep == 0 ==> first == total,
            keep > 0 ==> first < keep,
            forall|i: int| 0 <= i < first && i < at ==> text@[i] == c,
            first < total ==> text@[first as int] != c,
    {
        if d != c {
            if keep == 0 {
                first = at;
            }
            keep = at + 1;
        }
        at = at + 1;
    }
    if keep == 0 {
        proof {
            lemma_trim_start(text@, c, total as int);
            assert(text@.skip(total as int) =~= Seq::<char>::empty());
        }
        return String::new();
    }
    proof {
        lemma_trim_start(text@, c, first as int);
        lemma_trim_end(text@.skip(first as int), c, keep - first);
        assert(text@.skip(first as int).take(keep - first) =~= text@.subrange(
            first as int,
            keep as int,
        ));
    }
    text.substring_char(first, keep).to_owned()
}

/// The character of one decimal digit.
pub open spec fn digit(value: nat) -> char {
    if value == 0 {
        '0'
    } else if value == 1 {
        '1'
    } else if value == 2 {
        '2'
    } else if value == 3 {
        '3'
    } else if value == 4 {
        '4'
    } else if value == 5 {
        '5'
    } else if value == 6 {
        '6'
    } else if value == 7 {
        '7'
    } else if value == 8 {
        '8'
    } else {
        '9'
    }
}

/// A number in decimal notation, without sign or leading zeros.
pub open spec fn decimal(value: nat) -> Seq<char>
    decreases value,
{
    if value < 10 {
        seq![digit(value)]
    } else {
        decimal(value / 10).push(digit(value % 10))
    }
}

fn digit_text(value: u64) -> (text: &'static str)
    requires
        value < 10,
    ensures
        text@ == seq![digit(value as nat)],
{
    proof {
        reveal_strlit("0");
        reveal_strlit("1");
        reveal_strlit("2");
        reveal_strlit("3");
        reveal_strlit("4");
        reveal_strlit("5");
        reveal_strlit("6");
        reveal_strlit("7");
        reveal_strlit("8");
        reveal_strlit("9");
    }
    let text = if value == 0 {
        "0"
    } else if value == 1 {
        "1"
    } else if value == 2 {
        "2"
    } else if value == 3 {
        "3"
    } else if value == 4 {
        "4"
    } else if value == 5 {
        "5"
    } else if value == 6 {
        "6"
    } else if value == 7 {
        "7"
    } else if value == 8 {
        "8"
    } else {
        "9"
    };
    assert(text@ =~= seq![digit(value as nat)]);
    text
}

/// Writes `value` in decimal notation.
pub fn decimal_text(value: u64) -> (text: String)
    ensures
        text@ == decimal(value as nat),
    decreases value,
{
    if value < 10 {
        String::from_str(digit_text(value))
    } else {
        let mut text = decimal_text(value / 10);
        text.append(digit_text(value % 10));
        assert(text@ =~= decimal((value / 10) as nat).push(digit((value % 10) as nat)));
        text
    }
}

/// The items in their order, with `between` after each but the last.
pub open spec fn join(items: Seq<Seq<char>>, between: Seq<char>) -> Seq<char>
    decreases items.len(),
{
    if items.len() == 0 {
        Seq::empty()
    } else if items.len() == 1 {
        items[0]
    } else {
        join(items.drop_last(), between) + between + items.last()
    }
}

/// Nothing is lost in splitting at a character: the pieces, joined by that
/// character, are the text again.
pub proof fn lemma_split_join(text: Seq<char>, c: char)
    ensures
        join(split(text, Separator::Char(c)), seq![c]) == text,
    decreases text.len(),
{
    let sep = Separator::Char(c);
    if text.len() == 0 {
        assert(join(split(text, sep), seq![c]) =~= text);
    } else {
        let before = split(text.drop_last(), sep);
        lemma_split_join(text.drop_last(), c);
        lemma_split_nonempty(text.drop_last(), sep);
        if text.last() == c {
            assert(before.push(Seq::empty()).drop_last() =~= before);
            assert(join(split(text, sep), seq![c]) =~= text.drop_last() + seq![c]);
        } else {
            let grown = before.drop_last().push(before.last().push(text.last()));
            assert(grown.drop_last() =~= before.drop_last());
            assert(join(grown, seq![c]) =~= join(before, seq![c]).push(text.last()));
        }
        assert(text =~= text.drop_last().push(text.last()));
    }
}

/// Joins the strings, with `between` after each but the last.
pub fn join_text(items: &Vec<String>, between: &str) -> (joined: String)
    ensures
        joined@ == join(texts(items@), between@),
{
    let mut joined = String::new();
    let mut at: usize = 0;
    proof {
        assert(texts(items@).take(0) =~= Seq::<Seq<char>>::empty());
    }
    while at < items.len()
        invariant
            at <= items.len(),
            joined@ == join(texts(items@).take(at as int), between@),
        decreases items.len() - at,
    {
        proof {
            let seen = texts(items@).take(at as int + 1);
            assert(seen.drop_last() =~= texts(items@).take(at as int));
            assert(seen.last() == items@[at as int]@);
            assert(at == 0 ==> seen[0] == items@[0]@);
        }
        if at > 0 {
            joined.append(between);
        }
        joined.append(items[at].as_str());
        proof {
            if at == 0 {
                assert(joined@ =~= items@[0]@);
            }
        }
        at = at + 1;
    }
    proof {
        assert(texts(items@).take(at as int) =~= texts(items@));
    }
    joined
}

/// Taking the characters of each string commutes with reversing.
pub proof fn lemma_texts_reverse(items: Seq<String>)
    ensures
        texts(items.reverse()) == texts(items).reverse(),
{
    assert(texts(items.reverse()) =~= texts(items).reverse());
}

/// The strings in the opposite order.
pub fn reversed(items: Vec<String>) -> (turned: Vec<String>)
    ensures
        turned@ == items@.reverse(),
{
    let mut rest = items;
    let mut turned: Vec<String> = Vec::new();
    while rest.len() > 0
        invariant
            rest@.len() <= items@.len(),
            rest@ == items@.take(rest@.len() as int),
            turned@.len() == items@.len() - rest@.len(),
            forall|i: int| 0 <= i < turned@.len() ==> turned@[i] == items@[items@.len() - 1 - i],
        decreases rest@.len(),
    {
        let ghost shorter = rest@.len() - 1;
        let item = rest.pop().unwrap();
        turned.push(item);
        proof {
            assert(rest@ =~= items@.take(shorter));
        }
    }
    proof {
        assert(turned@ =~= items@.reverse());
    }
    turned
}

} // verus!
