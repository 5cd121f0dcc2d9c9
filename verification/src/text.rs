//! Text helpers shared by the rest of the library. Strings are viewed as
//! sequences of characters; every function here says exactly which sequence
//! it returns.

use vstd::prelude::*;
use vstd::string::*;

verus! {

/// The views of the strings of `items`, in order.
pub open spec fn texts(items: Seq<String>) -> Seq<Seq<char>> {
    Seq::new(items.len(), |i: int| items[i]@)
}

/// Copies a list of strings.
pub fn copy_texts(items: &Vec<String>) -> (out: Vec<String>)
    ensures
        out@ == items@,
{
    let mut out: Vec<String> = Vec::new();
    let mut i: usize = 0;
    while i < items.len()
        invariant
            i <= items.len(),
            out@ == items@.take(i as int),
        decreases items.len() - i,
    {
        out.push(items[i].clone());
        assert(out@ =~= items@.take(i + 1));
        i = i + 1;
    }
    assert(items@.take(items.len() as int) =~= items@);
    out
}

/// The pieces of `parts` one after another, with `sep` between neighbours.
pub open spec fn join_with(parts: Seq<Seq<char>>, sep: Seq<char>) -> Seq<char>
    decreases parts.len(),
{
    if parts.len() == 0 {
        Seq::empty()
    } else if parts.len() == 1 {
        parts[0]
    } else {
        join_with(parts.drop_last(), sep) + sep + parts.last()
    }
}

/// Joins `parts` with `sep` between neighbours.
pub fn join(parts: &Vec<String>, sep: &str) -> (out: String)
    ensures
        out@ == join_with(texts(parts@), sep@),
{
    let mut out = String::new();
    let mut i: usize = 0;
    while i < parts.len()
        invariant
            i <= parts.len(),
            out@ == join_with(texts(parts@).take(i as int), sep@),
        decreases parts.len() - i,
    {
        proof {
            let before = texts(parts@).take(i as int);
            let after = texts(parts@).take(i + 1);
            assert(after.drop_last() == before);
            assert(after.last() == parts@[i as int]@);
            if i == 0 {
                assert(out@ + parts@[i as int]@ == parts@[i as int]@);
            }
        }
        if i > 0 {
            out.append(sep);
        }
        out.append(parts[i].as_str());
        i = i + 1;
    }
    proof {
        assert(texts(parts@).take(parts.len() as int) == texts(parts@));
    }
    out
}


/// Whether `text` ends with `suffix`.
pub open spec fn has_suffix(text: Seq<char>, suffix: Seq<char>) -> bool {
    suffix.len() <= text.len() && text.subrange(text.len() - suffix.len(), text.len() as int)
        == suffix
}

/// Whether `text` begins with `prefix`.
pub open spec fn has_prefix(text: Seq<char>, prefix: Seq<char>) -> bool {
    prefix.len() <= text.len() && text.subrange(0, prefix.len() as int) == prefix
}

/// Tells whether `text` ends with `suffix`.
pub fn ends_with(text: &str, suffix: &str) -> (out: bool)
    ensures
        out == has_suffix(text@, suffix@),
{
    let n = text.unicode_len();
    let m = suffix.unicode_len();
    if m > n {
        return false;
    }
    let tail = text.substring_char(n - m, n);
    let tail_owned = String::from_str(tail);
    let suffix_owned = String::from_str(suffix);
    tail_owned == suffix_owned
}

/// Tells whether `text` begins with `prefix`.
pub fn starts_with(text: &str, prefix: &str) -> (out: bool)
    ensures
        out == has_prefix(text@, prefix@),
{
    let n = text.unicode_len();
    let m = prefix.unicode_len();
    if m > n {
        return false;
    }
    let head = text.substring_char(0, m);
    let head_owned = String::from_str(head);
    let prefix_owned = String::from_str(prefix);
    head_owned == prefix_owned
}

/// Tells whether two strings hold the same characters.
pub fn same_text(a: &str, b: &str) -> (out: bool)
    ensures
        out == (a@ == b@),
{
    let a_owned = String::from_str(a);
    let b_owned = String::from_str(b);
    a_owned == b_owned
}


/// The decimal digit that stands for `d`, for `d` below ten.
pub open spec fn digit_char(d: nat) -> char {
    if d == 0 {
        '0'
    } else if d == 1 {
        '1'
    } else if d == 2 {
        '2'
    } else if d == 3 {
        '3'
    } else if d == 4 {
        '4'
    } else if d == 5 {
        '5'
    } else if d == 6 {
        '6'
    } else if d == 7 {
        '7'
    } else if d == 8 {
        '8'
    } else {
        '9'
    }
}

/// The decimal numeral of `n`, without leading zeros.
pub open spec fn decimal(n: nat) -> Seq<char>
    decreases n,
{
    if n < 10 {
        seq![digit_char(n)]
    } else {
        decimal(n / 10).push(digit_char(n % 10))
    }
}

fn digit_text(d: u64) -> (out: &'static str)
    requires
        d < 10,
    ensures
        out@ == seq![digit_char(d as nat)],
{
    proof {
        reveal_strlit("0");
        reveal_strlit("1");
        reveal_strlit("2");
        reveal_strlit("3");
        reveal_strlit("4");
        reveal_strlit("5");
        reveal_strlit("6");
        reveal_strlit("7");
        reveal_strlit("8");
        reveal_strlit("9");
    }
    let out = if d == 0 {
        "0"
    } else if d == 1 {
        "1"
    } else if d == 2 {
        "2"
    } else if d == 3 {
        "3"
    } else if d == 4 {
        "4"
    } else if d == 5 {
        "5"
    } else if d == 6 {
        "6"
    } else if d == 7 {
        "7"
    } else if d == 8 {
        "8"
    } else {
        "9"
    };
    assert(out@ =~= seq![digit_char(d as nat)]);
    out
}

/// Renders `n` as a decimal numeral.
pub fn render_decimal(n: u64) -> (out: String)
    ensures
        out@ == decimal(n as nat),
    decreases n,
{
    if n < 10 {
        String::from_str(digit_text(n))
    } else {
        let mut out = render_decimal(n / 10);
        out.append(digit_text(n % 10));
        assert(out@ =~= decimal(n as nat));
        out
    }
}

/// The position of the first `c` in `text`, or the length of `text` where it
/// holds none.
pub open spec fn first_index(text: Seq<char>, c: char) -> int
    decreases text.len(),
{
    if text.len() == 0 {
        0
    } else if text[0] == c {
        0
    } else {
        1 + first_index(text.drop_first(), c)
    }
}

/// The pieces of `text` between occurrences of `c`. A text without `c` is one
/// piece, the empty text too.
pub open spec fn split_on(text: Seq<char>, c: char) -> Seq<Seq<char>>
    decreases text.len(),
{
    let i = first_index(text, c);
    if 0 <= i < text.len() {
        seq![text.subrange(0, i)] + split_on(text.subrange(i + 1, text.len() as int), c)
    } else {
        seq![text]
    }
}

/// `first_index` is the least position that holds `c`.
pub proof fn lemma_first_index(text: Seq<char>, c: char, at: int)
    requires
        0 <= at <= text.len(),
        forall|k: int| 0 <= k < at ==> text[k] != c,
        at < text.len() ==> text[at] == c,
    ensures
        first_index(text, c) == at,
    decreases text.len(),
{
    if text.len() > 0 && at > 0 {
        let rest = text.drop_first();
        assert forall|k: int| 0 <= k < at - 1 implies rest[k] != c by {
            assert(rest[k] == text[k + 1]);
        }
        lemma_first_index(rest, c, at - 1);
    }
}

/// Splits `text` at every `c`.
pub fn split(text: &str, c: char) -> (out: Vec<String>)
    ensures
        texts(out@) == split_on(text@, c),
{
    let n = text.unicode_len();
    let mut out: Vec<String> = Vec::new();
    let mut start: usize = 0;
    let mut i: usize = 0;
    proof {
        assert(text@.subrange(0, n as int) == text@);
        assert(texts(out@) + split_on(text@, c) == split_on(text@, c));
    }
    while i < n
        invariant
            n == text@.len(),
            start <= i <= n,
            forall|k: int| start <= k < i ==> text@[k] != c,
            split_on(text@, c) == texts(out@) + split_on(text@.subrange(start as int, n as int), c),
        decreases n - i,
    {
        if text.get_char(i) == c {
            let piece = String::from_str(text.substring_char(start, i));
            proof {
                let rest = text@.subrange(start as int, n as int);
                assert forall|k: int| 0 <= k < i - start implies rest[k] != c by {
                    assert(rest[k] == text@[start + k]);
                }
                lemma_first_index(rest, c, i - start);
                assert(rest.subrange(0, i - start) == text@.subrange(start as int, i as int));
                assert(rest.subrange(i - start + 1, rest.len() as int) == text@.subrange(
                    i + 1,
                    n as int,
                ));
                assert(texts(out@.push(piece)) == texts(out@) + seq![piece@]);
            }
            out.push(piece);
            start = i + 1;
        }
        i = i + 1;
    }
    let piece = String::from_str(text.substring_char(start, n));
    proof {
        let rest = text@.subrange(start as int, n as int);
        assert forall|k: int| 0 <= k < n - start implies rest[k] != c by {
            assert(rest[k] == text@[start + k]);
        }
        lemma_first_index(rest, c, n - start);
        assert(texts(out@.push(piece)) == texts(out@) + seq![piece@]);
        assert(split_on(rest, c) == seq![rest]);
    }
    out.push(piece);
    out
}

/// Where `first_index` points: at the first `c`, or behind the text.
pub proof fn lemma_first_index_points(text: Seq<char>, c: char)
    ensures
        0 <= first_index(text, c) <= text.len(),
        forall|k: int| 0 <= k < first_index(text, c) ==> text[k] != c,
        first_index(text, c) < text.len() ==> text[first_index(text, c)] == c,
    decreases text.len(),
{
    if text.len() > 0 && text[0] != c {
        let rest = text.drop_first();
        lemma_first_index_points(rest, c);
        assert forall|k: int| 0 <= k < first_index(text, c) implies text[k] != c by {
            if k > 0 {
                assert(rest[k - 1] == text[k]);
            }
        }
    }
}

/// Whether `c` occurs nowhere in `text`.
pub open spec fn free_of(text: Seq<char>, c: char) -> bool {
    forall|k: int| 0 <= k < text.len() ==> text[k] != c
}

/// No piece of a split holds the character that the text was split at, and
/// there is at least one piece.
pub proof fn lemma_split_pieces(text: Seq<char>, c: char)
    ensures
        split_on(text, c).len() >= 1,
        forall|i: int|
            0 <= i < split_on(text, c).len() ==> free_of(#[trigger] split_on(text, c)[i], c),
    decreases text.len(),
{
    lemma_first_index_points(text, c);
    let at = first_index(text, c);
    if 0 <= at < text.len() {
        let rest = text.subrange(at + 1, text.len() as int);
        lemma_split_pieces(rest, c);
        let head = text.subrange(0, at);
        let pieces = split_on(text, c);
        assert(pieces == seq![head] + split_on(rest, c));
        assert forall|i: int| 0 <= i < pieces.len() implies free_of(#[trigger] pieces[i], c) by {
            if i == 0 {
                assert(pieces[0] == head);
            } else {
                assert(pieces[i] == split_on(rest, c)[i - 1]);
            }
        }
    } else {
        assert(split_on(text, c)[0] == text);
    }
}

/// A join of two pieces or more is its first piece, the separator, and the
/// join of the others.
pub proof fn lemma_join_front(parts: Seq<Seq<char>>, sep: Seq<char>)
    requires
        parts.len() >= 2,
    ensures
        join_with(parts, sep) == parts[0] + sep + join_with(parts.drop_first(), sep),
    decreases parts.len(),
{
    let front = parts.drop_last();
    let rest = parts.drop_first();
    if parts.len() == 2 {
        assert(front =~= seq![parts[0]]);
        assert(rest =~= seq![parts[1]]);
        assert(join_with(front, sep) == parts[0]);
        assert(join_with(rest, sep) == parts[1]);
    } else {
        lemma_join_front(front, sep);
        assert(front.drop_first() =~= rest.drop_last());
        assert(front[0] == parts[0]);
        assert(rest.last() == parts.last());
        assert(join_with(rest, sep) == join_with(rest.drop_last(), sep) + sep + rest.last());
        assert(join_with(parts, sep) =~= parts[0] + sep + join_with(rest, sep));
    }
}

/// Splitting undoes joining: pieces that do not hold the separator, joined
/// with it and split at it, are the pieces again.
pub proof fn lemma_split_join(parts: Seq<Seq<char>>, c: char)
    requires
        parts.len() >= 1,
        forall|i: int| 0 <= i < parts.len() ==> free_of(#[trigger] parts[i], c),
    ensures
        split_on(join_with(parts, seq![c]), c) == parts,
    decreases parts.len(),
{
    let sep = seq![c];
    let joined = join_with(parts, sep);
    assert(free_of(parts[0], c));
    if parts.len() == 1 {
        lemma_first_index(joined, c, joined.len() as int);
        assert(split_on(joined, c) =~= parts);
    } else {
        let rest = parts.drop_first();
        lemma_join_front(parts, sep);
        let at = parts[0].len() as int;
        assert(joined =~= parts[0] + sep + join_with(rest, sep));
        assert(joined[at] == c);
        assert forall|k: int| 0 <= k < at implies joined[k] != c by {
            assert(joined[k] == parts[0][k]);
        }
        lemma_first_index(joined, c, at);
        assert(joined.subrange(0, at) =~= parts[0]);
        assert(joined.subrange(at + 1, joined.len() as int) =~= join_with(rest, sep));
        assert forall|i: int| 0 <= i < rest.len() implies free_of(#[trigger] rest[i], c) by {
            assert(rest[i] == parts[i + 1]);
        }
        lemma_split_join(rest, c);
        assert(split_on(joined, c) =~= seq![parts[0]] + rest);
        assert(seq![parts[0]] + rest =~= parts);
    }
}

} // verus!
