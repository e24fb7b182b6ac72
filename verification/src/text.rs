//! Texts as sequences of characters.
use vstd::prelude::*;

verus! {

/// [`String::push`] appends one character to the string.
pub assume_specification[ String::push ](s: &mut String, c: char)
    ensures
        final(s)@ == old(s)@.push(c),
;

/// The characters of a text.
pub fn chars_of(text: &str) -> (chars: Vec<char>)
    ensures
        chars@ == text@,
{
    let mut chars: Vec<char> = Vec::new();
    for c in it: text.chars()
        invariant
            it.seq() == text@,
            chars@ == text@.take(it.index()),
    {
        chars.push(c);
    }
    assert(chars@ =~= text@);
    chars
}

/// `part` stands in `text` at position `i`.
pub open spec fn occurs_at(text: Seq<char>, part: Seq<char>, i: int) -> bool {
    &&& 0 <= i
    &&& i + part.len() <= text.len()
    &&& text.subrange(i, i + part.len()) == part
}

/// `part` stands somewhere in `text`.
pub open spec fn contains_text(text: Seq<char>, part: Seq<char>) -> bool {
    exists|i: int| #[trigger] occurs_at(text, part, i)
}

/// Whether `part` stands in `text` at position `i`.
fn matches_at(text: &Vec<char>, part: &Vec<char>, i: usize) -> (found: bool)
    ensures
        found == occurs_at(text@, part@, i as int),
{
    if i > text.len() || part.len() > text.len() - i {
        return false;
    }
    let mut k: usize = 0;
    while k < part.len()
        invariant
            i <= text.len(),
            part.len() <= text.len() - i,
            k <= part.len(),
            forall|j: int| 0 <= j < k ==> text@[i + j] == part@[j],
        decreases part@.len() - k,
    {
        if text[i + k] != part[k] {
            assert(text@.subrange(i as int, i + part@.len())[k as int] != part@[k as int]);
            return false;
        }
        k = k + 1;
    }
    assert(text@.subrange(i as int, i + part@.len()) =~= part@);
    true
}

/// Whether two texts are the same.
pub fn same_text(a: &str, b: &str) -> (same: bool)
    ensures
        same == (a@ == b@),
{
    let a = chars_of(a);
    let b = chars_of(b);
    if a.len() != b.len() {
        return false;
    }
    let same = matches_at(&a, &b, 0);
    assert(a@.subrange(0, b@.len() as int) =~= a@);
    same
}

/// Whether one of the pieces is this text.
pub fn any_same(pieces: &Vec<String>, text: &str) -> (found: bool)
    ensures
        found == exists|i: int| 0 <= i < pieces@.len() && (#[trigger] pieces@[i])@ == text@,
{
    let mut i: usize = 0;
    while i < pieces.len()
        invariant
            i <= pieces.len(),
            forall|k: int| 0 <= k < i ==> (#[trigger] pieces@[k])@ != text@,
        decreases pieces.len() - i,
    {
        if same_text(pieces[i].as_str(), text) {
            assert(pieces@[i as int]@ == text@);
            return true;
        }
        i = i + 1;
    }
    false
}

/// Whether `text` begins with `prefix`.
pub fn has_prefix(text: &str, prefix: &str) -> (found: bool)
    ensures
        found == prefix@.is_prefix_of(text@),
{
    let text = chars_of(text);
    let prefix = chars_of(prefix);
    matches_at(&text, &prefix, 0)
}

/// Whether `text` ends with `suffix`.
pub fn has_suffix(text: &str, suffix: &str) -> (found: bool)
    ensures
        found == suffix@.is_suffix_of(text@),
{
    let text = chars_of(text);
    let suffix = chars_of(suffix);
    if suffix.len() > text.len() {
        return false;
    }
    let start: usize = text.len() - suffix.len();
    let found = matches_at(&text, &suffix, start);
    assert(start + suffix@.len() == text@.len());
    found
}

/// Whether `part` stands somewhere in `text`.
pub fn has_part(text: &str, part: &str) -> (found: bool)
    ensures
        found == contains_text(text@, part@),
{
    let whole = chars_of(text);
    let piece = chars_of(part);
    let mut i: usize = 0;
    while i < whole.len()
        invariant
            whole@ == text@,
            piece@ == part@,
            i <= whole.len(),
            forall|k: int| 0 <= k < i ==> !occurs_at(text@, part@, k),
        decreases whole.len() - i,
    {
        if matches_at(&whole, &piece, i) {
            assert(occurs_at(text@, part@, i as int));
            return true;
        }
        i = i + 1;
    }
    let found = matches_at(&whole, &piece, i);
    assert(found == occurs_at(text@, part@, i as int));
    found
}

/// `text` without its first `count` characters.
pub fn text_from(text: &str, count: usize) -> (rest: String)
    requires
        count <= text@.len(),
    ensures
        rest@ == text@.skip(count as int),
{
    let chars = chars_of(text);
    let mut rest = String::new();
    let mut i: usize = count;
    while i < chars.len()
        invariant
            count <= i <= chars@.len(),
            rest@ == chars@.subrange(count as int, i as int),
        decreases chars@.len() - i,
    {
        rest.push(chars[i]);
        i = i + 1;
    }
    assert(rest@ =~= text@.skip(count as int));
    rest
}

/// The first `count` characters of `text`.
pub fn text_to(text: &str, count: usize) -> (head: String)
    requires
        count <= text@.len(),
    ensures
        head@ == text@.take(count as int),
{
    let chars = chars_of(text);
    let mut head = String::new();
    let mut i: usize = 0;
    while i < count
        invariant
            i <= count <= chars@.len(),
            head@ == chars@.take(i as int),
        decreases count - i,
    {
        head.push(chars[i]);
        i = i + 1;
    }
    head
}

/// `text` without the leading `prefix`, if it has it.
pub open spec fn without_prefix(text: Seq<char>, prefix: Seq<char>) -> Option<Seq<char>> {
    if prefix.is_prefix_of(text) {
        Some(text.skip(prefix.len() as int))
    } else {
        None
    }
}

/// `text` without the trailing `suffix`, if it has it.
pub open spec fn without_suffix(text: Seq<char>, suffix: Seq<char>) -> Option<Seq<char>> {
    if suffix.is_suffix_of(text) {
        Some(text.take(text.len() - suffix.len()))
    } else {
        None
    }
}

pub fn drop_prefix(text: &str, prefix: &str) -> (rest: Option<String>)
    ensures
        rest is Some <==> without_prefix(text@, prefix@) is Some,
        rest matches Some(rest) ==> rest@ == without_prefix(text@, prefix@)->0,
{
    if has_prefix(text, prefix) {
        let count: usize = prefix.unicode_len();
        Some(text_from(text, count))
    } else {
        None
    }
}

pub fn drop_suffix(text: &str, suffix: &str) -> (rest: Option<String>)
    ensures
        rest is Some <==> without_suffix(text@, suffix@) is Some,
        rest matches Some(rest) ==> rest@ == without_suffix(text@, suffix@)->0,
{
    if has_suffix(text, suffix) {
        let count: usize = text.unicode_len() - suffix.unicode_len();
        Some(text_to(text, count))
    } else {
        None
    }
}

/// The pieces of `text` between the separators; a text without a separator is
/// one piece.
pub open spec fn segments(text: Seq<char>, separator: char) -> Seq<Seq<char>>
    decreases text.len(),
{
    if text.len() == 0 {
        seq![Seq::empty()]
    } else {
        let before = segments(text.drop_last(), separator);
        if text.last() == separator {
            before.push(Seq::empty())
        } else {
            before.drop_last().push(before.last().push(text.last()))
        }
    }
}

pub proof fn lemma_segments_some(text: Seq<char>, separator: char)
    ensures
        segments(text, separator).len() >= 1,
    decreases text.len(),
{
    if text.len() > 0 {
        lemma_segments_some(text.drop_last(), separator);
    }
}

/// The pieces put together again, with a separator between neighbours.
pub open spec fn joined(pieces: Seq<Seq<char>>, separator: char) -> Seq<char>
    decreases pieces.len(),
{
    if pieces.len() == 0 {
        Seq::empty()
    } else if pieces.len() == 1 {
        pieces[0]
    } else {
        joined(pieces.drop_last(), separator).push(separator) + pieces.last()
    }
}

/// Splitting a text loses nothing and leaves no separator in a piece.
pub proof fn splitting_loses_nothing(text: Seq<char>, separator: char)
    ensures
        joined(segments(text, separator), separator) == text,
        forall|i: int|
            0 <= i < segments(text, separator).len() ==> !(#[trigger] segments(
                text,
                separator,
            )[i]).contains(separator),
    decreases text.len(),
{
    let all = segments(text, separator);
    if text.len() == 0 {
        assert(joined(all, separator) =~= text);
    } else {
        let before = segments(text.drop_last(), separator);
        splitting_loses_nothing(text.drop_last(), separator);
        lemma_segments_some(text.drop_last(), separator);
        if text.last() == separator {
            assert(all.drop_last() =~= before);
            assert(joined(all, separator) =~= text);
        } else {
            let last = before.last().push(text.last());
            assert forall|i: int| 0 <= i < all.len() implies !(#[trigger] all[i]).contains(
                separator,
            ) by {
                if i < before.len() - 1 {
                    assert(all[i] == before[i]);
                } else {
                    assert(!before[before.len() - 1].contains(separator));
                    if last.contains(separator) {
                        let k = choose|k: int| 0 <= k < last.len() && last[k] == separator;
                        assert(before.last()[k] == separator);
                    }
                }
            }
            assert(all.drop_last() =~= before.drop_last());
            assert(text =~= text.drop_last().push(text.last()));
            assert(joined(all, separator) =~= text);
        }
    }
}

/// A text without a separator is its only piece.
pub proof fn lemma_unsplit(text: Seq<char>, separator: char)
    requires
        !text.contains(separator),
    ensures
        segments(text, separator) == seq![text],
    decreases text.len(),
{
    if text.len() > 0 {
        let before = text.drop_last();
        if before.contains(separator) {
            let k = choose|k: int| 0 <= k < before.len() && before[k] == separator;
            assert(text[k] == separator);
        }
        assert(text[text.len() - 1] != separator);
        lemma_unsplit(before, separator);
        assert(before.push(text.last()) =~= text);
        assert(segments(text, separator) =~= seq![text]);
    } else {
        assert(text =~= Seq::empty());
    }
}

/// The pieces of two texts with a separator between them are those of the
/// first and those of the second.
pub proof fn splitting_splits_at_every_separator(
    first: Seq<char>,
    second: Seq<char>,
    separator: char,
)
    ensures
        segments(first.push(separator) + second, separator) == segments(first, separator)
            + segments(second, separator),
    decreases second.len(),
{
    let whole = first.push(separator) + second;
    lemma_segments_some(second, separator);
    if second.len() == 0 {
        assert(whole =~= first.push(separator));
        assert(whole.drop_last() =~= first);
        assert(segments(whole, separator) =~= segments(first, separator) + segments(
            second,
            separator,
        ));
    } else {
        let shorter = second.drop_last();
        splitting_splits_at_every_separator(first, shorter, separator);
        lemma_segments_some(shorter, separator);
        assert(whole.drop_last() =~= first.push(separator) + shorter);
        assert(whole.last() == second.last());
        assert(segments(whole, separator) =~= segments(first, separator) + segments(
            second,
            separator,
        ));
    }
}

/// A text without a separator is the first piece of what begins with it and
/// goes on after a separator, and the last piece of what ends with it.
pub proof fn outer_pieces_stand_by_themselves(
    piece: Seq<char>,
    rest: Seq<char>,
    separator: char,
)
    requires
        !piece.contains(separator),
    ensures
        segments(piece.push(separator) + rest, separator)[0] == piece,
        segments(rest.push(separator) + piece, separator).last() == piece,
{
    lemma_unsplit(piece, separator);
    splitting_splits_at_every_separator(piece, rest, separator);
    splitting_splits_at_every_separator(rest, piece, separator);
}

/// The pieces of `text` between the separators.
pub fn split_text(text: &str, separator: char) -> (pieces: Vec<String>)
    ensures
        pieces@.len() == segments(text@, separator).len(),
        pieces@.len() >= 1,
        forall|i: int|
            0 <= i < pieces@.len() ==> (#[trigger] pieces@[i])@ == segments(text@, separator)[i],
{
    let chars = chars_of(text);
    let mut pieces: Vec<String> = Vec::new();
    let mut current = String::new();
    let mut i: usize = 0;
    assert(chars@.take(0) =~= Seq::empty());
    while i < chars.len()
        invariant
            i <= chars@.len(),
            pieces@.len() + 1 == segments(chars@.take(i as int), separator).len(),
            forall|k: int|
                0 <= k < pieces@.len() ==> (#[trigger] pieces@[k])@ == segments(
                    chars@.take(i as int),
                    separator,
                )[k],
            current@ == segments(chars@.take(i as int), separator).last(),
        decreases chars@.len() - i,
    {
        let c: char = chars[i];
        assert(chars@.take(i + 1).drop_last() =~= chars@.take(i as int));
        if c == separator {
            pieces.push(current);
            current = String::new();
        } else {
            current.push(c);
        }
        i = i + 1;
    }
    assert(chars@.take(i as int) =~= text@);
    pieces.push(current);
    pieces
}

pub open spec fn digit(n: int) -> char {
    if n == 0 {
        '0'
    } else if n == 1 {
        '1'
    } else if n == 2 {
        '2'
    } else if n == 3 {
        '3'
    } else if n == 4 {
        '4'
    } else if n == 5 {
        '5'
    } else if n == 6 {
        '6'
    } else if n == 7 {
        '7'
    } else if n == 8 {
        '8'
    } else {
        '9'
    }
}

/// `n` in decimal notation.
pub open spec fn decimal(n: nat) -> Seq<char>
    decreases n,
{
    if n < 10 {
        seq![digit(n as int)]
    } else {
        decimal(n / 10).push(digit((n % 10) as int))
    }
}

fn digit_char(n: u64) -> (c: char)
    requires
        n < 10,
    ensures
        c == digit(n as int),
{
    if n == 0 {
        '0'
    } else if n == 1 {
        '1'
    } else if n == 2 {
        '2'
    } else if n == 3 {
        '3'
    } else if n == 4 {
        '4'
    } else if n == 5 {
        '5'
    } else if n == 6 {
        '6'
    } else if n == 7 {
        '7'
    } else if n == 8 {
        '8'
    } else {
        '9'
    }
}

/// Appends `n` in decimal notation.
pub fn push_decimal(text: &mut String, n: u64)
    ensures
        final(text)@ == old(text)@ + decimal(n as nat),
    decreases n,
{
    if n < 10 {
        text.push(digit_char(n));
        assert(text@ =~= old(text)@ + decimal(n as nat));
    } else {
        push_decimal(text, n / 10);
        text.push(digit_char(n % 10));
        assert(text@ =~= old(text)@ + decimal(n as nat));
    }
}

/// The number that decimal digits stand for.
pub open spec fn number_read(digits: Seq<char>) -> int
    decreases digits.len(),
{
    if digits.len() == 0 {
        0
    } else {
        number_read(digits.drop_last()) * 10 + (digits.last() as int - '0' as int)
    }
}

/// What is written in decimal notation reads as the number again; it consists of
/// digits, and begins with a zero for zero alone.
pub proof fn decimal_notation_reads_as_the_number(n: nat, i: int)
    ensures
        number_read(decimal(n)) == n,
        decimal(n).len() > 0,
        0 <= i < decimal(n).len() ==> '0' <= decimal(n)[i] <= '9',
        decimal(n)[0] == '0' ==> n == 0,
    decreases n,
{
    reveal_with_fuel(number_read, 2);
    if n >= 10 {
        decimal_notation_reads_as_the_number(n / 10, i);
        let before = decimal(n / 10);
        let all = decimal(n);
        assert(all.drop_last() =~= before);
        assert(all.last() == digit((n % 10) as int));
        assert(all[0] == before[0]);
    } else {
        assert(decimal(n).drop_last() =~= Seq::empty());
    }
}

/// A text is what its beginning and what is left without it make together; and a
/// beginning can be taken away just where the text has it. So with the end.
pub proof fn taking_away_is_undone_by_putting_together(
    text: &str,
    part: &str,
    after: Option<String>,
    before: Option<String>,
    other: Seq<char>,
)
    requires
        call_ensures(drop_prefix, (text, part), after),
        call_ensures(drop_suffix, (text, part), before),
    ensures
        after matches Some(rest) ==> text@ == part@ + rest@,
        text@ == part@ + other ==> (after matches Some(rest) && rest@ == other),
        before matches Some(rest) ==> text@ == rest@ + part@,
        text@ == other + part@ ==> (before matches Some(rest) && rest@ == other),
{
    if let Some(rest) = after {
        assert(text@ =~= part@ + rest@);
    }
    if text@ == part@ + other {
        assert(text@.subrange(0, part@.len() as int) =~= part@);
        assert(text@.skip(part@.len() as int) =~= other);
    }
    if let Some(rest) = before {
        assert(text@ =~= rest@ + part@);
    }
    if text@ == other + part@ {
        assert(text@.subrange(other.len() as int, text@.len() as int) =~= part@);
        assert(text@.take(text@.len() - part@.len()) =~= other);
    }
}

/// A text has a part just where it is something, the part, and something more.
pub proof fn parts_stand_between(text: &str, part: &str, found: bool, a: Seq<char>, b: Seq<char>)
    requires
        call_ensures(has_part, (text, part), found),
    ensures
        text@ == a + part@ + b ==> found,
        found ==> exists|x: Seq<char>, y: Seq<char>| #[trigger] ((x + part@) + y) == text@,
{
    if text@ == a + part@ + b {
        assert(text@.subrange(a.len() as int, (a.len() + part@.len()) as int) =~= part@);
        assert(occurs_at(text@, part@, a.len() as int));
    }
    if found {
        let i = choose|i: int| #[trigger] occurs_at(text@, part@, i);
        let x = text@.take(i);
        let y = text@.skip(i + part@.len());
        assert(((x + part@) + y) =~= text@);
    }
}

/// A number that is appended stands behind the text and reads as itself.
pub proof fn appended_numbers_read_as_themselves(text: &mut String, n: u64, done: ())
    requires
        call_ensures(push_decimal, (text, n), done),
    ensures
        old(text)@.is_prefix_of(final(text)@),
        number_read(final(text)@.skip(old(text)@.len() as int)) == n,
{
    decimal_notation_reads_as_the_number(n as nat, 0);
    assert(final(text)@.subrange(0, old(text)@.len() as int) =~= old(text)@);
    assert(final(text)@.skip(old(text)@.len() as int) =~= decimal(n as nat));
}

} // verus!
