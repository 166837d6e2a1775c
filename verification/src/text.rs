//! Text as a sequence of characters: searching, splitting, replacing and decimal numerals.

use vstd::prelude::*;

verus! {

/// `pat` stands in `s` at position `i`.
pub open spec fn occurs_at(s: Seq<char>, pat: Seq<char>, i: int) -> bool {
    0 <= i && i + pat.len() <= s.len() && s.subrange(i, i + pat.len()) == pat
}

/// The least position from `from` on at which `pat` stands in `s`.
pub open spec fn find_from(s: Seq<char>, pat: Seq<char>, from: int) -> Option<int>
    decreases s.len() + 1 - from,
{
    if from < 0 || from + pat.len() > s.len() {
        None
    } else if occurs_at(s, pat, from) {
        Some(from)
    } else {
        find_from(s, pat, from + 1)
    }
}

/// What `find_from` finds is an occurrence, and the first one; it finds nothing only where
/// there is none.
pub proof fn lemma_find_from(s: Seq<char>, pat: Seq<char>, from: int)
    requires
        0 <= from,
    ensures
        match find_from(s, pat, from) {
            Some(i) => from <= i && occurs_at(s, pat, i) && forall|j: int|
                from <= j < i ==> !#[trigger] occurs_at(s, pat, j),
            None => forall|j: int| from <= j ==> !#[trigger] occurs_at(s, pat, j),
        },
    decreases s.len() + 1 - from,
{
    if from + pat.len() > s.len() || occurs_at(s, pat, from) {
    } else {
        lemma_find_from(s, pat, from + 1);
        assert forall|j: int| from <= j && j < from + 1 implies !#[trigger] occurs_at(s, pat, j) by {
            assert(j == from);
        }
    }
}

/// The first occurrence from `from` on is what `find_from` finds.
pub proof fn lemma_find_from_is(s: Seq<char>, pat: Seq<char>, from: int, i: int)
    requires
        0 <= from <= i,
        occurs_at(s, pat, i),
        forall|j: int| from <= j < i ==> !#[trigger] occurs_at(s, pat, j),
    ensures
        find_from(s, pat, from) == Some(i),
{
    lemma_find_from(s, pat, from);
}

/// An occurrence is a match of every character.
pub proof fn lemma_occurs_chars(s: Seq<char>, pat: Seq<char>, i: int)
    ensures
        occurs_at(s, pat, i) <==> 0 <= i && i + pat.len() <= s.len() && forall|k: int|
            0 <= k < pat.len() ==> s[i + k] == #[trigger] pat[k],
{
    if 0 <= i && i + pat.len() <= s.len() {
        let part = s.subrange(i, i + pat.len());
        if forall|k: int| 0 <= k < pat.len() ==> s[i + k] == #[trigger] pat[k] {
            assert(part =~= pat);
        }
        if part == pat {
            assert forall|k: int| 0 <= k < pat.len() implies s[i + k] == #[trigger] pat[k] by {
                assert(part[k] == pat[k]);
            }
        }
    }
}

/// The character `c` stands nowhere in `s`.
pub open spec fn lacks(s: Seq<char>, c: char) -> bool {
    forall|i: int| 0 <= i < s.len() ==> #[trigger] s[i] != c
}

/// The characters of a string.
pub fn to_chars(s: &str) -> (chars: Vec<char>)
    ensures
        chars@ == s@,
{
    let mut chars: Vec<char> = Vec::new();
    for c in it: s.chars()
        invariant
            it.seq() == s@,
            chars@ == s@.take(it.index()),
    {
        chars.push(c);
    }
    chars
}

/// Finds the first occurrence of `pat` in `s` from position `from` on.
pub fn find(s: &Vec<char>, pat: &Vec<char>, from: usize) -> (found: Option<usize>)
    requires
        from <= s.len(),
    ensures
        match found {
            Some(i) => find_from(s@, pat@, from as int) == Some(i as int),
            None => find_from(s@, pat@, from as int) is None,
        },
{
    let mut i: usize = from;
    while pat.len() <= s.len() - i
        invariant
            from <= i <= s.len(),
            find_from(s@, pat@, from as int) == find_from(s@, pat@, i as int),
        decreases s.len() - i,
    {
        if matches_at(s, pat, i) {
            return Some(i);
        }
        proof {
            if pat.len() == 0 {
                assert(s@.subrange(i as int, i as int) =~= pat@);
            }
        }
        i += 1;
    }
    None
}

/// Whether `pat` stands in `s` at position `i`.
fn matches_at(s: &Vec<char>, pat: &Vec<char>, i: usize) -> (r: bool)
    requires
        i + pat.len() <= s.len(),
    ensures
        r == occurs_at(s@, pat@, i as int),
{
    let mut k: usize = 0;
    while k < pat.len()
        invariant
            k <= pat.len(),
            i + pat.len() <= s.len(),
            forall|j: int| 0 <= j < k ==> s@[i + j] == #[trigger] pat@[j],
        decreases pat.len() - k,
    {
        if s[i + k] != pat[k] {
            assert(s@.subrange(i as int, i + pat.len())[k as int] != pat@[k as int]);
            return false;
        }
        k += 1;
    }
    assert(s@.subrange(i as int, i + pat.len()) =~= pat@);
    true
}

/// The pieces of `s` from `from` on, cut at every occurrence of `sep`.
pub open spec fn split_from(s: Seq<char>, sep: Seq<char>, from: int) -> Seq<Seq<char>>
    decreases s.len() - from,
{
    if 0 <= from && sep.len() > 0 && find_from(s, sep, from) is Some {
        proof {
            lemma_find_from(s, sep, from);
        }
        let i = find_from(s, sep, from)->0;
        seq![s.subrange(from, i)] + split_from(s, sep, i + sep.len())
    } else {
        seq![s.subrange(from, s.len() as int)]
    }
}

/// `s` from `from` on, with every occurrence of `pat` replaced by `to`.
pub open spec fn replace_from(
    s: Seq<char>,
    pat: Seq<char>,
    to: Seq<char>,
    from: int,
) -> Seq<char>
    decreases s.len() - from,
{
    if 0 <= from && pat.len() > 0 && find_from(s, pat, from) is Some {
        proof {
            lemma_find_from(s, pat, from);
        }
        let i = find_from(s, pat, from)->0;
        s.subrange(from, i) + to + replace_from(s, pat, to, i + pat.len())
    } else {
        s.subrange(from, s.len() as int)
    }
}

/// `suffix` ends `s`.
pub open spec fn has_suffix(s: Seq<char>, suffix: Seq<char>) -> bool {
    occurs_at(s, suffix, s.len() - suffix.len())
}

/// `pat` stands somewhere in `s`.
pub open spec fn has_text(s: Seq<char>, pat: Seq<char>) -> bool {
    exists|i: int| occurs_at(s, pat, i)
}

/// The text of an optional string.
pub open spec fn optional_text(s: Option<String>) -> Option<Seq<char>> {
    match s {
        Some(s) => Some(s@),
        None => None,
    }
}

/// The text of a string or of the message that stands in its place.
pub open spec fn result_text(r: Result<String, String>) -> Result<Seq<char>, Seq<char>> {
    match r {
        Ok(s) => Ok(s@),
        Err(e) => Err(e@),
    }
}

/// The texts of a list of strings.
pub open spec fn texts(list: Seq<String>) -> Seq<Seq<char>> {
    list.map_values(|s: String| s@)
}

/// Cuts `s` at every occurrence of `sep`.
pub fn split(s: &str, sep: &str) -> (pieces: Vec<String>)
    requires
        sep@.len() > 0,
    ensures
        texts(pieces@) == split_from(s@, sep@, 0),
{
    let chars = to_chars(s);
    let sep_chars = to_chars(sep);
    let mut pieces: Vec<String> = Vec::new();
    let mut from: usize = 0;
    assert(texts(pieces@) + split_from(s@, sep@, 0) =~= split_from(s@, sep@, 0));
    loop
        invariant
            chars@ == s@,
            sep_chars@ == sep@,
            sep@.len() > 0,
            from <= s@.len(),
            texts(pieces@) + split_from(s@, sep@, from as int) == split_from(s@, sep@, 0),
        decreases s@.len() - from,
    {
        proof {
            lemma_find_from(s@, sep@, from as int);
        }
        match find(&chars, &sep_chars, from) {
            Some(i) => {
                let ghost before = texts(pieces@);
                let piece = s.substring_char(from, i).to_string();
                pieces.push(piece);
                assert(texts(pieces@) =~= before.push(piece@));
                assert(texts(pieces@) + split_from(s@, sep@, i + sep@.len()) =~= before
                    + split_from(s@, sep@, from as int));
                assert(i + sep_chars.len() <= chars.len());
                from = i + sep_chars.len();
            },
            None => {
                let ghost before = texts(pieces@);
                let piece = s.substring_char(from, chars.len()).to_string();
                pieces.push(piece);
                assert(texts(pieces@) =~= before + seq![piece@]);
                return pieces;
            },
        }
    }
}

/// Replaces every occurrence of `pat` in `s` by `to`.
pub fn replace(s: &str, pat: &str, to: &str) -> (r: String)
    requires
        pat@.len() > 0,
    ensures
        r@ == replace_from(s@, pat@, to@, 0),
{
    let chars = to_chars(s);
    let pat_chars = to_chars(pat);
    let mut r = String::new();
    let mut from: usize = 0;
    assert(r@ + replace_from(s@, pat@, to@, 0) =~= replace_from(s@, pat@, to@, 0));
    loop
        invariant
            chars@ == s@,
            pat_chars@ == pat@,
            pat@.len() > 0,
            from <= s@.len(),
            r@ + replace_from(s@, pat@, to@, from as int) == replace_from(s@, pat@, to@, 0),
        decreases s@.len() - from,
    {
        proof {
            lemma_find_from(s@, pat@, from as int);
        }
        match find(&chars, &pat_chars, from) {
            Some(i) => {
                let ghost before = r@;
                r.append(s.substring_char(from, i));
                r.append(to);
                assert(r@ + replace_from(s@, pat@, to@, i + pat@.len()) =~= before
                    + replace_from(s@, pat@, to@, from as int));
                assert(i + pat_chars.len() <= chars.len());
                from = i + pat_chars.len();
            },
            None => {
                r.append(s.substring_char(from, chars.len()));
                return r;
            },
        }
    }
}

/// Whether `pat` stands anywhere in `s`.
pub fn contains(s: &str, pat: &str) -> (r: bool)
    ensures
        r == has_text(s@, pat@),
{
    let chars = to_chars(s);
    let pat_chars = to_chars(pat);
    proof {
        lemma_find_from(s@, pat@, 0);
    }
    find(&chars, &pat_chars, 0).is_some()
}

/// Whether `suffix` ends `s`.
pub fn ends_with(s: &str, suffix: &str) -> (r: bool)
    ensures
        r == has_suffix(s@, suffix@),
{
    let chars = to_chars(s);
    let suffix_chars = to_chars(suffix);
    if suffix_chars.len() <= chars.len() {
        matches_at(&chars, &suffix_chars, chars.len() - suffix_chars.len())
    } else {
        false
    }
}

/// Whether two strings hold the same characters.
pub fn same_text(a: &str, b: &str) -> (r: bool)
    ensures
        r == (a@ == b@),
{
    let a_chars = to_chars(a);
    let b_chars = to_chars(b);
    if a_chars.len() == b_chars.len() {
        proof {
            assert(a@.subrange(0, a@.len() as int) =~= a@);
        }
        matches_at(&a_chars, &b_chars, 0)
    } else {
        false
    }
}

/// The digit `d`, which is less than ten, as a character.
pub open spec fn digit(d: nat) -> char {
    (48 + d) as char
}

/// The decimal numeral of `n`, without leading zeros.
pub open spec fn decimal(n: nat) -> Seq<char>
    decreases n,
{
    if n < 10 {
        seq![digit(n)]
    } else {
        decimal(n / 10).push(digit(n % 10))
    }
}

/// A numeral is made of digits, at least one.
pub proof fn lemma_decimal_digits(n: nat)
    ensures
        decimal(n).len() > 0,
        forall|i: int| 0 <= i < decimal(n).len() ==> '0' <= #[trigger] decimal(n)[i] <= '9',
    decreases n,
{
    if n >= 10 {
        lemma_decimal_digits(n / 10);
    }
}

/// Different numbers have different numerals.
pub proof fn law_decimal_injective(m: nat, n: nat)
    requires
        decimal(m) == decimal(n),
    ensures
        m == n,
    decreases m,
{
    lemma_decimal_digits(m / 10);
    lemma_decimal_digits(n / 10);
    let a = decimal(m);
    let b = decimal(n);
    assert(a.last() == digit(m % 10));
    assert(b.last() == digit(n % 10));
    assert(m % 10 == n % 10);
    if m >= 10 && n >= 10 {
        assert(a.drop_last() =~= decimal(m / 10));
        assert(b.drop_last() =~= decimal(n / 10));
        law_decimal_injective(m / 10, n / 10);
    } else if m >= 10 {
        assert(a.len() > 1);
    } else if n >= 10 {
        assert(b.len() > 1);
    }
}

/// Splitting at a character takes the text before its next occurrence as one piece, and goes
/// on behind it.
pub proof fn lemma_split_step(s: Seq<char>, sep: Seq<char>, from: int, i: int)
    requires
        sep.len() == 1,
        0 <= from <= i < s.len(),
        s[i] == sep[0],
        lacks(s.subrange(from, i), sep[0]),
    ensures
        split_from(s, sep, from) == seq![s.subrange(from, i)] + split_from(s, sep, i + 1),
{
    lemma_occurs_chars(s, sep, i);
    assert forall|j: int| from <= j < i implies !#[trigger] occurs_at(s, sep, j) by {
        lemma_occurs_chars(s, sep, j);
        assert(s.subrange(from, i)[j - from] != sep[0]);
        assert(s[j + 0] != sep[0]);
    }
    lemma_find_from_is(s, sep, from, i);
}

/// The text behind the last occurrence of the character is the last piece.
pub proof fn lemma_split_end(s: Seq<char>, sep: Seq<char>, from: int)
    requires
        sep.len() == 1,
        0 <= from <= s.len(),
        lacks(s.subrange(from, s.len() as int), sep[0]),
    ensures
        split_from(s, sep, from) == seq![s.subrange(from, s.len() as int)],
{
    lemma_find_from(s, sep, from);
    if let Some(j) = find_from(s, sep, from) {
        lemma_occurs_chars(s, sep, j);
        assert(s[j + 0] == sep[0]);
        assert(s.subrange(from, s.len() as int)[j - from] == sep[0]);
    }
}

/// A digit as a string.
fn digit_text(d: u64) -> (r: &'static str)
    requires
        d < 10,
    ensures
        r@ == seq![digit(d as nat)],
{
    proof {
        reveal_strlit("0");
        reveal_strlit("1");
        reveal_strlit("2");
        reveal_strlit("3");
        reveal_strlit("4");
        reveal_strlit("5");
        reveal_strlit("6");
        reveal_strlit("7");
        reveal_strlit("8");
        reveal_strlit("9");
    }
    match d {
        0 => "0",
        1 => "1",
        2 => "2",
        3 => "3",
        4 => "4",
        5 => "5",
        6 => "6",
        7 => "7",
        8 => "8",
        _ => "9",
    }
}

/// Writes `n` in decimal.
pub fn decimal_text(n: u64) -> (r: String)
    ensures
        r@ == decimal(n as nat),
    decreases n,
{
    let mut r = if n < 10 {
        String::new()
    } else {
        decimal_text(n / 10)
    };
    r.append(digit_text(n % 10));
    r
}

/// The characters with the Unicode property White_Space.
pub open spec fn white_space(c: char) -> bool {
    ||| '\u{9}' <= c <= '\u{d}'
    ||| c == ' '
    ||| c == '\u{85}'
    ||| c == '\u{a0}'
    ||| c == '\u{1680}'
    ||| '\u{2000}' <= c <= '\u{200a}'
    ||| c == '\u{2028}'
    ||| c == '\u{2029}'
    ||| c == '\u{202f}'
    ||| c == '\u{205f}'
    ||| c == '\u{3000}'
}

/// Whether a character is white space.
fn is_white_space(c: char) -> (r: bool)
    ensures
        r == white_space(c),
{
    ('\u{9}' <= c && c <= '\u{d}') || c == ' ' || c == '\u{85}' || c == '\u{a0}' || c == '\u{1680}' || (
    '\u{2000}' <= c && c <= '\u{200a}') || c == '\u{2028}' || c == '\u{2029}' || c == '\u{202f}' || c
        == '\u{205f}' || c == '\u{3000}'
}

/// Nothing but white space.
pub open spec fn blank(s: Seq<char>) -> bool {
    forall|i: int| 0 <= i < s.len() ==> white_space(#[trigger] s[i])
}

/// Whether a string holds nothing but white space.
pub fn is_blank(s: &str) -> (r: bool)
    ensures
        r == blank(s@),
{
    let chars = to_chars(s);
    let mut i: usize = 0;
    while i < chars.len()
        invariant
            i <= chars.len(),
            chars@ == s@,
            forall|j: int| 0 <= j < i ==> white_space(#[trigger] s@[j]),
        decreases chars.len() - i,
    {
        if !is_white_space(chars[i]) {
            return false;
        }
        i += 1;
    }
    true
}

/// `pat` stands in `s` at position `i`, character for character.
pub open spec fn stands(s: Seq<char>, pat: Seq<char>, i: int) -> bool {
    0 <= i && i + pat.len() <= s.len() && forall|k: int|
        0 <= k < pat.len() ==> s[i + k] == #[trigger] pat[k]
}

/// `pat` stands in `s` at position `i`, and at none before.
pub open spec fn stands_first(s: Seq<char>, pat: Seq<char>, i: int) -> bool {
    stands(s, pat, i) && forall|j: int| 0 <= j < i ==> !#[trigger] stands(s, pat, j)
}

/// `pat` stands nowhere in `s`.
pub open spec fn free_of(s: Seq<char>, pat: Seq<char>) -> bool {
    forall|i: int| !#[trigger] stands(s, pat, i)
}

/// Pieces with a separator between each two of them.
pub open spec fn joined(pieces: Seq<Seq<char>>, sep: Seq<char>) -> Seq<char>
    decreases pieces.len(),
{
    if pieces.len() == 0 {
        Seq::empty()
    } else if pieces.len() == 1 {
        pieces[0]
    } else {
        pieces[0] + sep + joined(pieces.drop_first(), sep)
    }
}

/// A search from `from` on finds the least position from there on where the text agrees with
/// the pattern in every character, and it finds nothing only where there is no such position.
pub proof fn law_find_is_the_first_match(s: Seq<char>, pat: Seq<char>, from: int)
    requires
        0 <= from,
    ensures
        match find_from(s, pat, from) {
            Some(i) => from <= i && stands(s, pat, i) && forall|j: int|
                from <= j < i ==> !#[trigger] stands(s, pat, j),
            None => forall|j: int| from <= j ==> !#[trigger] stands(s, pat, j),
        },
{
    lemma_find_from(s, pat, from);
    assert forall|j: int| #[trigger] stands(s, pat, j) == occurs_at(s, pat, j) by {
        lemma_occurs_chars(s, pat, j);
    }
}

/// A position from `from` on that is the first match is what a search finds.
pub proof fn lemma_find_stands(s: Seq<char>, pat: Seq<char>, from: int, i: int)
    requires
        0 <= from <= i,
        stands(s, pat, i),
        forall|j: int| from <= j < i ==> !#[trigger] stands(s, pat, j),
    ensures
        find_from(s, pat, from) == Some(i),
{
    law_find_is_the_first_match(s, pat, from);
}

/// A text contains a pattern exactly where it is some text, the pattern and some text.
pub proof fn law_has_text_is_a_match(s: Seq<char>, pat: Seq<char>)
    ensures
        has_text(s, pat) <==> exists|i: int| stands(s, pat, i),
{
    assert forall|j: int| #[trigger] stands(s, pat, j) == occurs_at(s, pat, j) by {
        lemma_occurs_chars(s, pat, j);
    }
    if has_text(s, pat) {
        let i = choose|i: int| occurs_at(s, pat, i);
        assert(stands(s, pat, i));
    }
    if exists|i: int| stands(s, pat, i) {
        let i = choose|i: int| stands(s, pat, i);
        assert(occurs_at(s, pat, i));
    }
}

/// A text ends in a suffix exactly where it is some text and then the suffix.
pub proof fn law_has_suffix_is_an_end(s: Seq<char>, suffix: Seq<char>)
    ensures
        has_suffix(s, suffix) <==> exists|before: Seq<char>| s == #[trigger] (before + suffix),
{
    if has_suffix(s, suffix) {
        let before = s.take(s.len() - suffix.len());
        assert(s =~= before + s.subrange(s.len() - suffix.len(), s.len() as int));
        assert(s == before + suffix);
    }
    if exists|before: Seq<char>| s == #[trigger] (before + suffix) {
        let before = choose|before: Seq<char>| s == #[trigger] (before + suffix);
        assert(s.subrange(s.len() - suffix.len(), s.len() as int) =~= suffix);
    }
}

/// A match in a part of a text is a match in the text.
pub proof fn lemma_stands_in_part(s: Seq<char>, a: int, b: int, pat: Seq<char>, j: int)
    requires
        0 <= a <= b <= s.len(),
        stands(s.subrange(a, b), pat, j),
    ensures
        stands(s, pat, a + j),
{
    let part = s.subrange(a, b);
    assert forall|k: int| 0 <= k < pat.len() implies s[a + j + k] == #[trigger] pat[k] by {
        assert(part[j + k] == pat[k]);
    }
}

/// Joining the pieces of a text gives the text from there on, and every cut is made at the
/// first separator.
proof fn lemma_split_pieces(s: Seq<char>, sep: Seq<char>, from: int)
    requires
        sep.len() > 0,
        0 <= from <= s.len(),
    ensures
        ({
            let pieces = split_from(s, sep, from);
            &&& pieces.len() >= 1
            &&& joined(pieces, sep) == s.subrange(from, s.len() as int)
            &&& forall|i: int|
                0 <= i < pieces.len() - 1 ==> stands_first(
                    #[trigger] pieces[i] + sep,
                    sep,
                    pieces[i].len() as int,
                )
            &&& free_of(pieces.last(), sep)
        }),
    decreases s.len() - from,
{
    law_find_is_the_first_match(s, sep, from);
    let pieces = split_from(s, sep, from);
    match find_from(s, sep, from) {
        Some(i) => {
            let next = i + sep.len();
            let rest = split_from(s, sep, next);
            lemma_split_pieces(s, sep, next);
            let piece = s.subrange(from, i);
            assert(pieces == seq![piece] + rest);
            assert(pieces.drop_first() =~= rest);
            assert(pieces.last() == rest.last());
            assert(s.subrange(i, next) =~= sep);
            assert(s.subrange(from, s.len() as int) =~= piece + sep + s.subrange(
                next,
                s.len() as int,
            ));
            assert(piece + sep =~= s.subrange(from, next));
            assert forall|k: int| 0 <= k < pieces.len() - 1 implies stands_first(
                #[trigger] pieces[k] + sep,
                sep,
                pieces[k].len() as int,
            ) by {
                if k == 0 {
                    let whole = piece + sep;
                    assert forall|j: int| 0 <= j < piece.len() implies !#[trigger] stands(
                        whole,
                        sep,
                        j,
                    ) by {
                        if stands(whole, sep, j) {
                            lemma_stands_in_part(s, from, next, sep, j);
                        }
                    }
                } else {
                    assert(pieces[k] == rest[k - 1]);
                }
            }
        },
        None => {
            let piece = s.subrange(from, s.len() as int);
            assert forall|j: int| !#[trigger] stands(piece, sep, j) by {
                if stands(piece, sep, j) {
                    lemma_stands_in_part(s, from, s.len() as int, sep, j);
                }
            }
        },
    }
}

/// Splitting loses nothing: the pieces, joined by the separator, are the text again. Every cut
/// is made at the first separator that is left, and no separator is left in the last piece.
pub proof fn law_split_cuts_at_separators(s: Seq<char>, sep: Seq<char>)
    requires
        sep.len() > 0,
    ensures
        ({
            let pieces = split_from(s, sep, 0);
            &&& pieces.len() >= 1
            &&& joined(pieces, sep) == s
            &&& forall|i: int|
                0 <= i < pieces.len() - 1 ==> stands_first(
                    #[trigger] pieces[i] + sep,
                    sep,
                    pieces[i].len() as int,
                )
            &&& free_of(pieces.last(), sep)
        }),
{
    lemma_split_pieces(s, sep, 0);
    assert(s.subrange(0, s.len() as int) =~= s);
}

/// Replacing joins the pieces by the replacement.
proof fn lemma_replace_joins(s: Seq<char>, pat: Seq<char>, to: Seq<char>, from: int)
    requires
        pat.len() > 0,
        0 <= from <= s.len(),
    ensures
        replace_from(s, pat, to, from) == joined(split_from(s, pat, from), to),
    decreases s.len() - from,
{
    lemma_find_from(s, pat, from);
    if let Some(i) = find_from(s, pat, from) {
        let rest = split_from(s, pat, i + pat.len());
        lemma_replace_joins(s, pat, to, i + pat.len());
        lemma_split_pieces(s, pat, i + pat.len());
        let pieces = split_from(s, pat, from);
        assert(pieces == seq![s.subrange(from, i)] + rest);
        assert(pieces.drop_first() =~= rest);
    }
}

/// Replacing a pattern is cutting the text at the pattern and joining the pieces by the
/// replacement: nothing else changes.
pub proof fn law_replace_joins_the_pieces(s: Seq<char>, pat: Seq<char>, to: Seq<char>)
    requires
        pat.len() > 0,
    ensures
        replace_from(s, pat, to, 0) == joined(split_from(s, pat, 0), to),
{
    lemma_replace_joins(s, pat, to, 0);
}

/// A search in the tail of a text finds what it finds in the whole text from there on.
pub proof fn lemma_find_shift(s: Seq<char>, pat: Seq<char>, k: int, from: int)
    requires
        0 <= k <= s.len(),
        0 <= from,
    ensures
        match find_from(s.subrange(k, s.len() as int), pat, from) {
            Some(i) => find_from(s, pat, k + from) == Some(k + i),
            None => find_from(s, pat, k + from) is None,
        },
{
    let t = s.subrange(k, s.len() as int);
    law_find_is_the_first_match(t, pat, from);
    law_find_is_the_first_match(s, pat, k + from);
    assert forall|j: int| 0 <= j implies #[trigger] stands(t, pat, j) == stands(s, pat, k + j) by {
        if stands(t, pat, j) {
            lemma_stands_in_part(s, k, s.len() as int, pat, j);
        }
        if stands(s, pat, k + j) {
            assert(forall|m: int|
                0 <= m < pat.len() ==> s[k + j + m] == t[j + m] && s[k + j + m]
                    == #[trigger] pat[m]);
        }
    }
    if let Some(i) = find_from(s, pat, k + from) {
        assert(stands(t, pat, i - k));
    }
    if let Some(i) = find_from(t, pat, from) {
        assert(stands(s, pat, k + i));
    }
}

/// The pieces of the tail of a text are those of the whole text from there on.
pub proof fn lemma_split_shift(s: Seq<char>, sep: Seq<char>, k: int, from: int)
    requires
        sep.len() > 0,
        0 <= k <= s.len(),
        0 <= from <= s.len() - k,
    ensures
        split_from(s.subrange(k, s.len() as int), sep, from) == split_from(s, sep, k + from),
    decreases s.len() - k - from,
{
    let t = s.subrange(k, s.len() as int);
    lemma_find_shift(s, sep, k, from);
    lemma_find_from(t, sep, from);
    match find_from(t, sep, from) {
        Some(i) => {
            lemma_split_shift(s, sep, k, i + sep.len());
            assert(t.subrange(from, i) =~= s.subrange(k + from, k + i));
            assert(k + (i + sep.len()) == (k + i) + sep.len());
        },
        None => {
            assert(t.subrange(from, t.len() as int) =~= s.subrange(k + from, s.len() as int));
        },
    }
}

/// The code points with the property White_Space.
pub open spec fn white_space_code(n: int) -> bool {
    ||| 9 <= n <= 13
    ||| n == 32
    ||| n == 133
    ||| n == 160
    ||| n == 5760
    ||| 8192 <= n <= 8202
    ||| n == 8232
    ||| n == 8233
    ||| n == 8239
    ||| n == 8287
    ||| n == 12288
}

/// A text is blank exactly where no character of it is anything but white space.
pub proof fn law_blank_is_white_space_alone(s: Seq<char>)
    ensures
        blank(s) <==> !exists|i: int|
            0 <= i < s.len() && !white_space_code(#[trigger] s[i] as int),
{
    assert forall|c: char| #[trigger] white_space(c) == white_space_code(c as int) by {}
    if blank(s) {
        assert forall|i: int| 0 <= i < s.len() implies white_space_code(#[trigger] s[i] as int) by {
            assert(white_space(s[i]));
        }
    } else {
        let i = choose|i: int| 0 <= i < s.len() && !white_space(#[trigger] s[i]);
        assert(!white_space_code(s[i] as int));
    }
}

/// The number that a numeral stands for.
pub open spec fn numeral_value(s: Seq<char>) -> int
    decreases s.len(),
{
    if s.len() == 0 {
        0
    } else {
        10 * numeral_value(s.drop_last()) + (s.last() as int - 48)
    }
}

/// The numeral of a number stands for that number. It is made of digits, and it starts with a
/// zero only where it is the numeral of zero.
pub proof fn law_numeral_stands_for_its_number(n: nat)
    ensures
        decimal(n).len() > 0,
        numeral_value(decimal(n)) == n,
        forall|i: int| 0 <= i < decimal(n).len() ==> 48 <= #[trigger] decimal(n)[i] as int <= 57,
        decimal(n)[0] == '0' <==> n == 0,
        n == 0 ==> decimal(n).len() == 1,
    decreases n,
{
    reveal_with_fuel(numeral_value, 2);
    if n < 10 {
        assert(decimal(n).drop_last() =~= Seq::empty());
    } else {
        law_numeral_stands_for_its_number(n / 10);
        assert(decimal(n).drop_last() =~= decimal(n / 10));
        assert(decimal(n)[0] == decimal(n / 10)[0]);
    }
}

/// The text of a string is its characters, and a list of strings has one text for each.
pub proof fn law_texts_are_the_strings(
    s: String,
    message: String,
    list: Seq<String>,
)
    ensures
        optional_text(Some(s)) == Some(s@),
        optional_text(None) is None,
        result_text(Ok(s)) == Ok::<Seq<char>, Seq<char>>(s@),
        result_text(Err(message)) == Err::<Seq<char>, Seq<char>>(message@),
        texts(list).len() == list.len(),
        forall|i: int| 0 <= i < list.len() ==> #[trigger] texts(list)[i] == list[i]@,
{
}

} // verus!
