//! Plain text: lists of strings as values, decimal numerals and blank-separated words.
use vstd::prelude::*;

verus! {

/// The texts held by a list of strings.
pub open spec fn texts(strings: Seq<String>) -> Seq<Seq<char>> {
    strings.map_values(|s: String| s@)
}

/// The text held by an optional string.
pub open spec fn text_of(string: Option<String>) -> Option<Seq<char>> {
    match string {
        Some(s) => Some(s@),
        None => None,
    }
}

/// The character that stands for a decimal digit.
pub open spec fn digit(d: nat) -> char {
    (d + '0' as nat) as char
}

/// The decimal numeral of a number, without leading zeros.
pub open spec fn decimal(n: nat) -> Seq<char>
    decreases n,
{
    if n < 10 {
        seq![digit(n)]
    } else {
        decimal(n / 10).push(digit(n % 10))
    }
}

/// Whether a character is ASCII white space: space, tab, line feed, form feed or carriage return.
pub open spec fn is_blank(c: char) -> bool {
    c == ' ' || c == '\t' || c == '\n' || c == '\x0C' || c == '\r'
}

/// The length of the longest prefix without white space.
pub open spec fn word_len(s: Seq<char>) -> nat
    decreases s.len(),
{
    if s.len() == 0 || is_blank(s[0]) {
        0
    } else {
        1 + word_len(s.skip(1))
    }
}

/// The words of a text: its maximal runs of characters that are not white space, in order.
pub open spec fn words(s: Seq<char>) -> Seq<Seq<char>>
    decreases s.len(),
{
    if s.len() == 0 {
        seq![]
    } else if is_blank(s[0]) {
        words(s.skip(1))
    } else {
        proof {
            lemma_word_len_bound(s);
        }
        seq![s.take(word_len(s) as int)] + words(s.skip(word_len(s) as int))
    }
}

/// A character with an ASCII capital replaced by its small letter.
pub open spec fn lower(c: char) -> char {
    if 'A' <= c <= 'Z' {
        (c as nat + 32) as char
    } else {
        c
    }
}

/// A text with every ASCII capital replaced by its small letter.
pub open spec fn lowercase(s: Seq<char>) -> Seq<char> {
    s.map_values(|c: char| lower(c))
}

/// A word is no longer than the text that it starts.
pub proof fn lemma_word_len_bound(s: Seq<char>)
    ensures
        word_len(s) <= s.len(),
    decreases s.len(),
{
    if s.len() != 0 && !is_blank(s[0]) {
        lemma_word_len_bound(s.skip(1));
    }
}

/// A word that goes on for `n` characters and stops there has that length.
proof fn lemma_word_len(s: Seq<char>, n: nat)
    requires
        n <= s.len(),
        forall|i: int| 0 <= i < n ==> !is_blank(#[trigger] s[i]),
        n < s.len() ==> is_blank(s[n as int]),
    ensures
        word_len(s) == n,
    decreases n,
{
    if n > 0 {
        let rest = s.skip(1);
        assert forall|i: int| 0 <= i < n - 1 implies !is_blank(#[trigger] rest[i]) by {
            assert(rest[i] == s[i + 1]);
        }
        lemma_word_len(rest, (n - 1) as nat);
    }
}

/// The numeral of a digit.
fn digit_text(d: usize) -> (text: &'static str)
    requires
        d < 10,
    ensures
        text@ == seq![digit(d as nat)],
{
    proof {
        reveal_strlit("0");
        reveal_strlit("1");
        reveal_strlit("2");
        reveal_strlit("3");
        reveal_strlit("4");
        reveal_strlit("5");
        reveal_strlit("6");
        reveal_strlit("7");
        reveal_strlit("8");
        reveal_strlit("9");
    }
    match d {
        0 => "0",
        1 => "1",
        2 => "2",
        3 => "3",
        4 => "4",
        5 => "5",
        6 => "6",
        7 => "7",
        8 => "8",
        _ => "9",
    }
}

/// The decimal numeral of `n`.
pub fn decimal_text(n: usize) -> (text: String)
    ensures
        text@ == decimal(n as nat),
    decreases n,
{
    if n < 10 {
        digit_text(n).to_owned()
    } else {
        let mut text = decimal_text(n / 10);
        let ghost front = text@;
        text.append(digit_text(n % 10));
        assert(text@ =~= front.push(digit(n as nat % 10)));
        text
    }
}

/// Whether `c` is ASCII white space.
fn blank(c: char) -> (b: bool)
    ensures
        b == is_blank(c),
{
    c == ' ' || c == '\t' || c == '\n' || c == '\x0C' || c == '\r'
}

/// Splits `s` into its words.
pub fn split_words(s: &str) -> (list: Vec<String>)
    ensures
        texts(list@) == words(s@),
{
    let len: usize = s.unicode_len();
    let mut list: Vec<String> = Vec::new();
    let mut i: usize = 0;
    assert(s@.skip(0) =~= s@);
    assert(texts(list@) + words(s@) =~= words(s@));
    while i < len
        invariant
            len == s@.len(),
            i <= len,
            texts(list@) + words(s@.skip(i as int)) == words(s@),
        decreases len - i,
    {
        let ghost rest = s@.skip(i as int);
        if blank(s.get_char(i)) {
            assert(rest[0] == s@[i as int]);
            i = i + 1;
            assert(rest.skip(1) =~= s@.skip(i as int));
        } else {
            let mut end: usize = i + 1;
            while end < len && !blank(s.get_char(end))
                invariant
                    len == s@.len(),
                    i < end <= len,
                    forall|k: int| i <= k < end ==> !is_blank(#[trigger] s@[k]),
                decreases len - end,
            {
                end = end + 1;
            }
            let word = s.substring_char(i, end).to_owned();
            proof {
                let n = (end - i) as nat;
                assert forall|k: int| 0 <= k < n implies !is_blank(#[trigger] rest[k]) by {
                    assert(rest[k] == s@[i + k]);
                }
                lemma_word_len(rest, n);
                assert(rest[0] == s@[i as int]);
                assert(word@ =~= rest.take(n as int));
                assert(rest.skip(n as int) =~= s@.skip(end as int));
                assert(words(rest) == seq![word@] + words(s@.skip(end as int)));
                assert(texts(list@.push(word)) =~= texts(list@) + seq![word@]);
                assert(texts(list@.push(word)) + words(s@.skip(end as int)) =~= texts(list@) + (
                seq![word@] + words(s@.skip(end as int))));
            }
            list.push(word);
            i = end;
        }
    }
    assert(s@.skip(i as int) =~= Seq::<char>::empty());
    assert(texts(list@) + words(Seq::<char>::empty()) =~= texts(list@));
    list
}

/// Whether `s` is the word "false" in small or capital letters.
pub fn spells_false(s: &str) -> (b: bool)
    ensures
        b == (lowercase(s@) == "false"@),
{
    proof {
        reveal_strlit("false");
    }
    let ghost small = lowercase(s@);
    if s.unicode_len() != 5 {
        assert(small.len() != "false"@.len());
        return false;
    }
    let f = s.get_char(0);
    let a = s.get_char(1);
    let l = s.get_char(2);
    let t = s.get_char(3);
    let e = s.get_char(4);
    let b = (f == 'f' || f == 'F') && (a == 'a' || a == 'A') && (l == 'l' || l == 'L') && (t == 's'
        || t == 'S') && (e == 'e' || e == 'E');
    assert(small[0] == lower(f) && small[1] == lower(a) && small[2] == lower(l) && small[3]
        == lower(t) && small[4] == lower(e));
    if b {
        assert(small =~= "false"@);
    } else {
        assert("false"@[0] == 'f' && "false"@[1] == 'a' && "false"@[2] == 'l' && "false"@[3] == 's'
            && "false"@[4] == 'e');
    }
    b
}

/// A copy of a list of strings.
pub fn copy_strings(list: &Vec<String>) -> (copy: Vec<String>)
    ensures
        texts(copy@) == texts(list@),
{
    let mut copy: Vec<String> = Vec::new();
    let mut i: usize = 0;
    while i < list.len()
        invariant
            i <= list.len(),
            copy@ == list@.take(i as int),
        decreases list.len() - i,
    {
        copy.push(list[i].clone());
        i = i + 1;
        assert(list@.take(i as int) =~= list@.take(i - 1).push(list@[i - 1]));
    }
    assert(list@.take(i as int) =~= list@);
    copy
}

/// A copy of an optional string.
pub fn copy_option(string: &Option<String>) -> (copy: Option<String>)
    ensures
        copy == *string,
{
    match string {
        Some(s) => Some(s.clone()),
        None => None,
    }
}

/// Whether `list` holds the text of `s`.
pub fn contains_text(list: &Vec<String>, s: &String) -> (found: bool)
    ensures
        found == texts(list@).contains(s@),
{
    let mut i: usize = 0;
    while i < list.len()
        invariant
            i <= list.len(),
            forall|k: int| 0 <= k < i ==> #[trigger] list@[k]@ != s@,
        decreases list.len() - i,
    {
        if list[i] == *s {
            assert(texts(list@)[i as int] == s@);
            return true;
        }
        i = i + 1;
    }
    assert forall|k: int| 0 <= k < texts(list@).len() implies #[trigger] texts(list@)[k] != s@ by {
        assert(texts(list@)[k] == list@[k]@);
    }
    false
}

/// `before`, `middle` and `after` in a row.
pub fn join(before: &str, middle: &str, after: &str) -> (text: String)
    ensures
        text@ == before@ + middle@ + after@,
{
    let mut text = before.to_owned();
    text.append(middle);
    text.append(after);
    text
}

/// The characters of a word are not white space.
proof fn lemma_word_has_no_blanks(s: Seq<char>, i: int)
    requires
        0 <= i < word_len(s),
    ensures
        i < s.len(),
        !is_blank(s[i]),
    decreases s.len(),
{
    lemma_word_len_bound(s);
    if i > 0 {
        lemma_word_has_no_blanks(s.skip(1), i - 1);
    }
}

/// Every word is a text of one or more characters without white space, and the words in a row are
/// the whole text without its white space.
pub proof fn law_words_leave_out_only_blanks(s: Seq<char>)
    ensures
        forall|i: int, k: int|
            0 <= i < words(s).len() && 0 <= k < words(s)[i].len() ==> !is_blank(
                #[trigger] words(s)[i][k],
            ),
        forall|i: int| 0 <= i < words(s).len() ==> (#[trigger] words(s)[i]).len() > 0,
        words(s).flatten() == s.filter(|c: char| !is_blank(c)),
    decreases s.len(),
{
    let solid = |c: char| !is_blank(c);
    if s.len() == 0 {
        reveal(Seq::filter);
    } else {
        let n: int = if is_blank(s[0]) {
            1
        } else {
            word_len(s) as int
        };
        lemma_word_len_bound(s);
        let (head, rest) = (s.take(n), s.skip(n));
        law_words_leave_out_only_blanks(rest);
        assert(s =~= head + rest);
        Seq::filter_distributes_over_add(head, rest, solid);
        if is_blank(s[0]) {
            assert(head.filter(solid) =~= Seq::<char>::empty()) by {
                reveal_with_fuel(Seq::filter, 2);
                assert(!solid(head.last()));
            }
        } else {
            assert forall|k: int| 0 <= k < head.len() implies solid(#[trigger] head[k]) by {
                lemma_word_has_no_blanks(s, k);
            }
            lemma_filter_all(head, solid);
            assert(words(s).first() == head);
            assert(words(s).drop_first() =~= words(rest));
            assert forall|i: int, k: int|
                0 <= i < words(s).len() && 0 <= k < words(s)[i].len() implies !is_blank(
                #[trigger] words(s)[i][k],
            ) by {
                if i > 0 {
                    assert(words(s)[i] == words(rest)[i - 1]);
                    assert(!is_blank(words(rest)[i - 1][k]));
                } else {
                    assert(solid(head[k]));
                }
            }
            assert forall|i: int| 0 <= i < words(s).len() implies (#[trigger] words(s)[i]).len()
                > 0 by {
                if i > 0 {
                    assert(words(s)[i] == words(rest)[i - 1]);
                }
            }
        }
    }
}

/// A filter that takes everything changes nothing.
proof fn lemma_filter_all(s: Seq<char>, pred: spec_fn(char) -> bool)
    requires
        forall|i: int| 0 <= i < s.len() ==> pred(#[trigger] s[i]),
    ensures
        s.filter(pred) == s,
    decreases s.len(),
{
    reveal(Seq::filter);
    if s.len() > 0 {
        lemma_filter_all(s.drop_last(), pred);
        assert(s.drop_last().push(s.last()) =~= s);
        assert(pred(s[s.len() - 1]));
    } else {
        assert(s.filter(pred) =~= s);
    }
}

/// The number that a row of decimal digits stands for.
pub open spec fn number_of(digits: Seq<char>) -> int
    decreases digits.len(),
{
    if digits.len() == 0 {
        0
    } else {
        number_of(digits.drop_last()) * 10 + (digits.last() as int - 48)
    }
}

/// A numeral is a row of decimal digits that stands for its number, without a zero in front.
pub proof fn law_numerals_stand_for_their_number(n: nat)
    ensures
        decimal(n).len() > 0,
        forall|i: int| 0 <= i < decimal(n).len() ==> '0' <= #[trigger] decimal(n)[i] <= '9',
        number_of(decimal(n)) == n,
        decimal(n).len() > 1 ==> decimal(n)[0] != '0',
        n == 0 ==> decimal(n) == seq!['0'],
    decreases n,
{
    reveal_with_fuel(number_of, 2);
    if n >= 10 {
        law_numerals_stand_for_their_number(n / 10);
        let front = decimal(n / 10);
        assert(decimal(n).drop_last() =~= front);
        assert forall|i: int| 0 <= i < decimal(n).len() implies '0' <= #[trigger] decimal(n)[i]
            <= '9' by {
            if i < front.len() {
                assert(decimal(n)[i] == front[i]);
            }
        }
        if front.len() == 1 && front[0] == '0' {
            assert(front.drop_last() =~= seq![]);
            assert(number_of(front) == 0);
        }
    } else {
        assert(decimal(n).drop_last() =~= seq![]);
    }
}

/// What separates words: the space, the tab, the line feed, the form feed and the carriage return.
pub proof fn law_what_separates_words(c: char)
    ensures
        is_blank(c) <==> c as int == 32 || c as int == 9 || c as int == 10 || c as int == 12
            || c as int == 13,
{
}

/// A text without white space is one word.
pub proof fn law_solid_text_is_one_word(s: Seq<char>)
    requires
        s.len() > 0,
        forall|i: int| 0 <= i < s.len() ==> !is_blank(#[trigger] s[i]),
    ensures
        words(s) == seq![s],
{
    lemma_word_len(s, s.len());
    assert(!is_blank(s[0]));
    assert(s.take(s.len() as int) =~= s);
    assert(words(s.skip(s.len() as int)) =~= seq![]);
    assert(words(s) =~= seq![s]);
}

/// White space anywhere separates the words before it from those after it, and is itself none.
pub proof fn law_white_space_separates_words(before: Seq<char>, c: char, after: Seq<char>)
    requires
        is_blank(c),
    ensures
        words(before.push(c) + after) == words(before) + words(after),
        words(seq![]).len() == 0,
    decreases before.len(),
{
    let s = before.push(c) + after;
    if before.len() == 0 {
        assert(s.skip(1) =~= after);
        assert(words(before) + words(after) =~= words(after));
    } else if is_blank(before[0]) {
        assert(s[0] == before[0]);
        assert(s.skip(1) =~= before.skip(1).push(c) + after);
        law_white_space_separates_words(before.skip(1), c, after);
    } else {
        let n = word_len(before);
        lemma_word_len_bound(before);
        assert forall|i: int| 0 <= i < n implies !is_blank(#[trigger] s[i]) by {
            lemma_word_has_no_blanks(before, i);
            assert(s[i] == before[i]);
        }
        lemma_word_ends(before);
        assert(s[n as int] == if n < before.len() {
            before[n as int]
        } else {
            c
        });
        lemma_word_len(s, n);
        assert(s[0] == before[0]);
        assert(s.take(n as int) =~= before.take(n as int));
        assert(s.skip(n as int) =~= before.skip(n as int).push(c) + after);
        law_white_space_separates_words(before.skip(n as int), c, after);
        let first = seq![before.take(n as int)];
        let rest = words(before.skip(n as int));
        assert(first + (rest + words(after)) =~= (first + rest) + words(after));
    }
}

/// A word goes on to the end of the text or to white space.
proof fn lemma_word_ends(s: Seq<char>)
    ensures
        word_len(s) < s.len() ==> is_blank(s[word_len(s) as int]),
        word_len(s) <= s.len(),
    decreases s.len(),
{
    lemma_word_len_bound(s);
    if s.len() != 0 && !is_blank(s[0]) {
        lemma_word_ends(s.skip(1));
    }
}

/// Strings are seen as the texts that they hold, in order.
pub proof fn law_strings_are_seen_whole(strings: Seq<String>, string: Option<String>)
    ensures
        texts(strings).len() == strings.len(),
        forall|i: int| 0 <= i < strings.len() ==> #[trigger] texts(strings)[i] == strings[i]@,
        match string {
            Some(s) => text_of(string) == Some(s@),
            None => text_of(string) is None,
        },
{
}

} // verus!
