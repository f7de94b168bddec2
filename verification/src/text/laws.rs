//! What holds of every text that is taken apart or put together.

use crate::text;
use vstd::prelude::*;

verus! {

proof fn trimming_the_start(s: Seq<char>) -> (n: int)
    ensures
        0 <= n <= s.len(),
        text::trim_start(s) == s.skip(n),
        forall|i: int| 0 <= i < n ==> text::is_space(#[trigger] s[i]),
        n < s.len() ==> !text::is_space(s[n]),
    decreases s.len(),
{
    if s.len() > 0 && text::is_space(s[0]) {
        let m = trimming_the_start(s.skip(1));
        assert(s.skip(1).skip(m) =~= s.skip(m + 1));
        assert forall|i: int| 0 <= i < m + 1 implies text::is_space(#[trigger] s[i]) by {
            if i > 0 {
                assert(s.skip(1)[i - 1] == s[i]);
            }
        }
        m + 1
    } else {
        assert(s.skip(0) =~= s);
        0
    }
}

proof fn trimming_the_end(s: Seq<char>) -> (n: int)
    ensures
        0 <= n <= s.len(),
        text::trim_end(s) == s.take(n),
        forall|i: int| n <= i < s.len() ==> text::is_space(#[trigger] s[i]),
        n > 0 ==> !text::is_space(s[n - 1]),
    decreases s.len(),
{
    if s.len() > 0 && text::is_space(s.last()) {
        let m = trimming_the_end(s.drop_last());
        assert(s.drop_last().take(m) =~= s.take(m));
        assert forall|i: int| m <= i < s.len() implies text::is_space(#[trigger] s[i]) by {
            if i < s.len() - 1 {
                assert(s.drop_last()[i] == s[i]);
            }
        }
        m
    } else {
        assert(s.take(s.len() as int) =~= s);
        s.len() as int
    }
}

/// Law: trimming takes away whitespace at either end and nothing else: what
/// is left stood in the text, all that stood around it is whitespace, and
/// it neither begins nor ends with any.
pub proof fn trimming_takes_only_whitespace(s: &str, r: String)
    requires
        call_ensures(text::trim, (s,), r),
    ensures
        exists|from: int, to: int|
            {
                &&& 0 <= from <= to <= s@.len()
                &&& r@ == #[trigger] s@.subrange(from, to)
                &&& forall|i: int| 0 <= i < from ==> text::is_space(#[trigger] s@[i])
                &&& forall|i: int| to <= i < s@.len() ==> text::is_space(#[trigger] s@[i])
            },
        r@.len() > 0 ==> !text::is_space(r@[0]) && !text::is_space(r@.last()),
{
    let from = trimming_the_start(s@);
    let rest = s@.skip(from);
    let n = trimming_the_end(rest);
    let to = from + n;
    assert(r@ =~= s@.subrange(from, to));
    assert forall|i: int| to <= i < s@.len() implies text::is_space(#[trigger] s@[i]) by {
        assert(rest[i - from] == s@[i]);
    }
    if r@.len() > 0 {
        assert(r@[0] == s@[from]);
        assert(r@.last() == rest[n - 1]);
    }
}

/// Law: a text that neither begins nor ends with whitespace is left as it
/// is.
pub proof fn what_is_trimmed_stays(s: &str, r: String)
    requires
        call_ensures(text::trim, (s,), r),
        s@.len() > 0 ==> !text::is_space(s@[0]) && !text::is_space(s@.last()),
    ensures
        r@ == s@,
{
    let from = trimming_the_start(s@);
    let n = trimming_the_end(s@.skip(from));
    if s@.len() > 0 {
        assert(from == 0);
        assert(s@.skip(0) =~= s@);
        assert(s@.take(s@.len() as int) =~= s@);
    }
}

/// Law: the tab, the line ends and the space are whitespace, and no letter,
/// digit or mark of punctuation is.
pub proof fn whitespace_is_what_it_is(c: char, r: bool)
    requires
        call_ensures(text::space, (c,), r),
    ensures
        c == ' ' || c == '\t' || c == '\n' || c == '\r' ==> r,
        '!' as int <= c as int <= '~' as int ==> !r,
{
}

/// Law: a text is split at the first of a character: what comes before it
/// has none, and put back together with it the two are the text.
pub proof fn a_text_is_split_at_the_first(s: &str, c: char, r: Option<(String, String)>)
    requires
        call_ensures(text::split_once, (s, c), r),
    ensures
        r is None <==> !s@.contains(c),
        r is Some ==> {
            let (head, tail) = r->0;
            &&& s@ == head@ + seq![c] + tail@
            &&& !head@.contains(c)
        },
{
    text::first_of_goes_on(s@, c, 0);
    let at = text::first_of(s@, c) as int;
    if r is Some {
        let (head, tail) = r->0;
        assert(s@ =~= head@ + seq![c] + tail@);
        assert(s@.contains(s@[at]));
        assert forall|i: int| 0 <= i < head@.len() implies head@[i] != c by {
            assert(head@[i] == s@[i]);
        }
    } else {
        assert forall|i: int| 0 <= i < s@.len() implies s@[i] != c by {}
    }
}

/// Law: a prefix is stripped just where the text begins with it, and what
/// is left is the rest.
pub proof fn a_prefix_is_stripped_where_it_stands(s: &str, prefix: &str, r: Option<String>)
    requires
        call_ensures(text::strip_prefix, (s, prefix), r),
    ensures
        r is Some ==> s@ == prefix@ + (r->0)@,
        r is None ==> forall|rest: Seq<char>| s@ != prefix@ + rest,
{
    let n = prefix@.len() as int;
    if r is Some {
        assert(s@ =~= s@.take(n) + s@.skip(n));
    } else {
        assert forall|rest: Seq<char>| s@ != prefix@ + rest by {
            assert((prefix@ + rest).take(n) =~= prefix@);
        }
    }
}

/// Law: a text starts with a prefix just where it is the prefix and a rest,
/// and holds another just where it stands somewhere in it.
pub proof fn what_a_text_holds_stands_in_it(
    s: &str,
    needle: &str,
    starts: bool,
    holds: bool,
)
    requires
        call_ensures(text::starts_with, (s, needle), starts),
        call_ensures(text::contains, (s, needle), holds),
    ensures
        starts <==> exists|rest: Seq<char>| s@ == #[trigger] (needle@ + rest),
        holds <==> exists|front: Seq<char>, rest: Seq<char>|
            s@ == #[trigger] (front + needle@ + rest),
{
    let n = needle@.len() as int;
    if starts {
        assert(s@ =~= needle@ + s@.skip(n));
    }
    if exists|rest: Seq<char>| s@ == #[trigger] (needle@ + rest) {
        let rest = choose|rest: Seq<char>| s@ == #[trigger] (needle@ + rest);
        assert(s@.take(n) =~= needle@);
    }
    if holds {
        let at = choose|at: int| #[trigger] text::stands_at(s@, needle@, at);
        assert(s@ =~= s@.take(at) + needle@ + s@.skip(at + n)) by {
            assert(s@.subrange(at, at + n) == needle@);
            assert forall|i: int| at <= i < at + n implies s@[i] == needle@[i - at] by {
                assert(s@.subrange(at, at + n)[i - at] == s@[i]);
            }
        }
    }
    if exists|front: Seq<char>, rest: Seq<char>| s@ == #[trigger] (front + needle@ + rest) {
        let (front, rest) = choose|front: Seq<char>, rest: Seq<char>|
            s@ == #[trigger] (front + needle@ + rest);
        let at = front.len() as int;
        assert(s@.subrange(at, at + n) =~= needle@);
        assert(text::stands_at(s@, needle@, at));
    }
}

/// Law: texts are joined in their order with the separator between each
/// two: the first alone where there is one, and else the first, the
/// separator, and the others joined.
pub proof fn texts_are_joined_in_order(parts: &Vec<String>, separator: &str, r: String)
    requires
        call_ensures(text::joined, (parts, separator), r),
    ensures
        parts@.len() == 0 ==> r@.len() == 0,
        parts@.len() == 1 ==> r@ == parts@[0]@,
        parts@.len() == 2 ==> r@ == parts@[0]@ + separator@ + parts@[1]@,
        parts@.len() > 1 ==> r@ == parts@[0]@ + separator@ + text::join(
            text::views(parts@).skip(1),
            separator@,
        ),
{
    let all = text::views(parts@);
    assert(all.len() == parts@.len());
    if all.len() > 0 {
        assert(all[0] == parts@[0]@);
    }
    if all.len() > 1 {
        joining_from_the_front(all, separator@);
    }
    if all.len() == 2 {
        assert(all[1] == parts@[1]@);
        assert(all.skip(1)[0] == all[1]);
    }
}

proof fn joining_from_the_front(all: Seq<Seq<char>>, separator: Seq<char>)
    requires
        all.len() > 1,
    ensures
        text::join(all, separator) == all[0] + separator + text::join(all.skip(1), separator),
    decreases all.len(),
{
    let rest = all.skip(1);
    if all.len() == 2 {
        assert(all.drop_last()[0] == all[0]);
        assert(rest[0] == all.last());
        reveal_with_fuel(text::join, 2);
    } else {
        joining_from_the_front(all.drop_last(), separator);
        assert(all.drop_last().skip(1) =~= rest.drop_last());
        assert(rest.last() == all.last());
        assert(text::join(all, separator) =~= all[0] + separator + text::join(rest, separator));
    }
}

/// Law: a text is cut into lines at its newlines: what comes before the
/// first is the first line, without a carriage return that ends it, and the
/// lines of the rest follow.
pub proof fn a_text_is_cut_at_its_newlines(first: Seq<char>, rest: Seq<char>)
    requires
        !first.contains('\n'),
        first.len() > 0 ==> first.last() != '\r',
    ensures
        text::lines(first + seq!['\n'] + rest) == seq![first] + text::lines(rest),
        text::lines(first + seq!['\r', '\n'] + rest) == seq![first] + text::lines(rest),
        first.len() > 0 ==> text::lines(first) == seq![first],
        text::lines(Seq::empty()) == Seq::<Seq<char>>::empty(),
{
    let n = first.len() as int;
    let whole = first + seq!['\n'] + rest;
    assert(whole[n] == '\n');
    assert forall|i: int| 0 <= i < n implies #[trigger] whole[i] != '\n' by {
        assert(whole[i] == first[i]);
        assert(first.contains(first[i]));
    }
    text::found_first(whole, '\n', n);
    assert(whole.take(n) =~= first);
    assert(whole.skip(n + 1) =~= rest);
    let other = first + seq!['\r', '\n'] + rest;
    assert(other[n] == '\r');
    assert(other[n + 1] == '\n');
    assert forall|i: int| 0 <= i < n + 1 implies #[trigger] other[i] != '\n' by {
        if i < n {
            assert(other[i] == first[i]);
            assert(first.contains(first[i]));
        }
    }
    text::found_first(other, '\n', n + 1);
    assert(other.take(n + 1) =~= first.push('\r'));
    assert(first.push('\r').drop_last() =~= first);
    assert(other.skip(n + 2) =~= rest);
    if n > 0 {
        assert forall|k: int| 0 <= k < n implies first[k] != '\n' by {
            assert(first.contains(first[k]));
        }
        text::first_of_goes_on(first, '\n', n);
    }
}

/// Law: the lines of a text are those its lines are.
pub proof fn lines_are_read_as_they_are(s: &str, r: Vec<String>, k: int)
    requires
        call_ensures(text::lines_of, (s,), r),
    ensures
        r@.len() == text::lines(s@).len(),
        0 <= k < r@.len() ==> r@[k]@ == text::lines(s@)[k],
{
    assert(text::views(r@).len() == r@.len());
    if 0 <= k < r@.len() {
        assert(text::views(r@)[k] == r@[k]@);
    }
}

/// Law: a number is spelled in decimal and read back as itself, and no two
/// are spelled alike.
pub proof fn a_number_reads_back(n: u64, other: u64, s: String, t: String, spelled: &str,
    r: Option<u64>)
    requires
        call_ensures(text::number, (n,), s),
        call_ensures(text::number, (other,), t),
        spelled@ == s@,
        call_ensures(text::parse_number, (spelled, u64::MAX), r),
    ensures
        r == Some(n),
        s@ == t@ ==> n == other,
        n < 10 ==> s@.len() == 1,
{
    text::decimal_reads_back(n as nat, u64::MAX as nat);
    if s@ == t@ {
        text::decimal_is_injective(n as nat, other as nat);
    }
}

/// Law: what is read as a number is made of digits, after a plus or none,
/// and is never past the bound.
pub proof fn only_digits_are_a_number(s: &str, most: u64, r: Option<u64>)
    requires
        call_ensures(text::parse_number, (s, most), r),
        r is Some,
    ensures
        r->0 <= most,
        s@.len() > 0,
        forall|i: int|
            0 <= i < s@.len() ==> '0' as int <= (#[trigger] s@[i]) as int <= '9' as int || (i == 0
                && s@[0] == '+'),
{
    let digits = if s@.len() > 0 && s@[0] == '+' {
        s@.skip(1)
    } else {
        s@
    };
    assert forall|i: int| 0 <= i < s@.len() implies '0' as int <= (#[trigger] s@[i]) as int
        <= '9' as int || (i == 0 && s@[0] == '+') by {
        if s@[0] == '+' {
            if i > 0 {
                assert(digits[i - 1] == s@[i]);
                assert(text::is_digit(digits[i - 1]));
            }
        } else {
            assert(text::is_digit(digits[i]));
        }
    }
}

/// Law: a number is padded with noughts up to its width, and never cut.
pub proof fn a_number_is_padded_with_noughts(n: u64, width: usize, r: String, plain: String)
    requires
        call_ensures(text::zero_padded, (n, width), r),
        call_ensures(text::number, (n,), plain),
    ensures
        plain@.len() >= width ==> r@ == plain@,
        plain@.len() < width ==> r@.len() == width && r@.skip(width - plain@.len()) == plain@
            && forall|i: int| 0 <= i < width - plain@.len() ==> r@[i] == '0',
{
    if plain@.len() < width {
        assert(r@.skip(width - plain@.len()) =~= plain@);
    }
}

/// Law: a number below zero is spelled with a minus and then as it is above
/// it.
pub proof fn a_sign_goes_before_the_number(n: i32, r: String)
    requires
        call_ensures(text::signed, (n,), r),
    ensures
        n >= 0 ==> r@ == text::decimal(n as nat),
        n < 0 ==> r@ == "-"@ + text::decimal((-(n as int)) as nat),
{
}

/// Law: one text goes before another just when they agree up to some place
/// and there either the first ends or its character is the lesser.
pub proof fn texts_are_ordered_by_their_characters(
    common: Seq<char>,
    a: char,
    b: char,
    rest: Seq<char>,
    other: Seq<char>,
)
    ensures
        (a as int) < (b as int) ==> text::before(
            common + seq![a] + rest,
            common + seq![b] + other,
        ),
        text::before(common, common + seq![b] + other),
        !text::before(common, common),
    decreases common.len(),
{
    let x = common + seq![a] + rest;
    let y = common + seq![b] + other;
    text::before_is_irreflexive(common);
    if common.len() > 0 {
        texts_are_ordered_by_their_characters(common.skip(1), a, b, rest, other);
        assert(x.skip(1) =~= common.skip(1) + seq![a] + rest);
        assert(y.skip(1) =~= common.skip(1) + seq![b] + other);
        assert(x[0] == common[0] && y[0] == common[0]);
    } else {
        assert(x[0] == a && y[0] == b);
    }
}

/// Law: one character is stripped from an end just where it stands there,
/// and only one.
pub proof fn one_character_is_stripped(s: &str, c: char, last: String, first: String)
    requires
        call_ensures(text::strip_last, (s, c), last),
        call_ensures(text::strip_first, (s, c), first),
    ensures
        s@.len() > 0 && s@.last() == c ==> s@ == last@.push(c),
        !(s@.len() > 0 && s@.last() == c) ==> last@ == s@,
        s@.len() > 0 && s@[0] == c ==> s@ == seq![c] + first@,
        !(s@.len() > 0 && s@[0] == c) ==> first@ == s@,
{
    if s@.len() > 0 && s@.last() == c {
        assert(s@ =~= last@.push(c));
    }
    if s@.len() > 0 && s@[0] == c {
        assert(s@ =~= seq![c] + first@);
    }
}

/// Law: two characters are put as a third wherever they stand, and every
/// other stays in its place.
pub proof fn characters_are_replaced_in_place(
    s: &str,
    a: char,
    b: char,
    by: char,
    r: String,
    i: int,
)
    requires
        call_ensures(text::replace_either, (s, a, b, by), r),
    ensures
        r@.len() == s@.len(),
        0 <= i < s@.len() && (s@[i] == a || s@[i] == b) ==> r@[i] == by,
        0 <= i < s@.len() && s@[i] != a && s@[i] != b ==> r@[i] == s@[i],
{
}

/// Law: a character is stripped from the end as often as it stands there,
/// and nothing else is.
pub proof fn an_end_is_stripped_of_its_character(s: &str, c: char, r: String)
    requires
        call_ensures(text::trim_end_matches, (s, c), r),
    ensures
        r@.len() <= s@.len(),
        r@ == s@.take(r@.len() as int),
        forall|i: int| r@.len() <= i < s@.len() ==> s@[i] == c,
        r@.len() > 0 ==> r@.last() != c,
{
    stripping_the_end(s@, c);
}

proof fn stripping_the_end(s: Seq<char>, c: char)
    ensures
        ({
            let left = text::trim_end_of(s, c);
            &&& left.len() <= s.len()
            &&& left == s.take(left.len() as int)
            &&& forall|i: int| left.len() <= i < s.len() ==> s[i] == c
            &&& left.len() > 0 ==> left.last() != c
        }),
    decreases s.len(),
{
    if s.len() > 0 && s.last() == c {
        let front = s.drop_last();
        stripping_the_end(front, c);
        let left = text::trim_end_of(front, c);
        assert(front.take(left.len() as int) =~= s.take(left.len() as int));
        assert forall|i: int| left.len() <= i < s.len() implies s[i] == c by {
            if i < s.len() - 1 {
                assert(front[i] == s[i]);
            }
        }
    } else {
        assert(s.take(s.len() as int) =~= s);
    }
}

/// Law: of two texts one goes before the other just when they differ, and
/// never both.
pub proof fn texts_are_in_one_order(a: &str, b: &str, first: bool, second: bool)
    requires
        call_ensures(text::precedes, (a, b), first),
        call_ensures(text::precedes, (b, a), second),
    ensures
        first || second <==> a@ != b@,
        !(first && second),
{
    text::before_is_total(a@, b@);
    text::before_is_irreflexive(a@);
    if first && second {
        text::before_is_transitive(a@, b@, a@);
    }
}

} // verus!
