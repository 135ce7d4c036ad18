//! Character sequences: cutting a text at a delimiter, looking for a text in
//! another one, and writing a number in decimal.

use vstd::prelude::*;
use vstd::string::*;

verus! {

/// The text before the first `d`, or the whole text where `d` does not occur.
pub open spec fn before(s: Seq<char>, d: char) -> Seq<char>
    decreases s.len(),
{
    if s.len() == 0 || s[0] == d {
        Seq::empty()
    } else {
        seq![s[0]] + before(s.drop_first(), d)
    }
}

/// The text after the first `d`, where there is one.
pub open spec fn after(s: Seq<char>, d: char) -> Option<Seq<char>> {
    if s.contains(d) {
        Some(s.skip(before(s, d).len() as int + 1))
    } else {
        None
    }
}

/// The pieces of a text between the occurrences of `d`. There is always one more
/// piece than there are occurrences, so the empty text has one empty piece.
pub open spec fn pieces(s: Seq<char>, d: char) -> Seq<Seq<char>>
    decreases s.len(),
{
    if s.len() == 0 {
        seq![Seq::empty()]
    } else {
        let front = pieces(s.drop_last(), d);
        if s.last() == d {
            front.push(Seq::empty())
        } else {
            front.update(front.len() - 1, front.last().push(s.last()))
        }
    }
}

/// The pieces written one after the other with `d` between them.
pub open spec fn joined(parts: Seq<Seq<char>>, d: char) -> Seq<char>
    decreases parts.len(),
{
    if parts.len() == 0 {
        Seq::empty()
    } else if parts.len() == 1 {
        parts[0]
    } else {
        joined(parts.drop_last(), d).push(d) + parts.last()
    }
}

/// `p` occurs in `s` at the index `i`.
pub open spec fn occurs_at(s: Seq<char>, p: Seq<char>, i: int) -> bool {
    0 <= i && i + p.len() <= s.len() && s.subrange(i, i + p.len()) == p
}

/// `p` occurs somewhere in `s`.
pub open spec fn occurs_in(s: Seq<char>, p: Seq<char>) -> bool {
    exists|i: int| occurs_at(s, p, i)
}

/// The lower case form of an ASCII letter; every other character as it is.
pub open spec fn lower_char(c: char) -> char {
    if 'A' <= c && c <= 'Z' {
        (c as int + 32) as char
    } else {
        c
    }
}

/// A text with its ASCII letters in lower case.
pub open spec fn lower(s: Seq<char>) -> Seq<char> {
    s.map_values(|c: char| lower_char(c))
}

/// The character that stands for one decimal digit.
pub open spec fn digit(d: nat) -> char {
    (48 + d) as char
}

/// A number in decimal, without leading zeros.
pub open spec fn decimal(n: nat) -> Seq<char>
    decreases n,
{
    if n < 10 {
        seq![digit(n)]
    } else {
        decimal(n / 10).push(digit(n % 10))
    }
}

/// The contents of a list of strings.
pub open spec fn texts(v: Seq<String>) -> Seq<Seq<char>> {
    v.map_values(|x: String| x@)
}

/// Where the characters before the index `i` are free of `d`, and `d` stands at
/// `i` or the text ends there, the text before the first `d` ends at `i`.
proof fn lemma_before(s: Seq<char>, d: char, i: int)
    requires
        0 <= i <= s.len(),
        forall|j: int| 0 <= j < i ==> s[j] != d,
        i == s.len() || s[i] == d,
    ensures
        before(s, d) == s.take(i),
        i == s.len() ==> !s.contains(d),
    decreases i,
{
    if i == 0 {
        assert(s.take(0) =~= Seq::empty());
    } else {
        let rest = s.drop_first();
        assert forall|j: int| 0 <= j < i - 1 implies rest[j] != d by {
            assert(rest[j] == s[j + 1]);
        }
        lemma_before(rest, d, i - 1);
        assert(s.take(i) =~= seq![s[0]] + rest.take(i - 1));
    }
}

/// Cutting a text at the first `d` loses nothing: what stands before it, `d` and
/// what stands after it are the text again.
pub proof fn law_cut_restores(s: Seq<char>, d: char)
    ensures
        match after(s, d) {
            Some(rest) => before(s, d).push(d) + rest == s,
            None => before(s, d) == s,
        },
        !before(s, d).contains(d),
    decreases s.len(),
{
    if s.len() > 0 && s[0] != d {
        let rest = s.drop_first();
        law_cut_restores(rest, d);
        assert(s =~= seq![s[0]] + rest);
        if s.contains(d) {
            let i = choose|i: int| 0 <= i < s.len() && s[i] == d;
            assert(rest[i - 1] == d);
            assert(rest.contains(d));
            let tail = rest.skip(before(rest, d).len() as int + 1);
            assert(before(rest, d).push(d) + tail == rest);
            assert(s.skip(before(s, d).len() as int + 1) =~= tail);
            assert(before(s, d).push(d) + tail =~= s);
        } else {
            assert forall|j: int| 0 <= j < rest.len() implies rest[j] != d by {
                assert(rest[j] == s[j + 1]);
            }
            assert(!rest.contains(d));
            assert(before(s, d) =~= s);
        }
        assert forall|j: int| 0 <= j < before(s, d).len() implies before(s, d)[j] != d by {
            if j > 0 {
                assert(before(s, d)[j] == before(rest, d)[j - 1]);
            }
        }
    } else if s.len() > 0 {
        assert(s.contains(d));
        assert(before(s, d).push(d) + s.skip(1) =~= s);
    } else {
        assert(before(s, d) =~= s);
    }
}

/// A text has at least one piece.
proof fn lemma_pieces_nonempty(s: Seq<char>, d: char)
    ensures
        pieces(s, d).len() > 0,
    decreases s.len(),
{
    if s.len() > 0 {
        lemma_pieces_nonempty(s.drop_last(), d);
    }
}

/// The pieces of a text are free of the delimiter, and written out with the
/// delimiter between them they are the text again.
pub proof fn law_pieces_restore(s: Seq<char>, d: char)
    ensures
        pieces(s, d).len() > 0,
        joined(pieces(s, d), d) == s,
        forall|i: int|
            #![trigger pieces(s, d)[i]]
            0 <= i < pieces(s, d).len() ==> !pieces(s, d)[i].contains(d),
    decreases s.len(),
{
    if s.len() > 0 {
        let body = s.drop_last();
        let front = pieces(body, d);
        let all = pieces(s, d);
        law_pieces_restore(body, d);
        lemma_pieces_nonempty(body, d);
        if s.last() == d {
            assert(all.drop_last() =~= front);
            assert(joined(all, d) =~= s);
        } else {
            assert(all.drop_last() =~= front.drop_last());
            assert(all.last() == front.last().push(s.last()));
            assert(body.push(s.last()) =~= s);
            if front.len() > 1 {
                assert(joined(front, d) == joined(front.drop_last(), d).push(d) + front.last());
            }
            assert(joined(all, d) =~= s);
        }
        assert forall|i: int| 0 <= i < all.len() implies !all[i].contains(d) by {
            if i < front.len() {
                assert(!front[i].contains(d));
                if s.last() != d && i == front.len() - 1 {
                    assert forall|j: int| 0 <= j < all[i].len() implies all[i][j] != d by {
                        if j < front[i].len() {
                            assert(front[i].contains(front[i][j]));
                        }
                    }
                }
            }
        }
    }
}

/// The pieces of two texts with the delimiter between them are the pieces of the
/// first followed by the pieces of the second.
pub proof fn lemma_pieces_concat(a: Seq<char>, d: char, b: Seq<char>)
    ensures
        pieces(a.push(d) + b, d) == pieces(a, d) + pieces(b, d),
    decreases b.len(),
{
    let s = a.push(d) + b;
    if b.len() == 0 {
        assert(s =~= a.push(d));
        assert(s.drop_last() =~= a);
        assert(pieces(s, d) =~= pieces(a, d) + pieces(b, d));
    } else {
        lemma_pieces_concat(a, d, b.drop_last());
        lemma_pieces_nonempty(b.drop_last(), d);
        assert(s.drop_last() =~= a.push(d) + b.drop_last());
        assert(pieces(s, d) =~= pieces(a, d) + pieces(b, d));
    }
}

/// A text without the delimiter is its own single piece.
pub proof fn lemma_pieces_single(s: Seq<char>, d: char)
    requires
        !s.contains(d),
    ensures
        pieces(s, d) == seq![s],
    decreases s.len(),
{
    if s.len() > 0 {
        let body = s.drop_last();
        assert(s[s.len() - 1] == s.last());
        assert forall|j: int| 0 <= j < body.len() implies body[j] != d by {
            assert(s.contains(s[j]));
        }
        lemma_pieces_single(body, d);
        assert(body.push(s.last()) =~= s);
        assert(pieces(s, d) =~= seq![s]);
    } else {
        assert(s =~= Seq::empty());
    }
}

/// The characters of a text, in order.
pub fn chars_of(s: &str) -> (r: Vec<char>)
    ensures
        r@ == s@,
{
    let mut r: Vec<char> = Vec::new();
    for c in it: s.chars()
        invariant
            r@ == it.seq().take(it.index() as int),
            it.seq() == s@,
    {
        r.push(c);
    }
    r
}

/// The index of the first `d` in a text.
pub fn first_index(s: &Vec<char>, d: char) -> (r: Option<usize>)
    ensures
        r is Some <==> s@.contains(d),
        r matches Some(i) ==> i < s@.len() && before(s@, d) == s@.take(i as int),
{
    let mut i: usize = 0;
    while i < s.len()
        invariant
            i <= s@.len(),
            forall|j: int| 0 <= j < i ==> s@[j] != d,
        decreases s@.len() - i,
    {
        if s[i] == d {
            proof {
                lemma_before(s@, d, i as int);
            }
            return Some(i);
        }
        i = i + 1;
    }
    None
}

/// Cuts a text at the first `d` into what stands before it and what stands after
/// it; without a `d` there is only what stands before it.
pub fn cut(s: &str, d: char) -> (r: (String, Option<String>))
    ensures
        r.0@ == before(s@, d),
        r.1 is Some <==> after(s@, d) is Some,
        r.1 matches Some(rest) ==> after(s@, d) == Some(rest@),
{
    let chars = chars_of(s);
    match first_index(&chars, d) {
        Some(i) => {
            let n: usize = chars.len();
            (s.substring_char(0, i).to_owned(), Some(s.substring_char(i + 1, n).to_owned()))
        },
        None => {
            proof {
                lemma_before(s@, d, s@.len() as int);
                assert(s@.take(s@.len() as int) =~= s@);
            }
            (s.to_owned(), None)
        },
    }
}

/// The pieces of a text between the occurrences of `d`.
pub fn split_text(s: &str, d: char) -> (r: Vec<String>)
    ensures
        texts(r@) == pieces(s@, d),
{
    let chars = chars_of(s);
    let n: usize = chars.len();
    let mut r: Vec<String> = Vec::new();
    let mut start: usize = 0;
    let mut i: usize = 0;
    proof {
        assert(s@.take(0) =~= Seq::<char>::empty());
        assert(s@.subrange(0, 0) =~= Seq::<char>::empty());
        assert(texts(r@).push(s@.subrange(0, 0)) =~= seq![Seq::<char>::empty()]);
    }
    while i < n
        invariant
            n == chars@.len(),
            chars@ == s@,
            start <= i <= n,
            pieces(s@.take(i as int), d) == texts(r@).push(s@.subrange(start as int, i as int)),
        decreases n - i,
    {
        let ghost done = s@.take(i as int);
        let ghost next = s@.take(i + 1);
        let ghost found = texts(r@);
        let ghost current = s@.subrange(start as int, i as int);
        assert(next.drop_last() =~= done);
        assert(next.last() == s@[i as int]);
        if chars[i] == d {
            r.push(s.substring_char(start, i).to_owned());
            start = i + 1;
            assert(texts(r@) =~= found.push(current));
            assert(s@.subrange(i + 1, i + 1) =~= Seq::<char>::empty());
        } else {
            assert(s@.subrange(start as int, i + 1) =~= current.push(s@[i as int]));
            assert(found.push(current).update(found.len() as int, current.push(s@[i as int]))
                =~= found.push(current.push(s@[i as int])));
        }
        i = i + 1;
    }
    let ghost found = texts(r@);
    r.push(s.substring_char(start, n).to_owned());
    assert(texts(r@) =~= found.push(s@.subrange(start as int, n as int)));
    assert(s@.take(n as int) =~= s@);
    r
}

/// Whether `p` occurs in `s`.
pub fn has_text(s: &str, p: &str) -> (r: bool)
    ensures
        r == occurs_in(s@, p@),
{
    let text = chars_of(s);
    let part = chars_of(p);
    let n: usize = text.len();
    let m: usize = part.len();
    if m == 0 {
        assert(s@.subrange(0, 0) =~= p@);
        assert(occurs_at(s@, p@, 0));
        return true;
    }
    if m > n {
        return false;
    }
    let mut i: usize = 0;
    while i < n - m + 1
        invariant
            n == text@.len(),
            m == part@.len(),
            0 < m <= n,
            text@ == s@,
            part@ == p@,
            i <= n - m + 1,
            forall|k: int| 0 <= k < i ==> !occurs_at(s@, p@, k),
        decreases n - m + 1 - i,
    {
        let mut j: usize = 0;
        while j < m && text[i + j] == part[j]
            invariant
                n == text@.len(),
                m == part@.len(),
                i + m <= n,
                j <= m,
                forall|k: int| 0 <= k < j ==> text@[i + k] == part@[k],
            decreases m - j,
        {
            j = j + 1;
        }
        if j == m {
            assert(s@.subrange(i as int, i + m) =~= p@);
            assert(occurs_at(s@, p@, i as int));
            return true;
        }
        assert(!occurs_at(s@, p@, i as int)) by {
            assert(s@[i + j] != p@[j as int]);
            if occurs_at(s@, p@, i as int) {
                assert(s@.subrange(i as int, i + m)[j as int] == p@[j as int]);
            }
        }
        i = i + 1;
    }
    false
}

/// Whether two texts are the same.
pub fn same_text(a: &str, b: &str) -> (r: bool)
    ensures
        r == (a@ == b@),
{
    a.to_owned() == b.to_owned()
}

/// The lower case form of an ASCII letter; every other character as it is.
pub fn to_lower(c: char) -> (r: char)
    ensures
        r == lower_char(c),
{
    if 'A' <= c && c <= 'Z' {
        ((c as u8) + 32) as char
    } else {
        c
    }
}

/// Whether two texts are the same but for the case of their ASCII letters.
pub fn same_text_ignoring_case(a: &str, b: &str) -> (r: bool)
    ensures
        r == (lower(a@) == lower(b@)),
{
    let left = chars_of(a);
    let right = chars_of(b);
    if left.len() != right.len() {
        assert(lower(a@).len() != lower(b@).len());
        return false;
    }
    let mut i: usize = 0;
    while i < left.len()
        invariant
            left@ == a@,
            right@ == b@,
            left@.len() == right@.len(),
            i <= left@.len(),
            forall|j: int| 0 <= j < i ==> lower_char(a@[j]) == lower_char(b@[j]),
        decreases left@.len() - i,
    {
        if to_lower(left[i]) != to_lower(right[i]) {
            assert(lower(a@)[i as int] != lower(b@)[i as int]);
            return false;
        }
        i = i + 1;
    }
    assert(lower(a@) =~= lower(b@));
    true
}

fn digit_text(d: u64) -> (r: &'static str)
    requires
        d < 10,
    ensures
        r@ == seq![digit(d as nat)],
{
    proof {
        reveal_strlit("0");
        reveal_strlit("1");
        reveal_strlit("2");
        reveal_strlit("3");
        reveal_strlit("4");
        reveal_strlit("5");
        reveal_strlit("6");
        reveal_strlit("7");
        reveal_strlit("8");
        reveal_strlit("9");
    }
    let r = match d {
        0 => "0",
        1 => "1",
        2 => "2",
        3 => "3",
        4 => "4",
        5 => "5",
        6 => "6",
        7 => "7",
        8 => "8",
        _ => "9",
    };
    assert(r@ =~= seq![digit(d as nat)]);
    r
}

/// A number in decimal.
pub fn decimal_text(n: u64) -> (r: String)
    ensures
        r@ == decimal(n as nat),
    decreases n,
{
    if n < 10 {
        digit_text(n).to_owned()
    } else {
        let mut r = decimal_text(n / 10);
        r.append(digit_text(n % 10));
        assert(r@ =~= decimal(n as nat));
        r
    }
}

/// The number that a text of decimal digits stands for.
pub open spec fn value_of(digits: Seq<char>) -> nat
    decreases digits.len(),
{
    if digits.len() == 0 {
        0
    } else {
        (10 * value_of(digits.drop_last()) + (digits.last() as nat - '0' as nat)) as nat
    }
}

/// A text is the decimal of a number: digits only, with no zero in front of others, that
/// stand for the number.
pub open spec fn is_decimal(digits: Seq<char>, n: nat) -> bool {
    &&& digits.len() > 0
    &&& forall|i: int| 0 <= i < digits.len() ==> '0' <= #[trigger] digits[i] && digits[i] <= '9'
    &&& digits.len() > 1 ==> digits[0] != '0'
    &&& value_of(digits) == n
}

/// A number in decimal is digits that stand for that number, and every such text is it.
pub proof fn law_decimal(n: nat, digits: Seq<char>)
    ensures
        is_decimal(decimal(n), n),
        is_decimal(digits, n) ==> digits == decimal(n),
    decreases n,
{
    let text = decimal(n);
    if n >= 10 {
        law_decimal(n / 10, digits.drop_last());
        assert(text.drop_last() =~= decimal(n / 10));
        assert(text[0] == decimal(n / 10)[0]);
        assert(decimal(n / 10).len() == 1 ==> value_of(decimal(n / 10)) == n / 10);
        if decimal(n / 10).len() == 1 {
            let front = decimal(n / 10);
            assert(value_of(front.drop_last()) == 0);
            assert(front[0] != '0');
        }
    } else {
        assert(text.drop_last() =~= Seq::empty());
        assert(value_of(text.drop_last()) == 0);
    }
    if is_decimal(digits, n) {
        let front = digits.drop_last();
        assert(digits[digits.len() - 1] == digits.last());
        if front.len() == 0 {
            assert(value_of(front) == 0);
            assert(digits =~= seq![digit(n)]);
        } else {
            lemma_value_positive(front);
            assert(n >= 10);
            assert(value_of(front) == n / 10);
            assert(is_decimal(front, n / 10)) by {
                assert forall|i: int| 0 <= i < front.len() implies '0' <= #[trigger] front[i]
                    && front[i] <= '9' by {
                    assert(digits[i] == front[i]);
                }
            }
            assert(digits =~= front.push(digits.last()));
        }
    }
}

proof fn lemma_value_positive(digits: Seq<char>)
    requires
        digits.len() > 0,
        forall|i: int| 0 <= i < digits.len() ==> '0' <= #[trigger] digits[i] && digits[i] <= '9',
        digits[0] != '0',
    ensures
        value_of(digits) > 0,
    decreases digits.len(),
{
    let front = digits.drop_last();
    assert(digits[digits.len() - 1] == digits.last());
    if front.len() > 0 {
        assert forall|i: int| 0 <= i < front.len() implies '0' <= #[trigger] front[i] && front[i]
            <= '9' by {
            assert(digits[i] == front[i]);
        }
        lemma_value_positive(front);
    }
}

/// A text has one piece more than it has delimiters.
pub proof fn law_pieces_count(s: Seq<char>, d: char)
    ensures
        pieces(s, d).len() == s.filter(|c: char| c == d).len() + 1,
    decreases s.len(),
{
    reveal(Seq::filter);
    if s.len() > 0 {
        law_pieces_count(s.drop_last(), d);
    }
}

/// Two texts one after the other.
pub fn append_text(a: &str, b: &str) -> (r: String)
    ensures
        r@ == a@ + b@,
{
    let mut r = a.to_owned();
    r.append(b);
    r
}

/// A text in lower case has as many characters: each letter from A to Z is the one 32 places
/// behind it, and every other character is as it was.
pub proof fn law_lower(s: Seq<char>, i: int)
    ensures
        lower(s).len() == s.len(),
        0 <= i < s.len() && 'A' <= s[i] && s[i] <= 'Z' ==> lower(s)[i] as int == s[i] as int + 32,
        0 <= i < s.len() && !('A' <= s[i] && s[i] <= 'Z') ==> lower(s)[i] == s[i],
{
}

/// A text occurs in another one exactly when that one is something, the text and something
/// else.
pub proof fn law_occurs(s: Seq<char>, a: Seq<char>, p: Seq<char>, b: Seq<char>)
    ensures
        s == a + p + b ==> occurs_in(s, p),
        occurs_in(s, p) ==> exists|x: Seq<char>, y: Seq<char>| s == #[trigger] (x + p + y),
{
    if s == a + p + b {
        assert(s.subrange(a.len() as int, (a.len() + p.len()) as int) =~= p);
        assert(occurs_at(s, p, a.len() as int));
    }
    if occurs_in(s, p) {
        let i = choose|i: int| occurs_at(s, p, i);
        let x = s.take(i);
        let y = s.skip(i + p.len());
        assert(s =~= x + p + y);
    }
}

} // verus!
