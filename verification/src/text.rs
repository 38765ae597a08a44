//! Text as sequences of characters: numbers, blanks, order, lists.
use vstd::prelude::*;

verus! {

/// `String::push` appends the character to the end of the text.
pub assume_specification[ String::push ](s: &mut String, c: char)
    ensures
        final(s)@ == old(s)@.push(c),
;

/// The texts of a list of strings.
pub open spec fn texts(list: Seq<String>) -> Seq<Seq<char>> {
    list.map_values(|s: String| s@)
}

/// The text of an optional string.
pub open spec fn opt_text(s: Option<String>) -> Option<Seq<char>> {
    match s {
        Some(t) => Some(t@),
        None => None,
    }
}

/// The characters of a text, one by one.
pub fn chars_of(s: &str) -> (r: Vec<char>)
    ensures
        r@ == s@,
{
    let mut out: Vec<char> = Vec::new();
    for c in it: s.chars()
        invariant
            it.seq() == s@,
            out@ == it.seq().take(it.index()),
    {
        out.push(c);
    }
    out
}

/// The text made of the characters from `from` up to `to`.
pub fn text_between(chars: &Vec<char>, from: usize, to: usize) -> (r: String)
    requires
        from <= to <= chars@.len(),
    ensures
        r@ == chars@.subrange(from as int, to as int),
{
    let mut out = String::new();
    let mut i: usize = from;
    while i < to
        invariant
            from <= i <= to <= chars@.len(),
            out@ == chars@.subrange(from as int, i as int),
        decreases to - i,
    {
        out.push(chars[i]);
        i += 1;
        assert(chars@.subrange(from as int, i as int) == chars@.subrange(
            from as int,
            i - 1,
        ).push(chars@[i - 1]));
    }
    out
}

/// Whether two texts are the same.
pub fn same(a: &str, b: &str) -> (r: bool)
    ensures
        r == (a@ == b@),
{
    a.to_owned() == b.to_owned()
}

// ---------------------------------------------------------------------------
// Decimal numbers
// ---------------------------------------------------------------------------

/// The character of a decimal digit.
pub open spec fn digit(d: int) -> char {
    (48 + d) as char
}

/// A natural number in decimal, without leading zeros.
pub open spec fn digits(n: nat) -> Seq<char>
    decreases n,
{
    if n < 10 {
        seq![digit(n as int)]
    } else {
        digits(n / 10).push(digit((n % 10) as int))
    }
}

/// An integer in decimal, with a minus sign before a negative one.
pub open spec fn int_digits(n: int) -> Seq<char> {
    if n < 0 {
        seq!['-'] + digits((-n) as nat)
    } else {
        digits(n as nat)
    }
}

/// Two decimal digits.
pub open spec fn two_digits(n: int) -> Seq<char> {
    seq![digit(n / 10), digit(n % 10)]
}

/// Whether a character is a decimal digit.
pub open spec fn is_digit(c: char) -> bool {
    '0' <= c <= '9'
}

/// The number that a run of decimal digits stands for.
pub open spec fn digits_value(s: Seq<char>) -> nat
    decreases s.len(),
{
    if s.len() == 0 {
        0
    } else {
        digits_value(s.drop_last()) * 10 + (s.last() as int - 48) as nat
    }
}

/// The integer that a text stands for: an optional sign, then at least one digit and nothing else.
pub open spec fn integer_value(s: Seq<char>) -> Option<int> {
    if !all_digits(unsigned_part(s)) {
        None
    } else if s[0] == '-' {
        Some(-(digits_value(unsigned_part(s)) as int))
    } else {
        Some(digits_value(unsigned_part(s)) as int)
    }
}

/// What follows the sign of a number, if it has one.
pub open spec fn unsigned_part(s: Seq<char>) -> Seq<char> {
    if s.len() > 0 && (s[0] == '-' || s[0] == '+') {
        s.drop_first()
    } else {
        s
    }
}

/// Whether a text is made of decimal digits, at least one.
pub open spec fn all_digits(s: Seq<char>) -> bool {
    s.len() > 0 && forall|i: int| 0 <= i < s.len() ==> is_digit(#[trigger] s[i])
}

/// The 64-bit signed integer that a text stands for.
pub open spec fn i64_value(s: Seq<char>) -> Option<i64> {
    match integer_value(s) {
        Some(n) => if i64::MIN <= n <= i64::MAX {
            Some(n as i64)
        } else {
            None
        },
        None => None,
    }
}

/// Appends a natural number in decimal.
pub fn push_digits(out: &mut String, n: u64)
    ensures
        final(out)@ == old(out)@ + digits(n as nat),
    decreases n,
{
    if n >= 10 {
        push_digits(out, n / 10);
    }
    let d: u8 = (n % 10) as u8;
    out.push((48 + d) as char);
    assert(out@ == old(out)@ + digits(n as nat));
}

/// Appends an integer in decimal.
pub fn push_int(out: &mut String, n: i64)
    ensures
        final(out)@ == old(out)@ + int_digits(n as int),
{
    if n >= 0 {
        push_digits(out, n as u64);
    } else {
        out.push('-');
        let size: u64 = if n == i64::MIN {
            9223372036854775808
        } else {
            (-n) as u64
        };
        push_digits(out, size);
        assert(out@ == old(out)@ + int_digits(n as int));
    }
}

/// An integer in decimal.
pub fn int_text(n: i64) -> (r: String)
    ensures
        r@ == int_digits(n as int),
{
    let mut out = String::new();
    push_int(&mut out, n);
    assert(out@ == int_digits(n as int));
    out
}

proof fn lemma_value_grows(s: Seq<char>, i: int)
    requires
        0 <= i <= s.len(),
    ensures
        digits_value(s.take(i)) <= digits_value(s),
    decreases s.len() - i,
{
    if i < s.len() {
        lemma_value_grows(s, i + 1);
        assert(s.take(i + 1).drop_last() == s.take(i));
    } else {
        assert(s.take(i) == s);
    }
}

/// Reads a 64-bit signed integer.
pub fn parse_i64(s: &str) -> (r: Option<i64>)
    ensures
        r == i64_value(s@),
{
    let chars = chars_of(s);
    let n = chars.len();
    let mut i: usize = 0;
    let mut negative = false;
    if n > 0 && (chars[0] == '-' || chars[0] == '+') {
        negative = chars[0] == '-';
        i = 1;
    }
    let ghost body = unsigned_part(s@);
    let start = i;
    assert(body == s@.skip(start as int));
    if i == n {
        return None;
    }
    let mut acc: u128 = 0;
    assert(body.take(0) == Seq::<char>::empty());
    while i < n
        invariant
            n == chars@.len(),
            chars@ == s@,
            0 <= start <= i <= n,
            body == s@.skip(start as int),
            body.len() == n - start,
            forall|k: int| 0 <= k < i - start ==> is_digit(#[trigger] body[k]),
            acc == digits_value(body.take(i - start)),
            acc <= 9223372036854775808,
            body == unsigned_part(s@),
        decreases n - i,
    {
        let c = chars[i];
        assert(c == body[i - start]);
        if c < '0' || c > '9' {
            assert(!is_digit(body[i - start]));
            return None;
        }
        let d: u128 = (c as u32 - 48) as u128;
        acc = acc * 10 + d;
        i += 1;
        assert(body.take(i - start).drop_last() == body.take(i - start - 1));
        if acc > 9223372036854775808 {
            proof {
                lemma_value_grows(body, i - start);
            }
            return None;
        }
    }
    assert(body.take(n - start) == body);
    if negative {
        if acc == 9223372036854775808 {
            Some(i64::MIN)
        } else {
            Some(-(acc as i64))
        }
    } else if acc == 9223372036854775808 {
        None
    } else {
        Some(acc as i64)
    }
}

proof fn lemma_digits_value(n: nat)
    ensures
        digits_value(digits(n)) == n,
        digits(n).len() > 0,
        forall|i: int| 0 <= i < digits(n).len() ==> is_digit(#[trigger] digits(n)[i]),
    decreases n,
{
    if n < 10 {
        reveal_with_fuel(digits_value, 2);
        assert(seq![digit(n as int)].drop_last() == Seq::<char>::empty());
    } else {
        lemma_digits_value(n / 10);
        assert(digits(n).drop_last() == digits(n / 10));
    }
}

/// Reading back an integer that was written in decimal gives the integer.
pub proof fn law_decimal_round_trip(n: i64)
    ensures
        i64_value(int_digits(n as int)) == Some(n),
{
    let s = int_digits(n as int);
    if n < 0 {
        lemma_digits_value((-n) as nat);
        assert(s.drop_first() == digits((-n) as nat));
    } else {
        lemma_digits_value(n as nat);
        assert(is_digit(digits(n as nat)[0]));
    }
}

// ---------------------------------------------------------------------------
// Blank space
// ---------------------------------------------------------------------------

/// The characters with the Unicode property White_Space.
pub open spec fn is_space(c: char) -> bool {
    let u = c as u32;
    ||| 0x09 <= u <= 0x0d
    ||| u == 0x20
    ||| u == 0x85
    ||| u == 0xa0
    ||| u == 0x1680
    ||| 0x2000 <= u <= 0x200a
    ||| u == 0x2028
    ||| u == 0x2029
    ||| u == 0x202f
    ||| u == 0x205f
    ||| u == 0x3000
}

/// A text without the blanks before its first other character.
pub open spec fn without_leading(s: Seq<char>) -> Seq<char>
    decreases s.len(),
{
    if s.len() > 0 && is_space(s[0]) {
        without_leading(s.drop_first())
    } else {
        s
    }
}

/// A text without the blanks behind its last other character.
pub open spec fn without_trailing(s: Seq<char>) -> Seq<char>
    decreases s.len(),
{
    if s.len() > 0 && is_space(s.last()) {
        without_trailing(s.drop_last())
    } else {
        s
    }
}

/// A text without the blanks at its two ends.
pub open spec fn trimmed(s: Seq<char>) -> Seq<char> {
    without_trailing(without_leading(s))
}

/// Whether a text holds nothing but blanks.
pub open spec fn is_blank(s: Seq<char>) -> bool {
    forall|i: int| 0 <= i < s.len() ==> is_space(#[trigger] s[i])
}

/// Whether a character is a blank.
pub fn space(c: char) -> (r: bool)
    ensures
        r == is_space(c),
{
    let u = c as u32;
    (0x09 <= u && u <= 0x0d) || u == 0x20 || u == 0x85 || u == 0xa0 || u == 0x1680 || (0x2000 <= u
        && u <= 0x200a) || u == 0x2028 || u == 0x2029 || u == 0x202f || u == 0x205f || u == 0x3000
}

/// A text without the blanks at its two ends.
pub fn trim(s: &str) -> (r: String)
    ensures
        r@ == trimmed(s@),
{
    let chars = chars_of(s);
    let n = chars.len();
    let mut from: usize = 0;
    assert(s@.skip(0) == s@);
    while from < n && space(chars[from])
        invariant
            chars@ == s@,
            n == chars@.len(),
            from <= n,
            without_leading(s@.skip(from as int)) == without_leading(s@),
        decreases n - from,
    {
        assert(s@.skip(from as int).drop_first() == s@.skip(from + 1));
        from += 1;
    }
    let ghost rest = s@.skip(from as int);
    assert(rest == without_leading(s@));
    let mut to: usize = n;
    assert(rest == s@.subrange(from as int, to as int));
    while from < to && space(chars[to - 1])
        invariant
            chars@ == s@,
            n == chars@.len(),
            from <= to <= n,
            without_trailing(s@.subrange(from as int, to as int)) == without_trailing(rest),
        decreases to,
    {
        assert(s@.subrange(from as int, to as int).drop_last() == s@.subrange(
            from as int,
            to - 1,
        ));
        to -= 1;
    }
    text_between(&chars, from, to)
}

/// Trimming leaves nothing of a text exactly where the text is blank.
pub proof fn law_blank_trims_to_nothing(s: Seq<char>)
    ensures
        is_blank(s) <==> trimmed(s).len() == 0,
    decreases s.len(),
{
    lemma_leading(s);
    let t = without_leading(s);
    lemma_trailing(t);
    if t.len() > 0 {
        assert(!is_space(t[0]));
        if is_blank(s) {
            let k = s.len() - t.len();
            assert(is_space(s[k]));
        }
    }
}

proof fn lemma_leading(s: Seq<char>)
    ensures
        without_leading(s).len() <= s.len(),
        without_leading(s) == s.skip(s.len() - without_leading(s).len()),
        forall|i: int| 0 <= i < s.len() - without_leading(s).len() ==> is_space(#[trigger] s[i]),
        without_leading(s).len() > 0 ==> !is_space(without_leading(s)[0]),
    decreases s.len(),
{
    if s.len() > 0 && is_space(s[0]) {
        let r = s.drop_first();
        lemma_leading(r);
        let w = without_leading(s);
        assert(w == s.skip(s.len() - w.len()));
        assert forall|i: int| 0 <= i < s.len() - w.len() implies is_space(#[trigger] s[i]) by {
            if i > 0 {
                assert(is_space(r[i - 1]));
            }
        }
    } else {
        assert(s.skip(0) == s);
    }
}

proof fn lemma_trailing(s: Seq<char>)
    ensures
        without_trailing(s).len() <= s.len(),
        without_trailing(s) == s.take(without_trailing(s).len() as int),
        s.len() > 0 && !is_space(s[0]) ==> without_trailing(s).len() > 0,
    decreases s.len(),
{
    if s.len() > 0 && is_space(s.last()) {
        lemma_trailing(s.drop_last());
        let w = without_trailing(s);
        assert(w == s.take(w.len() as int));
    } else {
        assert(s.take(s.len() as int) == s);
    }
}

// ---------------------------------------------------------------------------
// Lists of texts
// ---------------------------------------------------------------------------

/// A list of texts as one text, with a separator between neighbours.
pub open spec fn joined(list: Seq<Seq<char>>, separator: Seq<char>) -> Seq<char>
    decreases list.len(),
{
    if list.len() == 0 {
        Seq::empty()
    } else if list.len() == 1 {
        list[0]
    } else {
        joined(list.drop_last(), separator) + separator + list.last()
    }
}

/// A list of texts as one text, with a separator between neighbours.
pub fn join(list: &Vec<String>, separator: &str) -> (r: String)
    ensures
        r@ == joined(texts(list@), separator@),
{
    let mut out = String::new();
    let mut i: usize = 0;
    let ghost all = texts(list@);
    while i < list.len()
        invariant
            all == texts(list@),
            i <= list@.len(),
            out@ == joined(all.take(i as int), separator@),
        decreases list@.len() - i,
    {
        if i > 0 {
            out.append(separator);
        }
        out.append(list[i].as_str());
        i += 1;
        assert(all.take(i as int).drop_last() == all.take(i - 1));
        assert(out@ == joined(all.take(i as int), separator@));
    }
    assert(all.take(i as int) == all);
    out
}

/// The order of texts: by the first character in which they differ, a prefix before what it
/// begins.
pub open spec fn text_less(a: Seq<char>, b: Seq<char>) -> bool
    decreases a.len(),
{
    if b.len() == 0 {
        false
    } else if a.len() == 0 {
        true
    } else if a[0] != b[0] {
        a[0] < b[0]
    } else {
        text_less(a.drop_first(), b.drop_first())
    }
}

/// Whether one text comes before another.
pub fn precedes(a: &str, b: &str) -> (r: bool)
    ensures
        r == text_less(a@, b@),
{
    let x = chars_of(a);
    let y = chars_of(b);
    let mut i: usize = 0;
    assert(a@.skip(0) == a@ && b@.skip(0) == b@);
    while i < x.len() && i < y.len() && x[i] == y[i]
        invariant
            x@ == a@,
            y@ == b@,
            i <= x@.len(),
            i <= y@.len(),
            text_less(a@.skip(i as int), b@.skip(i as int)) == text_less(a@, b@),
        decreases x@.len() - i,
    {
        assert(a@.skip(i as int).drop_first() == a@.skip(i + 1));
        assert(b@.skip(i as int).drop_first() == b@.skip(i + 1));
        i += 1;
    }
    if i == y.len() {
        false
    } else if i == x.len() {
        true
    } else {
        x[i] < y[i]
    }
}

/// A text added to an ordered list at its place, unless the list holds it already.
pub open spec fn placed(list: Seq<Seq<char>>, t: Seq<char>) -> Seq<Seq<char>>
    decreases list.len(),
{
    if list.len() == 0 {
        seq![t]
    } else if list.last() == t {
        list
    } else if text_less(list.last(), t) {
        list.push(t)
    } else {
        placed(list.drop_last(), t).push(list.last())
    }
}

/// Adds a text to an ordered list at its place, unless the list holds it already.
pub fn place(list: &mut Vec<String>, t: &str)
    ensures
        texts(final(list)@) == placed(texts(old(list)@), t@),
{
    let ghost before = texts(list@);
    let mut i: usize = list.len();
    assert(before.take(i as int) == before);
    assert(placed(before.take(i as int), t@) + before.skip(i as int) == placed(before, t@));
    while i > 0 && !same(list[i - 1].as_str(), t) && !precedes(list[i - 1].as_str(), t)
        invariant
            before == texts(list@),
            list@ == old(list)@,
            i <= list@.len(),
            placed(before.take(i as int), t@) + before.skip(i as int) == placed(before, t@),
        decreases i,
    {
        let ghost head = before.take(i as int);
        assert(head.last() == list@[i - 1]@);
        assert(head.drop_last() == before.take(i - 1));
        assert(placed(head, t@) + before.skip(i as int) == placed(before.take(i - 1), t@)
            + before.skip(i - 1));
        i -= 1;
    }
    let ghost head = before.take(i as int);
    if i > 0 && same(list[i - 1].as_str(), t) {
        assert(head.last() == list@[i - 1]@);
        assert(head + before.skip(i as int) == before);
        return ;
    }
    list.insert(i, t.to_owned());
    proof {
        if i > 0 {
            assert(head.last() == before[i - 1]);
            assert(placed(head, t@) == head.push(t@));
        } else {
            assert(placed(head, t@) == head.push(t@));
        }
        assert(texts(list@) == head.push(t@) + before.skip(i as int));
    }
}

/// Whether a list of texts is in strictly ascending order.
pub open spec fn ascending(list: Seq<Seq<char>>) -> bool {
    forall|i: int, j: int| 0 <= i < j < list.len() ==> text_less(#[trigger] list[i], #[trigger] list[j])
}

proof fn lemma_less_irreflexive(a: Seq<char>)
    ensures
        !text_less(a, a),
    decreases a.len(),
{
    if a.len() > 0 {
        lemma_less_irreflexive(a.drop_first());
    }
}

proof fn lemma_less_transitive(a: Seq<char>, b: Seq<char>, c: Seq<char>)
    requires
        text_less(a, b),
        text_less(b, c),
    ensures
        text_less(a, c),
    decreases a.len(),
{
    if a.len() > 0 && b.len() > 0 && c.len() > 0 && a[0] == b[0] && b[0] == c[0] {
        lemma_less_transitive(a.drop_first(), b.drop_first(), c.drop_first());
    }
}

proof fn lemma_less_total(a: Seq<char>, b: Seq<char>)
    ensures
        a == b || text_less(a, b) || text_less(b, a),
    decreases a.len(),
{
    if a.len() > 0 && b.len() > 0 && a[0] == b[0] {
        lemma_less_total(a.drop_first(), b.drop_first());
        if a.drop_first() == b.drop_first() {
            assert(a == seq![a[0]] + a.drop_first());
            assert(b == seq![b[0]] + b.drop_first());
            assert(a == b);
        }
    } else if a.len() == 0 && b.len() == 0 {
        assert(a == b);
    }
}

/// Adding a text to a list in ascending order keeps the order and adds that text alone.
pub proof fn law_placed_keeps_order(list: Seq<Seq<char>>, t: Seq<char>)
    requires
        ascending(list),
    ensures
        ascending(placed(list, t)),
        forall|x: Seq<char>| #[trigger] placed(list, t).contains(x) <==> x == t || list.contains(x),
    decreases list.len(),
{
    let r = placed(list, t);
    if list.len() == 0 {
        assert(r[0] == t);
    } else if list.last() == t {
        assert(list[list.len() - 1] == t);
    } else if text_less(list.last(), t) {
        assert forall|i: int, j: int| 0 <= i < j < r.len() implies text_less(
            #[trigger] r[i],
            #[trigger] r[j],
        ) by {
            if j == list.len() && i < list.len() - 1 {
                lemma_less_transitive(list[i], list.last(), t);
            }
        }
        assert forall|x: Seq<char>| #[trigger] r.contains(x) <==> x == t || list.contains(x) by {
            if list.contains(x) {
                let k = choose|k: int| 0 <= k < list.len() && list[k] == x;
                assert(r[k] == x);
            }
            assert(r[list.len() as int] == t);
        }
    } else {
        let head = list.drop_last();
        let inner = placed(head, t);
        law_placed_keeps_order(head, t);
        lemma_less_total(list.last(), t);
        assert forall|i: int, j: int| 0 <= i < j < r.len() implies text_less(
            #[trigger] r[i],
            #[trigger] r[j],
        ) by {
            if j == r.len() - 1 {
                assert(inner.contains(inner[i]));
                if inner[i] != t {
                    let k = choose|k: int| 0 <= k < head.len() && head[k] == inner[i];
                    assert(list[k] == head[k]);
                }
            } else {
                assert(text_less(inner[i], inner[j]));
            }
        }
        assert forall|x: Seq<char>| #[trigger] r.contains(x) <==> x == t || list.contains(x) by {
            assert(r[r.len() - 1] == list.last());
            if r.contains(x) {
                let k = choose|k: int| 0 <= k < r.len() && r[k] == x;
                if k < r.len() - 1 {
                    assert(inner.contains(x));
                    if x != t {
                        let m = choose|m: int| 0 <= m < head.len() && head[m] == x;
                        assert(list[m] == x);
                    }
                } else {
                    assert(list[list.len() - 1] == x);
                }
            }
            if x == t || list.contains(x) {
                if x != t {
                    let m = choose|m: int| 0 <= m < list.len() && list[m] == x;
                    if m < list.len() - 1 {
                        assert(head[m] == x);
                        assert(head.contains(x));
                    }
                }
                if x == t || head.contains(x) {
                    assert(inner.contains(x));
                    let k = choose|k: int| 0 <= k < inner.len() && inner[k] == x;
                    assert(r[k] == x);
                }
            }
        }
    }
}

// ---------------------------------------------------------------------------
// What texts promise
// ---------------------------------------------------------------------------

/// A number is written in decimal digits alone, without a zero before other digits; ten times a
/// number and a digit is written as the number with that digit behind it.
pub proof fn law_decimal_digits(n: nat, d: nat)
    requires
        n > 0,
        d < 10,
    ensures
        digits(n * 10 + d) == digits(n).push((48 + d) as char),
        digits(d) == seq![(48 + d) as char],
        digits(n)[0] != '0',
        all_digits(digits(n)),
    decreases n,
{
    lemma_digits_value(n);
    assert((n * 10 + d) / 10 == n && (n * 10 + d) % 10 == d);
    if n >= 10 {
        law_decimal_digits(n / 10, n % 10);
        assert(digits(n)[0] == digits(n / 10)[0]);
    }
}

/// A negative number is written as its size behind a minus sign, and no two numbers alike.
pub proof fn law_numbers_are_written_apart(m: i64, n: i64)
    ensures
        n < 0 ==> int_digits(n as int) == seq!['-'] + digits((-n) as nat),
        n >= 0 ==> int_digits(n as int) == digits(n as nat),
        int_digits(m as int) == int_digits(n as int) ==> m == n,
{
    law_decimal_round_trip(m);
    law_decimal_round_trip(n);
}

/// Two digits are the tens and the ones.
pub proof fn law_two_digits(tens: int, ones: int)
    requires
        0 <= tens < 10,
        0 <= ones < 10,
    ensures
        two_digits(10 * tens + ones) == seq![(48 + tens) as char, (48 + ones) as char],
        tens > 0 ==> two_digits(10 * tens + ones) == digits((10 * tens + ones) as nat),
{
    let n = 10 * tens + ones;
    assert(n / 10 == tens && n % 10 == ones);
    if tens > 0 {
        law_decimal_digits(tens as nat, ones as nat);
    }
}

/// A plus sign and zeros before the digits of a number do not change it; a minus sign negates it.
pub proof fn law_signs_and_zeros(s: Seq<char>)
    requires
        all_digits(s),
    ensures
        integer_value(s) == Some(digits_value(s) as int),
        integer_value(seq!['+'] + s) == integer_value(s),
        integer_value(seq!['-'] + s) == Some(-(digits_value(s) as int)),
        integer_value(seq!['0'] + s) == integer_value(s),
{
    assert(is_digit(s[0]));
    assert((seq!['+'] + s).drop_first() == s);
    assert((seq!['-'] + s).drop_first() == s);
    let z = seq!['0'] + s;
    assert forall|i: int| 0 <= i < z.len() implies is_digit(#[trigger] z[i]) by {
        if i > 0 {
            assert(is_digit(s[i - 1]));
        }
    }
    lemma_leading_zero(s);
}

proof fn lemma_leading_zero(s: Seq<char>)
    ensures
        digits_value(seq!['0'] + s) == digits_value(s),
    decreases s.len(),
{
    let z = seq!['0'] + s;
    if s.len() == 0 {
        reveal_with_fuel(digits_value, 2);
        assert(z.drop_last() == Seq::<char>::empty());
    } else {
        lemma_leading_zero(s.drop_last());
        assert(z.drop_last() == seq!['0'] + s.drop_last());
    }
}

/// What holds anything but digits behind its sign, or none, is no number; one that does not fit
/// into 64 bits is none either.
pub proof fn law_what_is_no_number(s: Seq<char>)
    ensures
        integer_value(s) is Some ==> s.len() > 0 && (is_digit(s[0]) || (s.len() > 1 && (s[0] == '-'
            || s[0] == '+'))) && forall|i: int| 0 < i < s.len() ==> is_digit(#[trigger] s[i]),
        i64_value(s) is Some <==> (integer_value(s) matches Some(n) && -0x8000_0000_0000_0000 <= n
            <= 0x7fff_ffff_ffff_ffff),
        i64_value(s) matches Some(n) ==> integer_value(s) == Some(n as int),
{
    if integer_value(s) is Some {
        let u = unsigned_part(s);
        assert(is_digit(u[0]));
        assert forall|i: int| 0 < i < s.len() implies is_digit(#[trigger] s[i]) by {
            if u == s {
                assert(is_digit(u[i]));
            } else {
                assert(u[i - 1] == s[i]);
            }
        }
    }
}

/// The blanks are the characters that Unicode calls white space.
pub proof fn law_blanks_are_white_space(c: char)
    ensures
        is_space(c) <==> seq![
            0x09u32,
            0x0a,
            0x0b,
            0x0c,
            0x0d,
            0x20,
            0x85,
            0xa0,
            0x1680,
            0x2000,
            0x2001,
            0x2002,
            0x2003,
            0x2004,
            0x2005,
            0x2006,
            0x2007,
            0x2008,
            0x2009,
            0x200a,
            0x2028,
            0x2029,
            0x202f,
            0x205f,
            0x3000,
        ].contains(c as u32),
{
    let u = c as u32;
    let all = seq![
        0x09u32,
        0x0a,
        0x0b,
        0x0c,
        0x0d,
        0x20,
        0x85,
        0xa0,
        0x1680,
        0x2000,
        0x2001,
        0x2002,
        0x2003,
        0x2004,
        0x2005,
        0x2006,
        0x2007,
        0x2008,
        0x2009,
        0x200a,
        0x2028,
        0x2029,
        0x202f,
        0x205f,
        0x3000,
    ];
    if is_space(c) {
        let k: int = if u <= 0x0d {
            u - 0x09
        } else if u == 0x20 {
            5
        } else if u == 0x85 {
            6
        } else if u == 0xa0 {
            7
        } else if u == 0x1680 {
            8
        } else if u <= 0x200a {
            9 + u - 0x2000
        } else if u == 0x2028 {
            20
        } else if u == 0x2029 {
            21
        } else if u == 0x202f {
            22
        } else if u == 0x205f {
            23
        } else {
            24
        };
        assert(all[k] == u);
    }
}

/// Trimming takes away blanks at both ends, all of them, and nothing else.
pub proof fn law_trimming_takes_blanks_away(before: Seq<char>, s: Seq<char>, behind: Seq<char>)
    requires
        is_blank(before),
        is_blank(behind),
        s.len() > 0,
        !is_space(s[0]),
        !is_space(s.last()),
    ensures
        trimmed(before + s + behind) == s,
{
    lemma_skip_leading(before, s + behind);
    assert(before + s + behind == before + (s + behind));
    lemma_skip_trailing(s, behind);
}

proof fn lemma_skip_leading(before: Seq<char>, s: Seq<char>)
    requires
        is_blank(before),
        s.len() > 0,
        !is_space(s[0]),
    ensures
        without_leading(before + s) == s,
    decreases before.len(),
{
    let all = before + s;
    if before.len() == 0 {
        assert(all == s);
    } else {
        assert(is_space(before[0]));
        let rest = before.drop_first();
        assert forall|i: int| 0 <= i < rest.len() implies is_space(#[trigger] rest[i]) by {
            assert(is_space(before[i + 1]));
        }
        lemma_skip_leading(rest, s);
        assert(all.drop_first() == rest + s);
    }
}

proof fn lemma_skip_trailing(s: Seq<char>, behind: Seq<char>)
    requires
        is_blank(behind),
        s.len() > 0,
        !is_space(s.last()),
    ensures
        without_trailing(s + behind) == s,
    decreases behind.len(),
{
    let all = s + behind;
    if behind.len() == 0 {
        assert(all == s);
    } else {
        assert(is_space(behind[behind.len() - 1]));
        let rest = behind.drop_last();
        assert forall|i: int| 0 <= i < rest.len() implies is_space(#[trigger] rest[i]) by {
            assert(is_space(behind[i]));
        }
        lemma_skip_trailing(s, rest);
        assert(all.drop_last() == s + rest);
    }
}

/// Joining two lists is joining each, with a separator between the two. A text alone has none.
pub proof fn law_joining_puts_separators_between(
    a: Seq<Seq<char>>,
    b: Seq<Seq<char>>,
    separator: Seq<char>,
)
    requires
        a.len() > 0,
        b.len() > 0,
    ensures
        joined(a + b, separator) == joined(a, separator) + separator + joined(b, separator),
        a.len() == 1 ==> joined(a, separator) == a[0],
    decreases b.len(),
{
    let all = a + b;
    assert(all.last() == b.last());
    assert(all.drop_last() == a + b.drop_last());
    if b.len() == 1 {
        assert(a + b.drop_last() == a);
    } else {
        law_joining_puts_separators_between(a, b.drop_last(), separator);
        assert(joined(a, separator) + separator + joined(b.drop_last(), separator) + separator
            + b.last() == joined(a, separator) + separator + (joined(b.drop_last(), separator)
            + separator + b.last()));
    }
}

/// Texts are ordered by the first character in which they differ; what a text begins comes before
/// it.
pub proof fn law_texts_are_ordered_by_characters(
    start: Seq<char>,
    a: char,
    b: char,
    x: Seq<char>,
    y: Seq<char>,
)
    requires
        a != b,
    ensures
        text_less(start.push(a) + x, start.push(b) + y) <==> a < b,
        text_less(start, start.push(a) + x),
        !text_less(start.push(a) + x, start),
        !text_less(start, start),
    decreases start.len(),
{
    let p = start.push(a) + x;
    let q = start.push(b) + y;
    if start.len() > 0 {
        let rest = start.drop_first();
        law_texts_are_ordered_by_characters(rest, a, b, x, y);
        assert(p.drop_first() == rest.push(a) + x);
        assert(q.drop_first() == rest.push(b) + y);
    } else {
        assert(p[0] == a && q[0] == b);
    }
}

} // verus!
