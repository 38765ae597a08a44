//! Message templates: placeholders and the escaping of what is put in their place.
use vstd::prelude::*;

use crate::text::{chars_of, same, text_between, texts};

verus! {

/// Names and the texts that they stand for, in the abstract.
pub open spec fn vars_view(vars: Seq<(String, String)>) -> Seq<(Seq<char>, Seq<char>)> {
    vars.map_values(|v: (String, String)| (v.0@, v.1@))
}

/// The place of a character in a text, or the text's length where it does not occur.
pub open spec fn place_of(s: Seq<char>, c: char) -> nat
    decreases s.len(),
{
    if s.len() == 0 || s[0] == c {
        0
    } else {
        1 + place_of(s.drop_first(), c)
    }
}

/// The text that a name stands for: that of the first variable with this name.
pub open spec fn value_of(vars: Seq<(Seq<char>, Seq<char>)>, name: Seq<char>) -> Option<Seq<char>>
    decreases vars.len(),
{
    if vars.len() == 0 {
        None
    } else if vars[0].0 == name {
        Some(vars[0].1)
    } else {
        value_of(vars.drop_first(), name)
    }
}

/// A template with its placeholders `{name}` replaced, and the names that no variable has. A
/// placeholder with such a name stays as it is written, and so does a brace that nothing closes.
pub open spec fn filled(t: Seq<char>, vars: Seq<(Seq<char>, Seq<char>)>) -> (
    Seq<char>,
    Seq<Seq<char>>,
)
    decreases t.len(),
    via filled_decreases
{
    let open = place_of(t, '{') as int;
    if open >= t.len() {
        (t, Seq::empty())
    } else {
        let after = t.skip(open + 1);
        let close = place_of(after, '}') as int;
        if close >= after.len() {
            let (rest, unknown) = filled(after, vars);
            (t.take(open + 1) + rest, unknown)
        } else {
            let name = after.take(close);
            let (rest, unknown) = filled(after.skip(close + 1), vars);
            match value_of(vars, name) {
                Some(value) => (t.take(open) + value + rest, unknown),
                None => (
                    t.take(open) + (seq!['{'] + name + seq!['}']) + rest,
                    seq![name] + unknown,
                ),
            }
        }
    }
}

#[via_fn]
proof fn filled_decreases(t: Seq<char>, vars: Seq<(Seq<char>, Seq<char>)>) {
    lemma_place(t, '{');
    let open = place_of(t, '{') as int;
    if open < t.len() {
        lemma_place(t.skip(open + 1), '}');
    }
}

proof fn lemma_place(s: Seq<char>, c: char)
    ensures
        place_of(s, c) <= s.len(),
        place_of(s, c) < s.len() ==> s[place_of(s, c) as int] == c,
        forall|i: int| 0 <= i < place_of(s, c) ==> #[trigger] s[i] != c,
    decreases s.len(),
{
    if s.len() > 0 && s[0] != c {
        let r = s.drop_first();
        lemma_place(r, c);
        assert forall|i: int| 0 <= i < place_of(s, c) implies #[trigger] s[i] != c by {
            if i > 0 {
                assert(r[i - 1] != c);
            }
        }
    }
}

proof fn lemma_place_from(s: Seq<char>, from: int, at: int, c: char)
    requires
        0 <= from <= at <= s.len(),
        forall|i: int| from <= i < at ==> #[trigger] s[i] != c,
        at < s.len() ==> s[at] == c,
    ensures
        place_of(s.skip(from), c) == at - from,
    decreases at - from,
{
    if from < at {
        assert(s[from] != c);
        assert(s.skip(from).drop_first() == s.skip(from + 1));
        lemma_place_from(s, from + 1, at, c);
    }
}

/// The place of a character from a position on, or the end.
fn seek(chars: &Vec<char>, from: usize, c: char) -> (at: usize)
    requires
        from <= chars@.len(),
    ensures
        from <= at <= chars@.len(),
        place_of(chars@.skip(from as int), c) == at - from,
{
    let mut at: usize = from;
    while at < chars.len() && chars[at] != c
        invariant
            from <= at <= chars@.len(),
            forall|i: int| from <= i < at ==> #[trigger] chars@[i] != c,
        decreases chars@.len() - at,
    {
        at += 1;
    }
    proof {
        lemma_place_from(chars@, from as int, at as int, c);
    }
    at
}

/// The place of the first variable with a name.
fn seek_var(vars: &[(String, String)], name: &str) -> (r: Option<usize>)
    ensures
        r matches Some(i) ==> i < vars@.len() && value_of(vars_view(vars@), name@) == Some(
            vars@[i as int].1@,
        ),
        r is None ==> value_of(vars_view(vars@), name@) is None,
{
    let ghost all = vars_view(vars@);
    let mut i: usize = 0;
    assert(all.skip(0) == all);
    while i < vars.len()
        invariant
            all == vars_view(vars@),
            i <= vars@.len(),
            value_of(all.skip(i as int), name@) == value_of(all, name@),
        decreases vars@.len() - i,
    {
        assert(all.skip(i as int)[0] == (vars@[i as int].0@, vars@[i as int].1@));
        assert(all.skip(i as int).drop_first() == all.skip(i + 1));
        if same(vars[i].0.as_str(), name) {
            return Some(i);
        }
        i += 1;
    }
    None
}

proof fn lemma_filled_open(t: Seq<char>, vars: Seq<(Seq<char>, Seq<char>)>, open: int)
    requires
        open == place_of(t, '{') < t.len(),
        place_of(t.skip(open + 1), '}') >= t.skip(open + 1).len(),
    ensures
        filled(t, vars).0 == t.take(open).push('{') + filled(t.skip(open + 1), vars).0,
        filled(t, vars).1 == filled(t.skip(open + 1), vars).1,
{
    lemma_place(t, '{');
    assert(t.take(open + 1) == t.take(open).push('{'));
}

proof fn lemma_filled_name(
    t: Seq<char>,
    vars: Seq<(Seq<char>, Seq<char>)>,
    open: int,
    name: Seq<char>,
    rest: Seq<char>,
)
    requires
        open == place_of(t, '{') < t.len(),
        place_of(t.skip(open + 1), '}') < t.skip(open + 1).len(),
        name == t.skip(open + 1).take(place_of(t.skip(open + 1), '}') as int),
        rest == t.skip(open + 1).skip(place_of(t.skip(open + 1), '}') as int + 1),
    ensures
        value_of(vars, name) matches Some(value) ==> filled(t, vars).0 == t.take(open) + value + filled(
            rest,
            vars,
        ).0 && filled(t, vars).1 == filled(rest, vars).1,
        value_of(vars, name) is None ==> filled(t, vars).0 == t.take(open) + (seq!['{'] + name
            + seq!['}']) + filled(rest, vars).0 && filled(t, vars).1 == seq![name] + filled(
            rest,
            vars,
        ).1,
{
}

/// Replaces the placeholders `{name}` of a template, and lists the names that no variable has.
#[verifier::spinoff_prover]
#[verifier::rlimit(30)]
pub fn substitute(template: &str, vars: &[(String, String)]) -> (r: (String, Vec<String>))
    ensures
        (r.0@, texts(r.1@)) == filled(template@, vars_view(vars@)),
{
    let chars = chars_of(template);
    let ghost all = vars_view(vars@);
    let mut out = String::new();
    let mut unknown: Vec<String> = Vec::new();
    let mut from: usize = 0;
    assert(chars@.skip(0) == template@);
    proof {
        let f = filled(template@, all);
        assert(out@ + f.0 == f.0);
        assert(texts(unknown@) + f.1 == f.1);
    }
    while from < chars.len()
        invariant
            chars@ == template@,
            from <= chars@.len(),
            all == vars_view(vars@),
            out@ + filled(chars@.skip(from as int), all).0 == filled(template@, all).0,
            texts(unknown@) + filled(chars@.skip(from as int), all).1 == filled(template@, all).1,
        decreases chars@.len() - from,
    {
        let ghost t = chars@.skip(from as int);
        let ghost out0 = out@;
        let ghost unknown0 = texts(unknown@);
        let open = seek(&chars, from, '{');
        let before = text_between(&chars, from, open);
        assert(before@ == t.take(open - from));
        out.append(before.as_str());
        if open == chars.len() {
            assert(before@ == t);
            assert(chars@.skip(open as int) == Seq::<char>::empty());
            from = open;
        } else {
            let ghost after = t.skip(open - from + 1);
            assert(after == chars@.skip(open + 1));
            let close = seek(&chars, open + 1, '}');
            if close == chars.len() {
                out.push('{');
                proof {
                    lemma_filled_open(t, all, open - from);
                    let more = filled(after, all).0;
                    assert(out@ + more == out0 + (before@.push('{') + more));
                }
                from = open + 1;
            } else {
                let name = text_between(&chars, open + 1, close);
                assert(name@ == after.take(close - open - 1));
                let ghost rest = after.skip(close - open);
                assert(rest == chars@.skip(close + 1));
                let ghost more = filled(rest, all);
                proof {
                    lemma_filled_name(t, all, open - from, name@, rest);
                }
                match seek_var(vars, name.as_str()) {
                    Some(i) => {
                        out.append(vars[i].1.as_str());
                        let ghost value = vars@[i as int].1@;
                        assert(out@ + more.0 == out0 + (before@ + value + more.0));
                    },
                    None => {
                        out.push('{');
                        out.append(name.as_str());
                        out.push('}');
                        let ghost kept = seq!['{'] + name@ + seq!['}'];
                        assert(out@ == out0 + before@ + kept);
                        assert(out@ + more.0 == out0 + (before@ + kept + more.0));
                        unknown.push(name);
                        assert(texts(unknown@) == unknown0.push(name@));
                        assert(texts(unknown@) + more.1 == unknown0 + (seq![name@] + more.1));
                    },
                }
                from = close + 1;
            }
        }
    }
    proof {
        let t = chars@.skip(from as int);
        assert(t == Seq::<char>::empty());
        assert(filled(t, all) == (Seq::<char>::empty(), Seq::<Seq<char>>::empty()));
        assert(out@ + filled(t, all).0 == out@);
        assert(texts(unknown@) + filled(t, all).1 == texts(unknown@));
    }
    (out, unknown)
}

/// A template without placeholders is the message itself.
pub proof fn law_plain_template_is_kept(t: Seq<char>, vars: Seq<(Seq<char>, Seq<char>)>)
    requires
        !t.contains('{'),
    ensures
        filled(t, vars) == (t, Seq::<Seq<char>>::empty()),
{
    lemma_place(t, '{');
    let open = place_of(t, '{') as int;
    if open < t.len() {
        assert(t[open] == '{');
    }
}

/// Where no variable is known, the message is the template as it is written.
pub proof fn law_unknown_placeholders_stay(t: Seq<char>)
    ensures
        filled(t, Seq::empty()).0 == t,
    decreases t.len(),
{
    lemma_place(t, '{');
    let open = place_of(t, '{') as int;
    if open < t.len() {
        let after = t.skip(open + 1);
        lemma_place(after, '}');
        let close = place_of(after, '}') as int;
        if close < after.len() {
            let rest = after.skip(close + 1);
            law_unknown_placeholders_stay(rest);
            assert(t.take(open) + (seq!['{'] + after.take(close) + seq!['}']) + rest == t);
        } else {
            law_unknown_placeholders_stay(after);
            assert(t.take(open + 1) + after == t);
        }
    }
}

/// The names reported as unknown are names that no variable has.
pub proof fn law_reported_names_are_unknown(t: Seq<char>, vars: Seq<(Seq<char>, Seq<char>)>)
    ensures
        forall|i: int|
            0 <= i < filled(t, vars).1.len() ==> value_of(vars, #[trigger] filled(t, vars).1[i]) is None,
    decreases t.len(),
{
    lemma_place(t, '{');
    let open = place_of(t, '{') as int;
    if open < t.len() {
        let after = t.skip(open + 1);
        lemma_place(after, '}');
        let close = place_of(after, '}') as int;
        if close < after.len() {
            law_reported_names_are_unknown(after.skip(close + 1), vars);
        } else {
            law_reported_names_are_unknown(after, vars);
        }
    }
}

// ---------------------------------------------------------------------------
// Escaping
// ---------------------------------------------------------------------------

/// What stands for a character in a message: an entity for the four that mean something in HTML.
pub open spec fn entity(c: char) -> Seq<char> {
    if c == '&' {
        "&amp;"@
    } else if c == '<' {
        "&lt;"@
    } else if c == '>' {
        "&gt;"@
    } else if c == '"' {
        "&quot;"@
    } else {
        seq![c]
    }
}

/// A text with its HTML characters escaped.
pub open spec fn escaped(s: Seq<char>) -> Seq<char>
    decreases s.len(),
{
    if s.len() == 0 {
        Seq::empty()
    } else {
        escaped(s.drop_last()) + entity(s.last())
    }
}

/// Escapes `&`, `<`, `>` and `"`.
pub fn escape_html(value: &str) -> (r: String)
    ensures
        r@ == escaped(value@),
{
    let chars = chars_of(value);
    let mut out = String::new();
    let mut i: usize = 0;
    while i < chars.len()
        invariant
            chars@ == value@,
            i <= chars@.len(),
            out@ == escaped(chars@.take(i as int)),
        decreases chars@.len() - i,
    {
        let c = chars[i];
        if c == '&' {
            out.append("&amp;");
        } else if c == '<' {
            out.append("&lt;");
        } else if c == '>' {
            out.append("&gt;");
        } else if c == '"' {
            out.append("&quot;");
        } else {
            out.push(c);
        }
        i += 1;
        assert(chars@.take(i as int).drop_last() == chars@.take(i - 1));
        assert(out@ == escaped(chars@.take(i as int)));
    }
    assert(chars@.take(i as int) == chars@);
    out
}

/// An escaped value holds no character that opens or closes a tag or ends an attribute.
pub proof fn law_escaped_value_is_inert(s: Seq<char>)
    ensures
        !escaped(s).contains('<'),
        !escaped(s).contains('>'),
        !escaped(s).contains('"'),
    decreases s.len(),
{
    if s.len() > 0 {
        law_escaped_value_is_inert(s.drop_last());
        let (a, b) = (escaped(s.drop_last()), entity(s.last()));
        lemma_entity_is_inert(s.last());
        assert forall|c: char| !a.contains(c) && !b.contains(c) implies !(#[trigger] (
        a + b).contains(c)) by {
            if (a + b).contains(c) {
                let k = choose|k: int| 0 <= k < (a + b).len() && (a + b)[k] == c;
                if k < a.len() {
                    assert(a[k] == c);
                } else {
                    assert(b[k - a.len()] == c);
                }
            }
        }
    }
}

proof fn lemma_entity_is_inert(c: char)
    ensures
        !entity(c).contains('<'),
        !entity(c).contains('>'),
        !entity(c).contains('"'),
{
    reveal_strlit("&amp;");
    reveal_strlit("&lt;");
    reveal_strlit("&gt;");
    reveal_strlit("&quot;");
}

/// The character that an escaped text begins with, and how long its escape is.
pub open spec fn first_unescaped(s: Seq<char>) -> (char, int) {
    if s.len() > 0 && s[0] == '&' {
        if s.len() > 1 && s[1] == 'a' {
            ('&', 5)
        } else if s.len() > 1 && s[1] == 'l' {
            ('<', 4)
        } else if s.len() > 1 && s[1] == 'g' {
            ('>', 4)
        } else {
            ('"', 6)
        }
    } else {
        (s[0], 1)
    }
}

/// The text whose escape a text is.
pub open spec fn unescaped(s: Seq<char>) -> Seq<char>
    decreases s.len(),
{
    let (c, size) = first_unescaped(s);
    if s.len() == 0 {
        Seq::empty()
    } else if size > s.len() {
        Seq::empty()
    } else {
        seq![c] + unescaped(s.skip(size))
    }
}

proof fn lemma_escape_front(s: Seq<char>)
    requires
        s.len() > 0,
    ensures
        escaped(s) == entity(s[0]) + escaped(s.drop_first()),
    decreases s.len(),
{
    if s.len() == 1 {
        assert(s.drop_last() == Seq::<char>::empty());
        assert(s.drop_first() == Seq::<char>::empty());
        assert(escaped(s.drop_last()) == Seq::<char>::empty());
        assert(escaped(s) == entity(s[0]));
        assert(entity(s[0]) + escaped(s.drop_first()) == entity(s[0]));
    } else {
        let init = s.drop_last();
        lemma_escape_front(init);
        assert(init.drop_first() == s.drop_first().drop_last());
        assert(s.drop_first().last() == s.last());
        assert(entity(s[0]) + escaped(init.drop_first()) + entity(s.last()) == entity(s[0]) + (
        escaped(init.drop_first()) + entity(s.last())));
    }
}

/// Escaping loses nothing: the reader sees the value as it was.
pub proof fn law_escape_is_undone(s: Seq<char>)
    ensures
        unescaped(escaped(s)) == s,
    decreases s.len(),
{
    if s.len() > 0 {
        lemma_escape_front(s);
        law_escape_is_undone(s.drop_first());
        reveal_strlit("&amp;");
        reveal_strlit("&lt;");
        reveal_strlit("&gt;");
        reveal_strlit("&quot;");
        let e = escaped(s);
        let head = entity(s[0]);
        let tail = escaped(s.drop_first());
        assert(e[0] == head[0]);
        assert(head.len() > 1 ==> e[1] == head[1]);
        assert(first_unescaped(e) == (s[0], head.len() as int));
        assert(e.skip(head.len() as int) == tail);
        assert(seq![s[0]] + s.drop_first() == s);
    }
}

/// A placeholder is replaced by what its name stands for, and what is before it stays. What is put
/// in is not looked at again.
pub proof fn law_placeholders_are_replaced(
    before: Seq<char>,
    name: Seq<char>,
    value: Seq<char>,
    behind: Seq<char>,
    vars: Seq<(Seq<char>, Seq<char>)>,
)
    requires
        !before.contains('{'),
        !name.contains('}'),
        value_of(vars, name) == Some(value),
    ensures
        filled(before + seq!['{'] + name + seq!['}'] + behind, vars) == (
            before + value + filled(behind, vars).0,
            filled(behind, vars).1,
        ),
{
    lemma_first_placeholder(before, name, behind, vars);
}

/// A placeholder whose name nothing stands for stays as it is written, and is reported.
pub proof fn law_strange_placeholders_are_reported(
    before: Seq<char>,
    name: Seq<char>,
    behind: Seq<char>,
    vars: Seq<(Seq<char>, Seq<char>)>,
)
    requires
        !before.contains('{'),
        !name.contains('}'),
        value_of(vars, name) is None,
    ensures
        filled(before + seq!['{'] + name + seq!['}'] + behind, vars) == (
            before + seq!['{'] + name + seq!['}'] + filled(behind, vars).0,
            seq![name] + filled(behind, vars).1,
        ),
{
    lemma_first_placeholder(before, name, behind, vars);
    let rest = filled(behind, vars).0;
    assert(before + (seq!['{'] + name + seq!['}']) + rest == before + seq!['{'] + name + seq!['}']
        + rest);
}

/// A brace that nothing closes stays.
pub proof fn law_open_braces_stay(
    before: Seq<char>,
    behind: Seq<char>,
    vars: Seq<(Seq<char>, Seq<char>)>,
)
    requires
        !before.contains('{'),
        !behind.contains('}'),
    ensures
        filled(before + seq!['{'] + behind, vars) == (
            before + seq!['{'] + behind,
            Seq::<Seq<char>>::empty(),
        ),
    decreases behind.len(),
{
    let t = before + seq!['{'] + behind;
    let open = before.len() as int;
    assert(t.take(open) == before);
    lemma_whole_place(t, open, '{', before);
    assert(t.skip(open + 1) == behind);
    lemma_place(behind, '}');
    if place_of(behind, '}') < behind.len() {
        assert(behind.contains(behind[place_of(behind, '}') as int]));
    }
    assert(t.take(open + 1) == before + seq!['{']);
    lemma_place(behind, '{');
    let next = place_of(behind, '{') as int;
    if next >= behind.len() {
        assert(filled(behind, vars) == (behind, Seq::<Seq<char>>::empty()));
    } else {
        let head = behind.take(next);
        let tail = behind.skip(next + 1);
        assert(behind == head + seq!['{'] + tail);
        assert forall|c: char| head.contains(c) implies c != '{' by {
            let i = choose|i: int| 0 <= i < head.len() && head[i] == c;
            assert(behind[i] == c);
        }
        assert forall|c: char| tail.contains(c) implies c != '}' by {
            let i = choose|i: int| 0 <= i < tail.len() && tail[i] == c;
            assert(behind[i + next + 1] == c);
        }
        law_open_braces_stay(head, tail, vars);
    }
}

proof fn lemma_whole_place(t: Seq<char>, at: int, c: char, before: Seq<char>)
    requires
        0 <= at < t.len(),
        before == t.take(at),
        !before.contains(c),
        t[at] == c,
    ensures
        place_of(t, c) == at,
{
    assert forall|i: int| 0 <= i < at implies #[trigger] t[i] != c by {
        assert(before[i] == t[i]);
    }
    lemma_place_from(t, 0, at, c);
    assert(t.skip(0) == t);
}

proof fn lemma_first_placeholder(
    before: Seq<char>,
    name: Seq<char>,
    behind: Seq<char>,
    vars: Seq<(Seq<char>, Seq<char>)>,
)
    requires
        !before.contains('{'),
        !name.contains('}'),
    ensures
        ({
            let t = before + seq!['{'] + name + seq!['}'] + behind;
            let rest = filled(behind, vars);
            match value_of(vars, name) {
                Some(value) => filled(t, vars) == (before + value + rest.0, rest.1),
                None => filled(t, vars) == (
                    before + (seq!['{'] + name + seq!['}']) + rest.0,
                    seq![name] + rest.1,
                ),
            }
        }),
{
    let t = before + seq!['{'] + name + seq!['}'] + behind;
    let open = before.len() as int;
    assert(t.take(open) == before);
    lemma_whole_place(t, open, '{', before);
    let after = t.skip(open + 1);
    assert(after == name + seq!['}'] + behind);
    let close = name.len() as int;
    assert(after.take(close) == name);
    lemma_whole_place(after, close, '}', name);
    assert(after.skip(close + 1) == behind);
}

/// A name stands for the value of the first entry under it.
pub proof fn law_names_are_looked_up(
    before: Seq<(Seq<char>, Seq<char>)>,
    name: Seq<char>,
    value: Seq<char>,
    behind: Seq<(Seq<char>, Seq<char>)>,
)
    requires
        forall|i: int| 0 <= i < before.len() ==> (#[trigger] before[i]).0 != name,
    ensures
        value_of(before.push((name, value)) + behind, name) == Some(value),
        value_of(before, name) is None,
    decreases before.len(),
{
    let all = before.push((name, value)) + behind;
    if before.len() > 0 {
        let rest = before.drop_first();
        assert(before[0].0 != name);
        assert forall|i: int| 0 <= i < rest.len() implies (#[trigger] rest[i]).0 != name by {
            assert(before[i + 1].0 != name);
        }
        law_names_are_looked_up(rest, name, value, behind);
        assert(all.drop_first() == rest.push((name, value)) + behind);
        assert(all[0] == before[0]);
    } else {
        assert(all[0] == (name, value));
    }
}

/// The four characters of markup are written as their entities, one by one, and every other
/// character as it is.
pub proof fn law_escaping_goes_by_characters(a: Seq<char>, c: char, b: Seq<char>)
    ensures
        escaped(a.push(c) + b) == escaped(a) + escaped(seq![c]) + escaped(b),
        escaped(seq!['&']) == "&amp;"@,
        escaped(seq!['<']) == "&lt;"@,
        escaped(seq!['>']) == "&gt;"@,
        escaped(seq!['"']) == "&quot;"@,
        c != '&' && c != '<' && c != '>' && c != '"' ==> escaped(seq![c]) == seq![c],
    decreases b.len(),
{
    lemma_escape_one(c);
    lemma_escape_one('&');
    lemma_escape_one('<');
    lemma_escape_one('>');
    lemma_escape_one('"');
    let all = a.push(c) + b;
    if b.len() == 0 {
        assert(all == a.push(c));
        assert(all.drop_last() == a);
    } else {
        law_escaping_goes_by_characters(a, c, b.drop_last());
        assert(all.drop_last() == a.push(c) + b.drop_last());
        assert(all.last() == b.last());
    }
}

proof fn lemma_escape_one(c: char)
    ensures
        escaped(seq![c]) == entity(c),
{
    reveal_with_fuel(escaped, 2);
    assert(seq![c].drop_last() == Seq::<char>::empty());
    assert(Seq::<char>::empty() + entity(c) == entity(c));
}

/// A text without characters of markup is not changed by escaping.
pub proof fn law_plain_values_are_kept(s: Seq<char>)
    requires
        !s.contains('&'),
        !s.contains('<'),
        !s.contains('>'),
        !s.contains('"'),
    ensures
        escaped(s) == s,
    decreases s.len(),
{
    if s.len() > 0 {
        let init = s.drop_last();
        assert forall|c: char| init.contains(c) implies s.contains(c) by {
            let i = choose|i: int| 0 <= i < init.len() && init[i] == c;
            assert(s[i] == c);
        }
        law_plain_values_are_kept(init);
        assert(s[s.len() - 1] == s.last());
        assert(s.contains(s.last()));
        assert(init + seq![s.last()] == s);
    }
}

/// The first entry under a name gives what the name stands for.
pub proof fn law_the_first_entry_counts(
    vars: Seq<(Seq<char>, Seq<char>)>,
    name: Seq<char>,
    at: int,
)
    requires
        0 <= at < vars.len(),
        vars[at].0 == name,
        forall|i: int| 0 <= i < at ==> (#[trigger] vars[i]).0 != name,
    ensures
        value_of(vars, name) == Some(vars[at].1),
{
    law_names_are_looked_up(vars.take(at), name, vars[at].1, vars.skip(at + 1));
    assert(vars == vars.take(at).push((name, vars[at].1)) + vars.skip(at + 1));
}

} // verus!
