//! Text: decimal numbers, quoted strings and escaping.
use vstd::prelude::*;
use vstd::string::*;

verus! {

/// `String::push` appends one character.
pub assume_specification[ String::push ](s: &mut String, c: char)
    ensures
        final(s)@ == old(s)@.push(c),
;

/// The decimal digit `d`.
pub open spec fn digit(d: int) -> char {
    if d == 0 {
        '0'
    } else if d == 1 {
        '1'
    } else if d == 2 {
        '2'
    } else if d == 3 {
        '3'
    } else if d == 4 {
        '4'
    } else if d == 5 {
        '5'
    } else if d == 6 {
        '6'
    } else if d == 7 {
        '7'
    } else if d == 8 {
        '8'
    } else {
        '9'
    }
}

/// `n` written in decimal, without leading zeros.
pub open spec fn decimal(n: nat) -> Seq<char>
    decreases n,
{
    if n < 10 {
        seq![digit(n as int)]
    } else {
        decimal(n / 10).push(digit((n % 10) as int))
    }
}

/// An optional number as `None` or `Some(n)`.
pub open spec fn optional_decimal(n: Option<u64>) -> Seq<char> {
    match n {
        None => "None"@,
        Some(count) => "Some("@ + decimal(count as nat) + ")"@,
    }
}

/// Numbers that read the same are the same.
pub proof fn law_decimal_is_injective(a: nat, b: nat)
    requires
        decimal(a) == decimal(b),
    ensures
        a == b,
    decreases a,
{
    let (x, y) = (decimal(a), decimal(b));
    lemma_decimal_nonempty(a / 10);
    lemma_decimal_nonempty(b / 10);
    assert(x.last() == y.last());
    assert(x.last() == digit((a % 10) as int));
    assert(y.last() == digit((b % 10) as int));
    if a >= 10 && b >= 10 {
        assert(x.drop_last() == decimal(a / 10));
        assert(y.drop_last() == decimal(b / 10));
        law_decimal_is_injective(a / 10, b / 10);
    } else if a >= 10 {
        assert(x.len() >= 2);
    } else if b >= 10 {
        assert(y.len() >= 2);
    }
}

proof fn lemma_decimal_nonempty(n: nat)
    ensures
        decimal(n).len() >= 1,
    decreases n,
{
    if n >= 10 {
        lemma_decimal_nonempty(n / 10);
    }
}

fn digit_char(d: u64) -> (r: char)
    requires
        d < 10,
    ensures
        r == digit(d as int),
{
    match d {
        0 => '0',
        1 => '1',
        2 => '2',
        3 => '3',
        4 => '4',
        5 => '5',
        6 => '6',
        7 => '7',
        8 => '8',
        _ => '9',
    }
}

/// Appends `n` in decimal.
pub fn push_decimal(out: &mut String, n: u64)
    ensures
        final(out)@ == old(out)@ + decimal(n as nat),
    decreases n,
{
    if n >= 10 {
        push_decimal(out, n / 10);
    }
    out.push(digit_char(n % 10));
}

/// Appends an optional number, as `None` or `Some(n)`.
pub fn push_optional_decimal(out: &mut String, n: Option<u64>)
    ensures
        final(out)@ == old(out)@ + optional_decimal(n),
{
    match n {
        None => out.append("None"),
        Some(count) => {
            out.append("Some(");
            push_decimal(out, count);
            out.append(")");
        },
    }
}

/// What `format!("{:?}", s)` writes for a string: the text in quotes, with the
/// escapes that std gives to it.
pub uninterp spec fn debug_form(text: Seq<char>) -> Seq<char>;

/// Calls `format!` with the `{:?}` form of a string. What is claimed is that
/// the outcome depends on the string's text alone; the escaping rules
/// themselves are std's and are not spelled out.
#[verifier::external_body]
pub(crate) fn debug_text(s: &str) -> (r: String)
    ensures
        r@ == debug_form(s@),
{
    format!("{:?}", s)
}

/// How one character stands inside a JSON string.
pub open spec fn json_char(c: char) -> Seq<char> {
    if c == '\\' {
        seq!['\\', '\\']
    } else if c == '"' {
        seq!['\\', '"']
    } else if c == '\n' {
        seq!['\\', 'n']
    } else if c == '\r' {
        seq!['\\', 'r']
    } else {
        seq![c]
    }
}

/// How a text stands inside a JSON string.
pub open spec fn json_form(text: Seq<char>) -> Seq<char>
    decreases text.len(),
{
    if text.len() == 0 {
        Seq::empty()
    } else {
        json_form(text.drop_last()) + json_char(text.last())
    }
}

/// `text` with every `from` replaced by `to`.
pub open spec fn replaced(text: Seq<char>, from: char, to: Seq<char>) -> Seq<char>
    decreases text.len(),
{
    if text.len() == 0 {
        Seq::empty()
    } else {
        replaced(text.drop_last(), from, to) + (if text.last() == from {
            to
        } else {
            seq![text.last()]
        })
    }
}

proof fn lemma_replaced_concat(a: Seq<char>, b: Seq<char>, from: char, to: Seq<char>)
    ensures
        replaced(a + b, from, to) == replaced(a, from, to) + replaced(b, from, to),
    decreases b.len(),
{
    if b.len() == 0 {
        assert(a + b == a);
        assert(replaced(b, from, to) == Seq::<char>::empty());
        assert(replaced(a, from, to) + Seq::<char>::empty() == replaced(a, from, to));
    } else {
        assert((a + b).drop_last() == a + b.drop_last());
        lemma_replaced_concat(a, b.drop_last(), from, to);
        let tail = if b.last() == from {
            to
        } else {
            seq![b.last()]
        };
        assert((replaced(a, from, to) + replaced(b.drop_last(), from, to)) + tail == replaced(
            a,
            from,
            to,
        ) + (replaced(b.drop_last(), from, to) + tail));
    }
}

/// Escaping is four replacements, one after the other: backslashes first, then
/// quotes, line feeds and carriage returns.
pub proof fn law_json_form_is_four_replacements(text: Seq<char>)
    ensures
        json_form(text) == replaced(
            replaced(
                replaced(replaced(text, '\\', seq!['\\', '\\']), '"', seq!['\\', '"']),
                '\n',
                seq!['\\', 'n'],
            ),
            '\r',
            seq!['\\', 'r'],
        ),
    decreases text.len(),
{
    if text.len() > 0 {
        let (head, c) = (text.drop_last(), text.last());
        law_json_form_is_four_replacements(head);
        let (s0, q0, n0, r0) = (
            seq!['\\', '\\'],
            seq!['\\', '"'],
            seq!['\\', 'n'],
            seq!['\\', 'r'],
        );
        let t1 = if c == '\\' {
            s0
        } else {
            seq![c]
        };
        let h1 = replaced(head, '\\', s0);
        lemma_replaced_concat(h1, t1, '"', q0);
        let (h2, t2) = (replaced(h1, '"', q0), replaced(t1, '"', q0));
        lemma_replaced_concat(h2, t2, '\n', n0);
        let (h3, t3) = (replaced(h2, '\n', n0), replaced(t2, '\n', n0));
        lemma_replaced_concat(h3, t3, '\r', r0);
        assert(replaced(t3, '\r', r0) == json_char(c)) by {
            lemma_replaced_short(t1, '"', q0);
            lemma_replaced_short(t2, '\n', n0);
            lemma_replaced_short(t3, '\r', r0);
        }
    }
}

/// [`replaced`] on one and on two characters.
proof fn lemma_replaced_short(t: Seq<char>, from: char, to: Seq<char>)
    ensures
        t.len() == 1 ==> replaced(t, from, to) == (if t[0] == from {
            to
        } else {
            t
        }),
        t.len() == 2 && t[0] != from && t[1] != from ==> replaced(t, from, to) == t,
{
    reveal_with_fuel(replaced, 3);
    if t.len() == 1 {
        assert(t.drop_last() == Seq::<char>::empty());
        assert(replaced(t, from, to) == (if t[0] == from {
            to
        } else {
            t
        }));
    } else if t.len() == 2 && t[0] != from && t[1] != from {
        assert(t.drop_last().drop_last() == Seq::<char>::empty());
        assert(replaced(t, from, to) == t);
    }
}

/// Escaping two texts one after the other escapes the two put together.
pub proof fn law_json_form_concatenates(a: Seq<char>, b: Seq<char>)
    ensures
        json_form(a + b) == json_form(a) + json_form(b),
    decreases b.len(),
{
    if b.len() == 0 {
        assert(a + b == a);
        assert(json_form(a) + json_form(b) == json_form(a));
    } else {
        assert((a + b).drop_last() == a + b.drop_last());
        law_json_form_concatenates(a, b.drop_last());
        assert((json_form(a) + json_form(b.drop_last())) + json_char(b.last()) == json_form(a) + (
        json_form(b.drop_last()) + json_char(b.last())));
    }
}

/// The escaped form of a text begins with that of its first character.
proof fn lemma_json_form_first(text: Seq<char>)
    requires
        text.len() > 0,
    ensures
        json_form(text) == json_char(text[0]) + json_form(text.drop_first()),
{
    let head = seq![text[0]];
    assert(text == head + text.drop_first());
    law_json_form_concatenates(head, text.drop_first());
    assert(head.drop_last() == Seq::<char>::empty());
    assert(json_form(head.drop_last()) == Seq::<char>::empty());
    assert(json_form(head) == json_form(head.drop_last()) + json_char(head.last()));
    assert(json_form(head) == json_char(text[0]));
}

/// Texts that escape alike are alike: nothing is lost in a JSON string.
pub proof fn law_json_form_is_injective(a: Seq<char>, b: Seq<char>)
    requires
        json_form(a) == json_form(b),
    ensures
        a == b,
    decreases a.len(),
{
    let (x, y) = (json_form(a), json_form(b));
    if a.len() == 0 || b.len() == 0 {
        if a.len() > 0 {
            lemma_json_form_first(a);
        }
        if b.len() > 0 {
            lemma_json_form_first(b);
        }
        assert(a == b);
    } else {
        lemma_json_form_first(a);
        lemma_json_form_first(b);
        let (ra, rb) = (json_form(a.drop_first()), json_form(b.drop_first()));
        assert(x[0] == json_char(a[0])[0]);
        assert(y[0] == json_char(b[0])[0]);
        if json_char(a[0]).len() == 2 {
            assert(x[1] == json_char(a[0])[1]);
        }
        if json_char(b[0]).len() == 2 {
            assert(y[1] == json_char(b[0])[1]);
        }
        assert(a[0] == b[0]);
        let k = json_char(a[0]).len() as int;
        assert(x.subrange(k, x.len() as int) == ra);
        assert(y.subrange(k, y.len() as int) == rb);
        law_json_form_is_injective(a.drop_first(), b.drop_first());
        assert(a == seq![a[0]] + a.drop_first());
        assert(b == seq![b[0]] + b.drop_first());
    }
}

/// How many backslashes stand right before place `i`.
pub open spec fn backslashes_before(text: Seq<char>, i: int) -> nat
    decreases i,
{
    if i > 0 && text[i - 1] == '\\' {
        backslashes_before(text, i - 1) + 1
    } else {
        0
    }
}

/// [`backslashes_before`] looks only at what stands before `i`.
proof fn lemma_backslashes_of_prefix(a: Seq<char>, b: Seq<char>, i: int)
    requires
        i <= a.len(),
        i <= b.len(),
        forall|j: int| 0 <= j < i ==> a[j] == b[j],
    ensures
        backslashes_before(a, i) == backslashes_before(b, i),
    decreases i,
{
    if i > 0 {
        lemma_backslashes_of_prefix(a, b, i - 1);
    }
}

/// An escaped text ends in an even run of backslashes: none of them escapes what
/// follows.
proof fn lemma_backslashes_at_the_end(text: Seq<char>)
    ensures
        backslashes_before(json_form(text), json_form(text).len() as int) % 2 == 0,
    decreases text.len(),
{
    if text.len() > 0 {
        let head = json_form(text.drop_last());
        let whole = json_form(text);
        let n = head.len() as int;
        lemma_backslashes_at_the_end(text.drop_last());
        lemma_backslashes_of_prefix(head, whole, n);
        if text.last() == '\\' {
            assert(whole[n] == '\\' && whole[n + 1] == '\\');
            assert(backslashes_before(whole, n + 1) == backslashes_before(whole, n) + 1);
            assert(backslashes_before(whole, n + 2) == backslashes_before(whole, n + 1) + 1);
        } else {
            assert(whole[whole.len() - 1] != '\\');
        }
    }
}

/// An escaped text stays on one line, and no quote in it ends the string: an odd
/// run of backslashes stands before each, so that the last of them escapes it.
pub proof fn law_json_form_is_contained(text: Seq<char>, i: int)
    requires
        0 <= i < json_form(text).len(),
    ensures
        json_form(text)[i] != '\n',
        json_form(text)[i] != '\r',
        json_form(text)[i] == '"' ==> backslashes_before(json_form(text), i) % 2 == 1,
    decreases text.len(),
{
    if text.len() > 0 {
        let head = json_form(text.drop_last());
        let whole = json_form(text);
        let n = head.len() as int;
        if i < n {
            law_json_form_is_contained(text.drop_last(), i);
            lemma_backslashes_of_prefix(head, whole, i);
        } else if whole[i] == '"' {
            lemma_backslashes_at_the_end(text.drop_last());
            lemma_backslashes_of_prefix(head, whole, n);
            assert(i == n + 1 && whole[n] == '\\');
        }
    }
}

/// Escapes a text for use inside a JSON string.
pub fn json_escape(value: &str) -> (r: String)
    ensures
        r@ == json_form(value@),
{
    let mut out: String = String::new();
    proof {
        assert(value@.take(0) == Seq::<char>::empty());
    }
    for c in it: value.chars()
        invariant
            it.seq() == value@,
            out@ == json_form(value@.take(it.index() as int)),
    {
        proof {
            let k = it.index() as int;
            assert(value@.take(k + 1).drop_last() == value@.take(k));
        }
        if c == '\\' {
            out.push('\\');
            out.push('\\');
        } else if c == '"' {
            out.push('\\');
            out.push('"');
        } else if c == '\n' {
            out.push('\\');
            out.push('n');
        } else if c == '\r' {
            out.push('\\');
            out.push('r');
        } else {
            out.push(c);
        }
    }
    proof {
        assert(value@.take(value@.len() as int) == value@);
    }
    out
}

} // verus!
