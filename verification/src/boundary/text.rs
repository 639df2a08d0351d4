//! Text building blocks shared by the boundary: decimal and hexadecimal
//! rendering, JSON string escaping, and character-class predicates.

use vstd::prelude::*;
use vstd::std_specs::iter::IteratorSpec;

verus! {

/// Appends one character to a `String` (std's `String::push`).
/// Claimed: the string afterwards is the old one followed by `c`.
#[verifier::external_body]
pub(crate) fn push_char(s: &mut String, c: char)
    ensures
        final(s)@ == old(s)@.push(c),
{
    s.push(c);
}

/// Appends every character of `t` to `s`.
pub fn push_str(s: &mut String, t: &str)
    ensures
        final(s)@ == old(s)@ + t@,
{
    s.append(t);
}

// ---------------------------------------------------------------- decimal

pub open spec fn digit_char(d: nat) -> char
    recommends
        d < 10,
{
    if d == 0 { '0' }
    else if d == 1 { '1' }
    else if d == 2 { '2' }
    else if d == 3 { '3' }
    else if d == 4 { '4' }
    else if d == 5 { '5' }
    else if d == 6 { '6' }
    else if d == 7 { '7' }
    else if d == 8 { '8' }
    else { '9' }
}

/// The decimal rendering of `n`, most significant digit first, no leading zeros.
pub open spec fn decimal(n: nat) -> Seq<char>
    decreases n,
{
    if n < 10 {
        seq![digit_char(n)]
    } else {
        decimal(n / 10).push(digit_char(n % 10))
    }
}

fn digit_to_char(d: u64) -> (c: char)
    requires
        d < 10,
    ensures
        c == digit_char(d as nat),
{
    if d == 0 { '0' }
    else if d == 1 { '1' }
    else if d == 2 { '2' }
    else if d == 3 { '3' }
    else if d == 4 { '4' }
    else if d == 5 { '5' }
    else if d == 6 { '6' }
    else if d == 7 { '7' }
    else if d == 8 { '8' }
    else { '9' }
}

/// Appends the decimal rendering of `n` to `s`.
pub fn push_decimal(s: &mut String, n: u64)
    ensures
        final(s)@ == old(s)@ + decimal(n as nat),
    decreases n,
{
    if n < 10 {
        push_char(s, digit_to_char(n));
        assert(decimal(n as nat) == seq![digit_char(n as nat)]);
        assert(old(s)@.push(digit_char(n as nat)) =~= old(s)@ + seq![digit_char(n as nat)]);
    } else {
        push_decimal(s, n / 10);
        push_char(s, digit_to_char(n % 10));
        assert(old(s)@ + decimal(n as nat) =~= (old(s)@ + decimal((n / 10) as nat)).push(
            digit_char((n % 10) as nat),
        ));
    }
}

// ---------------------------------------------------------------- hexadecimal

pub open spec fn hex_digit_char(d: nat) -> char
    recommends
        d < 16,
{
    if d < 10 {
        digit_char(d)
    } else if d == 10 { 'a' }
    else if d == 11 { 'b' }
    else if d == 12 { 'c' }
    else if d == 13 { 'd' }
    else if d == 14 { 'e' }
    else { 'f' }
}

/// Lower-case hexadecimal rendering of a byte string, two digits per byte.
pub open spec fn hex_lower(bytes: Seq<u8>) -> Seq<char>
    decreases bytes.len(),
{
    if bytes.len() == 0 {
        seq![]
    } else {
        hex_lower(bytes.drop_last()) + seq![
            hex_digit_char((bytes.last() / 16) as nat),
            hex_digit_char((bytes.last() % 16) as nat),
        ]
    }
}

fn hex_digit_to_char(d: u8) -> (c: char)
    requires
        d < 16,
    ensures
        c == hex_digit_char(d as nat),
{
    if d < 10 {
        digit_to_char(d as u64)
    } else if d == 10 { 'a' }
    else if d == 11 { 'b' }
    else if d == 12 { 'c' }
    else if d == 13 { 'd' }
    else if d == 14 { 'e' }
    else { 'f' }
}

pub open spec fn is_lower_hex_char(c: char) -> bool {
    ('0' <= c <= '9') || ('a' <= c <= 'f')
}

pub proof fn lemma_hex_lower_shape(bytes: Seq<u8>)
    ensures
        hex_lower(bytes).len() == 2 * bytes.len(),
        forall|i: int| 0 <= i < hex_lower(bytes).len() ==> is_lower_hex_char(#[trigger] hex_lower(bytes)[i]),
    decreases bytes.len(),
{
    if bytes.len() > 0 {
        lemma_hex_lower_shape(bytes.drop_last());
    }
}

/// Lower-case hexadecimal rendering of `bytes` as a new string.
pub fn to_hex_lower(bytes: &[u8]) -> (r: String)
    ensures
        r@ == hex_lower(bytes@),
{
    let mut r = String::new();
    let mut i: usize = 0;
    while i < bytes.len()
        invariant
            i <= bytes@.len(),
            r@ == hex_lower(bytes@.subrange(0, i as int)),
        decreases bytes@.len() - i,
    {
        let b = bytes[i];
        push_char(&mut r, hex_digit_to_char(b / 16));
        push_char(&mut r, hex_digit_to_char(b % 16));
        proof {
            let pre = bytes@.subrange(0, i as int);
            let next = bytes@.subrange(0, i + 1);
            assert(next.drop_last() =~= pre);
            assert(next.last() == b);
        }
        i = i + 1;
    }
    assert(bytes@.subrange(0, bytes@.len() as int) =~= bytes@);
    r
}

// ---------------------------------------------------------------- JSON strings

/// How a JSON encoder writes one character inside a string literal: quote,
/// backslash and the C0 control characters are escaped, everything else is
/// written as itself.
pub open spec fn json_escape_char(c: char) -> Seq<char> {
    if c == '"' {
        seq!['\\', '"']
    } else if c == '\\' {
        seq!['\\', '\\']
    } else if c == '\u{8}' {
        seq!['\\', 'b']
    } else if c == '\t' {
        seq!['\\', 't']
    } else if c == '\n' {
        seq!['\\', 'n']
    } else if c == '\u{c}' {
        seq!['\\', 'f']
    } else if c == '\r' {
        seq!['\\', 'r']
    } else if (c as u32) < 0x20 {
        seq!['\\', 'u', '0', '0', hex_digit_char(((c as u32) / 16) as nat), hex_digit_char(((c as u32) % 16) as nat)]
    } else {
        seq![c]
    }
}

pub open spec fn json_escape(s: Seq<char>) -> Seq<char>
    decreases s.len(),
{
    if s.len() == 0 {
        seq![]
    } else {
        json_escape(s.drop_last()) + json_escape_char(s.last())
    }
}

/// A JSON string literal holding `s`.
pub open spec fn json_string(s: Seq<char>) -> Seq<char> {
    seq!['"'] + json_escape(s) + seq!['"']
}

fn push_json_escaped_char(out: &mut String, c: char)
    ensures
        final(out)@ == old(out)@ + json_escape_char(c),
{
    if c == '"' {
        push_char(out, '\\');
        push_char(out, '"');
    } else if c == '\\' {
        push_char(out, '\\');
        push_char(out, '\\');
    } else if c == '\u{8}' {
        push_char(out, '\\');
        push_char(out, 'b');
    } else if c == '\t' {
        push_char(out, '\\');
        push_char(out, 't');
    } else if c == '\n' {
        push_char(out, '\\');
        push_char(out, 'n');
    } else if c == '\u{c}' {
        push_char(out, '\\');
        push_char(out, 'f');
    } else if c == '\r' {
        push_char(out, '\\');
        push_char(out, 'r');
    } else if (c as u32) < 0x20 {
        let code = c as u32;
        push_char(out, '\\');
        push_char(out, 'u');
        push_char(out, '0');
        push_char(out, '0');
        push_char(out, hex_digit_to_char((code / 16) as u8));
        push_char(out, hex_digit_to_char((code % 16) as u8));
    } else {
        push_char(out, c);
    }
    assert(final(out)@ =~= old(out)@ + json_escape_char(c));
}

/// Appends the JSON string literal for `s` to `out`.
pub fn push_json_string(out: &mut String, s: &str)
    ensures
        final(out)@ == old(out)@ + json_string(s@),
{
    let ghost start = out@;
    push_char(out, '"');
    let mut it = s.chars();
    let ghost mut done: Seq<char> = Seq::empty();
    loop
        invariant
            it.obeys_prophetic_iter_laws(),
            it.decrease() is Some,
            s@ == done + it.remaining(),
            out@ == start.push('"') + json_escape(done),
        ensures
            out@ == start.push('"') + json_escape(s@),
        decreases it.decrease()->0,
    {
        match it.next() {
            Some(c) => {
                push_json_escaped_char(out, c);
                proof {
                    let nd = done.push(c);
                    assert(nd.drop_last() =~= done);
                    assert(s@ =~= nd + it.remaining());
                    done = nd;
                }
            },
            None => {
                assert(done =~= s@);
                break;
            },
        }
    }
    push_char(out, '"');
    assert(out@ =~= start + json_string(s@));
}

// ---------------------------------------------------------------- lists

/// The items with `sep` between neighbours.
pub open spec fn join_with(items: Seq<Seq<char>>, sep: char) -> Seq<char>
    decreases items.len(),
{
    if items.len() == 0 {
        seq![]
    } else if items.len() == 1 {
        items[0]
    } else {
        join_with(items.drop_last(), sep) + seq![sep] + items.last()
    }
}

pub proof fn lemma_join_with_step(items: Seq<Seq<char>>, i: int, sep: char)
    requires
        0 <= i < items.len(),
    ensures
        join_with(items.take(i + 1), sep) == if i == 0 {
            items[0]
        } else {
            join_with(items.take(i), sep) + seq![sep] + items[i]
        },
{
    let t = items.take(i + 1);
    assert(t.drop_last() =~= items.take(i));
    assert(t.last() == items[i]);
    if i == 0 {
        assert(t.len() == 1);
        assert(t[0] == items[0]);
    }
}

/// A JSON array whose elements are the already-encoded `items`.
pub open spec fn json_list(items: Seq<Seq<char>>) -> Seq<char> {
    seq!['['] + join_with(items, ',') + seq![']']
}

/// A JSON array of strings.
pub open spec fn json_string_array(strs: Seq<Seq<char>>) -> Seq<char> {
    json_list(strs.map_values(|s: Seq<char>| json_string(s)))
}

/// Appends the JSON array holding the given strings.
pub fn push_json_string_array(out: &mut String, strs: &Vec<String>)
    ensures
        final(out)@ == old(out)@ + json_string_array(strs@.map_values(|s: String| s@)),
{
    let ghost start = out@;
    let ghost views = strs@.map_values(|s: String| s@);
    let ghost items = views.map_values(|s: Seq<char>| json_string(s));
    push_char(out, '[');
    let mut i: usize = 0;
    assert(items.take(0) =~= Seq::<Seq<char>>::empty());
    while i < strs.len()
        invariant
            i <= strs@.len(),
            views == strs@.map_values(|s: String| s@),
            items == views.map_values(|s: Seq<char>| json_string(s)),
            out@ == start + seq!['['] + join_with(items.take(i as int), ','),
        decreases strs@.len() - i,
    {
        if i > 0 {
            push_char(out, ',');
        }
        push_json_string(out, strs[i].as_str());
        proof {
            lemma_join_with_step(items, i as int, ',');
            assert(items[i as int] == json_string(strs@[i as int]@));
            if i == 0 {
                assert(out@ =~= start + seq!['['] + join_with(items.take(1), ','));
            } else {
                assert(out@ =~= start + seq!['['] + join_with(items.take(i + 1), ','));
            }
        }
        i = i + 1;
    }
    push_char(out, ']');
    assert(items.take(strs@.len() as int) =~= items);
    assert(out@ =~= start + json_string_array(views));
}

// ---------------------------------------------------------------- JSON strings decode uniquely

proof fn lemma_hex_digit_char_injective(a: nat, b: nat)
    requires
        a < 16,
        b < 16,
        hex_digit_char(a) == hex_digit_char(b),
    ensures
        a == b,
{
}

/// `json_escape`, read from the front.
pub proof fn lemma_escape_front(s: Seq<char>)
    requires
        s.len() > 0,
    ensures
        json_escape(s) == json_escape_char(s[0]) + json_escape(s.drop_first()),
    decreases s.len(),
{
    if s.len() == 1 {
        assert(s.drop_last().len() == 0);
        assert(s.drop_first().len() == 0);
        assert(json_escape(s.drop_last()) == Seq::<char>::empty());
        assert(json_escape(s.drop_first()) == Seq::<char>::empty());
        assert(s.last() == s[0]);
        assert(json_escape(s) == json_escape(s.drop_last()) + json_escape_char(s.last()));
        assert(json_escape(s) =~= json_escape_char(s[0]) + json_escape(s.drop_first()));
    } else {
        lemma_escape_front(s.drop_last());
        let m = s.drop_last().drop_first();
        assert(m =~= s.drop_first().drop_last());
        assert(s.drop_first().last() == s.last());
        assert(s.drop_last()[0] == s[0]);
        assert(json_escape(s) == json_escape(s.drop_last()) + json_escape_char(s.last()));
        assert(json_escape(s.drop_first()) == json_escape(m) + json_escape_char(s.last()));
        assert(json_escape(s.drop_last()) == json_escape_char(s[0]) + json_escape(m));
        assert(json_escape(s) =~= json_escape_char(s[0]) + json_escape(s.drop_first()));
    }
}

proof fn lemma_escape_char_shape(c: char)
    ensures
        json_escape_char(c).len() >= 1,
        json_escape_char(c)[0] != '"',
        json_escape_char(c)[0] != '\\' ==> json_escape_char(c) == seq![c],
        json_escape_char(c)[0] == '\\' ==> json_escape_char(c).len() >= 2,
        json_escape_char(c)[0] == '\\' && json_escape_char(c)[1] == 'u' ==> {
            &&& json_escape_char(c).len() == 6
            &&& (c as u32) < 0x20
            &&& json_escape_char(c)[4] == hex_digit_char(((c as u32) / 16) as nat)
            &&& json_escape_char(c)[5] == hex_digit_char(((c as u32) % 16) as nat)
        },
        json_escape_char(c)[0] == '\\' && json_escape_char(c)[1] != 'u' ==> json_escape_char(c).len() == 2,
{
}

/// Escapes of different characters are never prefixes of one another.
proof fn lemma_escape_char_prefix(c1: char, c2: char, x: Seq<char>, y: Seq<char>)
    requires
        json_escape_char(c1) + x == json_escape_char(c2) + y,
    ensures
        c1 == c2,
        x == y,
{
    let e1 = json_escape_char(c1);
    let e2 = json_escape_char(c2);
    lemma_escape_char_shape(c1);
    lemma_escape_char_shape(c2);
    let t = e1 + x;
    assert(t[0] == e1[0]);
    assert((e2 + y)[0] == e2[0]);
    if e1[0] == '\\' {
        assert(t[1] == e1[1]);
        assert((e2 + y)[1] == e2[1]);
        if e1[1] == 'u' {
            assert(t[4] == e1[4] && t[5] == e1[5]);
            assert((e2 + y)[4] == e2[4] && (e2 + y)[5] == e2[5]);
            lemma_hex_digit_char_injective(((c1 as u32) / 16) as nat, ((c2 as u32) / 16) as nat);
            lemma_hex_digit_char_injective(((c1 as u32) % 16) as nat, ((c2 as u32) % 16) as nat);
            assert(c1 as u32 == c2 as u32);
        }
    }
    assert(e1 == e2);
    assert(x =~= t.subrange(e1.len() as int, t.len() as int));
    assert(y =~= (e2 + y).subrange(e2.len() as int, t.len() as int));
}

/// An escaped text followed by a closing quote determines the text and what
/// follows the quote.
pub proof fn lemma_escape_then_quote(a: Seq<char>, b: Seq<char>, r1: Seq<char>, r2: Seq<char>)
    requires
        json_escape(a) + seq!['"'] + r1 == json_escape(b) + seq!['"'] + r2,
    ensures
        a == b,
        r1 == r2,
    decreases a.len(),
{
    if a.len() == 0 {
        assert(json_escape(a) =~= Seq::<char>::empty());
        if b.len() > 0 {
            lemma_escape_front(b);
            lemma_escape_char_shape(b[0]);
            let rhs = json_escape(b) + seq!['"'] + r2;
            assert(rhs == json_escape_char(b[0]) + (json_escape(b.drop_first()) + seq!['"'] + r2));
            assert(rhs[0] == json_escape_char(b[0])[0]);
            assert((json_escape(a) + seq!['"'] + r1)[0] == '"');
        }
        assert(b.len() == 0);
        assert(json_escape(b) =~= Seq::<char>::empty());
        assert(r1 =~= (seq!['"'] + r1).drop_first());
        assert(r2 =~= (seq!['"'] + r2).drop_first());
        assert(a =~= b);
    } else {
        lemma_escape_front(a);
        lemma_escape_char_shape(a[0]);
        if b.len() == 0 {
            let lhs = json_escape(a) + seq!['"'] + r1;
            assert(lhs == json_escape_char(a[0]) + (json_escape(a.drop_first()) + seq!['"'] + r1));
            assert(lhs[0] == json_escape_char(a[0])[0]);
            assert(json_escape(b) =~= Seq::<char>::empty());
            assert((json_escape(b) + seq!['"'] + r2)[0] == '"');
        } else {
            lemma_escape_front(b);
            let ta = json_escape(a.drop_first()) + seq!['"'] + r1;
            let tb = json_escape(b.drop_first()) + seq!['"'] + r2;
            assert(json_escape(a) + seq!['"'] + r1 =~= json_escape_char(a[0]) + ta);
            assert(json_escape(b) + seq!['"'] + r2 =~= json_escape_char(b[0]) + tb);
            lemma_escape_char_prefix(a[0], b[0], ta, tb);
            lemma_escape_then_quote(a.drop_first(), b.drop_first(), r1, r2);
            assert(a =~= seq![a[0]] + a.drop_first());
            assert(b =~= seq![b[0]] + b.drop_first());
        }
    }
}

/// Law: a JSON string literal determines its text.
pub proof fn lemma_json_string_injective(a: Seq<char>, b: Seq<char>, r1: Seq<char>, r2: Seq<char>)
    requires
        json_string(a) + r1 == json_string(b) + r2,
    ensures
        a == b,
        r1 == r2,
{
    let t1 = json_escape(a) + seq!['"'] + r1;
    let t2 = json_escape(b) + seq!['"'] + r2;
    assert(json_string(a) + r1 =~= seq!['"'] + t1);
    assert(json_string(b) + r2 =~= seq!['"'] + t2);
    assert(t1 =~= (seq!['"'] + t1).drop_first());
    assert(t2 =~= (seq!['"'] + t2).drop_first());
    lemma_escape_then_quote(a, b, r1, r2);
}

/// What follows the first string of a JSON string array: `,` and the next
/// string and so on, then `]`.
pub open spec fn json_array_rest(strs: Seq<Seq<char>>) -> Seq<char>
    decreases strs.len(),
{
    if strs.len() == 0 {
        seq![']']
    } else {
        seq![','] + json_string(strs[0]) + json_array_rest(strs.drop_first())
    }
}

pub proof fn lemma_join_with_front(items: Seq<Seq<char>>, sep: char)
    requires
        items.len() >= 2,
    ensures
        join_with(items, sep) == items[0] + seq![sep] + join_with(items.drop_first(), sep),
    decreases items.len(),
{
    if items.len() == 2 {
        assert(items.drop_first().len() == 1);
        assert(items.drop_last().len() == 1);
        assert(join_with(items.drop_first(), sep) == items.drop_first()[0]);
        assert(items.drop_first()[0] == items.last());
        assert(join_with(items.drop_last(), sep) == items.drop_last()[0]);
        assert(items.drop_last()[0] == items[0]);
        assert(join_with(items, sep) == join_with(items.drop_last(), sep) + seq![sep] + items.last());
    } else {
        lemma_join_with_front(items.drop_last(), sep);
        let m = items.drop_last().drop_first();
        assert(m =~= items.drop_first().drop_last());
        assert(items.drop_first().last() == items.last());
        assert(items.drop_last()[0] == items[0]);
        assert(join_with(items, sep) == join_with(items.drop_last(), sep) + seq![sep] + items.last());
        assert(join_with(items.drop_first(), sep) == join_with(m, sep) + seq![sep] + items.last());
        assert(join_with(items.drop_last(), sep) == items[0] + seq![sep] + join_with(m, sep));
        assert(join_with(items, sep) =~= items[0] + seq![sep] + join_with(items.drop_first(), sep));
    }
}

proof fn lemma_array_as_rest(strs: Seq<Seq<char>>)
    ensures
        strs.len() == 0 ==> json_string_array(strs) == seq!['[', ']'],
        strs.len() > 0 ==> json_string_array(strs) == seq!['['] + json_string(strs[0])
            + json_array_rest(strs.drop_first()),
    decreases strs.len(),
{
    let items = strs.map_values(|s: Seq<char>| json_string(s));
    if strs.len() == 0 {
        assert(json_string_array(strs) =~= seq!['[', ']']);
    } else if strs.len() == 1 {
        assert(strs.drop_first().len() == 0);
        assert(json_string_array(strs) =~= seq!['['] + json_string(strs[0]) + json_array_rest(
            strs.drop_first(),
        ));
    } else {
        lemma_array_as_rest(strs.drop_first());
        lemma_join_with_front(items, ',');
        let rest = strs.drop_first();
        let rest_items = rest.map_values(|s: Seq<char>| json_string(s));
        assert(items.drop_first() =~= rest_items);
        assert(items[0] == json_string(strs[0]));
        assert(json_string_array(rest) == seq!['['] + join_with(rest_items, ',') + seq![']']);
        let inner = json_string(rest[0]) + json_array_rest(rest.drop_first());
        assert(rest.len() >= 1);
        assert(seq!['['] + json_string(rest[0]) + json_array_rest(rest.drop_first()) =~= seq!['[']
            + inner);
        assert(seq!['['] + join_with(rest_items, ',') + seq![']'] =~= seq!['['] + (join_with(
            rest_items,
            ',',
        ) + seq![']']));
        assert(seq!['['] + (join_with(rest_items, ',') + seq![']']) == seq!['['] + inner);
        assert(join_with(rest_items, ',') + seq![']'] =~= (seq!['['] + inner).drop_first());
        assert(json_array_rest(rest) == seq![','] + json_string(rest[0]) + json_array_rest(
            rest.drop_first(),
        ));
        assert(json_string_array(strs) == seq!['['] + join_with(items, ',') + seq![']']);
        assert(join_with(items, ',') == items[0] + seq![','] + join_with(rest_items, ','));
        let jr = json_array_rest(strs.drop_first());
        assert(jr == seq![','] + json_string(rest[0]) + json_array_rest(rest.drop_first()));
        assert(jr =~= seq![','] + inner);
        assert(join_with(rest_items, ',') + seq![']'] == inner);
        assert(json_string_array(strs) =~= seq!['['] + json_string(strs[0]) + json_array_rest(
            strs.drop_first(),
        ));
    }
}

proof fn lemma_array_rest_injective(a: Seq<Seq<char>>, b: Seq<Seq<char>>, r1: Seq<char>, r2: Seq<char>)
    requires
        json_array_rest(a) + r1 == json_array_rest(b) + r2,
    ensures
        a == b,
        r1 == r2,
    decreases a.len(),
{
    let t1 = json_array_rest(a) + r1;
    let t2 = json_array_rest(b) + r2;
    if a.len() == 0 {
        assert(t1[0] == ']');
        if b.len() > 0 {
            assert(t2[0] == ',');
        }
        assert(a =~= b);
        assert(r1 =~= t1.drop_first());
        assert(r2 =~= t2.drop_first());
    } else {
        assert(t1[0] == ',');
        if b.len() == 0 {
            assert(t2[0] == ']');
        }
        let u1 = json_array_rest(a.drop_first()) + r1;
        let u2 = json_array_rest(b.drop_first()) + r2;
        assert(t1 =~= seq![','] + (json_string(a[0]) + u1));
        assert(t2 =~= seq![','] + (json_string(b[0]) + u2));
        assert(json_string(a[0]) + u1 =~= t1.drop_first());
        assert(json_string(b[0]) + u2 =~= t2.drop_first());
        lemma_json_string_injective(a[0], b[0], u1, u2);
        lemma_array_rest_injective(a.drop_first(), b.drop_first(), r1, r2);
        assert(a =~= seq![a[0]] + a.drop_first());
        assert(b =~= seq![b[0]] + b.drop_first());
    }
}

/// Law: a JSON array of strings determines the strings, and where it ends.
pub proof fn lemma_json_string_array_injective(
    a: Seq<Seq<char>>,
    b: Seq<Seq<char>>,
    r1: Seq<char>,
    r2: Seq<char>,
)
    requires
        json_string_array(a) + r1 == json_string_array(b) + r2,
    ensures
        a == b,
        r1 == r2,
{
    lemma_array_as_rest(a);
    lemma_array_as_rest(b);
    let t1 = json_string_array(a) + r1;
    let t2 = json_string_array(b) + r2;
    if a.len() == 0 && b.len() == 0 {
        assert(r1 =~= t1.subrange(2, t1.len() as int));
        assert(r2 =~= t2.subrange(2, t2.len() as int));
    } else if a.len() == 0 {
        assert(t1[1] == ']');
        assert(t2[1] == '"');
    } else if b.len() == 0 {
        assert(t2[1] == ']');
        assert(t1[1] == '"');
    } else {
        let u1 = json_array_rest(a.drop_first()) + r1;
        let u2 = json_array_rest(b.drop_first()) + r2;
        assert(t1 =~= seq!['['] + (json_string(a[0]) + u1));
        assert(t2 =~= seq!['['] + (json_string(b[0]) + u2));
        assert(json_string(a[0]) + u1 =~= t1.drop_first());
        assert(json_string(b[0]) + u2 =~= t2.drop_first());
        lemma_json_string_injective(a[0], b[0], u1, u2);
        lemma_array_rest_injective(a.drop_first(), b.drop_first(), r1, r2);
        assert(a =~= seq![a[0]] + a.drop_first());
        assert(b =~= seq![b[0]] + b.drop_first());
    }
}

/// A common prefix can be taken off both sides of an equation.
pub proof fn lemma_strip_prefix(l: Seq<char>, a: Seq<char>, b: Seq<char>)
    requires
        l + a == l + b,
    ensures
        a == b,
{
    assert(a =~= (l + a).subrange(l.len() as int, (l + a).len() as int));
    assert(b =~= (l + b).subrange(l.len() as int, (l + b).len() as int));
}

proof fn lemma_digit_char_is_digit(d: nat)
    ensures
        '0' <= digit_char(d) <= '9',
{
}

/// Decimal renderings are digits only, and longer for larger numbers.
pub proof fn lemma_decimal_no_line_break(n: nat)
    ensures
        forall|i: int| 0 <= i < decimal(n).len() ==> #[trigger] decimal(n)[i] != '\n',
        decimal(n).len() >= 1,
        n >= 10 ==> decimal(n).len() >= 2,
    decreases n,
{
    lemma_digit_char_is_digit(n % 10);
    lemma_digit_char_is_digit(n);
    if n >= 10 {
        lemma_decimal_no_line_break(n / 10);
        let d = decimal(n / 10);
        assert forall|i: int| 0 <= i < decimal(n).len() implies #[trigger] decimal(n)[i] != '\n' by {
            if i < d.len() {
                assert(decimal(n)[i] == d[i]);
            }
        }
    }
}

proof fn lemma_digit_char_injective(a: nat, b: nat)
    requires
        a < 10,
        b < 10,
        digit_char(a) == digit_char(b),
    ensures
        a == b,
{
}

/// Different numbers have different decimal renderings.
pub proof fn lemma_decimal_injective(a: nat, b: nat)
    requires
        decimal(a) == decimal(b),
    ensures
        a == b,
    decreases a,
{
    lemma_decimal_no_line_break(a);
    lemma_decimal_no_line_break(b);
    if a < 10 && b < 10 {
        assert(decimal(a)[0] == digit_char(a));
        assert(decimal(b)[0] == digit_char(b));
        lemma_digit_char_injective(a, b);
    } else if a >= 10 && b >= 10 {
        let da = decimal(a / 10);
        let db = decimal(b / 10);
        assert(da =~= decimal(a).drop_last());
        assert(db =~= decimal(b).drop_last());
        lemma_decimal_injective(a / 10, b / 10);
        assert(decimal(a).last() == digit_char(a % 10));
        lemma_digit_char_injective(a % 10, b % 10);
    }
}

} // verus!
