//! A reader of JSON text, written as a specification, and the law that every
//! rendered document reads back as itself.
use vstd::prelude::*;
use crate::json::{
    entries_text, escape_char, escaped, hex_digit, items_text, member_text, string_literal_text, tree_text,
    JsonTree,
};
use crate::text::is_digit;

verus! {

/// The value of a lowercase hexadecimal digit.
pub open spec fn hex_value(c: char) -> Option<nat> {
    if '0' <= c && c <= '9' {
        Some((c as nat - 48) as nat)
    } else if 'a' <= c && c <= 'f' {
        Some((c as nat - 87) as nat)
    } else {
        None
    }
}

/// The character of a one-letter escape `\x`.
pub open spec fn short_escape(c: char) -> Option<char> {
    if c == '"' {
        Some('"')
    } else if c == '\\' {
        Some('\\')
    } else if c == '/' {
        Some('/')
    } else if c == 'b' {
        Some('\u{8}')
    } else if c == 't' {
        Some('\t')
    } else if c == 'n' {
        Some('\n')
    } else if c == 'f' {
        Some('\u{c}')
    } else if c == 'r' {
        Some('\r')
    } else {
        None
    }
}

/// Reads the rest of a string literal, after its opening quote: the text up
/// to the closing quote with its escapes decoded, and how many characters it
/// took, the closing quote included.
pub open spec fn read_string(t: Seq<char>) -> Option<(Seq<char>, nat)>
    decreases t.len(),
{
    if t.len() == 0 {
        None
    } else if t[0] == '"' {
        Some((seq![], 1))
    } else if t[0] == '\\' {
        if t.len() < 2 {
            None
        } else if t[1] == 'u' {
            if t.len() < 6 || t[2] != '0' || t[3] != '0' {
                None
            } else {
                match (hex_value(t[4]), hex_value(t[5])) {
                    (Some(hi), Some(lo)) => match read_string(t.skip(6)) {
                        Some((s, k)) => Some((seq![((hi * 16 + lo) as u32) as char] + s, k + 6)),
                        None => None,
                    },
                    _ => None,
                }
            }
        } else {
            match short_escape(t[1]) {
                Some(c) => match read_string(t.skip(2)) {
                    Some((s, k)) => Some((seq![c] + s, k + 2)),
                    None => None,
                },
                None => None,
            }
        }
    } else {
        match read_string(t.skip(1)) {
            Some((s, k)) => Some((seq![t[0]] + s, k + 1)),
            None => None,
        }
    }
}

proof fn lemma_escaped_append(a: Seq<char>, b: Seq<char>)
    ensures
        escaped(a + b) == escaped(a) + escaped(b),
    decreases b.len(),
{
    if b.len() == 0 {
        assert(a + b =~= a);
        assert(escaped(a) + escaped(b) =~= escaped(a));
    } else {
        lemma_escaped_append(a, b.drop_last());
        assert((a + b).drop_last() =~= a + b.drop_last());
        assert((a + b).last() == b.last());
        assert(escaped(a + b) =~= escaped(a) + escaped(b));
    }
}

proof fn lemma_escaped_front(s: Seq<char>)
    requires
        s.len() > 0,
    ensures
        escaped(s) == escape_char(s[0]) + escaped(s.drop_first()),
{
    lemma_escaped_append(seq![s[0]], s.drop_first());
    assert(seq![s[0]] + s.drop_first() =~= s);
    let one = seq![s[0]];
    assert(one.drop_last() =~= Seq::<char>::empty());
    assert(escaped(one.drop_last()) =~= Seq::<char>::empty());
    assert(one.last() == s[0]);
    assert(escaped(one) == escaped(one.drop_last()) + escape_char(one.last()));
    assert(escaped(one) =~= escape_char(s[0]));
}

proof fn lemma_hex(d: nat)
    requires
        d < 16,
    ensures
        hex_value(hex_digit(d)) == Some(d),
{
    let digits = seq!['0', '1', '2', '3', '4', '5', '6', '7', '8', '9', 'a', 'b', 'c', 'd', 'e', 'f'];
    assert(hex_digit(d) == digits[d as int]);
}

proof fn lemma_read_escaped_char(c: char, t: Seq<char>)
    ensures
        read_string(escape_char(c) + t) == match read_string(t) {
            Some((s, k)) => Some((seq![c] + s, k + escape_char(c).len())),
            None => None::<(Seq<char>, nat)>,
        },
{
    let e = escape_char(c);
    let w = e + t;
    assert(w.skip(e.len() as int) =~= t);
    if (c as nat) < 0x20 && c != '\u{8}' && c != '\t' && c != '\n' && c != '\u{c}' && c != '\r' {
        let hi = c as nat / 16;
        let lo = c as nat % 16;
        lemma_hex(hi);
        lemma_hex(lo);
        assert(w[4] == hex_digit(hi));
        assert(w[5] == hex_digit(lo));
        assert(hi * 16 + lo == c as nat);
        assert(((c as nat) as u32) as char == c);
    }
}

/// Law: a string literal reads back as its text. Reading the literal that
/// the renderer writes for `s`, followed by anything, gives `s` and stops
/// after the closing quote.
pub proof fn law_string_literal_reads_back(s: Seq<char>, rest: Seq<char>)
    ensures
        read_string(string_literal_text(s).drop_first() + rest) == Some(
            (s, (string_literal_text(s).len() - 1) as nat),
        ),
    decreases s.len(),
{
    let body = escaped(s) + seq!['"'];
    assert(string_literal_text(s).drop_first() =~= body);
    if s.len() == 0 {
        assert(escaped(s) =~= Seq::<char>::empty());
        assert((body + rest)[0] == '"');
    } else {
        lemma_escaped_front(s);
        let tail = s.drop_first();
        law_string_literal_reads_back(tail, rest);
        assert(string_literal_text(tail).drop_first() =~= escaped(tail) + seq!['"']);
        assert(body + rest =~= escape_char(s[0]) + (escaped(tail) + seq!['"'] + rest));
        lemma_read_escaped_char(s[0], escaped(tail) + seq!['"'] + rest);
        assert(seq![s[0]] + tail =~= s);
    }
}

/// A character that can stand in a number: digits, signs, the decimal point
/// and the exponent mark.
pub open spec fn is_number_char(c: char) -> bool {
    is_digit(c) || c == '-' || c == '+' || c == '.' || c == 'e' || c == 'E'
}

/// The length of the run of number characters that `t` starts with.
pub open spec fn number_len(t: Seq<char>) -> nat
    decreases t.len(),
{
    if t.len() > 0 && is_number_char(t[0]) {
        1 + number_len(t.skip(1))
    } else {
        0
    }
}

/// True when `t` starts with `w`.
pub open spec fn starts_with_word(t: Seq<char>, w: Seq<char>) -> bool {
    t.len() >= w.len() && t.take(w.len() as int) == w
}

/// Reads one JSON value at the start of `t`: the value and how many
/// characters it took.
pub open spec fn read_value(t: Seq<char>) -> Option<(JsonTree, nat)>
    decreases t.len(), 1nat,
{
    if t.len() == 0 {
        None
    } else if starts_with_word(t, seq!['n', 'u', 'l', 'l']) {
        Some((JsonTree::Null, 4))
    } else if starts_with_word(t, seq!['t', 'r', 'u', 'e']) {
        Some((JsonTree::Bool(true), 4))
    } else if starts_with_word(t, seq!['f', 'a', 'l', 's', 'e']) {
        Some((JsonTree::Bool(false), 5))
    } else if t[0] == '"' {
        match read_string(t.skip(1)) {
            Some((s, k)) => Some((JsonTree::Str(s), k + 1)),
            None => None,
        }
    } else if t[0] == '[' {
        if t.len() >= 2 && t[1] == ']' {
            Some((JsonTree::Array(seq![]), 2))
        } else {
            match read_items(t.skip(1)) {
                Some((items, k)) => Some((JsonTree::Array(items), k + 1)),
                None => None,
            }
        }
    } else if t[0] == '{' {
        if t.len() >= 2 && t[1] == '}' {
            Some((JsonTree::Object(seq![]), 2))
        } else {
            match read_members(t.skip(1)) {
                Some((entries, k)) => Some((JsonTree::Object(entries), k + 1)),
                None => None,
            }
        }
    } else if is_digit(t[0]) || t[0] == '-' {
        Some((JsonTree::Number(t.take(number_len(t) as int)), number_len(t)))
    } else {
        None
    }
}

/// Reads the items of an array after its `[`, up to and with its `]`.
pub open spec fn read_items(t: Seq<char>) -> Option<(Seq<JsonTree>, nat)>
    decreases t.len(), 2nat,
{
    match read_value(t) {
        Some((v, k)) => if k < t.len() && t[k as int] == ',' {
            match read_items(t.skip(k + 1int)) {
                Some((vs, m)) => Some((seq![v] + vs, k + 1 + m)),
                None => None,
            }
        } else if k < t.len() && t[k as int] == ']' {
            Some((seq![v], k + 1))
        } else {
            None
        },
        None => None,
    }
}

/// Reads the members of an object after its `{`, up to and with its `}`.
pub open spec fn read_members(t: Seq<char>) -> Option<(Seq<(Seq<char>, JsonTree)>, nat)>
    decreases t.len(), 2nat,
{
    if t.len() > 0 && t[0] == '"' {
        match read_string(t.skip(1)) {
            Some((key, k1)) => {
                let p = k1 + 1;
                if p < t.len() && t[p as int] == ':' {
                    match read_value(t.skip(p + 1int)) {
                        Some((v, k2)) => {
                            let q = p + 1 + k2;
                            if q < t.len() && t[q as int] == ',' {
                                match read_members(t.skip(q + 1int)) {
                                    Some((es, m)) => Some((seq![(key, v)] + es, q + 1 + m)),
                                    None => None,
                                }
                            } else if q < t.len() && t[q as int] == '}' {
                                Some((seq![(key, v)], q + 1))
                            } else {
                                None
                            }
                        },
                        None => None,
                    }
                } else {
                    None
                }
            },
            None => None,
        }
    } else {
        None
    }
}

/// A whole text read as one JSON value, nothing after it.
pub open spec fn read_json(t: Seq<char>) -> Option<JsonTree> {
    match read_value(t) {
        Some((v, k)) => if k == t.len() {
            Some(v)
        } else {
            None
        },
        None => None,
    }
}

/// The text of a number as JSON writes it: not empty, starting with a digit
/// or a minus sign, made of number characters.
pub open spec fn number_text(t: Seq<char>) -> bool {
    &&& t.len() > 0
    &&& (is_digit(t[0]) || t[0] == '-')
    &&& forall|i: int| 0 <= i < t.len() ==> is_number_char(#[trigger] t[i])
}

/// True when every number in the document is written as JSON writes it.
pub open spec fn numbers_well_formed(v: JsonTree) -> bool
    decreases v,
{
    match v {
        JsonTree::Number(t) => number_text(t),
        JsonTree::Array(items) => forall|i: int|
            0 <= i < items.len() ==> numbers_well_formed(#[trigger] items[i]),
        JsonTree::Object(entries) => forall|i: int|
            0 <= i < entries.len() ==> numbers_well_formed(#[trigger] entries[i].1),
        _ => true,
    }
}

proof fn lemma_number_len(x: Seq<char>, rest: Seq<char>)
    requires
        forall|i: int| 0 <= i < x.len() ==> is_number_char(#[trigger] x[i]),
        rest.len() == 0 || !is_number_char(rest[0]),
    ensures
        number_len(x + rest) == x.len(),
    decreases x.len(),
{
    if x.len() > 0 {
        let tail = x.skip(1);
        assert((x + rest).skip(1) =~= tail + rest);
        assert((x + rest)[0] == x[0]);
        assert forall|i: int| 0 <= i < tail.len() implies is_number_char(#[trigger] tail[i]) by {
            assert(tail[i] == x[i + 1]);
        }
        lemma_number_len(tail, rest);
    } else {
        assert(x + rest =~= rest);
    }
}

proof fn lemma_items_front(items: Seq<JsonTree>, n: nat)
    requires
        1 <= n <= items.len(),
    ensures
        items_text(items, n) == if n == 1 {
            tree_text(items[0])
        } else {
            tree_text(items[0]) + seq![','] + items_text(items.subrange(1, items.len() as int), (n - 1) as nat)
        },
    decreases n,
{
    let tail = items.subrange(1, items.len() as int);
    if n > 2 {
        lemma_items_front(items, (n - 1) as nat);
        assert(tail[n - 2] == items[n - 1]);
        let a = tree_text(items[0]);
        let b = items_text(tail, (n - 2) as nat);
        let c = tree_text(items[n - 1]);
        assert(items_text(items, n) == items_text(items, (n - 1) as nat) + seq![','] + c);
        assert(items_text(tail, (n - 1) as nat) == b + seq![','] + c);
        assert((a + seq![','] + b) + seq![','] + c =~= a + seq![','] + (b + seq![','] + c));
    } else if n == 2 {
        assert(tail[0] == items[1]);
        assert(items_text(items, 2) == items_text(items, 1) + seq![','] + tree_text(items[1]));
        assert(items_text(tail, 1) == tree_text(tail[0]));
    }
}

proof fn lemma_entries_front(entries: Seq<(Seq<char>, JsonTree)>, n: nat)
    requires
        1 <= n <= entries.len(),
    ensures
        entries_text(entries, n) == if n == 1 {
            member_text(entries[0].0, tree_text(entries[0].1))
        } else {
            member_text(entries[0].0, tree_text(entries[0].1)) + seq![','] + entries_text(
                entries.subrange(1, entries.len() as int),
                (n - 1) as nat,
            )
        },
    decreases n,
{
    let tail = entries.subrange(1, entries.len() as int);
    if n > 2 {
        lemma_entries_front(entries, (n - 1) as nat);
        assert(tail[n - 2] == entries[n - 1]);
        let a = member_text(entries[0].0, tree_text(entries[0].1));
        let b = entries_text(tail, (n - 2) as nat);
        let c = member_text(entries[n - 1].0, tree_text(entries[n - 1].1));
        assert(entries_text(entries, n) == entries_text(entries, (n - 1) as nat) + seq![','] + c);
        assert(entries_text(tail, (n - 1) as nat) == b + seq![','] + c);
        assert((a + seq![','] + b) + seq![','] + c =~= a + seq![','] + (b + seq![','] + c));
    } else if n == 2 {
        assert(tail[0] == entries[1]);
        assert(entries_text(entries, 2) == entries_text(entries, 1) + seq![','] + member_text(
            entries[1].0,
            tree_text(entries[1].1),
        ));
        assert(entries_text(tail, 1) == member_text(tail[0].0, tree_text(tail[0].1)));
    }
}

proof fn lemma_first_char(v: JsonTree)
    requires
        numbers_well_formed(v),
    ensures
        tree_text(v).len() > 0,
        tree_text(v)[0] != ']',
        !is_number_char(']'),
        !is_number_char('}'),
        !is_number_char(','),
{
    match v {
        JsonTree::Str(s) => {
            assert(string_literal_text(s)[0] == '"');
        },
        JsonTree::Array(items) => {
            assert(tree_text(v)[0] == '[');
        },
        JsonTree::Object(entries) => {
            assert(tree_text(v)[0] == '{');
        },
        _ => {},
    }
}

proof fn lemma_not_word(t: Seq<char>, w: Seq<char>)
    requires
        w.len() > 0,
        t.len() > 0,
        t[0] != w[0],
    ensures
        !starts_with_word(t, w),
{
    if t.len() >= w.len() {
        assert(t.take(w.len() as int)[0] == t[0]);
    }
}

/// Not one of the words `null`, `true`, `false` at the start of `t`.
proof fn lemma_no_word(t: Seq<char>)
    requires
        t.len() > 0,
        t[0] != 'n' && t[0] != 't' && t[0] != 'f',
    ensures
        !starts_with_word(t, seq!['n', 'u', 'l', 'l']),
        !starts_with_word(t, seq!['t', 'r', 'u', 'e']),
        !starts_with_word(t, seq!['f', 'a', 'l', 's', 'e']),
{
    lemma_not_word(t, seq!['n', 'u', 'l', 'l']);
    lemma_not_word(t, seq!['t', 'r', 'u', 'e']);
    lemma_not_word(t, seq!['f', 'a', 'l', 's', 'e']);
}

proof fn lemma_leaf_reads_back(v: JsonTree, rest: Seq<char>)
    requires
        numbers_well_formed(v),
        rest.len() == 0 || !is_number_char(rest[0]),
        !(v is Array),
        !(v is Object),
    ensures
        read_value(tree_text(v) + rest) == Some((v, tree_text(v).len())),
{
    let text = tree_text(v);
    let t = text + rest;
    lemma_first_char(v);
    assert(t[0] == text[0]);
    match v {
        JsonTree::Null => {
            assert(t.take(4) =~= seq!['n', 'u', 'l', 'l']);
        },
        JsonTree::Bool(b) => {
            if b {
                assert(t.take(4) =~= seq!['t', 'r', 'u', 'e']);
                lemma_not_word(t, seq!['n', 'u', 'l', 'l']);
            } else {
                assert(t.take(5) =~= seq!['f', 'a', 'l', 's', 'e']);
                lemma_not_word(t, seq!['n', 'u', 'l', 'l']);
                lemma_not_word(t, seq!['t', 'r', 'u', 'e']);
            }
        },
        JsonTree::Number(x) => {
            lemma_no_word(t);
            lemma_number_len(x, rest);
            assert(t.take(x.len() as int) =~= x);
        },
        JsonTree::Str(s) => {
            assert(string_literal_text(s)[0] == '"');
            lemma_no_word(t);
            assert(t.skip(1) =~= string_literal_text(s).drop_first() + rest);
            law_string_literal_reads_back(s, rest);
        },
        _ => {},
    }
}

proof fn lemma_array_step(items: Seq<JsonTree>, rest: Seq<char>)
    requires
        forall|i: int| 0 <= i < items.len() ==> numbers_well_formed(#[trigger] items[i]),
        items.len() > 0 ==> read_items(items_text(items, items.len()) + seq![']'] + rest) == Some(
            (items, items_text(items, items.len()).len() + 1),
        ),
    ensures
        read_value(tree_text(JsonTree::Array(items)) + rest) == Some(
            (JsonTree::Array(items), tree_text(JsonTree::Array(items)).len()),
        ),
{
    let n = items.len();
    let body = items_text(items, n);
    let t = tree_text(JsonTree::Array(items)) + rest;
    assert(t =~= seq!['['] + body + seq![']'] + rest);
    assert(t[0] == '[');
    lemma_no_word(t);
    if n > 0 {
        lemma_items_front(items, n);
        assert(numbers_well_formed(items[0]));
        lemma_first_char(items[0]);
        assert(t[1] == tree_text(items[0])[0]);
        assert(t.skip(1) =~= body + seq![']'] + rest);
    } else {
        assert(body =~= Seq::<char>::empty());
        assert(t[1] == ']');
        assert(items =~= Seq::<JsonTree>::empty());
    }
}

proof fn lemma_object_step(entries: Seq<(Seq<char>, JsonTree)>, rest: Seq<char>)
    requires
        entries.len() > 0 ==> read_members(entries_text(entries, entries.len()) + seq!['}'] + rest)
            == Some((entries, entries_text(entries, entries.len()).len() + 1)),
    ensures
        read_value(tree_text(JsonTree::Object(entries)) + rest) == Some(
            (JsonTree::Object(entries), tree_text(JsonTree::Object(entries)).len()),
        ),
{
    let n = entries.len();
    let body = entries_text(entries, n);
    let t = tree_text(JsonTree::Object(entries)) + rest;
    assert(t =~= seq!['{'] + body + seq!['}'] + rest);
    assert(t[0] == '{');
    lemma_no_word(t);
    if n > 0 {
        lemma_entries_front(entries, n);
        assert(string_literal_text(entries[0].0)[0] == '"');
        assert(t[1] == '"');
        assert(t.skip(1) =~= body + seq!['}'] + rest);
    } else {
        assert(body =~= Seq::<char>::empty());
        assert(t[1] == '}');
        assert(entries =~= Seq::<(Seq<char>, JsonTree)>::empty());
    }
}

proof fn lemma_value_reads_back(v: JsonTree, rest: Seq<char>)
    requires
        numbers_well_formed(v),
        rest.len() == 0 || !is_number_char(rest[0]),
    ensures
        read_value(tree_text(v) + rest) == Some((v, tree_text(v).len())),
    decreases v,
{
    match v {
        JsonTree::Array(items) => {
            if items.len() > 0 {
                lemma_items_read_back(items, rest);
            }
            lemma_array_step(items, rest);
        },
        JsonTree::Object(entries) => {
            if entries.len() > 0 {
                lemma_entries_read_back(entries, rest);
            }
            lemma_object_step(entries, rest);
        },
        _ => lemma_leaf_reads_back(v, rest),
    }
}

proof fn lemma_items_step(items: Seq<JsonTree>, rest: Seq<char>)
    requires
        items.len() >= 1,
        ({
            let after = if items.len() == 1 {
                seq![']'] + rest
            } else {
                seq![','] + items_text(items.subrange(1, items.len() as int), (items.len() - 1) as nat)
                    + seq![']'] + rest
            };
            read_value(tree_text(items[0]) + after) == Some((items[0], tree_text(items[0]).len()))
        }),
        items.len() > 1 ==> read_items(
            items_text(items.subrange(1, items.len() as int), (items.len() - 1) as nat) + seq![']']
                + rest,
        ) == Some(
            (
                items.subrange(1, items.len() as int),
                items_text(items.subrange(1, items.len() as int), (items.len() - 1) as nat).len()
                    + 1,
            ),
        ),
    ensures
        read_items(items_text(items, items.len()) + seq![']'] + rest) == Some(
            (items, items_text(items, items.len()).len() + 1),
        ),
{
    let n = items.len();
    lemma_items_front(items, n);
    let first = tree_text(items[0]);
    if n == 1 {
        let t = first + seq![']'] + rest;
        assert(t =~= first + (seq![']'] + rest));
        assert(t[first.len() as int] == ']');
        assert(seq![items[0]] =~= items);
    } else {
        let tail = items.subrange(1, n as int);
        let tail_text = items_text(tail, (n - 1) as nat);
        let t = first + seq![','] + tail_text + seq![']'] + rest;
        assert(t =~= first + (seq![','] + tail_text + seq![']'] + rest));
        assert(t[first.len() as int] == ',');
        assert(t.skip(first.len() + 1int) =~= tail_text + seq![']'] + rest);
        assert(seq![items[0]] + tail =~= items);
    }
}

proof fn lemma_items_read_back(items: Seq<JsonTree>, rest: Seq<char>)
    requires
        items.len() >= 1,
        forall|i: int| 0 <= i < items.len() ==> numbers_well_formed(#[trigger] items[i]),
    ensures
        read_items(items_text(items, items.len()) + seq![']'] + rest) == Some(
            (items, items_text(items, items.len()).len() + 1),
        ),
    decreases items,
{
    let n = items.len();
    assert(numbers_well_formed(items[0]));
    lemma_first_char(items[0]);
    if n == 1 {
        lemma_value_reads_back(items[0], seq![']'] + rest);
    } else {
        let tail = items.subrange(1, n as int);
        lemma_value_reads_back(items[0], seq![','] + items_text(tail, (n - 1) as nat) + seq![']'] + rest);
        assert forall|i: int| 0 <= i < tail.len() implies numbers_well_formed(#[trigger] tail[i]) by {
            assert(tail[i] == items[i + 1]);
        }
        lemma_items_read_back(tail, rest);
    }
    lemma_items_step(items, rest);
}

#[verifier::spinoff_prover]
#[verifier::rlimit(100)]
proof fn lemma_entries_step(entries: Seq<(Seq<char>, JsonTree)>, rest: Seq<char>)
    requires
        entries.len() >= 1,
        ({
            let after = if entries.len() == 1 {
                seq!['}'] + rest
            } else {
                seq![','] + entries_text(
                    entries.subrange(1, entries.len() as int),
                    (entries.len() - 1) as nat,
                ) + seq!['}'] + rest
            };
            read_value(tree_text(entries[0].1) + after) == Some(
                (entries[0].1, tree_text(entries[0].1).len()),
            )
        }),
        entries.len() > 1 ==> read_members(
            entries_text(entries.subrange(1, entries.len() as int), (entries.len() - 1) as nat)
                + seq!['}'] + rest,
        ) == Some(
            (
                entries.subrange(1, entries.len() as int),
                entries_text(
                    entries.subrange(1, entries.len() as int),
                    (entries.len() - 1) as nat,
                ).len() + 1,
            ),
        ),
    ensures
        read_members(entries_text(entries, entries.len()) + seq!['}'] + rest) == Some(
            (entries, entries_text(entries, entries.len()).len() + 1),
        ),
{
    let n = entries.len();
    lemma_entries_front(entries, n);
    let key = entries[0].0;
    let value = entries[0].1;
    let lit = string_literal_text(key);
    let vt = tree_text(value);
    let after = if n == 1 {
        seq!['}'] + rest
    } else {
        seq![','] + entries_text(entries.subrange(1, n as int), (n - 1) as nat) + seq!['}'] + rest
    };
    let t = entries_text(entries, n) + seq!['}'] + rest;
    assert(t =~= lit + seq![':'] + vt + after);
    assert(lit[0] == '"');
    assert(t[0] == '"');
    assert(t.skip(1) =~= lit.drop_first() + (seq![':'] + vt + after));
    law_string_literal_reads_back(key, seq![':'] + vt + after);
    let p = lit.len();
    assert(t[p as int] == ':');
    assert(t.skip(p + 1int) =~= vt + after);
    let q = p + 1 + vt.len();
    if n == 1 {
        assert(t[q as int] == '}');
        assert(seq![(key, value)] =~= entries);
    } else {
        let tail = entries.subrange(1, n as int);
        assert(t[q as int] == ',');
        assert(t.skip(q + 1int) =~= entries_text(tail, (n - 1) as nat) + seq!['}'] + rest);
        assert(seq![(key, value)] + tail =~= entries);
    }
}

proof fn lemma_entries_read_back(entries: Seq<(Seq<char>, JsonTree)>, rest: Seq<char>)
    requires
        entries.len() >= 1,
        forall|i: int| 0 <= i < entries.len() ==> numbers_well_formed(#[trigger] entries[i].1),
    ensures
        read_members(entries_text(entries, entries.len()) + seq!['}'] + rest) == Some(
            (entries, entries_text(entries, entries.len()).len() + 1),
        ),
    decreases entries,
{
    let n = entries.len();
    let value = entries[0].1;
    assert(numbers_well_formed(value));
    lemma_first_char(value);
    assert(decreases_to!(entries => entries[0]));
    if n == 1 {
        lemma_value_reads_back(value, seq!['}'] + rest);
    } else {
        let tail = entries.subrange(1, n as int);
        lemma_value_reads_back(value, seq![','] + entries_text(tail, (n - 1) as nat) + seq!['}'] + rest);
        assert forall|i: int| 0 <= i < tail.len() implies numbers_well_formed(#[trigger] tail[i].1) by {
            assert(tail[i] == entries[i + 1]);
        }
        lemma_entries_read_back(tail, rest);
    }
    lemma_entries_step(entries, rest);
}

/// Law: a rendered document reads back as itself. For every document whose
/// numbers are written as JSON writes them (as every number the library
/// builds is), reading the text of `tree_text` with the JSON reader above
/// gives the document again: literals, strings with their escapes,
/// numbers, arrays and objects, with nothing left over.
pub proof fn law_rendering_reads_back(v: JsonTree)
    requires
        numbers_well_formed(v),
    ensures
        read_json(tree_text(v)) == Some(v),
{
    lemma_value_reads_back(v, seq![]);
    assert(tree_text(v) + seq![] =~= tree_text(v));
}

} // verus!
