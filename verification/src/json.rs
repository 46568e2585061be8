use vstd::prelude::*;
use vstd::string::*;

verus! {

/// One structured wire value.  Every frame the client sends is built as
/// a `JsonValue` and encoded by `encode_json`; every frame it receives
/// is decoded into one at the transport edge.  Numbers on this wire are
/// unsigned integers (request timestamps, sizes).
#[derive(Debug)]
pub enum JsonValue {
    Null,
    Bool(bool),
    UInt(u64),
    Str(String),
    Arr(Vec<JsonValue>),
    Obj(Vec<(String, JsonValue)>),
}

/// The decimal digits of `n`, most significant first.
pub open spec fn dec_text(n: int) -> Seq<char>
    decreases n,
{
    if n < 0 {
        Seq::empty()
    } else if n < 10 {
        seq![digit_char(n)]
    } else {
        dec_text(n / 10) + seq![digit_char(n % 10)]
    }
}

/// The character for one decimal or low hexadecimal digit.
pub open spec fn digit_char(d: int) -> char {
    if d == 0 { '0' }
    else if d == 1 { '1' }
    else if d == 2 { '2' }
    else if d == 3 { '3' }
    else if d == 4 { '4' }
    else if d == 5 { '5' }
    else if d == 6 { '6' }
    else if d == 7 { '7' }
    else if d == 8 { '8' }
    else if d == 9 { '9' }
    else if d == 10 { 'a' }
    else if d == 11 { 'b' }
    else if d == 12 { 'c' }
    else if d == 13 { 'd' }
    else if d == 14 { 'e' }
    else { 'f' }
}

/// How one character appears inside a quoted string: quotes and
/// backslashes get a two-character escape, the named control characters
/// their short form, all other control characters the `\u00..` form,
/// and everything else stands for itself.
pub open spec fn escape_char(c: char) -> Seq<char> {
    if c == '"' {
        seq!['\\', '"']
    } else if c == '\\' {
        seq!['\\', '\\']
    } else if c == '\n' {
        seq!['\\', 'n']
    } else if c == '\r' {
        seq!['\\', 'r']
    } else if c == '\t' {
        seq!['\\', 't']
    } else if (c as u32) < 32 {
        seq!['\\', 'u', '0', '0', digit_char(c as u32 as int / 16), digit_char(c as u32 as int % 16)]
    } else {
        seq![c]
    }
}

/// The body of a quoted string: each character escaped, in order.
pub open spec fn escape_text(s: Seq<char>) -> Seq<char>
    decreases s.len(),
{
    if s.len() == 0 {
        Seq::empty()
    } else {
        escape_char(s[0]) + escape_text(s.drop_first())
    }
}

/// The wire text of one value.
pub open spec fn json_text(v: JsonValue) -> Seq<char>
    decreases v, 0int, 0int,
{
    match v {
        JsonValue::Null => seq!['n', 'u', 'l', 'l'],
        JsonValue::Bool(b) => if b {
            seq!['t', 'r', 'u', 'e']
        } else {
            seq!['f', 'a', 'l', 's', 'e']
        },
        JsonValue::UInt(n) => dec_text(n as int),
        JsonValue::Str(s) => seq!['"'] + escape_text(s@) + seq!['"'],
        JsonValue::Arr(items) => seq!['['] + arr_text(items, 0) + seq![']'],
        JsonValue::Obj(fields) => seq!['{'] + obj_text(fields, 0) + seq!['}'],
    }
}

/// The comma-separated texts of the array elements from index `i` on.
pub open spec fn arr_text(items: Vec<JsonValue>, i: int) -> Seq<char>
    decreases items, 1int, items.len() - i,
{
    if i < 0 || i >= items.len() {
        Seq::empty()
    } else if i + 1 == items.len() {
        json_text(items[i])
    } else {
        json_text(items[i]) + seq![','] + arr_text(items, i + 1)
    }
}

/// The comma-separated `"key":value` texts of the object fields from
/// index `i` on.
pub open spec fn obj_text(fields: Vec<(String, JsonValue)>, i: int) -> Seq<char>
    decreases fields, 1int, fields.len() - i,
{
    if i < 0 || i >= fields.len() {
        Seq::empty()
    } else {
        let entry = seq!['"'] + escape_text(fields[i].0@) + seq!['"', ':'] + json_text(fields[i].1);
        if i + 1 == fields.len() {
            entry
        } else {
            entry + seq![','] + obj_text(fields, i + 1)
        }
    }
}

/// Relies on `String::push`: appends the given character to the end of
/// the string.
#[verifier::external_body]
pub(crate) fn push_char(s: &mut String, c: char)
    ensures
        final(s)@ == old(s)@ + seq![c],
{
    s.push(c);
}

/// Writes the decimal digits of `n` onto `out`.
fn write_dec(n: u64, out: &mut String)
    ensures
        final(out)@ == old(out)@ + dec_text(n as int),
    decreases n,
{
    if n < 10 {
        push_char(out, digit_exec((n % 10) as u8));
        assert(dec_text(n as int) == seq![digit_char(n as int)]);
    } else {
        write_dec(n / 10, out);
        push_char(out, digit_exec((n % 10) as u8));
        assert(old(out)@ + dec_text(n as int / 10) + seq![digit_char(n as int % 10)]
            == old(out)@ + dec_text(n as int));
    }
}

/// The character of one digit value below sixteen.
fn digit_exec(d: u8) -> (c: char)
    requires
        d < 16,
    ensures
        c == digit_char(d as int),
{
    match d {
        0 => '0',
        1 => '1',
        2 => '2',
        3 => '3',
        4 => '4',
        5 => '5',
        6 => '6',
        7 => '7',
        8 => '8',
        9 => '9',
        10 => 'a',
        11 => 'b',
        12 => 'c',
        13 => 'd',
        14 => 'e',
        _ => 'f',
    }
}

/// Writes one character of a quoted string onto `out`, escaped.
fn write_escaped_char(c: char, out: &mut String)
    ensures
        final(out)@ == old(out)@ + escape_char(c),
{
    if c == '"' {
        out.append("\\\"");
        assert(escape_char(c) =~= "\\\""@) by {
            reveal_strlit("\\\"");
        }
    } else if c == '\\' {
        out.append("\\\\");
        assert(escape_char(c) =~= "\\\\"@) by {
            reveal_strlit("\\\\");
        }
    } else if c == '\n' {
        out.append("\\n");
        assert(escape_char(c) =~= "\\n"@) by {
            reveal_strlit("\\n");
        }
    } else if c == '\r' {
        out.append("\\r");
        assert(escape_char(c) =~= "\\r"@) by {
            reveal_strlit("\\r");
        }
    } else if c == '\t' {
        out.append("\\t");
        assert(escape_char(c) =~= "\\t"@) by {
            reveal_strlit("\\t");
        }
    } else if (c as u32) < 32 {
        out.append("\\u00");
        let code = c as u32;
        push_char(out, digit_exec((code / 16) as u8));
        push_char(out, digit_exec((code % 16) as u8));
        assert("\\u00"@ =~= seq!['\\', 'u', '0', '0']) by {
            reveal_strlit("\\u00");
        }
        assert(old(out)@ + seq!['\\', 'u', '0', '0'] + seq![digit_char(code as int / 16)]
            + seq![digit_char(code as int % 16)] =~= old(out)@ + escape_char(c));
    } else {
        push_char(out, c);
    }
}

/// Writes the body of a quoted string onto `out`: each character of
/// `s`, escaped, in order.
fn write_escaped(s: &str, out: &mut String)
    ensures
        final(out)@ == old(out)@ + escape_text(s@),
{
    let n = s.unicode_len();
    let mut i: usize = 0;
    while i < n
        invariant
            n == s@.len(),
            i <= n,
            out@ == old(out)@ + escape_text(s@.subrange(0, i as int)),
        decreases n - i,
    {
        let c = s.get_char(i);
        write_escaped_char(c, out);
        proof {
            lemma_escape_text_snoc(s@, i as int);
        }
        i = i + 1;
    }
    assert(s@.subrange(0, n as int) =~= s@);
}

/// Escaping a prefix one character longer appends that character's
/// escape.
proof fn lemma_escape_text_snoc(s: Seq<char>, i: int)
    requires
        0 <= i < s.len(),
    ensures
        escape_text(s.subrange(0, i + 1)) == escape_text(s.subrange(0, i)) + escape_char(s[i]),
    decreases i,
{
    let pre = s.subrange(0, i);
    let post = s.subrange(0, i + 1);
    if i == 0 {
        assert(post =~= seq![s[0]]);
        assert(post.drop_first() =~= Seq::<char>::empty());
        assert(escape_text(pre) =~= Seq::<char>::empty());
        assert(escape_text(post) =~= escape_char(s[0]) + escape_text(post.drop_first()));
        assert(escape_text(post) =~= escape_text(pre) + escape_char(s[i]));
    } else {
        lemma_escape_text_snoc(s.drop_first(), i - 1);
        assert(pre.drop_first() =~= s.drop_first().subrange(0, i - 1));
        assert(post.drop_first() =~= s.drop_first().subrange(0, i));
        assert(escape_text(post) == escape_char(s[0]) + escape_text(post.drop_first()));
        assert(escape_text(pre) == escape_char(s[0]) + escape_text(pre.drop_first()));
        assert(s.drop_first()[i - 1] == s[i]);
        assert(escape_text(post.drop_first()) == escape_text(pre.drop_first()) + escape_char(s[i]));
        assert(escape_text(post) =~= escape_text(pre) + escape_char(s[i]));
    }
}

/// Writes the wire text of `v` onto `out`.
pub fn write_json(v: &JsonValue, out: &mut String)
    ensures
        final(out)@ == old(out)@ + json_text(*v),
    decreases *v, 0int, 0int,
{
    match v {
        JsonValue::Null => {
            out.append("null");
            assert("null"@ =~= seq!['n', 'u', 'l', 'l']) by {
                reveal_strlit("null");
            }
        },
        JsonValue::Bool(b) => {
            if *b {
                out.append("true");
                assert("true"@ =~= seq!['t', 'r', 'u', 'e']) by {
                    reveal_strlit("true");
                }
            } else {
                out.append("false");
                assert("false"@ =~= seq!['f', 'a', 'l', 's', 'e']) by {
                    reveal_strlit("false");
                }
            }
        },
        JsonValue::UInt(n) => {
            write_dec(*n, out);
        },
        JsonValue::Str(s) => {
            push_char(out, '"');
            write_escaped(s.as_str(), out);
            push_char(out, '"');
            assert(old(out)@ + seq!['"'] + escape_text(s@) + seq!['"'] =~= old(out)@ + json_text(*v));
        },
        JsonValue::Arr(items) => {
            push_char(out, '[');
            write_arr(items, 0, out);
            push_char(out, ']');
            assert(old(out)@ + seq!['['] + arr_text(*items, 0) + seq![']'] =~= old(out)@ + json_text(*v));
        },
        JsonValue::Obj(fields) => {
            push_char(out, '{');
            write_obj(fields, 0, out);
            push_char(out, '}');
            assert(old(out)@ + seq!['{'] + obj_text(*fields, 0) + seq!['}'] =~= old(out)@ + json_text(*v));
        },
    }
}

/// Writes the comma-separated texts of the array elements from `i` on.
fn write_arr(items: &Vec<JsonValue>, i: usize, out: &mut String)
    requires
        i <= items.len(),
    ensures
        final(out)@ == old(out)@ + arr_text(*items, i as int),
    decreases *items, 1int, items.len() - i,
{
    if i < items.len() {
        write_json(&items[i], out);
        if i + 1 < items.len() {
            push_char(out, ',');
            write_arr(items, i + 1, out);
            assert(old(out)@ + json_text(items[i as int]) + seq![','] + arr_text(*items, i + 1)
                =~= old(out)@ + arr_text(*items, i as int));
        }
    }
}

/// Writes the comma-separated `"key":value` texts of the object fields
/// from `i` on.
fn write_obj(fields: &Vec<(String, JsonValue)>, i: usize, out: &mut String)
    requires
        i <= fields.len(),
    ensures
        final(out)@ == old(out)@ + obj_text(*fields, i as int),
    decreases *fields, 1int, fields.len() - i,
{
    if i < fields.len() {
        push_char(out, '"');
        write_escaped(fields[i].0.as_str(), out);
        out.append("\":");
        assert("\":"@ =~= seq!['"', ':']) by {
            reveal_strlit("\":");
        }
        write_json(&fields[i].1, out);
        let ghost entry = seq!['"'] + escape_text(fields@[i as int].0@) + seq!['"', ':']
            + json_text(fields@[i as int].1);
        if i + 1 < fields.len() {
            push_char(out, ',');
            write_obj(fields, i + 1, out);
            assert(old(out)@ + entry + seq![','] + obj_text(*fields, i + 1)
                =~= old(out)@ + obj_text(*fields, i as int));
        } else {
            assert(old(out)@ + entry =~= old(out)@ + obj_text(*fields, i as int));
        }
    }
}

/// The wire text of `v`, as a fresh string.
pub fn encode_json(v: &JsonValue) -> (r: String)
    ensures
        r@ == json_text(*v),
{
    let mut out = String::new();
    write_json(v, &mut out);
    out
}

} // verus!
