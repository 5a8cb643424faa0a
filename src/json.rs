//! The JSON form of a listing: an array with one object per entry, fields
//! in a fixed order, no whitespace.
use vstd::prelude::*;

use crate::listing::{entries_view, DirEntryState, EntryView, FileType};

verus! {

/// The lower-case hexadecimal digit for `d < 16`.
pub open spec fn hex_char(d: u32) -> char {
    if d < 10 {
        ((d + 0x30) as u32) as char
    } else {
        ((d + 0x57) as u32) as char
    }
}

/// How one character stands inside a JSON string: a quote and a backslash
/// behind a backslash, the usual short escapes, the other control
/// characters and DEL as `\u00XX`, every other character as itself.
pub open spec fn json_escape_char(c: char) -> Seq<char> {
    if c == '"' {
        seq!['\\', '"']
    } else if c == '\\' {
        seq!['\\', '\\']
    } else if c == '\x08' {
        seq!['\\', 'b']
    } else if c == '\t' {
        seq!['\\', 't']
    } else if c == '\n' {
        seq!['\\', 'n']
    } else if c == '\x0c' {
        seq!['\\', 'f']
    } else if c == '\r' {
        seq!['\\', 'r']
    } else if (c as u32) < 0x20 || (c as u32) == 0x7f {
        seq!['\\', 'u', '0', '0', hex_char((c as u32) / 16), hex_char((c as u32) % 16)]
    } else {
        seq![c]
    }
}

/// The characters of `s`, each escaped.
pub open spec fn json_escaped(s: Seq<char>) -> Seq<char>
    decreases s.len(),
{
    if s.len() == 0 {
        Seq::empty()
    } else {
        json_escape_char(s[0]) + json_escaped(s.drop_first())
    }
}

/// `s` as a JSON string literal.
pub open spec fn json_quoted(s: Seq<char>) -> Seq<char> {
    seq!['"'] + json_escaped(s) + seq!['"']
}

/// Relies on `rustc_serialize::json::encode` of a `String`, which writes it
/// through `escape_str` into a `String`: quoted, with the escapes of
/// `json_escape_char`. Writing into a `String` never fails, so neither does
/// the encoding.
#[verifier::external_body]
fn json_string(s: &String) -> (r: Option<String>)
    ensures
        r is Some,
        r->Some_0@ == json_quoted(s@),
{
    rustc_serialize::json::encode(s).ok()
}

/// The decimal digit for `d < 10`.
pub open spec fn digit_char(d: nat) -> char {
    ((d + 0x30) as u32) as char
}

/// `n` in decimal, without leading zeros.
pub open spec fn decimal(n: nat) -> Seq<char>
    decreases n,
{
    if n < 10 {
        seq![digit_char(n)]
    } else {
        decimal(n / 10) + seq![digit_char(n % 10)]
    }
}

fn digit_str(d: u64) -> (r: &'static str)
    requires
        d < 10,
    ensures
        r@ == seq![digit_char(d as nat)],
{
    proof {
        reveal_strlit("0");
        reveal_strlit("1");
        reveal_strlit("2");
        reveal_strlit("3");
        reveal_strlit("4");
        reveal_strlit("5");
        reveal_strlit("6");
        reveal_strlit("7");
        reveal_strlit("8");
        reveal_strlit("9");
    }
    match d {
        0 => "0",
        1 => "1",
        2 => "2",
        3 => "3",
        4 => "4",
        5 => "5",
        6 => "6",
        7 => "7",
        8 => "8",
        _ => "9",
    }
}

/// Appends `n` in decimal.
fn push_decimal(out: &mut String, n: u64)
    ensures
        final(out)@ == old(out)@ + decimal(n as nat),
    decreases n,
{
    if n >= 10 {
        push_decimal(out, n / 10);
    }
    out.append(digit_str(n % 10));
    assert(final(out)@ =~= old(out)@ + decimal(n as nat));
}

pub open spec fn type_json(t: FileType) -> Seq<char> {
    match t {
        FileType::File => "\"File\""@,
        FileType::Dir => "\"Dir\""@,
        FileType::Symlink => "\"Symlink\""@,
    }
}

pub open spec fn optional_json(v: Option<u64>) -> Seq<char> {
    match v {
        Some(n) => decimal(n as nat),
        None => "null"@,
    }
}

/// The first two fields of an entry's object, after its opening brace.
pub open spec fn head_json(e: EntryView) -> Seq<char> {
    "{\"file_type\":"@ + type_json(e.file_type) + ",\"file_name\":"@ + json_quoted(e.file_name)
}

/// The size and the creation time of an entry's object.
pub open spec fn middle_json(e: EntryView) -> Seq<char> {
    ",\"size\":"@ + decimal(e.size as nat) + ",\"creation_time\":"@ + optional_json(e.creation_time)
}

/// The last two fields of an entry's object, and its closing brace.
pub open spec fn times_json(e: EntryView) -> Seq<char> {
    ",\"last_modification_time\":"@ + decimal(e.last_modification_time as nat)
        + ",\"last_access_time\":"@ + decimal(e.last_access_time as nat) + "}"@
}

/// One entry as a JSON object.
pub open spec fn entry_json(e: EntryView) -> Seq<char> {
    head_json(e) + middle_json(e) + times_json(e)
}

/// The entries of `l`, each preceded by a comma.
pub open spec fn tail_json(l: Seq<EntryView>) -> Seq<char>
    decreases l.len(),
{
    if l.len() == 0 {
        Seq::empty()
    } else {
        ","@ + entry_json(l[0]) + tail_json(l.drop_first())
    }
}

/// The entries of `l`, separated by commas.
pub open spec fn items_json(l: Seq<EntryView>) -> Seq<char> {
    if l.len() == 0 {
        Seq::empty()
    } else {
        entry_json(l[0]) + tail_json(l.drop_first())
    }
}

/// A listing as a JSON array.
pub open spec fn listing_json(l: Seq<EntryView>) -> Seq<char> {
    "["@ + items_json(l) + "]"@
}

proof fn lemma_tail_json_push(l: Seq<EntryView>, e: EntryView)
    ensures
        tail_json(l.push(e)) == tail_json(l) + ","@ + entry_json(e),
    decreases l.len(),
{
    if l.len() == 0 {
        assert(l.push(e).drop_first() =~= Seq::<EntryView>::empty());
        assert(l.push(e)[0] == e);
        assert(tail_json(Seq::<EntryView>::empty()) == Seq::<char>::empty());
        assert(tail_json(l.push(e)) == ","@ + entry_json(e) + Seq::<char>::empty());
        assert(tail_json(l.push(e)) =~= tail_json(l) + ","@ + entry_json(e));
    } else {
        lemma_tail_json_push(l.drop_first(), e);
        assert(l.push(e).drop_first() =~= l.drop_first().push(e));
        assert(l.push(e)[0] == l[0]);
        let a = ","@ + entry_json(l[0]);
        assert(tail_json(l.push(e)) == a + tail_json(l.drop_first().push(e)));
        assert(tail_json(l) == a + tail_json(l.drop_first()));
        assert(tail_json(l.push(e)) =~= tail_json(l) + ","@ + entry_json(e));
    }
}

proof fn lemma_items_json_push(l: Seq<EntryView>, e: EntryView)
    ensures
        items_json(l.push(e)) == if l.len() == 0 {
            entry_json(e)
        } else {
            items_json(l) + ","@ + entry_json(e)
        },
{
    if l.len() == 0 {
        assert(l.push(e).drop_first() =~= Seq::<EntryView>::empty());
        assert(items_json(l.push(e)) =~= entry_json(e));
    } else {
        lemma_tail_json_push(l.drop_first(), e);
        assert(l.push(e).drop_first() =~= l.drop_first().push(e));
        assert(items_json(l.push(e)) =~= items_json(l) + ","@ + entry_json(e));
    }
}

fn push_head(out: &mut String, e: &DirEntryState)
    ensures
        final(out)@ == old(out)@ + head_json(e@),
{
    out.append("{\"file_type\":");
    match e.file_type {
        FileType::File => out.append("\"File\""),
        FileType::Dir => out.append("\"Dir\""),
        FileType::Symlink => out.append("\"Symlink\""),
    }
    out.append(",\"file_name\":");
    let quoted = json_string(&e.file_name).unwrap();
    out.append(quoted.as_str());
    assert(final(out)@ =~= old(out)@ + head_json(e@));
}

fn push_middle(out: &mut String, e: &DirEntryState)
    ensures
        final(out)@ == old(out)@ + middle_json(e@),
{
    out.append(",\"size\":");
    push_decimal(out, e.size);
    out.append(",\"creation_time\":");
    match e.creation_time {
        Some(t) => push_decimal(out, t),
        None => out.append("null"),
    }
    assert(final(out)@ =~= old(out)@ + middle_json(e@));
}

fn push_times(out: &mut String, e: &DirEntryState)
    ensures
        final(out)@ == old(out)@ + times_json(e@),
{
    out.append(",\"last_modification_time\":");
    push_decimal(out, e.last_modification_time);
    out.append(",\"last_access_time\":");
    push_decimal(out, e.last_access_time);
    out.append("}");
    assert(final(out)@ =~= old(out)@ + times_json(e@));
}

fn push_entry(out: &mut String, e: &DirEntryState)
    ensures
        final(out)@ == old(out)@ + entry_json(e@),
{
    push_head(out, e);
    push_middle(out, e);
    push_times(out, e);
    assert(final(out)@ =~= old(out)@ + entry_json(e@));
}

/// Writes a listing as a JSON array of objects whose fields, in order, are
/// `file_type`, `file_name`, `size`, `creation_time` (`null` where
/// unknown), `last_modification_time` and `last_access_time`.
pub fn encode_listing(entries: &Vec<DirEntryState>) -> (r: String)
    ensures
        r@ == listing_json(entries_view(entries@)),
{
    let mut out = String::new();
    out.append("[");
    let mut i: usize = 0;
    while i < entries.len()
        invariant
            i <= entries.len(),
            out@ == "["@ + items_json(entries_view(entries@.take(i as int))),
        decreases entries.len() - i,
    {
        proof {
            lemma_items_json_push(entries_view(entries@.take(i as int)), entries@[i as int]@);
            assert(entries_view(entries@.take(i + 1)) =~= entries_view(entries@.take(i as int)).push(
                entries@[i as int]@,
            ));
        }
        if i > 0 {
            out.append(",");
        }
        push_entry(&mut out, &entries[i]);
        assert(out@ =~= "["@ + items_json(entries_view(entries@.take(i + 1))));
        i = i + 1;
    }
    out.append("]");
    assert(entries@.take(entries.len() as int) =~= entries@);
    out
}

// Reading a listing back.

/// `s` without its prefix `p`, where it starts with `p`.
pub open spec fn strip(p: Seq<char>, s: Seq<char>) -> Option<Seq<char>> {
    if p.len() <= s.len() && s.take(p.len() as int) == p {
        Some(s.skip(p.len() as int))
    } else {
        None
    }
}

pub open spec fn is_digit(c: char) -> bool {
    0x30 <= (c as u32) && (c as u32) <= 0x39
}

/// The number of decimal digits at the start of `s`.
pub open spec fn digits_len(s: Seq<char>) -> nat
    decreases s.len(),
{
    if s.len() > 0 && is_digit(s[0]) {
        1 + digits_len(s.drop_first())
    } else {
        0
    }
}

/// The number that the decimal digits `d` spell.
pub open spec fn digits_value(d: Seq<char>) -> nat
    decreases d.len(),
{
    if d.len() == 0 {
        0
    } else {
        digits_value(d.drop_last()) * 10 + ((d.last() as u32) - 0x30) as nat
    }
}

/// An unsigned 64-bit number in decimal at the start of `s`, and what
/// follows it.
pub open spec fn parse_u64(s: Seq<char>) -> Option<(u64, Seq<char>)> {
    let k = digits_len(s);
    if k == 0 || digits_value(s.take(k as int)) > u64::MAX {
        None
    } else {
        Some((digits_value(s.take(k as int)) as u64, s.skip(k as int)))
    }
}

pub proof fn lemma_strip(p: Seq<char>, rest: Seq<char>)
    ensures
        strip(p, p + rest) == Some(rest),
{
    assert((p + rest).take(p.len() as int) =~= p);
    assert((p + rest).skip(p.len() as int) =~= rest);
}

pub proof fn lemma_strip_mismatch(p: Seq<char>, s: Seq<char>, i: int)
    requires
        0 <= i < p.len(),
        i < s.len(),
        p[i] != s[i],
    ensures
        strip(p, s) is None,
{
    if p.len() <= s.len() && s.take(p.len() as int) == p {
        assert(s.take(p.len() as int)[i] == s[i]);
    }
}

proof fn lemma_decimal(n: nat)
    ensures
        decimal(n).len() >= 1,
        forall|i: int| 0 <= i < decimal(n).len() ==> is_digit(#[trigger] decimal(n)[i]),
        digits_value(decimal(n)) == n,
    decreases n,
{
    let c = digit_char(n % 10);
    assert((c as u32) == (n % 10) + 0x30);
    if n < 10 {
        assert(decimal(n).drop_last() =~= Seq::<char>::empty());
        assert(decimal(n).last() == c);
        assert(digits_value(Seq::<char>::empty()) == 0);
        assert(digits_value(decimal(n)) == 0 * 10 + ((c as u32) - 0x30) as nat);
    } else {
        lemma_decimal(n / 10);
        let d = decimal(n);
        assert(d.drop_last() =~= decimal(n / 10));
        assert(d.last() == c);
        assert((n / 10) * 10 + n % 10 == n) by (nonlinear_arith);
        assert(digits_value(d) == digits_value(decimal(n / 10)) * 10 + ((c as u32) - 0x30) as nat);
        assert forall|i: int| 0 <= i < d.len() implies is_digit(#[trigger] d[i]) by {
            if i < d.len() - 1 {
                assert(d[i] == decimal(n / 10)[i]);
            }
        }
    }
}

proof fn lemma_digits_len(d: Seq<char>, rest: Seq<char>)
    requires
        forall|i: int| 0 <= i < d.len() ==> is_digit(#[trigger] d[i]),
        rest.len() == 0 || !is_digit(rest[0]),
    ensures
        digits_len(d + rest) == d.len(),
    decreases d.len(),
{
    if d.len() == 0 {
        assert(d + rest =~= rest);
    } else {
        assert((d + rest).drop_first() =~= d.drop_first() + rest);
        assert forall|i: int| 0 <= i < d.drop_first().len() implies is_digit(
            #[trigger] d.drop_first()[i],
        ) by {
            assert(d.drop_first()[i] == d[i + 1]);
        }
        lemma_digits_len(d.drop_first(), rest);
    }
}

pub proof fn lemma_parse_u64(n: u64, rest: Seq<char>)
    requires
        rest.len() == 0 || !is_digit(rest[0]),
    ensures
        parse_u64(decimal(n as nat) + rest) == Some((n, rest)),
{
    let d = decimal(n as nat);
    lemma_decimal(n as nat);
    lemma_digits_len(d, rest);
    assert((d + rest).take(d.len() as int) =~= d);
    assert((d + rest).skip(d.len() as int) =~= rest);
}

/// The value of a hexadecimal digit, in either case.
pub open spec fn hex_value_of(c: char) -> Option<u32> {
    let v = c as u32;
    if 0x30 <= v && v <= 0x39 {
        Some((v - 0x30) as u32)
    } else if 0x61 <= v && v <= 0x66 {
        Some((v - 0x57) as u32)
    } else if 0x41 <= v && v <= 0x46 {
        Some((v - 0x37) as u32)
    } else {
        None
    }
}

/// The code that the four hexadecimal digits of a `\uXXXX` escape at the
/// start of `s` spell.
pub open spec fn escape_code(s: Seq<char>) -> Option<u32> {
    if s.len() < 6 {
        None
    } else {
        match (hex_value_of(s[2]), hex_value_of(s[3]), hex_value_of(s[4]), hex_value_of(s[5])) {
            (Some(a), Some(b), Some(c), Some(d)) => Some((a * 4096 + b * 256 + c * 16 + d) as u32),
            _ => None,
        }
    }
}

/// A backslash followed by one of these characters stands for one character.
pub open spec fn is_short_escape(k: char) -> bool {
    k == '"' || k == '\\' || k == '/' || k == 'b' || k == 'f' || k == 'n' || k == 'r' || k == 't'
}

/// The number of characters of the escape sequence at the start of `s`; 0
/// where none stands there.
pub open spec fn escape_width(s: Seq<char>) -> nat {
    if s.len() >= 2 && s[0] == '\\' {
        if is_short_escape(s[1]) {
            2
        } else if s[1] == 'u' && escape_code(s) is Some && (escape_code(s)->Some_0 < 0xd800
            || 0xe000 <= escape_code(s)->Some_0) {
            6
        } else {
            0
        }
    } else {
        0
    }
}

/// The character that the escape sequence at the start of `s` stands for.
pub open spec fn escape_value(s: Seq<char>) -> char {
    let k = s[1];
    if k == 'b' {
        '\x08'
    } else if k == 'f' {
        '\x0c'
    } else if k == 'n' {
        '\n'
    } else if k == 'r' {
        '\r'
    } else if k == 't' {
        '\t'
    } else if k == 'u' {
        (escape_code(s)->Some_0) as char
    } else {
        k
    }
}

/// The characters of a JSON string up to its closing quote, unescaped, and
/// what follows that quote.
pub open spec fn parse_chars(s: Seq<char>) -> Option<(Seq<char>, Seq<char>)>
    decreases s.len(),
{
    if s.len() == 0 {
        None
    } else if s[0] == '"' {
        Some((Seq::empty(), s.drop_first()))
    } else if s[0] == '\\' {
        let w = escape_width(s);
        if w == 0 {
            None
        } else {
            match parse_chars(s.skip(w as int)) {
                Some((t, rest)) => Some((seq![escape_value(s)] + t, rest)),
                None => None,
            }
        }
    } else {
        match parse_chars(s.drop_first()) {
            Some((t, rest)) => Some((seq![s[0]] + t, rest)),
            None => None,
        }
    }
}

/// A JSON string literal at the start of `s`, unescaped, and what follows.
pub open spec fn parse_string(s: Seq<char>) -> Option<(Seq<char>, Seq<char>)> {
    if s.len() > 0 && s[0] == '"' {
        parse_chars(s.drop_first())
    } else {
        None
    }
}

proof fn lemma_hex_char(d: u32)
    requires
        d < 16,
    ensures
        hex_value_of(hex_char(d)) == Some(d),
{
    if d < 10 {
        assert((hex_char(d) as u32) == d + 0x30);
    } else {
        assert((hex_char(d) as u32) == d + 0x57);
    }
}

proof fn lemma_parse_escaped_char(c: char, r: Seq<char>)
    ensures
        parse_chars(json_escape_char(c) + r) == match parse_chars(r) {
            Some((t, rest)) => Some((seq![c] + t, rest)),
            None => None,
        },
{
    let e = json_escape_char(c);
    let s = e + r;
    if e.len() == 1 {
        assert(s[0] == c);
        assert(s.drop_first() =~= r);
    } else {
        assert(s.skip(e.len() as int) =~= r);
        assert(s[0] == e[0] && s[1] == e[1]);
        if e.len() == 6 {
            let v = c as u32;
            lemma_hex_char(v / 16);
            lemma_hex_char(v % 16);
            assert(s[2] == '0' && s[3] == '0' && s[4] == hex_char(v / 16) && s[5] == hex_char(v % 16));
            assert((v / 16) * 16 + v % 16 == v) by (nonlinear_arith);
            assert(hex_value_of('0') == Some(0u32));
            assert(escape_code(s) == Some(v));
            assert((v as char) == c);
        }
    }
}

proof fn lemma_parse_chars(t: Seq<char>, rest: Seq<char>)
    ensures
        parse_chars(json_escaped(t) + seq!['"'] + rest) == Some((t, rest)),
    decreases t.len(),
{
    let s = json_escaped(t) + seq!['"'] + rest;
    if t.len() == 0 {
        assert(s =~= seq!['"'] + rest);
        assert(s.drop_first() =~= rest);
    } else {
        let r = json_escaped(t.drop_first()) + seq!['"'] + rest;
        lemma_parse_chars(t.drop_first(), rest);
        lemma_parse_escaped_char(t[0], r);
        assert(s =~= json_escape_char(t[0]) + r);
        assert(seq![t[0]] + t.drop_first() =~= t);
    }
}

pub proof fn lemma_parse_string(t: Seq<char>, rest: Seq<char>)
    ensures
        parse_string(json_quoted(t) + rest) == Some((t, rest)),
{
    let s = json_quoted(t) + rest;
    lemma_parse_chars(t, rest);
    assert(s.drop_first() =~= json_escaped(t) + seq!['"'] + rest);
}

/// One of the three spellings of a file type at the start of `s`, and what
/// follows it.
pub open spec fn parse_type(s: Seq<char>) -> Option<(FileType, Seq<char>)> {
    match strip(type_json(FileType::File), s) {
        Some(r) => Some((FileType::File, r)),
        None => match strip(type_json(FileType::Dir), s) {
            Some(r) => Some((FileType::Dir, r)),
            None => match strip(type_json(FileType::Symlink), s) {
                Some(r) => Some((FileType::Symlink, r)),
                None => None,
            },
        },
    }
}

/// `null` or a number at the start of `s`, and what follows it.
pub open spec fn parse_optional(s: Seq<char>) -> Option<(Option<u64>, Seq<char>)> {
    match strip("null"@, s) {
        Some(r) => Some((None, r)),
        None => match parse_u64(s) {
            Some((n, r)) => Some((Some(n), r)),
            None => None,
        },
    }
}

/// The type and the name at the start of an entry's object.
pub open spec fn parse_head(s: Seq<char>) -> Option<(FileType, Seq<char>, Seq<char>)> {
    match strip("{\"file_type\":"@, s) {
        Some(s1) => match parse_type(s1) {
            Some((t, s2)) => match strip(",\"file_name\":"@, s2) {
                Some(s3) => match parse_string(s3) {
                    Some((name, s4)) => Some((t, name, s4)),
                    None => None,
                },
                None => None,
            },
            None => None,
        },
        None => None,
    }
}

/// The size and the creation time of an entry's object.
pub open spec fn parse_middle(s: Seq<char>) -> Option<(u64, Option<u64>, Seq<char>)> {
    match strip(",\"size\":"@, s) {
        Some(s1) => match parse_u64(s1) {
            Some((size, s2)) => match strip(",\"creation_time\":"@, s2) {
                Some(s3) => match parse_optional(s3) {
                    Some((created, s4)) => Some((size, created, s4)),
                    None => None,
                },
                None => None,
            },
            None => None,
        },
        None => None,
    }
}

/// The two last times of an entry's object, and its closing brace.
pub open spec fn parse_times(s: Seq<char>) -> Option<(u64, u64, Seq<char>)> {
    match strip(",\"last_modification_time\":"@, s) {
        Some(s1) => match parse_u64(s1) {
            Some((modified, s2)) => match strip(",\"last_access_time\":"@, s2) {
                Some(s3) => match parse_u64(s3) {
                    Some((accessed, s4)) => match strip("}"@, s4) {
                        Some(s5) => Some((modified, accessed, s5)),
                        None => None,
                    },
                    None => None,
                },
                None => None,
            },
            None => None,
        },
        None => None,
    }
}

/// An entry's object at the start of `s`, and what follows it.
pub open spec fn parse_entry(s: Seq<char>) -> Option<(EntryView, Seq<char>)> {
    match parse_head(s) {
        Some((t, name, s1)) => match parse_middle(s1) {
            Some((size, created, s2)) => match parse_times(s2) {
                Some((modified, accessed, s3)) => Some(
                    (
                        EntryView {
                            file_type: t,
                            file_name: name,
                            size,
                            creation_time: created,
                            last_modification_time: modified,
                            last_access_time: accessed,
                        },
                        s3,
                    ),
                ),
                None => None,
            },
            None => None,
        },
        None => None,
    }
}

/// The entries after the first one, each behind a comma, up to the closing
/// bracket (at most `fuel` of them), and what follows the bracket.
pub open spec fn parse_tail(s: Seq<char>, fuel: nat) -> Option<(Seq<EntryView>, Seq<char>)>
    decreases fuel,
{
    match strip("]"@, s) {
        Some(r) => Some((Seq::empty(), r)),
        None => if fuel == 0 {
            None
        } else {
            match strip(","@, s) {
                Some(s1) => match parse_entry(s1) {
                    Some((e, s2)) => match parse_tail(s2, (fuel - 1) as nat) {
                        Some((l, r)) => Some((seq![e] + l, r)),
                        None => None,
                    },
                    None => None,
                },
                None => None,
            }
        },
    }
}

/// The listing that the whole of `s` writes, if it writes one.
pub open spec fn parse_listing(s: Seq<char>) -> Option<Seq<EntryView>> {
    match strip("["@, s) {
        Some(s1) => match strip("]"@, s1) {
            Some(r) => if r.len() == 0 {
                Some(Seq::empty())
            } else {
                None
            },
            None => match parse_entry(s1) {
                Some((e, s2)) => match parse_tail(s2, s.len()) {
                    Some((l, r)) => if r.len() == 0 {
                        Some(seq![e] + l)
                    } else {
                        None
                    },
                    None => None,
                },
                None => None,
            },
        },
        None => None,
    }
}

proof fn lemma_parse_type(t: FileType, rest: Seq<char>)
    ensures
        parse_type(type_json(t) + rest) == Some((t, rest)),
{
    reveal_strlit("\"File\"");
    reveal_strlit("\"Dir\"");
    reveal_strlit("\"Symlink\"");
    let s = type_json(t) + rest;
    lemma_strip(type_json(t), rest);
    assert(s[1] == type_json(t)[1]);
    match t {
        FileType::File => {},
        FileType::Dir => {
            lemma_strip_mismatch(type_json(FileType::File), s, 1);
        },
        FileType::Symlink => {
            lemma_strip_mismatch(type_json(FileType::File), s, 1);
            lemma_strip_mismatch(type_json(FileType::Dir), s, 1);
        },
    }
}

proof fn lemma_parse_optional(v: Option<u64>, rest: Seq<char>)
    requires
        rest.len() > 0,
        !is_digit(rest[0]),
    ensures
        parse_optional(optional_json(v) + rest) == Some((v, rest)),
{
    reveal_strlit("null");
    match v {
        Some(n) => {
            let s = decimal(n as nat) + rest;
            lemma_decimal(n as nat);
            assert(s[0] == decimal(n as nat)[0]);
            lemma_strip_mismatch("null"@, s, 0);
            lemma_parse_u64(n, rest);
        },
        None => {
            lemma_strip("null"@, rest);
        },
    }
}

proof fn lemma_parse_head(e: EntryView, rest: Seq<char>)
    ensures
        parse_head(head_json(e) + rest) == Some((e.file_type, e.file_name, rest)),
{
    let k1 = "{\"file_type\":"@;
    let k2 = ",\"file_name\":"@;
    let t = type_json(e.file_type);
    let q = json_quoted(e.file_name);
    assert(head_json(e) + rest =~= k1 + (t + (k2 + (q + rest))));
    lemma_strip(k1, t + (k2 + (q + rest)));
    lemma_parse_type(e.file_type, k2 + (q + rest));
    lemma_strip(k2, q + rest);
    lemma_parse_string(e.file_name, rest);
}

proof fn lemma_parse_middle(e: EntryView, rest: Seq<char>)
    requires
        rest.len() > 0,
        rest[0] == ',',
    ensures
        parse_middle(middle_json(e) + rest) == Some((e.size, e.creation_time, rest)),
{
    let k3 = ",\"size\":"@;
    let k4 = ",\"creation_time\":"@;
    reveal_strlit(",\"creation_time\":");
    let d = decimal(e.size as nat);
    let o = optional_json(e.creation_time);
    assert(middle_json(e) + rest =~= k3 + (d + (k4 + (o + rest))));
    lemma_strip(k3, d + (k4 + (o + rest)));
    assert((k4 + (o + rest))[0] == ',');
    lemma_parse_u64(e.size, k4 + (o + rest));
    lemma_strip(k4, o + rest);
    lemma_parse_optional(e.creation_time, rest);
}

proof fn lemma_parse_times(e: EntryView, rest: Seq<char>)
    ensures
        parse_times(times_json(e) + rest) == Some(
            (e.last_modification_time, e.last_access_time, rest),
        ),
{
    let k5 = ",\"last_modification_time\":"@;
    let k6 = ",\"last_access_time\":"@;
    let close = "}"@;
    reveal_strlit(",\"last_access_time\":");
    reveal_strlit("}");
    let dm = decimal(e.last_modification_time as nat);
    let da = decimal(e.last_access_time as nat);
    assert(times_json(e) + rest =~= k5 + (dm + (k6 + (da + (close + rest)))));
    lemma_strip(k5, dm + (k6 + (da + (close + rest))));
    assert((k6 + (da + (close + rest)))[0] == ',');
    lemma_parse_u64(e.last_modification_time, k6 + (da + (close + rest)));
    lemma_strip(k6, da + (close + rest));
    assert((close + rest)[0] == '}');
    lemma_parse_u64(e.last_access_time, close + rest);
    lemma_strip(close, rest);
}

pub proof fn lemma_parse_entry(e: EntryView, rest: Seq<char>)
    ensures
        parse_entry(entry_json(e) + rest) == Some((e, rest)),
{
    reveal_strlit(",\"last_modification_time\":");
    let h = head_json(e);
    let m = middle_json(e);
    let t = times_json(e);
    assert(entry_json(e) + rest =~= h + (m + (t + rest)));
    lemma_parse_head(e, m + (t + rest));
    assert((t + rest)[0] == ',');
    lemma_parse_middle(e, t + rest);
    lemma_parse_times(e, rest);
}

proof fn lemma_tail_json_len(l: Seq<EntryView>)
    ensures
        tail_json(l).len() >= l.len(),
    decreases l.len(),
{
    reveal_strlit(",");
    if l.len() > 0 {
        lemma_tail_json_len(l.drop_first());
    }
}

#[verifier::rlimit(40)]
proof fn lemma_parse_tail(l: Seq<EntryView>, rest: Seq<char>, fuel: nat)
    requires
        fuel >= l.len(),
    ensures
        parse_tail(tail_json(l) + "]"@ + rest, fuel) == Some((l, rest)),
    decreases l.len(),
{
    reveal_strlit("]");
    reveal_strlit(",");
    let s = tail_json(l) + "]"@ + rest;
    if l.len() == 0 {
        assert(s =~= "]"@ + rest);
        lemma_strip("]"@, rest);
    } else {
        let after = tail_json(l.drop_first()) + "]"@ + rest;
        assert(s =~= ","@ + (entry_json(l[0]) + after));
        lemma_strip_mismatch("]"@, s, 0);
        lemma_strip(","@, entry_json(l[0]) + after);
        lemma_parse_entry(l[0], after);
        lemma_parse_tail(l.drop_first(), rest, (fuel - 1) as nat);
        assert(seq![l[0]] + l.drop_first() =~= l);
    }
}

/// Reading back what `encode_listing` writes gives the same entries, in the
/// same order: every field of every entry, the file name included whatever
/// characters it holds.
pub proof fn lemma_listing_round_trip(l: Seq<EntryView>)
    ensures
        parse_listing(listing_json(l)) == Some(l),
{
    reveal_strlit("]");
    reveal_strlit("{\"file_type\":");
    let s = listing_json(l);
    let empty = Seq::<char>::empty();
    lemma_strip("["@, items_json(l) + "]"@);
    assert(s =~= "["@ + (items_json(l) + "]"@));
    if l.len() == 0 {
        assert(items_json(l) + "]"@ =~= "]"@ + empty);
        lemma_strip("]"@, empty);
    } else {
        let after = tail_json(l.drop_first()) + "]"@ + empty;
        assert(items_json(l) + "]"@ =~= entry_json(l[0]) + after);
        assert((entry_json(l[0]) + after)[0] == '{');
        lemma_strip_mismatch("]"@, entry_json(l[0]) + after, 0);
        lemma_parse_entry(l[0], after);
        lemma_tail_json_len(l.drop_first());
        lemma_parse_tail(l.drop_first(), empty, s.len());
        assert(seq![l[0]] + l.drop_first() =~= l);
    }
}

} // verus!
