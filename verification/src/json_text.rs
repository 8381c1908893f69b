//! JSON values as text: the compact form, one line, without spaces.

use crate::json::{lemma_model_arr, lemma_model_obj, model_items, model_members};
use crate::json::{Json, JsonView, Number, NumberView};
use crate::text::{decimal_text, integer_text};
use crate::text::{decimal, digit, integer, numeral};
use vstd::prelude::*;
use vstd::string::*;

verus! {

/// How one character stands inside a JSON string: `"`, `\` and the control
/// characters below U+0020 are escaped, any other character stands for itself.
pub open spec fn escaped_char(c: char) -> Seq<char> {
    if c == '"' {
        seq!['\\', '"']
    } else if c == '\\' {
        seq!['\\', '\\']
    } else if c == '\u{8}' {
        seq!['\\', 'b']
    } else if c == '\u{9}' {
        seq!['\\', 't']
    } else if c == '\u{a}' {
        seq!['\\', 'n']
    } else if c == '\u{c}' {
        seq!['\\', 'f']
    } else if c == '\u{d}' {
        seq!['\\', 'r']
    } else if 0x20 > c as nat {
        seq!['\\', 'u', '0', '0', digit(c as nat / 16), digit(c as nat % 16)]
    } else {
        seq![c]
    }
}

/// How a string stands between the quotes of a JSON string.
pub open spec fn escaped(s: Seq<char>) -> Seq<char>
    decreases s.len(),
{
    if s.len() == 0 {
        Seq::empty()
    } else {
        escaped(s.drop_last()) + escaped_char(s.last())
    }
}

/// The JSON string for `s`.
pub open spec fn quoted(s: Seq<char>) -> Seq<char> {
    seq!['"'] + escaped(s) + seq!['"']
}

/// `serde_json::to_string` on a string: it writes the string between quotes,
/// with the quote, the backslash and the control characters below U+0020
/// escaped, and does not fail.
#[verifier::external_body]
fn quote(s: &str) -> (r: String)
    ensures
        r@ == quoted(s@),
{
    serde_json::to_string(s).unwrap_or_default()
}

/// The contents of the JSON string for `s`, without the quotes around them.
pub fn escape_json_string(s: &str) -> (r: String)
    ensures
        r@ == escaped(s@),
{
    let q = quote(s);
    let n: usize = q.as_str().unicode_len();
    let inner = q.as_str().substring_char(1, n - 1);
    assert(inner@ =~= escaped(s@));
    inner.to_owned()
}

impl NumberView {
    /// The text of a number.
    pub open spec fn text(self) -> Seq<char> {
        match self {
            NumberView::Unsigned(n) => decimal(n as nat),
            NumberView::Negative(n) => integer(n as int),
            NumberView::Float(s) => s,
        }
    }
}

impl JsonView {
    /// The compact text of a value.
    pub open spec fn text(self) -> Seq<char>
        decreases self,
    {
        match self {
            JsonView::Null => "null"@,
            JsonView::Bool(b) => if b {
                "true"@
            } else {
                "false"@
            },
            JsonView::Num(n) => n.text(),
            JsonView::Str(s) => quoted(s),
            JsonView::Arr(items) => seq!['['] + items_text(items) + seq![']'],
            JsonView::Obj(members) => seq!['{'] + members_text(members) + seq!['}'],
        }
    }
}

/// The texts of the items of an array, with commas between them.
pub open spec fn items_text(items: Seq<JsonView>) -> Seq<char>
    decreases items,
{
    if items.len() == 0 {
        Seq::empty()
    } else if items.len() == 1 {
        items.last().text()
    } else {
        items_text(items.drop_last()) + seq![','] + items.last().text()
    }
}

/// The texts of the members of an object, with commas between them.
pub open spec fn members_text(members: Seq<(Seq<char>, JsonView)>) -> Seq<char>
    decreases members,
{
    if members.len() == 0 {
        Seq::empty()
    } else if members.len() == 1 {
        quoted(members.last().0) + seq![':'] + members.last().1.text()
    } else {
        members_text(members.drop_last()) + seq![','] + quoted(members.last().0) + seq![':']
            + members.last().1.text()
    }
}

/// Writes a value as compact text.
pub fn to_text(j: &Json) -> (r: String)
    ensures
        r@ == j@.text(),
    decreases j,
{
    broadcast use {lemma_model_arr, lemma_model_obj};

    match j {
        Json::Null => "null".to_owned(),
        Json::Bool(b) => if *b {
            "true".to_owned()
        } else {
            "false".to_owned()
        },
        Json::Num(Number::Unsigned(n)) => decimal_text(*n as u128),
        Json::Num(Number::Negative(n)) => integer_text(*n),
        Json::Num(Number::Float(s)) => s.clone(),
        Json::Str(s) => quote(s.as_str()),
        Json::Arr(items) => {
            let ghost all = model_items(items@);
            let mut out = String::new();
            out.push('[');
            let mut i: usize = 0;
            assert(out@ =~= seq!['['] + items_text(all.take(0)));
            while i < items.len()
                invariant
                    i <= items@.len(),
                    *j == Json::Arr(*items),
                    all == model_items(items@),
                    out@ == seq!['['] + items_text(all.take(i as int)),
                decreases items@.len() - i,
            {
                assert(decreases_to!(*j => j->Arr_0));
                assert(decreases_to!(*items => items@));
                assert(decreases_to!(items@ => items@[i as int]));
                if i > 0 {
                    out.push(',');
                }
                out.append(to_text(&items[i]).as_str());
                proof {
                    assert(all.take(i + 1).drop_last() =~= all.take(i as int));
                    assert(all.take(i + 1).last() == all[i as int]);
                    assert(out@ =~= seq!['['] + items_text(all.take(i + 1)));
                }
                i += 1;
            }
            assert(all.take(all.len() as int) =~= all);
            out.push(']');
            assert(out@ =~= j@.text());
            out
        },
        Json::Obj(members) => {
            let ghost all = model_members(members@);
            let mut out = String::new();
            out.push('{');
            let mut i: usize = 0;
            assert(out@ =~= seq!['{'] + members_text(all.take(0)));
            while i < members.len()
                invariant
                    i <= members@.len(),
                    *j == Json::Obj(*members),
                    all == model_members(members@),
                    out@ == seq!['{'] + members_text(all.take(i as int)),
                decreases members@.len() - i,
            {
                let m = &members[i];
                assert(decreases_to!(*j => j->Obj_0));
                assert(decreases_to!(*members => members@));
                assert(decreases_to!(members@ => members@[i as int]));
                if i > 0 {
                    out.push(',');
                }
                out.append(quote(m.0.as_str()).as_str());
                out.push(':');
                out.append(to_text(&m.1).as_str());
                proof {
                    assert(all.take(i + 1).drop_last() =~= all.take(i as int));
                    assert(all.take(i + 1).last() == all[i as int]);
                    assert(out@ =~= seq!['{'] + members_text(all.take(i + 1)));
                }
                i += 1;
            }
            assert(all.take(all.len() as int) =~= all);
            out.push('}');
            assert(out@ =~= j@.text());
            out
        },
    }
}

/// Whether a text has no control character below U+0020, and so no line end.
pub open spec fn in_one_line(s: Seq<char>) -> bool {
    forall|i: int| 0 <= i < s.len() ==> 0x20 <= #[trigger] s[i] as nat
}

/// A numeral has no control character.
pub proof fn lemma_numeral_in_one_line(n: nat, base: nat)
    requires
        2 <= base <= 16,
    ensures
        in_one_line(numeral(n, base)),
    decreases n,
{
    if n >= base {
        vstd::arithmetic::div_mod::lemma_div_decreases(n as int, base as int);
        vstd::arithmetic::div_mod::lemma_mod_bound(n as int, base as int);
        lemma_numeral_in_one_line(n / base, base);
    }
}

/// An escaped string has no control character: whatever a string holds, it
/// stands in one line.
pub proof fn law_escaped_in_one_line(s: Seq<char>)
    ensures
        in_one_line(escaped(s)),
    decreases s.len(),
{
    if s.len() > 0 {
        law_escaped_in_one_line(s.drop_last());
        let c = s.last();
        assert(in_one_line(escaped_char(c))) by {
            if 0x20 > c as nat {
                assert(c as nat / 16 < 2);
                assert(c as nat % 16 < 16);
            }
        }
    }
}

/// The value of a hexadecimal digit.
pub open spec fn digit_value(c: char) -> nat {
    if '0' as nat <= c as nat <= '9' as nat {
        (c as nat - '0' as nat) as nat
    } else {
        (c as nat - 'a' as nat + 10) as nat
    }
}

/// The character that a backslash and `c` stand for.
pub open spec fn short_escape(c: char) -> char {
    if c == 'b' {
        '\u{8}'
    } else if c == 't' {
        '\u{9}'
    } else if c == 'n' {
        '\u{a}'
    } else if c == 'f' {
        '\u{c}'
    } else if c == 'r' {
        '\u{d}'
    } else {
        c
    }
}

/// The string that stands between the quotes of a JSON string.
pub open spec fn unescaped(s: Seq<char>) -> Seq<char>
    decreases s.len(),
{
    if s.len() == 0 {
        Seq::empty()
    } else if s[0] != '\\' || s.len() == 1 {
        seq![s[0]] + unescaped(s.skip(1))
    } else if s[1] == 'u' && s.len() >= 6 {
        seq![
            (digit_value(s[2]) * 4096 + digit_value(s[3]) * 256 + digit_value(s[4]) * 16
                + digit_value(s[5])) as char,
        ] + unescaped(s.skip(6))
    } else {
        seq![short_escape(s[1])] + unescaped(s.skip(2))
    }
}

/// The escaped form of a string begins with that of its first character.
proof fn lemma_escaped_first(s: Seq<char>)
    requires
        s.len() > 0,
    ensures
        escaped(s) == escaped_char(s[0]) + escaped(s.skip(1)),
    decreases s.len(),
{
    if s.len() == 1 {
        assert(s.drop_last() =~= Seq::empty());
        assert(s.skip(1) =~= Seq::empty());
        assert(escaped(s) =~= escaped_char(s[0]) + escaped(s.skip(1)));
    } else {
        lemma_escaped_first(s.drop_last());
        assert(s.skip(1).drop_last() =~= s.drop_last().skip(1));
        assert(escaped(s) =~= escaped_char(s[0]) + (escaped(s.drop_last().skip(1)) + escaped_char(
            s.last(),
        )));
    }
}

proof fn lemma_unescape_first(c: char, rest: Seq<char>)
    ensures
        unescaped(escaped_char(c) + rest) == seq![c] + unescaped(rest),
{
    let e = escaped_char(c);
    let whole = e + rest;
    if c == '"' || c == '\\' || c == '\u{8}' || c == '\u{9}' || c == '\u{a}' || c == '\u{c}' || c
        == '\u{d}' {
        assert(whole[0] == '\\');
        assert(whole[1] == e[1]);
        assert(whole.skip(2) =~= rest);
    } else if 0x20 > c as nat {
        assert(whole[0] == '\\' && whole[1] == 'u' && whole[2] == '0' && whole[3] == '0');
        assert(whole[4] == e[4] && whole[5] == e[5]);
        let high = c as nat / 16;
        let low = c as nat % 16;
        assert(high < 2);
        assert(digit_value(digit(high)) == high);
        assert(digit_value(digit(low)) == low);
        assert(digit_value('0') == 0);
        assert(whole.skip(6) =~= rest);
    } else {
        assert(whole[0] == c);
        assert(whole.skip(1) =~= rest);
    }
}

/// Reading the escaped form of a string gives the string back.
pub proof fn law_unescaping_undoes_escaping(s: Seq<char>)
    ensures
        unescaped(escaped(s)) == s,
    decreases s.len(),
{
    if s.len() > 0 {
        lemma_escaped_first(s);
        lemma_unescape_first(s[0], escaped(s.skip(1)));
        law_unescaping_undoes_escaping(s.skip(1));
        assert(seq![s[0]] + s.skip(1) =~= s);
    }
}

/// Whether every number of a value is written without control characters.
pub open spec fn plain_numbers(j: JsonView) -> bool
    decreases j,
{
    match j {
        JsonView::Num(NumberView::Float(s)) => in_one_line(s),
        JsonView::Arr(items) => forall|i: int|
            0 <= i < items.len() ==> plain_numbers(#[trigger] items[i]),
        JsonView::Obj(members) => forall|i: int|
            0 <= i < members.len() ==> plain_numbers((#[trigger] members[i]).1),
        _ => true,
    }
}

/// The text of a value is one line.
pub proof fn law_text_in_one_line(j: JsonView)
    requires
        plain_numbers(j),
    ensures
        in_one_line(j.text()),
    decreases j,
{
    match j {
        JsonView::Null => {
            reveal_strlit("null");
        },
        JsonView::Bool(_) => {
            reveal_strlit("true");
            reveal_strlit("false");
        },
        JsonView::Num(NumberView::Unsigned(n)) => {
            lemma_numeral_in_one_line(n as nat, 10);
        },
        JsonView::Num(NumberView::Negative(n)) => {
            if n < 0 {
                lemma_numeral_in_one_line((-n) as nat, 10);
            } else {
                lemma_numeral_in_one_line(n as nat, 10);
            }
        },
        JsonView::Num(NumberView::Float(_)) => {},
        JsonView::Str(s) => {
            law_escaped_in_one_line(s);
        },
        JsonView::Arr(items) => {
            lemma_items_in_one_line(items);
        },
        JsonView::Obj(members) => {
            lemma_members_in_one_line(members);
        },
    }
}

proof fn lemma_items_in_one_line(items: Seq<JsonView>)
    requires
        forall|i: int| 0 <= i < items.len() ==> plain_numbers(#[trigger] items[i]),
    ensures
        in_one_line(items_text(items)),
    decreases items,
{
    if items.len() > 0 {
        assert(items.last() == items[items.len() - 1]);
        assert(decreases_to!(items => items[items.len() - 1]));
        law_text_in_one_line(items.last());
        if items.len() > 1 {
            let start = items.drop_last();
            assert forall|i: int| 0 <= i < start.len() implies plain_numbers(
                #[trigger] start[i],
            ) by {
                assert(start[i] == items[i]);
            }
            lemma_items_in_one_line(start);
        }
    }
}

proof fn lemma_members_in_one_line(members: Seq<(Seq<char>, JsonView)>)
    requires
        forall|i: int| 0 <= i < members.len() ==> plain_numbers((#[trigger] members[i]).1),
    ensures
        in_one_line(members_text(members)),
    decreases members,
{
    if members.len() > 0 {
        assert(members.last() == members[members.len() - 1]);
        assert(decreases_to!(members => members[members.len() - 1]));
        law_text_in_one_line(members.last().1);
        law_escaped_in_one_line(members.last().0);
        if members.len() > 1 {
            let start = members.drop_last();
            assert forall|i: int| 0 <= i < start.len() implies plain_numbers(
                (#[trigger] start[i]).1,
            ) by {
                assert(start[i] == members[i]);
            }
            lemma_members_in_one_line(start);
        }
    }
}

} // verus!
