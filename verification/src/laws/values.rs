//! Laws of values: how members are read, what built objects hold, what the
//! text of a value says, and how strings are split, joined and numbered.

use crate::json;
use crate::json::{Json, JsonView, NumberView};
use crate::json_text;
use crate::json_text::{escaped, items_text, members_text, quoted, unescaped};
use crate::text;
use crate::text::{decimal, digit, integer, joined, lines_of, numeral};
use vstd::prelude::*;

verus! {

/// A value holds what its parts hold, at every place and in the same order.
pub proof fn law_view_keeps_everything(j: Json, i: int)
    ensures
        j matches Json::Null ==> j@ == JsonView::Null,
        j matches Json::Bool(b) ==> j@ == JsonView::Bool(b),
        j matches Json::Num(json::Number::Unsigned(n)) ==> j@ == JsonView::Num(
            NumberView::Unsigned(n),
        ),
        j matches Json::Num(json::Number::Negative(n)) ==> j@ == JsonView::Num(
            NumberView::Negative(n),
        ),
        j matches Json::Num(json::Number::Float(s)) ==> j@ == JsonView::Num(NumberView::Float(s@)),
        j matches Json::Str(s) ==> j@ == JsonView::Str(s@),
        j matches Json::Arr(items) ==> j@ is Arr && j@->Arr_0.len() == items@.len() && (0 <= i
            < items@.len() ==> j@->Arr_0[i] == items@[i]@),
        j matches Json::Obj(members) ==> j@ is Obj && j@->Obj_0.len() == members@.len() && (0 <= i
            < members@.len() ==> j@->Obj_0[i] == (members@[i].0@, members@[i].1@)),
{
    broadcast use {json::lemma_model_arr, json::lemma_model_obj};

}

/// A list of values holds what its values hold, one by one.
pub proof fn law_items_keep_everything(items: Seq<Json>, i: int)
    requires
        0 <= i < items.len(),
    ensures
        json::model_items(items).len() == items.len(),
        json::model_items(items)[i] == items[i]@,
{
}

proof fn lemma_lookup_first(members: Seq<(Seq<char>, JsonView)>, i: int)
    requires
        0 <= i < members.len(),
        forall|j: int| 0 <= j < i ==> (#[trigger] members[j]).0 != members[i].0,
    ensures
        json::lookup(members, members[i].0) == Some(members[i].1),
    decreases members.len(),
{
    if i > 0 {
        assert(members[0].0 != members[i].0);
        let rest = members.drop_first();
        assert forall|j: int| 0 <= j < i - 1 implies (#[trigger] rest[j]).0 != rest[i - 1].0 by {
            assert(rest[j] == members[j + 1]);
        }
        lemma_lookup_first(rest, i - 1);
    }
}

proof fn lemma_lookup_found(members: Seq<(Seq<char>, JsonView)>, key: Seq<char>)
    requires
        json::lookup(members, key) is Some,
    ensures
        exists|i: int| 0 <= i < members.len() && (#[trigger] members[i]).0 == key,
    decreases members.len(),
{
    if members.len() > 0 {
        if members[0].0 != key {
            lemma_lookup_found(members.drop_first(), key);
            let i = choose|i: int|
                0 <= i < members.drop_first().len() && (#[trigger] members.drop_first()[i]).0
                    == key;
            assert(members[i + 1].0 == key);
        }
    }
}

/// The member of a key is the value that stands first under it, as it is;
/// there is none where the key does not stand, and none in another value.
pub proof fn law_get_reads_members(v: JsonView, key: Seq<char>, i: int)
    ensures
        v matches JsonView::Obj(members) ==> (0 <= i < members.len() && members[i].0 == key && (
        forall|j: int| 0 <= j < i ==> (#[trigger] members[j]).0 != key) ==> v.get(key) == Some(
            members[i].1,
        )),
        v matches JsonView::Obj(members) ==> (v.get(key) is Some ==> exists|k: int|
            0 <= k < members.len() && (#[trigger] members[k]).0 == key),
        !(v is Obj) ==> v.get(key) is None,
{
    if let JsonView::Obj(members) = v {
        if 0 <= i < members.len() && members[i].0 == key && (forall|j: int|
            0 <= j < i ==> (#[trigger] members[j]).0 != key) {
            lemma_lookup_first(members, i);
        }
        if v.get(key) is Some {
            lemma_lookup_found(members, key);
        }
    }
}

/// The accessors hand a member out as it is, when it is of the kind asked for.
pub proof fn law_accessors_hand_out_members(
    v: JsonView,
    key: Seq<char>,
    inner: Seq<char>,
    default: Seq<char>,
)
    ensures
        v.get(key) matches Some(JsonView::Str(s)) ==> v.str_at(key) == Some(s) && v.str_or(
            key,
            default,
        ) == s,
        !(v.get(key) matches Some(JsonView::Str(_))) ==> v.str_at(key) is None && v.str_or(
            key,
            default,
        ) == default,
        v.get(key) matches Some(JsonView::Arr(items)) ==> v.arr_at(key) == Some(items),
        !(v.get(key) matches Some(JsonView::Arr(_))) ==> v.arr_at(key) is None,
        v.get(key) matches Some(JsonView::Num(NumberView::Unsigned(n))) ==> v.u64_at(key) == Some(n),
        !(v.get(key) matches Some(JsonView::Num(NumberView::Unsigned(_)))) ==> v.u64_at(key) is None,
        v.get(key) matches Some(JsonView::Bool(b)) ==> v.bool_at(key) == Some(b),
        !(v.get(key) matches Some(JsonView::Bool(_))) ==> v.bool_at(key) is None,
        v.get(key) matches Some(o) ==> v.get_in(key, inner) == o.get(inner) && v.str_in(key, inner)
            == o.str_at(inner) && (o.u64_at(inner) matches Some(n) ==> v.u64_in(key, inner) == n)
            && (o.u64_at(inner) is None ==> v.u64_in(key, inner) == 0),
        v.get(key) is None ==> v.get_in(key, inner) is None && v.str_in(key, inner) is None
            && v.u64_in(key, inner) == 0,
{
}

/// Whether a value is an object that has the members `entries` and no others,
/// in the order of their keys.
pub open spec fn has_members(v: JsonView, entries: Seq<(Seq<char>, JsonView)>) -> bool {
    &&& v is Obj
    &&& json::ascending(v->Obj_0)
    &&& forall|i: int|
        0 <= i < entries.len() ==> v.get((#[trigger] entries[i]).0) == Some(entries[i].1)
    &&& forall|key: Seq<char>| #[trigger]
        v.get(key) is Some ==> exists|i: int|
            0 <= i < entries.len() && (#[trigger] entries[i]).0 == key
}

/// A built object has the members that it was built from and no others.
pub proof fn law_object_has_exactly_its_entries(entries: Seq<(Seq<char>, JsonView)>)
    requires
        forall|i: int, j: int|
            0 <= i < j < entries.len() ==> (#[trigger] entries[i]).0 != (#[trigger] entries[j]).0,
    ensures
        has_members(json::object_of(entries), entries),
{
    let v = json::object_of(entries);
    json::law_object_is_ordered(entries);
    assert forall|i: int| 0 <= i < entries.len() implies v.get((#[trigger] entries[i]).0) == Some(
        entries[i].1,
    ) by {
        json::law_object_has_last_value(entries, i);
    }
    assert forall|key: Seq<char>| #[trigger] v.get(key) is Some implies exists|i: int|
        0 <= i < entries.len() && (#[trigger] entries[i]).0 == key by {
        if forall|i: int| 0 <= i < entries.len() ==> (#[trigger] entries[i]).0 != key {
            json::law_object_has_no_other_member(entries, key);
        }
    }
}

/// The text of each kind of value.
pub proof fn law_text_by_kind(s: Seq<char>, n: u64, m: i64, items: Seq<JsonView>, members: Seq<
    (Seq<char>, JsonView),
>)
    ensures
        JsonView::Null.text() == "null"@,
        JsonView::Bool(true).text() == "true"@,
        JsonView::Bool(false).text() == "false"@,
        JsonView::Num(NumberView::Unsigned(n)).text() == decimal(n as nat),
        m >= 0 ==> JsonView::Num(NumberView::Negative(m)).text() == decimal(m as nat),
        m < 0 ==> JsonView::Num(NumberView::Negative(m)).text() == seq!['-'] + decimal(
            (-m) as nat,
        ),
        JsonView::Num(NumberView::Float(s)).text() == s,
        JsonView::Arr(items).text() == seq!['['] + items_text(items) + seq![']'],
        JsonView::Obj(members).text() == seq!['{'] + members_text(members) + seq!['}'],
{
}

/// The text of a string is the string in quotes: its inside has no control
/// character, reads back as the string, and every quote in it is escaped.
pub proof fn law_string_text_reads_back(s: Seq<char>)
    ensures
        ({
            let t = JsonView::Str(s).text();
            let inside = t.subrange(1, t.len() - 1);
            &&& t.len() >= 2
            &&& t[0] == '"'
            &&& t.last() == '"'
            &&& unescaped(inside) == s
            &&& json_text::in_one_line(inside)
            &&& forall|i: int|
                0 <= i < inside.len() && #[trigger] inside[i] == '"' ==> i > 0 && inside[i - 1]
                    == '\\'
        }),
{
    let t = JsonView::Str(s).text();
    let inside = t.subrange(1, t.len() - 1);
    assert(inside =~= escaped(s));
    json_text::law_unescaping_undoes_escaping(s);
    json_text::law_escaped_in_one_line(s);
    lemma_quotes_escaped(s);
}

proof fn lemma_quotes_escaped(s: Seq<char>)
    ensures
        forall|i: int|
            0 <= i < escaped(s).len() && #[trigger] escaped(s)[i] == '"' ==> i > 0 && escaped(s)[i
                - 1] == '\\',
    decreases s.len(),
{
    if s.len() > 0 {
        let before = escaped(s.drop_last());
        let last = json_text::escaped_char(s.last());
        lemma_quotes_escaped(s.drop_last());
        assert forall|i: int| 0 <= i < escaped(s).len() && #[trigger] escaped(s)[i] == '"' implies i
            > 0 && escaped(s)[i - 1] == '\\' by {
            if i < before.len() {
                assert(before[i] == '"');
                assert(escaped(s)[i - 1] == before[i - 1]);
            } else {
                let k = i - before.len();
                assert(last[k] == '"');
                let c = s.last();
                if c != '"' {
                    if 0x20 > c as nat {
                        assert(c as nat / 16 < 2);
                        assert(c as nat % 16 < 16);
                    }
                }
                assert(k == 1);
                assert(escaped(s)[i - 1] == last[0]);
            }
        }
    }
}

/// The texts of the items of an array stand one after another, with commas
/// between them.
pub proof fn law_items_text_adds_up(a: Seq<JsonView>, b: Seq<JsonView>, v: JsonView)
    ensures
        items_text(Seq::<JsonView>::empty()) == Seq::<char>::empty(),
        items_text(seq![v]) == v.text(),
        a.len() > 0 && b.len() > 0 ==> items_text(a + b) == items_text(a) + seq![','] + items_text(
            b,
        ),
    decreases b.len(),
{
    assert(seq![v].last() == v);
    if a.len() > 0 && b.len() > 0 {
        assert((a + b).drop_last() =~= a + b.drop_last());
        assert((a + b).last() == b.last());
        if b.len() == 1 {
            assert((a + b).drop_last() =~= a);
            assert(b.last() == b[0]);
        } else {
            law_items_text_adds_up(a, b.drop_last(), v);
        }
        assert(items_text(a + b) =~= items_text(a) + seq![','] + items_text(b));
    }
}

/// The members of an object stand one after another, each with its key, a
/// colon and its value, and with commas between them.
pub proof fn law_members_text_adds_up(
    a: Seq<(Seq<char>, JsonView)>,
    b: Seq<(Seq<char>, JsonView)>,
    key: Seq<char>,
    v: JsonView,
)
    ensures
        members_text(Seq::<(Seq<char>, JsonView)>::empty()) == Seq::<char>::empty(),
        members_text(seq![(key, v)]) == JsonView::Str(key).text() + seq![':'] + v.text(),
        a.len() > 0 && b.len() > 0 ==> members_text(a + b) == members_text(a) + seq![',']
            + members_text(b),
    decreases b.len(),
{
    assert(seq![(key, v)].last() == (key, v));
    if a.len() > 0 && b.len() > 0 {
        assert((a + b).drop_last() =~= a + b.drop_last());
        assert((a + b).last() == b.last());
        if b.len() == 1 {
            assert((a + b).drop_last() =~= a);
            assert(b.last() == b[0]);
        } else {
            law_members_text_adds_up(a, b.drop_last(), key, v);
        }
        assert(members_text(a + b) =~= members_text(a) + seq![','] + members_text(b));
    }
}

/// The number that a numeral stands for.
pub open spec fn numeral_value(s: Seq<char>, base: nat) -> nat
    decreases s.len(),
{
    if s.len() == 0 {
        0
    } else {
        numeral_value(s.drop_last(), base) * base + json_text::digit_value(s.last())
    }
}

/// Whether a character is a lower case digit of a base up to sixteen.
pub open spec fn is_digit(c: char) -> bool {
    '0' as nat <= c as nat <= '9' as nat || 'a' as nat <= c as nat <= 'f' as nat
}

/// A numeral reads back as its number, is made of digits, and has no zero in
/// front.
pub proof fn law_numeral_reads_back(n: nat, base: nat)
    requires
        2 <= base <= 16,
    ensures
        numeral_value(numeral(n, base), base) == n,
        numeral(n, base).len() > 0,
        forall|i: int| 0 <= i < numeral(n, base).len() ==> is_digit(#[trigger] numeral(n, base)[i]),
        base <= 10 ==> forall|i: int|
            0 <= i < numeral(n, base).len() ==> '0' as nat <= (#[trigger] numeral(n, base)[i]) as nat
                <= '9' as nat,
        n > 0 ==> numeral(n, base)[0] != '0',
    decreases n,
{
    let s = numeral(n, base);
    if n < base {
        assert(s =~= seq![digit(n)]);
        assert(s.drop_last() =~= Seq::empty());
        assert(numeral_value(s.drop_last(), base) == 0);
        assert(json_text::digit_value(digit(n)) == n);
        assert(0 * base == 0);
    } else {
        vstd::arithmetic::div_mod::lemma_div_decreases(n as int, base as int);
        vstd::arithmetic::div_mod::lemma_mod_bound(n as int, base as int);
        vstd::arithmetic::div_mod::lemma_fundamental_div_mod(n as int, base as int);
        let q = n / base;
        let r = n % base;
        law_numeral_reads_back(q, base);
        assert(s.drop_last() =~= numeral(q, base));
        assert(json_text::digit_value(digit(r)) == r);
        assert(q * base + r == n) by (nonlinear_arith)
            requires
                n == base * q + r,
        ;
        assert(q > 0) by (nonlinear_arith)
            requires
                n == base * q + r,
                r < base,
                n >= base,
        ;
        assert(s[0] == numeral(q, base)[0]);
    }
}

/// Joining two lists puts one separator between what each joins to; a list of
/// one is that one.
pub proof fn law_joined_adds_up(
    a: Seq<Seq<char>>,
    b: Seq<Seq<char>>,
    sep: Seq<char>,
    one: Seq<char>,
)
    ensures
        joined(Seq::<Seq<char>>::empty(), sep) == Seq::<char>::empty(),
        joined(seq![one], sep) == one,
        a.len() > 0 && b.len() > 0 ==> joined(a + b, sep) == joined(a, sep) + sep + joined(b, sep),
    decreases b.len(),
{
    assert(seq![one][0] == one);
    if a.len() > 0 && b.len() > 0 {
        assert((a + b).drop_last() =~= a + b.drop_last());
        assert((a + b).last() == b.last());
        if b.len() == 1 {
            assert((a + b).drop_last() =~= a);
            assert(b.last() == b[0]);
        } else {
            law_joined_adds_up(a, b.drop_last(), sep, one);
        }
        assert(joined(a + b, sep) =~= joined(a, sep) + sep + joined(b, sep));
    }
}

proof fn lemma_lines_concat(a: Seq<char>, b: Seq<char>)
    requires
        !text::in_line(a),
    ensures
        lines_of(a + b) == lines_of(a) + lines_of(b),
        b.len() > 0 ==> text::in_line(a + b) == text::in_line(b),
        b.len() > 0 ==> lines_of(b).len() > 0,
    decreases b.len(),
{
    if b.len() == 0 {
        assert(a + b =~= a);
        assert(lines_of(a) + lines_of(b) =~= lines_of(a));
    } else {
        let whole = a + b;
        assert(whole.drop_last() =~= a + b.drop_last());
        assert(whole.last() == b.last());
        lemma_lines_concat(a, b.drop_last());
        if b.len() == 1 {
            assert(b.drop_last() =~= Seq::empty());
            assert(whole.drop_last() =~= a);
        }
        let x = lines_of(a);
        let y = lines_of(b.drop_last());
        if y.len() > 0 {
            assert((x + y).drop_last() =~= x + y.drop_last());
            assert((x + y).last() == y.last());
        }
        assert(lines_of(whole) =~= x + lines_of(b));
    }
}

proof fn lemma_one_line(s: Seq<char>)
    requires
        s.len() > 0,
        forall|i: int| 0 <= i < s.len() ==> #[trigger] s[i] != '\n',
    ensures
        lines_of(s) == seq![s],
        text::in_line(s),
    decreases s.len(),
{
    let start = s.drop_last();
    assert(s[s.len() - 1] != '\n');
    if start.len() == 0 {
        assert(start =~= Seq::empty());
        assert(lines_of(start) =~= Seq::empty());
        assert(seq![s.last()] =~= s);
        assert(lines_of(s) == lines_of(start).push(seq![s.last()]));
    } else {
        assert forall|i: int| 0 <= i < start.len() implies #[trigger] start[i] != '\n' by {
            assert(start[i] == s[i]);
        }
        lemma_one_line(start);
        assert(start.push(s.last()) =~= s);
        assert(lines_of(s) =~= seq![s]);
    }
}

/// The lines of a text are what stands between its line feeds: the lines after
/// a line feed are those of the rest, a stretch without line feed is one line,
/// and a carriage return before a line feed belongs to the line end.
pub proof fn law_lines_stand_between_line_feeds(
    before: Seq<char>,
    rest: Seq<char>,
    line: Seq<char>,
)
    requires
        forall|i: int| 0 <= i < line.len() ==> #[trigger] line[i] != '\n',
    ensures
        lines_of(before.push('\n') + rest) == lines_of(before.push('\n')) + lines_of(rest),
        lines_of(Seq::<char>::empty()) == Seq::<Seq<char>>::empty(),
        line.len() > 0 ==> lines_of(line) == seq![line],
        lines_of(line.push('\r').push('\n')) == seq![line],
        line.len() == 0 || line.last() != '\r' ==> lines_of(line.push('\n')) == seq![line],
{
    lemma_lines_concat(before.push('\n'), rest);
    let with_return = line.push('\r');
    assert forall|i: int| 0 <= i < with_return.len() implies #[trigger] with_return[i] != '\n' by {
        if i < line.len() {
            assert(with_return[i] == line[i]);
        }
    }
    lemma_one_line(with_return);
    assert(with_return.push('\n').drop_last() =~= with_return);
    assert(with_return.drop_last() =~= line);
    assert(lines_of(with_return.push('\n')) =~= seq![line]);
    assert(line.push('\n').drop_last() =~= line);
    if line.len() > 0 {
        lemma_one_line(line);
    } else {
        assert(line =~= Seq::empty());
    }
    if line.len() == 0 || line.last() != '\r' {
        assert(lines_of(line.push('\n')) =~= seq![line]);
    }
}

/// What is dropped at the end of a text are slashes, all of them and nothing
/// else.
pub proof fn law_only_end_slashes_are_dropped(s: Seq<char>)
    ensures
        ({
            let kept = text::without_end_slashes(s);
            &&& kept.len() <= s.len()
            &&& kept == s.take(kept.len() as int)
            &&& forall|i: int| kept.len() <= i < s.len() ==> #[trigger] s[i] == '/'
            &&& kept.len() > 0 ==> kept.last() != '/'
        }),
    decreases s.len(),
{
    if s.len() > 0 && s.last() == '/' {
        law_only_end_slashes_are_dropped(s.drop_last());
        let kept = text::without_end_slashes(s);
        assert(s.drop_last().take(kept.len() as int) =~= s.take(kept.len() as int));
        assert forall|i: int| kept.len() <= i < s.len() implies #[trigger] s[i] == '/' by {
            if i < s.len() - 1 {
                assert(s.drop_last()[i] == s[i]);
            }
        }
    } else {
        assert(s.take(s.len() as int) =~= s);
    }
}

/// What is there or not holds what is there, as it is.
pub proof fn law_options_keep_everything(j: Json, s: String, items: Vec<Json>)
    ensures
        json::opt_view(Some(j)) == Some(j@),
        json::opt_view(None) is None,
        json::opt_model(Some(&j)) == Some(j@),
        json::opt_model(None) is None,
        json::opt_chars(None) is None,
        json::opt_items(Some(&items)) == Some(json::model_items(items@)),
        json::opt_items(None) is None,
        text::opt_string(Some(s)) == Some(s@),
        text::opt_string(None) is None,
{
}

/// A borrowed string that is there or not holds its characters.
pub proof fn law_borrowed_string_keeps_everything(s: &str)
    ensures
        json::opt_chars(Some(s)) == Some(s@),
{
}

/// A list of strings holds what its strings hold, one by one.
pub proof fn law_strings_keep_everything(list: Seq<String>, i: int)
    requires
        0 <= i < list.len(),
    ensures
        text::views(list).len() == list.len(),
        text::views(list)[i] == list[i]@,
{
}

/// Keys are ordered as in a dictionary: by the first character in which they
/// differ, and a beginning before the whole.
pub proof fn law_keys_are_in_dictionary_order(a: Seq<char>, b: Seq<char>, k: int)
    requires
        0 <= k <= a.len(),
        k <= b.len(),
        a.take(k) == b.take(k),
    ensures
        k < a.len() && k < b.len() && a[k] < b[k] ==> json::before(a, b)
            && !json::before(b, a),
        k == a.len() && k < b.len() ==> json::before(a, b) && !json::before(b, a),
        k == a.len() && k == b.len() ==> !json::before(a, b),
    decreases k,
{
    if k > 0 {
        assert(a.take(k)[0] == a[0]);
        assert(b.take(k)[0] == b[0]);
        let x = a.drop_first();
        let y = b.drop_first();
        assert(x.take(k - 1) =~= a.take(k).drop_first());
        assert(y.take(k - 1) =~= b.take(k).drop_first());
        law_keys_are_in_dictionary_order(x, y, k - 1);
    }
}

/// A character that needs no escape stands for itself in the text of a string,
/// and strings are escaped piece by piece.
pub proof fn law_escaping_adds_up(a: Seq<char>, b: Seq<char>, c: char)
    ensures
        escaped(a + b) == escaped(a) + escaped(b),
        escaped(Seq::<char>::empty()) == Seq::<char>::empty(),
        c != '"' && c != '\\' && ' ' <= c ==> escaped(seq![c]) == seq![c],
        escaped(seq!['"']) == seq!['\\', '"'],
        escaped(seq!['\\']) == seq!['\\', '\\'],
        escaped(seq!['\n']) == seq!['\\', 'n'],
        escaped(seq!['\r']) == seq!['\\', 'r'],
        escaped(seq!['\t']) == seq!['\\', 't'],
    decreases b.len(),
{
    lemma_escape_one(c);
    lemma_escape_one('"');
    lemma_escape_one('\\');
    lemma_escape_one('\n');
    lemma_escape_one('\r');
    lemma_escape_one('\t');
    if b.len() == 0 {
        assert(a + b =~= a);
        assert(escaped(a) + escaped(b) =~= escaped(a));
    } else {
        assert((a + b).drop_last() =~= a + b.drop_last());
        assert((a + b).last() == b.last());
        law_escaping_adds_up(a, b.drop_last(), c);
        assert(escaped(a + b) =~= escaped(a) + escaped(b));
    }
}

proof fn lemma_escape_one(c: char)
    ensures
        escaped(seq![c]) == json_text::escaped_char(c),
{
    assert(seq![c].drop_last() =~= Seq::empty());
    assert(escaped(seq![c].drop_last()) =~= Seq::empty());
    assert(escaped(seq![c]) =~= json_text::escaped_char(c));
}

} // verus!
