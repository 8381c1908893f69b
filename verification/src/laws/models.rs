//! Laws of the models list.

use crate::config;
use crate::json;
use crate::json::{JsonView, NumberView};
use crate::laws::values;
use crate::laws::values::{has_members, law_object_has_exactly_its_entries};
use crate::proxy::models;
use crate::proxy::models::{context_window, detail_members, display_name, entries_for, initials};
use crate::proxy::models::{model_entries, model_entry, model_members_of, models_page, price};
use crate::proxy::models::{titled, undashed, upper_case, white_space, with_member, words};
use crate::text;
use vstd::prelude::*;

verus! {

proof fn lemma_with_member(
    entries: Seq<(Seq<char>, JsonView)>,
    model: JsonView,
    key: Seq<char>,
    k: Seq<char>,
)
    ensures
        json::object_of(with_member(entries, model, key)).get(k) == (if k == key && model.get(key)
            is Some {
            model.get(key)
        } else {
            json::object_of(entries).get(k)
        }),
{
    if let Some(v) = model.get(key) {
        let now = entries.push((key, v));
        assert(now.drop_last() =~= entries);
        json::law_lookup_after_put(json::put_all(entries), key, v, k);
    }
}

/// The entry for a model with an id names the model, has its name, or the one
/// made from its id, twice, its context window and its prices, and the members
/// of the model that are handed on as they are; it has nothing else.
pub proof fn law_entry_describes_the_model(model: JsonView, id: Seq<char>, k: Seq<char>)
    requires
        model.get("id"@) == Some(JsonView::Str(id)),
        id.len() > 0,
    ensures
        model_entry(model) is Some,
        ({
            let e = model_entry(model)->Some_0;
            let name = match model.get("name"@) {
                Some(JsonView::Str(name)) => name,
                _ => titled(id),
            };
            &&& e.get("id"@) == Some(JsonView::Str(id))
            &&& e.get("name"@) == Some(JsonView::Str(name))
            &&& e.get("display_name"@) == Some(JsonView::Str(name))
            &&& e.get("type"@) == Some(JsonView::Str("model"@))
            &&& e.get("context_window"@) == Some(
                JsonView::Num(NumberView::Unsigned(context_window(model))),
            )
            &&& e.get("input_price"@) == Some(
                JsonView::Num(NumberView::Float(price(model, "input_price"@))),
            )
            &&& e.get("output_price"@) == Some(
                JsonView::Num(NumberView::Float(price(model, "output_price"@))),
            )
            &&& e.get("created"@) == model.get("created"@)
            &&& e.get("owned_by"@) == model.get("owned_by"@)
            &&& e.get("architecture"@) == model.get("architecture"@)
            &&& k != "id"@ && k != "name"@ && k != "display_name"@ && k != "type"@ && k
                != "context_window"@ && k != "input_price"@ && k != "output_price"@ && k
                != "created"@ && k != "owned_by"@ && k != "architecture"@ ==> e.get(k) is None
        }),
{
    reveal_strlit("id");
    reveal_strlit("name");
    reveal_strlit("type");
    reveal_strlit("display_name");
    reveal_strlit("context_window");
    reveal_strlit("input_price");
    reveal_strlit("output_price");
    reveal_strlit("created");
    reveal_strlit("owned_by");
    reveal_strlit("architecture");
    assert("id"@.len() == 2);
    assert("name"@.len() == 4);
    assert("type"@.len() == 4);
    assert("display_name"@.len() == 12);
    assert("context_window"@.len() == 14);
    assert("input_price"@.len() == 11);
    assert("output_price"@.len() == 12);
    assert("created"@.len() == 7);
    assert("owned_by"@.len() == 8);
    assert("architecture"@.len() == 12);
    assert("name"@[0] != "type"@[0]);
    assert("display_name"@[0] != "output_price"@[0]);
    assert("display_name"@[0] != "architecture"@[0]);
    assert("output_price"@[0] != "architecture"@[0]);
    let base = model_members_of(
        id,
        display_name(model),
        context_window(model),
        price(model, "input_price"@),
        price(model, "output_price"@),
    );
    law_object_has_exactly_its_entries(base);
    let b = json::object_of(base);
    assert(base.len() == 7);
    assert(b.get(base[0].0) == Some(base[0].1));
    assert(b.get(base[1].0) == Some(base[1].1));
    assert(b.get(base[2].0) == Some(base[2].1));
    assert(b.get(base[3].0) == Some(base[3].1));
    assert(b.get(base[4].0) == Some(base[4].1));
    assert(b.get(base[5].0) == Some(base[5].1));
    assert(b.get(base[6].0) == Some(base[6].1));
    json::law_object_has_no_other_member(base, "created"@);
    json::law_object_has_no_other_member(base, "owned_by"@);
    json::law_object_has_no_other_member(base, "architecture"@);
    if k != "id"@ && k != "name"@ && k != "display_name"@ && k != "type"@ && k != "context_window"@
        && k != "input_price"@ && k != "output_price"@ {
        json::law_object_has_no_other_member(base, k);
    }
    let one = with_member(base, model, "created"@);
    let two = with_member(one, model, "owned_by"@);
    assert forall|key: Seq<char>| #![trigger json::object_of(base).get(key)]
        json::object_of(with_member(two, model, "architecture"@)).get(key) == (if key
            == "architecture"@ && model.get(key) is Some {
            model.get(key)
        } else if key == "owned_by"@ && model.get(key) is Some {
            model.get(key)
        } else if key == "created"@ && model.get(key) is Some {
            model.get(key)
        } else {
            json::object_of(base).get(key)
        }) by {
        lemma_with_member(base, model, "created"@, key);
        lemma_with_member(one, model, "owned_by"@, key);
        lemma_with_member(two, model, "architecture"@, key);
    }
    assert(b.get(k) == b.get(k));
    assert(b.get("created"@) is None);
    assert(b.get("owned_by"@) is None);
    assert(b.get("architecture"@) is None);
}

/// A model without an id has no entry.
pub proof fn law_no_entry_without_an_id(model: JsonView)
    requires
        model.get("id"@) matches Some(JsonView::Str(id)) ==> id.len() == 0,
    ensures
        model_entry(model) is None,
{
    reveal_strlit("");
}

/// The context window of a model is its own, or its token limit, or the usual
/// one.
pub proof fn law_context_window(model: JsonView, n: u64)
    ensures
        model.get("context_window"@) == Some(JsonView::Num(NumberView::Unsigned(n)))
            ==> context_window(model) == n,
        !(model.get("context_window"@) matches Some(JsonView::Num(NumberView::Unsigned(_))))
            && model.get("max_tokens"@) == Some(JsonView::Num(NumberView::Unsigned(n)))
            ==> context_window(model) == n,
        !(model.get("context_window"@) matches Some(JsonView::Num(NumberView::Unsigned(_)))) && !(
        model.get("max_tokens"@) matches Some(JsonView::Num(NumberView::Unsigned(_))))
            ==> context_window(model) == 128_000,
{
}

/// The price of a model is the number under its key, as a double; it is zero
/// where there is no number.
pub proof fn law_price(model: JsonView, key: Seq<char>)
    ensures
        model.get(key) matches Some(JsonView::Num(NumberView::Unsigned(n))) ==> price(model, key)
            == models::double_text(n as int),
        model.get(key) matches Some(JsonView::Num(NumberView::Negative(n))) ==> price(model, key)
            == models::double_text(n as int),
        model.get(key) matches Some(JsonView::Num(NumberView::Float(s))) ==> price(model, key) == s,
        !(model.get(key) matches Some(JsonView::Num(_))) ==> price(model, key) == "0.0"@,
{
}

/// The entries of a list stand in the order of its models, and every model
/// stands for itself.
pub proof fn law_entries_add_up(a: Seq<JsonView>, b: Seq<JsonView>, model: JsonView)
    ensures
        model_entries(a + b) == model_entries(a) + model_entries(b),
        model_entries(Seq::<JsonView>::empty()) == Seq::<JsonView>::empty(),
        model_entry(model) matches Some(e) ==> model_entries(seq![model]) == seq![e],
        model_entry(model) is None ==> model_entries(seq![model]) == Seq::<JsonView>::empty(),
    decreases b.len(),
{
    let one = seq![model];
    assert(one.drop_last() =~= Seq::empty());
    assert(model_entries(one.drop_last()) =~= Seq::empty());
    assert(one.last() == model);
    if let Some(e) = model_entry(model) {
        assert(model_entries(one) =~= seq![e]);
    }
    if b.len() == 0 {
        assert(a + b =~= a);
        assert(model_entries(a) + model_entries(b) =~= model_entries(a));
    } else {
        assert((a + b).drop_last() =~= a + b.drop_last());
        assert((a + b).last() == b.last());
        law_entries_add_up(a, b.drop_last(), model);
        assert(model_entries(a + b) =~= model_entries(a) + model_entries(b));
    }
}

/// A models list has its entries, says that there are no more, and tells the
/// ids of the first and the last.
pub proof fn law_page_has_its_entries(
    entries: Seq<JsonView>,
    first: Seq<char>,
    last: Seq<char>,
    upstream: JsonView,
    models: Seq<JsonView>,
)
    ensures
        entries.len() > 0 && entries[0].get("id"@) == Some(JsonView::Str(first))
            && entries[entries.len() - 1].get("id"@) == Some(JsonView::Str(last)) ==> has_members(
            models_page(entries),
            seq![
                ("data"@, JsonView::Arr(entries)),
                ("has_more"@, JsonView::Bool(false)),
                ("first_id"@, JsonView::Str(first)),
                ("last_id"@, JsonView::Str(last)),
            ],
        ),
        entries.len() == 0 ==> has_members(
            models_page(entries),
            seq![
                ("data"@, JsonView::Arr(entries)),
                ("has_more"@, JsonView::Bool(false)),
                ("first_id"@, JsonView::Str(""@)),
                ("last_id"@, JsonView::Str(""@)),
            ],
        ),
        upstream.get("data"@) == Some(JsonView::Arr(models)) ==> entries_for(upstream)
            == model_entries(models),
{
    reveal_strlit("data");
    reveal_strlit("has_more");
    reveal_strlit("first_id");
    reveal_strlit("last_id");
    assert("data"@.len() == 4);
    assert("has_more"@.len() == 8);
    assert("first_id"@.len() == 8);
    assert("last_id"@.len() == 7);
    assert("has_more"@[0] != "first_id"@[0]);
    law_object_has_exactly_its_entries(
        seq![
            ("data"@, JsonView::Arr(entries)),
            ("has_more"@, JsonView::Bool(false)),
            ("first_id"@, JsonView::Str(models::first_id(entries))),
            ("last_id"@, JsonView::Str(models::last_id(entries))),
        ],
    );
}

/// The answer for one model has its id and its name, where it has them, and
/// nothing else of it.
pub proof fn law_detail_describes_the_model(model: JsonView, k: Seq<char>)
    ensures
        ({
            let v = json::object_of(detail_members(model));
            &&& v.get("type"@) == Some(JsonView::Str("model"@))
            &&& model.get("id"@) matches Some(JsonView::Str(id)) ==> v.get("id"@) == Some(
                JsonView::Str(id),
            )
            &&& !(model.get("id"@) matches Some(JsonView::Str(_))) ==> v.get("id"@) is None
            &&& model.get("name"@) matches Some(JsonView::Str(name)) ==> v.get("name"@) == Some(
                JsonView::Str(name),
            ) && v.get("display_name"@) == Some(JsonView::Str(name))
            &&& !(model.get("name"@) matches Some(JsonView::Str(_))) ==> v.get("name"@) is None
                && v.get("display_name"@) is None
            &&& k != "type"@ && k != "id"@ && k != "name"@ && k != "display_name"@ ==> v.get(k)
                is None
        }),
{
    reveal_strlit("type");
    reveal_strlit("id");
    reveal_strlit("name");
    reveal_strlit("display_name");
    assert("type"@.len() == 4);
    assert("id"@.len() == 2);
    assert("name"@.len() == 4);
    assert("display_name"@.len() == 12);
    assert("type"@[0] != "name"@[0]);
    let members = detail_members(model);
    let ty = ("type"@, JsonView::Str("model"@));
    match (model.str_at("id"@), model.str_at("name"@)) {
        (Some(id), Some(name)) => {
            let full = seq![
                ("id"@, JsonView::Str(id)),
                ("name"@, JsonView::Str(name)),
                ("display_name"@, JsonView::Str(name)),
                ty,
            ];
            assert(members =~= full);
            law_object_has_exactly_its_entries(full);
            assert(full[0].0 == "id"@ && full[1].0 == "name"@ && full[2].0 == "display_name"@
                && full[3].0 == "type"@);
        },
        (Some(id), None) => {
            let full = seq![("id"@, JsonView::Str(id)), ty];
            assert(members =~= full);
            law_object_has_exactly_its_entries(full);
            assert(full[0].0 == "id"@ && full[1].0 == "type"@);
        },
        (None, Some(name)) => {
            let full = seq![
                ("name"@, JsonView::Str(name)),
                ("display_name"@, JsonView::Str(name)),
                ty,
            ];
            assert(members =~= full);
            law_object_has_exactly_its_entries(full);
            assert(full[0].0 == "name"@ && full[1].0 == "display_name"@ && full[2].0 == "type"@);
        },
        (None, None) => {
            let full = seq![ty];
            assert(members =~= full);
            law_object_has_exactly_its_entries(full);
            assert(full[0].0 == "type"@);
        },
    }
}

/// Each entry of the bridge's own list names a free model, its owner and its
/// kind.
pub proof fn law_own_list_names_the_free_models(i: int)
    requires
        0 <= i < config::free_model_names().len(),
    ensures
        ({
            let v = config::listed_models();
            &&& has_members(
                v,
                seq![("object"@, JsonView::Str("list"@)), ("data"@, v.get("data"@)->Some_0)],
            )
            &&& v.get("data"@) matches Some(JsonView::Arr(data)) && data.len()
                == config::free_model_names().len() && has_members(
                data[i],
                seq![
                    ("id"@, JsonView::Str(config::free_model_names()[i].0)),
                    ("object"@, JsonView::Str("model"@)),
                    ("created"@, JsonView::Num(NumberView::Unsigned(0))),
                    ("owned_by"@, JsonView::Str("opencode-zen"@)),
                ],
            )
        }),
{
    reveal_strlit("object");
    reveal_strlit("data");
    reveal_strlit("id");
    reveal_strlit("created");
    reveal_strlit("owned_by");
    assert("object"@.len() == 6);
    assert("data"@.len() == 4);
    assert("id"@.len() == 2);
    assert("created"@.len() == 7);
    assert("owned_by"@.len() == 8);
    let data = Seq::new(
        config::free_model_names().len(),
        |k: int| config::listed_model(config::free_model_names()[k].0),
    );
    let outer = seq![("object"@, JsonView::Str("list"@)), ("data"@, JsonView::Arr(data))];
    law_object_has_exactly_its_entries(outer);
    assert(outer[1] == ("data"@, JsonView::Arr(data)));
    law_object_has_exactly_its_entries(
        seq![
            ("id"@, JsonView::Str(config::free_model_names()[i].0)),
            ("object"@, JsonView::Str("model"@)),
            ("created"@, JsonView::Num(NumberView::Unsigned(0))),
            ("owned_by"@, JsonView::Str("opencode-zen"@)),
        ],
    );
}

/// The upper case of an ASCII letter is the letter in the other case; any
/// other ASCII character is its own.
pub proof fn law_ascii_upper_case(c: char)
    requires
        0x80 > c as nat,
    ensures
        'a' as nat <= c as nat <= 'z' as nat ==> upper_case(c).len() == 1 && upper_case(c)[0] as nat
            == c as nat - 32,
        !('a' as nat <= c as nat <= 'z' as nat) ==> upper_case(c) == seq![c],
{
}

proof fn lemma_words_split(a: Seq<char>, c: char, b: Seq<char>)
    requires
        white_space(c),
    ensures
        words(a.push(c) + b) == words(a) + words(b),
    decreases b.len(),
{
    let whole = a.push(c) + b;
    if b.len() == 0 {
        assert(whole =~= a.push(c));
        assert(a.push(c).drop_last() =~= a);
        assert(words(a) + words(b) =~= words(a));
    } else {
        let start = b.drop_last();
        assert(whole.drop_last() =~= a.push(c) + start);
        assert(whole.last() == b.last());
        lemma_words_split(a, c, start);
        let x = words(a);
        let y = words(start);
        if b.len() >= 2 {
            assert(whole[whole.len() - 2] == b[b.len() - 2]);
        } else {
            assert(start =~= Seq::empty());
            assert(whole[whole.len() - 2] == c);
        }
        if !white_space(b.last()) && b.len() >= 2 && !white_space(b[b.len() - 2]) {
            lemma_last_word(start);
            assert((x + y).drop_last() =~= x + y.drop_last());
            assert((x + y).last() == y.last());
        }
        assert(words(whole) =~= x + words(b));
    }
}

proof fn lemma_last_word(s: Seq<char>)
    requires
        s.len() > 0,
        !white_space(s.last()),
    ensures
        words(s).len() > 0,
    decreases s.len(),
{
    if s.len() >= 2 && !white_space(s[s.len() - 2]) {
        lemma_last_word(s.drop_last());
    }
}

proof fn lemma_one_word(s: Seq<char>)
    requires
        s.len() > 0,
        forall|i: int| 0 <= i < s.len() ==> !white_space(#[trigger] s[i]),
    ensures
        words(s) == seq![s],
    decreases s.len(),
{
    let start = s.drop_last();
    assert(!white_space(s[s.len() - 1]));
    if start.len() == 0 {
        assert(words(start) =~= Seq::empty());
        assert(seq![s.last()] =~= s);
        assert(words(s) =~= seq![s]);
    } else {
        assert forall|i: int| 0 <= i < start.len() implies !white_space(#[trigger] start[i]) by {
            assert(start[i] == s[i]);
        }
        assert(!white_space(s[s.len() - 2]));
        lemma_one_word(start);
        assert(start.push(s.last()) =~= s);
        assert(words(s) =~= seq![s]);
    }
}

/// The words of a text are its stretches between white space, unchanged and in
/// order.
pub proof fn law_words_stand_between_spaces(a: Seq<char>, c: char, b: Seq<char>, word: Seq<char>)
    requires
        white_space(c),
        word.len() > 0,
        forall|i: int| 0 <= i < word.len() ==> !white_space(#[trigger] word[i]),
    ensures
        words(a.push(c) + b) == words(a) + words(b),
        words(Seq::<char>::empty()) == Seq::<Seq<char>>::empty(),
        words(word) == seq![word],
{
    lemma_words_split(a, c, b);
    lemma_one_word(word);
}

spec fn piece_list(list: Seq<Seq<char>>) -> Seq<Seq<char>> {
    Seq::new(list.len(), |i: int| initials(list)[i] + list[i].skip(1))
}

/// The name made from an id that falls into two at a dash or white space is
/// made of the names of both, with one space between them; the name of one
/// word is the word with its first character in upper case.
pub proof fn law_title_is_made_word_by_word(
    a: Seq<char>,
    c: char,
    b: Seq<char>,
    word: Seq<char>,
)
    requires
        c == '-' || white_space(c),
        word.len() > 0,
        forall|i: int| 0 <= i < word.len() ==> word[i] != '-' && !white_space(#[trigger] word[i]),
    ensures
        words(undashed(a)).len() > 0 && words(undashed(b)).len() > 0 ==> titled(a.push(c) + b)
            == titled(a) + seq![' '] + titled(b),
        words(undashed(a)).len() == 0 ==> titled(a.push(c) + b) == titled(b),
        words(undashed(b)).len() == 0 ==> titled(a.push(c) + b) == titled(a),
        titled(Seq::<char>::empty()) == Seq::<char>::empty(),
        titled(word) == upper_case(word[0]) + word.skip(1),
{
    let d = if c == '-' {
        ' '
    } else {
        c
    };
    assert(white_space(' '));
    let x = words(undashed(a));
    let y = words(undashed(b));
    assert(undashed(a.push(c) + b) =~= undashed(a).push(d) + undashed(b));
    lemma_words_split(undashed(a), d, undashed(b));
    reveal_strlit(" ");
    assert(" "@ =~= seq![' ']);
    let all = piece_list(x + y);
    assert(all =~= piece_list(x) + piece_list(y)) by {
        assert forall|i: int| 0 <= i < all.len() implies all[i] == (piece_list(x) + piece_list(
            y,
        ))[i] by {
            if i < x.len() {
                assert((x + y)[i] == x[i]);
            } else {
                assert((x + y)[i] == y[i - x.len()]);
            }
        }
    }
    assert(titled(a.push(c) + b) == text::joined(all, " "@));
    assert(titled(a) == text::joined(piece_list(x), " "@));
    assert(titled(b) == text::joined(piece_list(y), " "@));
    values::law_joined_adds_up(piece_list(x), piece_list(y), " "@, word);
    if x.len() == 0 {
        assert(all =~= piece_list(y));
    }
    if y.len() == 0 {
        assert(all =~= piece_list(x));
    }
    assert(undashed(word) =~= word);
    lemma_one_word(word);
    let one = upper_case(word[0]) + word.skip(1);
    assert(piece_list(seq![word]) =~= seq![one]);
    values::law_joined_adds_up(piece_list(x), piece_list(y), " "@, one);
    assert(titled(word) == text::joined(piece_list(seq![word]), " "@));
    assert(undashed(Seq::<char>::empty()) =~= Seq::empty());
    assert(words(Seq::<char>::empty()) =~= Seq::empty());
    assert(piece_list(Seq::empty()) =~= Seq::empty());
    assert(titled(Seq::<char>::empty()) == text::joined(piece_list(Seq::empty()), " "@));
}

/// The text of a price: the double for an integer, the number's own text for
/// any other number, and zero where there is none.
pub proof fn law_price_text(rounded: Seq<char>, s: Seq<char>, n: u64, m: i64, v: Option<JsonView>)
    ensures
        models::price_text(Some(JsonView::Num(NumberView::Unsigned(n))), rounded) == rounded,
        models::price_text(Some(JsonView::Num(NumberView::Negative(m))), rounded) == rounded,
        models::price_text(Some(JsonView::Num(NumberView::Float(s))), rounded) == s,
        !(v matches Some(JsonView::Num(_))) ==> models::price_text(v, rounded) == "0.0"@,
{
}

/// An entry with a given name and given prices has just these, and all else
/// from its model.
pub proof fn law_entry_with_given_name_and_prices(
    model: JsonView,
    id: Seq<char>,
    name: Seq<char>,
    input_price: Seq<char>,
    output_price: Seq<char>,
)
    requires
        model.get("id"@) == Some(JsonView::Str(id)),
    ensures
        ({
            let e = models::entry_with(model, name, input_price, output_price);
            &&& e.get("id"@) == Some(JsonView::Str(id))
            &&& e.get("name"@) == Some(JsonView::Str(name))
            &&& e.get("display_name"@) == Some(JsonView::Str(name))
            &&& e.get("type"@) == Some(JsonView::Str("model"@))
            &&& e.get("context_window"@) == Some(
                JsonView::Num(NumberView::Unsigned(context_window(model))),
            )
            &&& e.get("input_price"@) == Some(JsonView::Num(NumberView::Float(input_price)))
            &&& e.get("output_price"@) == Some(JsonView::Num(NumberView::Float(output_price)))
            &&& e.get("created"@) == model.get("created"@)
            &&& e.get("owned_by"@) == model.get("owned_by"@)
            &&& e.get("architecture"@) == model.get("architecture"@)
        }),
{
    reveal_strlit("id");
    reveal_strlit("name");
    reveal_strlit("type");
    reveal_strlit("display_name");
    reveal_strlit("context_window");
    reveal_strlit("input_price");
    reveal_strlit("output_price");
    reveal_strlit("created");
    reveal_strlit("owned_by");
    reveal_strlit("architecture");
    assert("id"@.len() == 2);
    assert("name"@.len() == 4);
    assert("type"@.len() == 4);
    assert("display_name"@.len() == 12);
    assert("context_window"@.len() == 14);
    assert("input_price"@.len() == 11);
    assert("output_price"@.len() == 12);
    assert("created"@.len() == 7);
    assert("owned_by"@.len() == 8);
    assert("architecture"@.len() == 12);
    assert("name"@[0] != "type"@[0]);
    assert("display_name"@[0] != "output_price"@[0]);
    assert("display_name"@[0] != "architecture"@[0]);
    assert("output_price"@[0] != "architecture"@[0]);
    let base = model_members_of(id, name, context_window(model), input_price, output_price);
    law_object_has_exactly_its_entries(base);
    let b = json::object_of(base);
    assert(b.get(base[0].0) == Some(base[0].1));
    assert(b.get(base[1].0) == Some(base[1].1));
    assert(b.get(base[2].0) == Some(base[2].1));
    assert(b.get(base[3].0) == Some(base[3].1));
    assert(b.get(base[4].0) == Some(base[4].1));
    assert(b.get(base[5].0) == Some(base[5].1));
    assert(b.get(base[6].0) == Some(base[6].1));
    json::law_object_has_no_other_member(base, "created"@);
    json::law_object_has_no_other_member(base, "owned_by"@);
    json::law_object_has_no_other_member(base, "architecture"@);
    let one = with_member(base, model, "created"@);
    let two = with_member(one, model, "owned_by"@);
    assert forall|key: Seq<char>| #![trigger json::object_of(base).get(key)]
        json::object_of(with_member(two, model, "architecture"@)).get(key) == (if key
            == "architecture"@ && model.get(key) is Some {
            model.get(key)
        } else if key == "owned_by"@ && model.get(key) is Some {
            model.get(key)
        } else if key == "created"@ && model.get(key) is Some {
            model.get(key)
        } else {
            json::object_of(base).get(key)
        }) by {
        lemma_with_member(base, model, "created"@, key);
        lemma_with_member(one, model, "owned_by"@, key);
        lemma_with_member(two, model, "architecture"@, key);
    }
    assert(b.get("created"@) is None);
    assert(b.get("owned_by"@) is None);
    assert(b.get("architecture"@) is None);
}

/// Words with given initials are joined word by word, with single spaces.
pub proof fn law_initials_are_put_word_by_word(
    a: Seq<Seq<char>>,
    firsts_a: Seq<Seq<char>>,
    b: Seq<Seq<char>>,
    firsts_b: Seq<Seq<char>>,
    word: Seq<char>,
    first: Seq<char>,
)
    requires
        a.len() == firsts_a.len(),
        b.len() == firsts_b.len(),
        a.len() > 0,
        b.len() > 0,
    ensures
        models::with_initials(a + b, firsts_a + firsts_b) == models::with_initials(a, firsts_a)
            + seq![' '] + models::with_initials(b, firsts_b),
        models::with_initials(seq![word], seq![first]) == first + word.skip(1),
{
    reveal_strlit(" ");
    assert(" "@ =~= seq![' ']);
    let x = Seq::new(a.len(), |i: int| firsts_a[i] + a[i].skip(1));
    let y = Seq::new(b.len(), |i: int| firsts_b[i] + b[i].skip(1));
    let both = Seq::new((a + b).len(), |i: int| (firsts_a + firsts_b)[i] + (a + b)[i].skip(1));
    assert(both =~= x + y);
    let one = Seq::new(
        seq![word].len(),
        |i: int| seq![first][i] + seq![word][i].skip(1),
    );
    assert(one =~= seq![first + word.skip(1)]);
    values::law_joined_adds_up(x, y, " "@, first + word.skip(1));
}

} // verus!
