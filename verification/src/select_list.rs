//! The projection list of a query: the tokens of the selected variables.

use crate::order::{distinct, distinct_strings, lemma_distinct, sort_strings};
use crate::projection::is_variable;
use crate::slots::{Slot, SlotView, slot_views};
use crate::text::{begins_with, join, join_strings, lemma_join_head, lemma_lex_order_total};
use crate::text::{lemma_texts_push, lex_order, starts_with_char, strip_leading, texts};
use crate::text::{trim_leading};
use vstd::prelude::*;
use vstd::relations::sorted_by;

verus! {

/// The variable that holds the label of the variable `id`: `?`, the name
/// of `id` without any leading `?`, and `Label`.
pub open spec fn label_variable(id: Seq<char>) -> Seq<char> {
    "?"@ + strip_leading(id, '?') + "Label"@
}

/// The projection token of a variable: its id, inside `DISTINCT(` and `)`
/// where it is distinct.
pub open spec fn variable_token(id: Seq<char>, wrapped: bool) -> Seq<char> {
    if wrapped {
        "DISTINCT("@ + id + ")"@
    } else {
        id
    }
}

/// A slot whose variable is projected.
pub open spec fn is_selected_variable(s: SlotView) -> bool {
    is_variable(s.id) && s.selected
}

/// The projection tokens of a slot. A selected variable gives its token
/// and, with the label service, its label variable, which is never
/// wrapped. Any other slot gives none.
pub open spec fn slot_tokens(s: SlotView, label_service: bool) -> Seq<Seq<char>> {
    if is_selected_variable(s) {
        if label_service {
            seq![variable_token(s.id, s.distinct), label_variable(s.id)]
        } else {
            seq![variable_token(s.id, s.distinct)]
        }
    } else {
        Seq::empty()
    }
}

/// The projection tokens of the slots, in their order.
pub open spec fn tokens(slots: Seq<SlotView>, label_service: bool) -> Seq<Seq<char>>
    decreases slots.len(),
{
    if slots.len() == 0 {
        Seq::empty()
    } else {
        tokens(slots.drop_last(), label_service) + slot_tokens(slots.last(), label_service)
    }
}

/// The projection list: the different tokens in lexicographic order, a
/// space between each two; `*` where there is no token.
pub open spec fn projection_list(slots: Seq<SlotView>, label_service: bool) -> Seq<char> {
    let sorted = distinct(tokens(slots, label_service)).sort_by(lex_order());
    if sorted.len() == 0 {
        "*"@
    } else {
        join(sorted, " "@)
    }
}

/// Every selected variable gives its token, and with the label service
/// its label variable too.
pub proof fn lemma_tokens_of_selected(slots: Seq<SlotView>, label_service: bool, i: int)
    requires
        0 <= i < slots.len(),
        is_selected_variable(slots[i]),
    ensures
        tokens(slots, label_service).contains(variable_token(slots[i].id, slots[i].distinct)),
        label_service ==> tokens(slots, label_service).contains(label_variable(slots[i].id)),
    decreases slots.len(),
{
    let all = tokens(slots, label_service);
    let front = tokens(slots.drop_last(), label_service);
    let own = slot_tokens(slots.last(), label_service);
    if i == slots.len() - 1 {
        assert(all[front.len() as int] == own[0]);
        if label_service {
            assert(all[front.len() as int + 1] == own[1]);
        }
    } else {
        lemma_tokens_of_selected(slots.drop_last(), label_service, i);
        let t = variable_token(slots[i].id, slots[i].distinct);
        let j = choose|j: int| 0 <= j < front.len() && front[j] == t;
        assert(all[j] == t);
        if label_service {
            let l = label_variable(slots[i].id);
            let k = choose|k: int| 0 <= k < front.len() && front[k] == l;
            assert(all[k] == l);
        }
    }
}

/// Every token comes from a selected variable: it is the variable's
/// token, or, with the label service, its label variable.
pub proof fn lemma_token_origin(slots: Seq<SlotView>, label_service: bool, token: Seq<char>)
    requires
        tokens(slots, label_service).contains(token),
    ensures
        exists|i: int|
            0 <= i < slots.len() && is_selected_variable(#[trigger] slots[i]) && (token
                == variable_token(slots[i].id, slots[i].distinct) || (label_service && token
                == label_variable(slots[i].id))),
    decreases slots.len(),
{
    let all = tokens(slots, label_service);
    if slots.len() > 0 {
        let front = tokens(slots.drop_last(), label_service);
        let own = slot_tokens(slots.last(), label_service);
        let j = choose|j: int| 0 <= j < all.len() && all[j] == token;
        if j < front.len() {
            assert(front[j] == token);
            assert(front.contains(token));
            lemma_token_origin(slots.drop_last(), label_service, token);
            let i = choose|i: int|
                0 <= i < slots.drop_last().len() && is_selected_variable(
                    #[trigger] slots.drop_last()[i],
                ) && (token == variable_token(
                    slots.drop_last()[i].id,
                    slots.drop_last()[i].distinct,
                ) || (label_service && token == label_variable(slots.drop_last()[i].id)));
            assert(slots[i] == slots.drop_last()[i]);
        } else {
            let last = slots.len() - 1;
            assert(own[j - front.len()] == token);
            assert(is_selected_variable(slots[last]));
        }
    }
}

/// Where no variable is selected, the projection list is `*`.
pub proof fn lemma_projection_star(slots: Seq<SlotView>, label_service: bool)
    requires
        forall|i: int| 0 <= i < slots.len() ==> !is_selected_variable(#[trigger] slots[i]),
    ensures
        projection_list(slots, label_service) == "*"@,
{
    let all = tokens(slots, label_service);
    if all.len() > 0 {
        assert(all.contains(all[0]));
        lemma_token_origin(slots, label_service, all[0]);
    }
    assert(all =~= Seq::empty());
    assert(distinct(all) =~= Seq::empty());
    lemma_lex_order_total();
    distinct(all).lemma_sort_by_ensures(lex_order());
    distinct(all).to_multiset_ensures();
    distinct(all).sort_by(lex_order()).to_multiset_ensures();
}

/// What the projection list is made of: the tokens, each once, in
/// lexicographic order.
pub proof fn lemma_projection_tokens(slots: Seq<SlotView>, label_service: bool)
    ensures
        ({
            let all = tokens(slots, label_service);
            let sorted = distinct(all).sort_by(lex_order());
            &&& sorted_by(sorted, lex_order())
            &&& sorted.no_duplicates()
            &&& forall|t: Seq<char>| sorted.contains(t) <==> all.contains(t)
        }),
{
    let all = tokens(slots, label_service);
    let different = distinct(all);
    let sorted = different.sort_by(lex_order());
    lemma_lex_order_total();
    lemma_distinct(all);
    different.lemma_sort_by_ensures(lex_order());
    different.to_multiset_ensures();
    sorted.to_multiset_ensures();
    different.lemma_multiset_has_no_duplicates();
    assert forall|t: Seq<char>| sorted.contains(t) <==> all.contains(t) by {
        assert(sorted.contains(t) <==> sorted.to_multiset().count(t) > 0);
        assert(different.contains(t) <==> different.to_multiset().count(t) > 0);
    }
    assert forall|t: Seq<char>| sorted.to_multiset().contains(t) implies sorted.to_multiset().count(
        t,
    ) == 1 by {}
    sorted.lemma_multiset_has_no_duplicates_conv();
}

/// The label variable of a variable is a variable: it is never wrapped.
pub proof fn lemma_label_variable_plain(id: Seq<char>)
    ensures
        is_variable(label_variable(id)),
{
    reveal_strlit("?");
    assert(label_variable(id)[0] == "?"@[0]);
}

/// Where no selected variable is distinct, every token is a variable:
/// `DISTINCT` stands nowhere in the projection.
pub proof fn lemma_tokens_plain(slots: Seq<SlotView>, label_service: bool)
    requires
        forall|i: int|
            0 <= i < slots.len() && is_selected_variable(#[trigger] slots[i])
                ==> !slots[i].distinct,
    ensures
        forall|t: Seq<char>| #[trigger]
            tokens(slots, label_service).contains(t) ==> is_variable(t),
{
    assert forall|t: Seq<char>| #[trigger]
        tokens(slots, label_service).contains(t) implies is_variable(t) by {
        lemma_token_origin(slots, label_service, t);
        let i = choose|i: int|
            0 <= i < slots.len() && is_selected_variable(#[trigger] slots[i]) && (t
                == variable_token(slots[i].id, slots[i].distinct) || (label_service && t
                == label_variable(slots[i].id)));
        lemma_label_variable_plain(slots[i].id);
    }
}

/// A selected variable that is distinct stands in the projection inside
/// `DISTINCT(` and `)`.
pub proof fn lemma_token_wrapped(slots: Seq<SlotView>, label_service: bool, i: int)
    requires
        0 <= i < slots.len(),
        is_selected_variable(slots[i]),
        slots[i].distinct,
    ensures
        tokens(slots, label_service).contains("DISTINCT("@ + slots[i].id + ")"@),
{
    lemma_tokens_of_selected(slots, label_service, i);
}

/// Where a variable is selected, the projection list begins with a token:
/// with the `?` of a variable, or with `DISTINCT(`.
pub proof fn lemma_projection_head(slots: Seq<SlotView>, label_service: bool, i: int)
    requires
        0 <= i < slots.len(),
        is_selected_variable(slots[i]),
    ensures
        begins_with(projection_list(slots, label_service), '?') || "DISTINCT("@.is_prefix_of(
            projection_list(slots, label_service),
        ),
{
    let all = tokens(slots, label_service);
    let sorted = distinct(all).sort_by(lex_order());
    lemma_tokens_of_selected(slots, label_service, i);
    lemma_projection_tokens(slots, label_service);
    assert(sorted.contains(variable_token(slots[i].id, slots[i].distinct)));
    let first = sorted[0];
    assert(sorted.contains(first));
    lemma_token_origin(slots, label_service, first);
    let k = choose|k: int|
        0 <= k < slots.len() && is_selected_variable(#[trigger] slots[k]) && (first
            == variable_token(slots[k].id, slots[k].distinct) || (label_service && first
            == label_variable(slots[k].id)));
    lemma_label_variable_plain(slots[k].id);
    lemma_join_head(sorted, " "@);
    let list = projection_list(slots, label_service);
    assert(list == join(sorted, " "@));
    if is_variable(first) {
        assert(list[0] == list.subrange(0, first.len() as int)[0]);
    } else {
        let mark = "DISTINCT("@;
        assert(first == mark + slots[k].id + ")"@);
        assert(list.subrange(0, mark.len() as int) =~= list.subrange(
            0,
            first.len() as int,
        ).subrange(0, mark.len() as int));
        assert(first.subrange(0, mark.len() as int) =~= mark);
    }
}

/// The projection list is `*` only where no variable is selected.
pub proof fn lemma_projection_not_star(slots: Seq<SlotView>, label_service: bool, i: int)
    requires
        0 <= i < slots.len(),
        is_selected_variable(slots[i]),
    ensures
        projection_list(slots, label_service) != "*"@,
{
    lemma_projection_head(slots, label_service, i);
    reveal_strlit("*");
    reveal_strlit("DISTINCT(");
    let list = projection_list(slots, label_service);
    if "DISTINCT("@.is_prefix_of(list) {
        assert(list.len() >= "DISTINCT("@.len());
    }
}

/// `DISTINCT` never follows `SELECT` as a word of its own: the projection
/// list does not begin with `DISTINCT` and a space.
pub proof fn lemma_no_distinct_keyword(slots: Seq<SlotView>, label_service: bool)
    ensures
        !"DISTINCT "@.is_prefix_of(projection_list(slots, label_service)),
{
    reveal_strlit("*");
    reveal_strlit("DISTINCT(");
    reveal_strlit("DISTINCT ");
    let list = projection_list(slots, label_service);
    if exists|i: int| 0 <= i < slots.len() && is_selected_variable(#[trigger] slots[i]) {
        let i = choose|i: int| 0 <= i < slots.len() && is_selected_variable(#[trigger] slots[i]);
        lemma_projection_head(slots, label_service, i);
        if "DISTINCT "@.is_prefix_of(list) {
            let keyword = list.subrange(0, "DISTINCT "@.len() as int);
            assert(keyword[0] == 'D');
            assert(keyword[8] == ' ');
            assert(list[0] == keyword[0]);
            assert(list[8] == keyword[8]);
            if "DISTINCT("@.is_prefix_of(list) {
                let mark = list.subrange(0, "DISTINCT("@.len() as int);
                assert(mark[8] == '(');
                assert(list[8] == mark[8]);
            }
        }
    } else {
        lemma_projection_star(slots, label_service);
    }
}

/// The projection tokens of the slots, in their order.
fn projection_tokens(slots: &Vec<Slot>, label_service: bool) -> (r: Vec<String>)
    ensures
        texts(r@) == tokens(slot_views(slots@), label_service),
{
    let ghost all = slot_views(slots@);
    let mut out: Vec<String> = Vec::new();
    let mut i: usize = 0;
    assert(all.take(0) =~= Seq::empty());
    assert(texts(out@) =~= Seq::empty());
    while i < slots.len()
        invariant
            i <= slots.len(),
            all == slot_views(slots@),
            texts(out@) == tokens(all.take(i as int), label_service),
        decreases slots.len() - i,
    {
        let slot = &slots[i];
        let ghost before = texts(out@);
        proof {
            assert(all.take(i + 1).drop_last() =~= all.take(i as int));
            assert(all.take(i + 1).last() == slot@);
        }
        if starts_with_char(slot.id.as_str(), '?') && slot.selected {
            let token = if slot.distinct {
                let mut wrapped = String::from_str("DISTINCT(");
                wrapped.append(slot.id.as_str());
                wrapped.append(")");
                wrapped
            } else {
                slot.id.clone()
            };
            proof {
                lemma_texts_push(out@, token);
            }
            out.push(token);
            if label_service {
                let name = trim_leading(slot.id.as_str(), '?');
                let mut label = String::from_str("?");
                label.append(name.as_str());
                label.append("Label");
                proof {
                    lemma_texts_push(out@, label);
                }
                out.push(label);
            }
            assert(texts(out@) =~= before + slot_tokens(slot@, label_service));
        } else {
            assert(texts(out@) =~= before + slot_tokens(slot@, label_service));
        }
        i = i + 1;
    }
    assert(all.take(i as int) =~= all);
    out
}

/// The projection list of the slots.
pub fn projection_list_of(slots: &Vec<Slot>, label_service: bool) -> (r: String)
    ensures
        r@ == projection_list(slot_views(slots@), label_service),
{
    let all = projection_tokens(slots, label_service);
    let different = distinct_strings(&all);
    let sorted = sort_strings(&different);
    if sorted.len() == 0 {
        String::from_str("*")
    } else {
        join_strings(&sorted, " ")
    }
}

} // verus!
