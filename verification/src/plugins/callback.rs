//! The text that a button carries: `category:action` or
//! `category:action:name=value,name=value`.
use vstd::prelude::*;
use vstd::string::*;

use crate::json;
use crate::text;
use crate::text::{join, split, split_once, str_eq};
use crate::text_map;
use crate::text_map::TextMap;
use crate::types;
use crate::types::{ActionCategory, ActionContext, Params, UnifiedAction};

verus! {

// ---------------------------------------------------------------------------
// Categories
// ---------------------------------------------------------------------------

/// The category that goes in front of an action.
pub open spec fn category_name(action: Seq<char>) -> Seq<char> {
    let prefix = action.take(text::index_of_char(action, '.') as int);
    if action == "system.confirm"@ {
        "chat"@
    } else if prefix == "pairing"@ {
        "platform"@
    } else if prefix == "chat"@ || prefix == "action"@ {
        "chat"@
    } else {
        "system"@
    }
}

/// Whether a name is that of a category.
pub open spec fn is_category(name: Seq<char>) -> bool {
    name == "platform"@ || name == "system"@ || name == "chat"@
}

/// The category of a name; every other name is that of the system.
pub open spec fn category_of(name: Seq<char>) -> ActionCategory {
    if name == "platform"@ {
        ActionCategory::Platform
    } else if name == "chat"@ {
        ActionCategory::Chat
    } else {
        ActionCategory::System
    }
}

/// The category that goes in front of an action.
pub fn action_category_prefix(action: &str) -> (r: &'static str)
    ensures
        r@ == category_name(action@),
{
    if str_eq(action, "system.confirm") {
        return "chat";
    }
    let prefix = match split_once(action, '.') {
        Some((head, _)) => head,
        None => action.to_owned(),
    };
    proof {
        text::lemma_index_of_char(action@, '.');
        if text::split_once_at(action@, '.') is None {
            assert(action@.take(text::index_of_char(action@, '.') as int) =~= action@);
        }
    }
    if str_eq(prefix.as_str(), "pairing") {
        "platform"
    } else if str_eq(prefix.as_str(), "chat") || str_eq(prefix.as_str(), "action") {
        "chat"
    } else {
        "system"
    }
}

fn category(name: &str) -> (r: ActionCategory)
    ensures
        r == category_of(name@),
{
    if str_eq(name, "platform") {
        ActionCategory::Platform
    } else if str_eq(name, "chat") {
        ActionCategory::Chat
    } else {
        ActionCategory::System
    }
}

// ---------------------------------------------------------------------------
// Writing
// ---------------------------------------------------------------------------

/// Names and values of parameters, in their order.
pub type Pairs = Seq<(Seq<char>, Seq<char>)>;

/// One parameter in a callback.
pub open spec fn pair_text(pair: (Seq<char>, Seq<char>)) -> Seq<char> {
    pair.0 + "="@ + pair.1
}

/// The parameters in a callback.
pub open spec fn pairs_text(pairs: Pairs) -> Seq<char> {
    text::join_texts(pairs.map_values(|p: (Seq<char>, Seq<char>)| pair_text(p)), ","@)
}

/// The callback of an action with parameters.
pub open spec fn callback_text(action: Seq<char>, pairs: Pairs) -> Seq<char> {
    if pairs.len() == 0 {
        category_name(action) + ":"@ + action
    } else {
        category_name(action) + ":"@ + action + ":"@ + pairs_text(pairs)
    }
}

/// The names and values of optional parameters.
pub open spec fn opt_pairs(params: Option<Params>) -> Pairs {
    match params {
        Some(p) => json::text_pairs(p.pairs()),
        None => Seq::empty(),
    }
}

/// The callback of an action with parameters.
pub fn format_callback(action: &str, params: &Option<Params>) -> (r: String)
    ensures
        r@ == callback_text(action@, opt_pairs(*params)),
{
    let mut out = action_category_prefix(action).to_owned();
    out.append(":");
    out.append(action);
    match params {
        Some(p) => if p.len() > 0 {
            let ghost pairs = json::text_pairs(p.pairs());
            let ghost written = pairs.map_values(|p: (Seq<char>, Seq<char>)| pair_text(p));
            let mut encoded: Vec<String> = Vec::new();
            let mut i: usize = 0;
            while i < p.len()
                invariant
                    i <= p.pairs().len(),
                    pairs == json::text_pairs(p.pairs()),
                    encoded@.len() == i,
                    forall|k: int| 0 <= k < i ==> (#[trigger] encoded@[k])@ == pair_text(pairs[k]),
                decreases p.pairs().len() - i,
            {
                let pair: &(String, String) = p.entry(i);
                let mut one = pair.0.clone();
                one.append("=");
                one.append(pair.1.as_str());
                assert(one@ == pair_text(pairs[i as int]));
                encoded.push(one);
                i += 1;
            }
            assert(text::texts(encoded@) =~= written);
            out.append(":");
            out.append(join(&encoded, ",").as_str());
        },
        None => {},
    }
    out
}

// ---------------------------------------------------------------------------
// Reading
// ---------------------------------------------------------------------------

/// A category, an action and its parameters.
pub type ParsedCallback = (String, String, Option<Params>);

/// What a callback that was read holds.
pub type ParsedView = (Seq<char>, Seq<char>, Option<Map<Seq<char>, Seq<char>>>);

/// What a callback that may have been read holds.
pub open spec fn opt_parsed(r: Option<ParsedCallback>) -> Option<ParsedView> {
    match r {
        Some((category, action, params)) => Some((category@, action@, types::opt_params_view(params))),
        None => None,
    }
}

/// The parameters that pieces of the form `name=value` stand for; a later piece
/// takes the place of an earlier one with the same name, and a piece without
/// `=` stands for nothing.
pub open spec fn params_of(pieces: Seq<Seq<char>>) -> Map<Seq<char>, Seq<char>>
    decreases pieces.len(),
{
    if pieces.len() == 0 {
        Map::empty()
    } else {
        let before = params_of(pieces.drop_last());
        match text::split_once_at(pieces.last(), '=') {
            Some((name, value)) => before.insert(name, value),
            None => before,
        }
    }
}

/// The parameters in the tail of a callback; none where it names none.
pub open spec fn tail_params(tail: Seq<char>) -> Option<Map<Seq<char>, Seq<char>>> {
    let params = params_of(text::split_at_char(tail, ','));
    if tail.len() == 0 || params.dom().is_empty() {
        None
    } else {
        Some(params)
    }
}

/// What a callback says: nothing where it has no `:` or its category is unknown.
pub open spec fn parsed_callback(data: Seq<char>) -> Option<ParsedView> {
    match text::split_once_at(data, ':') {
        None => None,
        Some((category, rest)) => if !is_category(category) {
            None
        } else {
            match text::split_once_at(rest, ':') {
                None => Some((category, rest, None)),
                Some((action, tail)) => Some((category, action, tail_params(tail))),
            }
        },
    }
}

fn read_params(tail: &str) -> (r: Option<Params>)
    ensures
        types::opt_params_view(r) == tail_params(tail@),
{
    if tail.is_empty() {
        return None;
    }
    let pieces = split(tail, ',');
    let ghost views = text::split_at_char(tail@, ',');
    let mut out: Params = TextMap::new();
    let mut i: usize = 0;
    assert(views.take(0) =~= Seq::<Seq<char>>::empty());
    assert(types::params_view(out) =~= Map::<Seq<char>, Seq<char>>::empty());
    while i < pieces.len()
        invariant
            i <= pieces.len(),
            views == text::texts(pieces@),
            types::params_view(out) == params_of(views.take(i as int)),
        decreases pieces.len() - i,
    {
        let ghost before = out;
        assert(views.take(i + 1).drop_last() =~= views.take(i as int));
        assert(views.take(i + 1).last() == pieces@[i as int]@);
        match split_once(pieces[i].as_str(), '=') {
            Some((name, value)) => {
                out.insert(name.as_str(), value);
                assert(types::params_view(out) =~= types::params_view(before).insert(name@, value@));
            },
            None => {},
        }
        i += 1;
    }
    assert(views.take(views.len() as int) =~= views);
    proof {
        out.lemma_keys();
    }
    if out.len() == 0 {
        assert(types::params_view(out).dom() =~= Set::<Seq<char>>::empty());
        None
    } else {
        assert(out.pairs()[0].0@ == out.pairs()[0].0@);
        assert(out@.dom().contains(out.pairs()[0].0@));
        assert(types::params_view(out).dom().contains(out.pairs()[0].0@));
        Some(out)
    }
}

/// What a callback says.
pub fn parse_callback(data: &str) -> (r: Option<ParsedCallback>)
    ensures
        opt_parsed(r) == parsed_callback(data@),
{
    match split_once(data, ':') {
        None => None,
        Some((category, rest)) => if !str_eq(category.as_str(), "platform") && !str_eq(category.as_str(), "system")
            && !str_eq(category.as_str(), "chat") {
            None
        } else {
            match split_once(rest.as_str(), ':') {
                None => Some((category, rest, None)),
                Some((action, tail)) => Some((category, action, read_params(tail.as_str()))),
            }
        },
    }
}

// ---------------------------------------------------------------------------
// What a callback leads to
// ---------------------------------------------------------------------------

/// The optional value under a name, or the empty text.
pub open spec fn param_or_empty(params: Map<Seq<char>, Seq<char>>, name: Seq<char>) -> Seq<char> {
    if params.dom().contains(name) {
        params[name]
    } else {
        Seq::empty()
    }
}

/// The tool call that a callback confirms and the answer to it: only a
/// `system.confirm` that names the call confirms one.
pub open spec fn confirmed_call(parsed: Option<ParsedView>) -> Option<(Seq<char>, Seq<char>)> {
    match parsed {
        Some((_, action, Some(params))) => if action == "system.confirm"@ && param_or_empty(
            params,
            "callId"@,
        ).len() > 0 {
            Some((param_or_empty(params, "callId"@), param_or_empty(params, "value"@)))
        } else {
            None
        },
        _ => None,
    }
}

/// What an optional pair of strings holds.
pub open spec fn opt_pair(p: Option<(String, String)>) -> Option<(Seq<char>, Seq<char>)> {
    match p {
        Some((a, b)) => Some((a@, b@)),
        None => None,
    }
}

fn param(params: &Params, name: &str) -> (r: String)
    ensures
        r@ == param_or_empty(types::params_view(*params), name@),
{
    match params.get(name) {
        Some(v) => v.clone(),
        None => String::new(),
    }
}

/// The tool call that a callback confirms and the answer to it.
pub fn confirmation(parsed: &Option<ParsedCallback>) -> (r: Option<(String, String)>)
    ensures
        opt_pair(r) == confirmed_call(opt_parsed(*parsed)),
{
    match parsed {
        Some((_, action, Some(params))) => {
            let call_id = param(params, "callId");
            if str_eq(action.as_str(), "system.confirm") && !call_id.as_str().is_empty() {
                Some((call_id, param(params, "value")))
            } else {
                None
            }
        },
        _ => None,
    }
}

/// The action that a callback triggers.
pub open spec fn triggered(parsed: Option<ParsedView>, context: types::ContextView) -> Option<types::ActionView> {
    match parsed {
        Some((category, action, params)) => Some(
            types::ActionView { action, category: category_of(category), params, context },
        ),
        None => None,
    }
}

/// The action that a callback triggers.
pub fn trigger_action(parsed: Option<ParsedCallback>, context: ActionContext) -> (r: Option<UnifiedAction>)
    ensures
        (match r {
            Some(a) => Some(a@),
            None => None,
        }) == triggered(opt_parsed(parsed), context@),
{
    match parsed {
        Some((name, action, params)) => Some(UnifiedAction { action, category: category(name.as_str()), params, context }),
        None => None,
    }
}

// ---------------------------------------------------------------------------
// Laws
// ---------------------------------------------------------------------------

/// Whether `c` does not occur in `s`.
pub open spec fn lacks(s: Seq<char>, c: char) -> bool {
    forall|i: int| 0 <= i < s.len() ==> s[i] != c
}

/// Whether parameters can be told apart in a callback: no name holds `=` or `,`
/// and no value holds `,`.
pub open spec fn separable(pairs: Pairs) -> bool {
    forall|i: int|
        0 <= i < pairs.len() ==> {
            &&& lacks((#[trigger] pairs[i]).0, '=')
            &&& lacks(pairs[i].0, ',')
            &&& lacks(pairs[i].1, ',')
        }
}

proof fn lemma_split_head(head: Seq<char>, c: char, rest: Seq<char>)
    requires
        lacks(head, c),
    ensures
        text::split_once_at(head + seq![c] + rest, c) == Some((head, rest)),
{
    let whole = head + seq![c] + rest;
    text::lemma_index_unique(whole, c, head.len() as int);
    assert(whole.take(head.len() as int) =~= head);
    assert(whole.skip(head.len() as int + 1) =~= rest);
}

proof fn lemma_join_front(parts: Seq<Seq<char>>, sep: Seq<char>)
    requires
        parts.len() >= 2,
    ensures
        text::join_texts(parts, sep) == parts[0] + sep + text::join_texts(parts.skip(1), sep),
    decreases parts.len(),
{
    let tail = parts.skip(1);
    if parts.len() == 2 {
        assert(parts.drop_last() =~= seq![parts[0]]);
        assert(text::join_texts(parts.drop_last(), sep) == parts[0]);
        assert(text::join_texts(tail, sep) == parts[1]);
    } else {
        lemma_join_front(parts.drop_last(), sep);
        assert(parts.drop_last().skip(1) =~= tail.drop_last());
        assert(tail.last() == parts.last());
        let mid = text::join_texts(tail.drop_last(), sep);
        assert((parts[0] + sep + mid) + sep + parts.last() =~= parts[0] + sep + (mid + sep + parts.last()));
    }
}

proof fn lemma_split_joined(parts: Seq<Seq<char>>, c: char)
    requires
        parts.len() >= 1,
        forall|i: int| 0 <= i < parts.len() ==> lacks(#[trigger] parts[i], c),
    ensures
        text::split_at_char(text::join_texts(parts, seq![c]), c) == parts,
    decreases parts.len(),
{
    let whole = text::join_texts(parts, seq![c]);
    if parts.len() == 1 {
        assert(lacks(parts[0], c));
        text::lemma_index_unique(whole, c, whole.len() as int);
        assert(seq![whole] =~= parts);
    } else {
        let tail = parts.skip(1);
        lemma_join_front(parts, seq![c]);
        assert(lacks(parts[0], c));
        lemma_split_head(parts[0], c, text::join_texts(tail, seq![c]));
        assert forall|i: int| 0 <= i < tail.len() implies lacks(#[trigger] tail[i], c) by {
            assert(tail[i] == parts[i + 1]);
        }
        lemma_split_joined(tail, c);
        assert(seq![parts[0]] + tail =~= parts);
    }
}

/// The map of pairs, where a later pair takes the place of an earlier one with
/// the same name.
pub open spec fn pair_map(pairs: Pairs) -> Map<Seq<char>, Seq<char>>
    decreases pairs.len(),
{
    if pairs.len() == 0 {
        Map::empty()
    } else {
        pair_map(pairs.drop_last()).insert(pairs.last().0, pairs.last().1)
    }
}

proof fn lemma_params_of_pairs(pairs: Pairs)
    requires
        separable(pairs),
    ensures
        params_of(pairs.map_values(|p: (Seq<char>, Seq<char>)| pair_text(p))) == pair_map(pairs),
    decreases pairs.len(),
{
    let pieces = pairs.map_values(|p: (Seq<char>, Seq<char>)| pair_text(p));
    if pairs.len() > 0 {
        let before = pairs.drop_last();
        assert forall|i: int| 0 <= i < before.len() implies {
            &&& lacks((#[trigger] before[i]).0, '=')
            &&& lacks(before[i].0, ',')
            &&& lacks(before[i].1, ',')
        } by {
            assert(before[i] == pairs[i]);
        }
        lemma_params_of_pairs(before);
        assert(pieces.drop_last() =~= before.map_values(|p: (Seq<char>, Seq<char>)| pair_text(p)));
        reveal_strlit("=");
        assert("="@ =~= seq!['=']);
        assert(pieces.last() == pair_text(pairs.last()));
        lemma_split_head(pairs.last().0, '=', pairs.last().1);
    }
}

proof fn lemma_joined_lacks(head: Seq<char>, mid: Seq<char>, tail: Seq<char>, c: char)
    requires
        lacks(head, c),
        lacks(mid, c),
        lacks(tail, c),
    ensures
        lacks(head + mid + tail, c),
{
}

proof fn lemma_category_lacks_colon(action: Seq<char>)
    ensures
        lacks(category_name(action), ':'),
        is_category(category_name(action)),
{
    reveal_strlit("platform");
    reveal_strlit("system");
    reveal_strlit("chat");
}

/// What a button carries is read back as the action and the parameters that
/// went in, under the category of the action.
pub proof fn law_callback_is_read_back(action: Seq<char>, pairs: Pairs)
    requires
        lacks(action, ':'),
        separable(pairs),
    ensures
        parsed_callback(callback_text(action, pairs)) == Some(
            (
                category_name(action),
                action,
                if pairs.len() == 0 {
                    None
                } else {
                    Some(pair_map(pairs))
                },
            ),
        ),
{
    let data = callback_text(action, pairs);
    let name = category_name(action);
    reveal_strlit(":");
    reveal_strlit("=");
    reveal_strlit(",");
    assert(":"@ =~= seq![':']);
    assert("="@ =~= seq!['=']);
    assert(","@ =~= seq![',']);
    lemma_category_lacks_colon(action);
    if pairs.len() == 0 {
        lemma_split_head(name, ':', action);
        text::lemma_index_unique(action, ':', action.len() as int);
    } else {
        let tail = pairs_text(pairs);
        let rest = action + seq![':'] + tail;
        assert(data =~= name + seq![':'] + rest);
        lemma_split_head(name, ':', rest);
        lemma_split_head(action, ':', tail);
        let pieces = pairs.map_values(|p: (Seq<char>, Seq<char>)| pair_text(p));
        assert forall|i: int| 0 <= i < pieces.len() implies lacks(#[trigger] pieces[i], ',') by {
            assert(pieces[i] == pairs[i].0 + seq!['='] + pairs[i].1);
            lemma_joined_lacks(pairs[i].0, seq!['='], pairs[i].1, ',');
        }
        lemma_split_joined(pieces, ',');
        lemma_params_of_pairs(pairs);
        assert(pair_map(pairs).dom().contains(pairs.last().0));
        if pieces.len() > 1 {
            lemma_join_front(pieces, seq![',']);
        }
        assert(pieces[0] == pairs[0].0 + seq!['='] + pairs[0].1);
        assert(tail.len() > 0);
    }
}

/// Pairs without a name that occurs twice stand for exactly themselves.
pub proof fn law_distinct_names_are_kept(params: Params)
    requires
        text_map::keys_unique(params.pairs()),
    ensures
        pair_map(json::text_pairs(params.pairs())) == types::params_view(params),
{
    params.lemma_view();
    lemma_pair_map(params.pairs());
    assert(types::params_view(params) =~= text_map::pairs_map(params.pairs()).map_values(|s: String| s@));
}

proof fn lemma_pair_map(pairs: Seq<(String, String)>)
    requires
        text_map::keys_unique(pairs),
    ensures
        pair_map(json::text_pairs(pairs)) == text_map::pairs_map(pairs).map_values(|s: String| s@),
    decreases pairs.len(),
{
    let whole = text_map::pairs_map(pairs).map_values(|s: String| s@);
    if pairs.len() == 0 {
        assert forall|key: Seq<char>| !whole.dom().contains(key) by {}
        assert(pair_map(json::text_pairs(pairs)) =~= whole);
    } else {
        let before = pairs.drop_last();
        assert forall|i: int, j: int| 0 <= i < j < before.len() implies (#[trigger] before[i]).0@ != (
        #[trigger] before[j]).0@ by {
            assert(before[i] == pairs[i] && before[j] == pairs[j]);
        }
        lemma_pair_map(before);
        assert(json::text_pairs(pairs).drop_last() =~= json::text_pairs(before));
        let n = pairs.len() - 1;
        let m = text_map::pairs_map(before).map_values(|s: String| s@).insert(pairs[n].0@, pairs[n].1@);
        assert forall|key: Seq<char>| whole.dom().contains(key) == m.dom().contains(key) by {
            if whole.dom().contains(key) {
                let i = choose|i: int| text_map::key_at(pairs, key, i);
                assert(text_map::key_at(pairs, key, i));
                if i < n {
                    assert(text_map::key_at(before, key, i));
                }
            }
            if m.dom().contains(key) {
                if key == pairs[n].0@ {
                    assert(text_map::key_at(pairs, key, n));
                } else {
                    let i = choose|i: int| text_map::key_at(before, key, i);
                    assert(text_map::key_at(before, key, i));
                    assert(text_map::key_at(pairs, key, i));
                }
            }
        }
        assert forall|key: Seq<char>| m.dom().contains(key) implies whole[key] == m[key] by {
            if key == pairs[n].0@ {
                text_map::lemma_pair_in_map(pairs, n);
            } else {
                let i = choose|i: int| text_map::key_at(before, key, i);
                assert(text_map::key_at(before, key, i));
                text_map::lemma_pair_in_map(before, i);
                text_map::lemma_pair_in_map(pairs, i);
            }
        }
        assert(whole =~= m);
    }
}

/// What a button is sent with: its parameters, where it has any.
pub open spec fn own_params(b: types::ActionButton) -> Option<Map<Seq<char>, Seq<char>>> {
    match b.params {
        Some(p) => if p.pairs().len() == 0 {
            None
        } else {
            Some(types::params_view(p))
        },
        None => None,
    }
}

/// Whether what a button is sent with can be told apart again.
pub open spec fn can_be_read_back(b: types::ActionButton) -> bool {
    &&& lacks(b.action@, ':')
    &&& separable(opt_pairs(b.params))
    &&& b.params matches Some(p) ==> text_map::keys_unique(p.pairs())
}

/// Whether pressing a button whose callback is `t`, wherever that is, triggers the
/// action of the button `b` with its parameters.
pub open spec fn leads_to(t: Seq<char>, b: types::ActionButton) -> bool {
    forall|context: types::ContextView|
        #[trigger] triggered(parsed_callback(t), context) == Some(
            types::ActionView {
                action: b.action@,
                category: category_of(category_name(b.action@)),
                params: own_params(b),
                context,
            },
        )
}

/// The callback of a button leads to the action of that button.
pub proof fn law_button_leads_to_its_action(b: types::ActionButton)
    requires
        can_be_read_back(b),
    ensures
        leads_to(callback_text(b.action@, opt_pairs(b.params)), b),
{
    let pairs = opt_pairs(b.params);
    law_callback_is_read_back(b.action@, pairs);
    if let Some(p) = b.params {
        law_distinct_names_are_kept(p);
    }
}

/// A pressed button confirms a tool call exactly if it is a confirmation that names
/// the call; the answer is the value that it carries.
pub proof fn law_confirmations_name_their_call(b: types::ActionButton)
    requires
        can_be_read_back(b),
    ensures
        ({
            let call = match own_params(b) {
                Some(p) => param_or_empty(p, "callId"@),
                None => Seq::empty(),
            };
            let t = callback_text(b.action@, opt_pairs(b.params));
            &&& confirmed_call(parsed_callback(t)) is Some <==> b.action@ == "system.confirm"@ && call.len() > 0
            &&& confirmed_call(parsed_callback(t)) matches Some((id, answer)) ==> id == call && answer
                == param_or_empty(own_params(b)->0, "value"@)
        }),
{
    law_callback_is_read_back(b.action@, opt_pairs(b.params));
    if let Some(p) = b.params {
        law_distinct_names_are_kept(p);
    }
}

/// An action is sent to the platform exactly if it is about pairing, and to the chat
/// exactly if it is about the chat or a confirmation; the system gets the rest.
pub proof fn law_categories_follow_the_name(group: Seq<char>, rest: Seq<char>)
    requires
        lacks(group, '.'),
    ensures
        ({
            let action = group + "."@ + rest;
            let category = category_of(category_name(action));
            let chat = group == "chat"@ || group == "action"@ || action == "system.confirm"@;
            &&& category == ActionCategory::Platform <==> group == "pairing"@ && !chat
            &&& category == ActionCategory::Chat <==> chat
        }),
{
    reveal_strlit(".");
    let action = group + "."@ + rest;
    text::lemma_index_unique(action, '.', group.len() as int);
    assert(action.take(group.len() as int) =~= group);
    reveal_strlit("platform");
    reveal_strlit("system");
    reveal_strlit("chat");
    reveal_strlit("action");
    reveal_strlit("pairing");
    assert("platform"@.len() == 8 && "system"@.len() == 6 && "chat"@.len() == 4 && "action"@.len() == 6
        && "pairing"@.len() == 7 && "system"@[0] == 's' && "action"@[0] == 'a');
}

} // verus!
