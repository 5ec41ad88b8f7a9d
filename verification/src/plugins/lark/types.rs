//! Events and cards of Lark.
use vstd::prelude::*;
use vstd::string::*;

use crate::json;
use crate::json::{list, object, write_json, Json};
use crate::plugins::callback;
use crate::plugins::callback::{format_callback, parse_callback, ParsedCallback};
use crate::types::{ActionButton, Params};

verus! {

// ---------------------------------------------------------------------------
// What comes in
// ---------------------------------------------------------------------------

/// A message that came in.
#[derive(Debug)]
pub struct MessageEvent {
    pub sender: MessageSender,
    pub message: MessageBody,
}

/// Who sent a message.
#[derive(Debug)]
pub struct MessageSender {
    pub sender_id: SenderIdContainer,
    pub sender_type: String,
    pub tenant_key: String,
}

/// The ids of a sender.
#[derive(Debug)]
pub struct SenderIdContainer {
    pub open_id: String,
    pub user_id: String,
    pub union_id: String,
}

/// A message and where it stands; `content` is the text of a document.
#[derive(Debug)]
pub struct MessageBody {
    pub message_id: String,
    pub chat_id: String,
    pub chat_type: String,
    pub message_type: String,
    pub content: String,
    pub parent_id: Option<String>,
    pub root_id: Option<String>,
    pub create_time: Option<String>,
    pub mentions: Option<Vec<Mention>>,
}

/// A mention, with the key that stands for it in the text.
#[derive(Debug)]
pub struct Mention {
    pub key: String,
    pub id: MentionId,
    pub name: String,
}

/// The ids of somebody who is mentioned.
#[derive(Debug)]
pub struct MentionId {
    pub open_id: String,
    pub user_id: String,
    pub union_id: String,
}

/// A button of a card that was pressed.
#[derive(Debug)]
pub struct CardActionEvent {
    pub operator: CardOperator,
    pub action: CardAction,
    pub token: Option<String>,
    pub open_message_id: Option<String>,
    pub open_chat_id: Option<String>,
}

/// Who pressed a button.
#[derive(Debug)]
pub struct CardOperator {
    pub open_id: String,
    pub user_id: Option<String>,
}

/// Which button was pressed; `value` is the text of a document.
#[derive(Debug)]
pub struct CardAction {
    pub tag: String,
    pub value: Option<String>,
}

/// An entry of the menu that was chosen.
#[derive(Debug)]
pub struct BotMenuEvent {
    pub operator: BotMenuOperator,
    pub event_key: String,
    pub timestamp: Option<String>,
}

/// Who chose an entry.
#[derive(Debug)]
pub struct BotMenuOperator {
    pub operator_id: OperatorId,
}

/// The ids of somebody who chose an entry.
#[derive(Debug)]
pub struct OperatorId {
    pub open_id: String,
    pub user_id: String,
    pub union_id: String,
}

// ---------------------------------------------------------------------------
// Callbacks
// ---------------------------------------------------------------------------

/// What a callback says.
pub type ParsedLarkCallback = ParsedCallback;

/// The callback of an action with parameters.
pub fn format_lark_callback(action: &str, params: &Option<Params>) -> (r: String)
    ensures
        r@ == callback::callback_text(action@, callback::opt_pairs(*params)),
{
    format_callback(action, params)
}

/// What a callback says.
pub fn parse_lark_callback(data: &str) -> (r: Option<ParsedLarkCallback>)
    ensures
        callback::opt_parsed(r) == callback::parsed_callback(data@),
{
    parse_callback(data)
}

// ---------------------------------------------------------------------------
// Cards
// ---------------------------------------------------------------------------

/// A button of a card, with its callback.
pub open spec fn button_json(b: ActionButton) -> json::JsonView {
    json::no_members().text("tag"@, "button"@).with(
        "text"@,
        json::no_members().text("content"@, b.label@).text("tag"@, "plain_text"@),
    ).text("type"@, "primary"@).with(
        "value"@,
        json::no_members().text("action"@, callback::callback_text(b.action@, callback::opt_pairs(b.params))),
    )
}

/// The list `l` with the buttons of a row behind it.
pub open spec fn with_row(l: json::JsonView, row: Seq<ActionButton>) -> json::JsonView
    decreases row.len(),
{
    if row.len() == 0 {
        l
    } else {
        with_row(l, row.drop_last()).and(button_json(row.last()))
    }
}

/// The list `l` with the buttons of rows behind it.
pub open spec fn with_rows(l: json::JsonView, rows: Seq<Vec<ActionButton>>) -> json::JsonView
    decreases rows.len(),
{
    if rows.len() == 0 {
        l
    } else {
        with_row(with_rows(l, rows.drop_last()), rows.last()@)
    }
}

/// A card of a text and, where there are any, buttons.
pub open spec fn card_view(content: Seq<char>, buttons: Option<Vec<Vec<ActionButton>>>) -> json::JsonView {
    let markdown = json::no_items().and(json::no_members().text("content"@, content).text("tag"@, "markdown"@));
    let actions = match buttons {
        Some(rows) => with_rows(json::no_items(), rows@),
        None => json::no_items(),
    };
    let elements = if json::items_of(actions).len() == 0 {
        markdown
    } else {
        markdown.and(json::no_members().with("actions"@, actions).text("tag"@, "action"@))
    };
    json::no_members().with("elements"@, elements)
}

proof fn lemma_row_is_list(l: json::JsonView, row: Seq<ActionButton>)
    requires
        l is List,
    ensures
        with_row(l, row) is List,
        json::items_of(with_row(l, row)).len() == json::items_of(l).len() + row.len(),
    decreases row.len(),
{
    if row.len() > 0 {
        lemma_row_is_list(l, row.drop_last());
    }
}

fn button_value(b: &ActionButton) -> (r: Json)
    ensures
        r@ == button_json(*b),
{
    let callback_value = format_lark_callback(b.action.as_str(), &b.params);
    object().text("tag", "button").with(
        "text",
        object().text("content", b.label.as_str()).text("tag", "plain_text"),
    ).text("type", "primary").with("value", object().text("action", callback_value.as_str()))
}

fn put_row(l: Json, row: &Vec<ActionButton>) -> (r: Json)
    requires
        l@ is List,
    ensures
        r@ == with_row(l@, row@),
        r@ is List,
{
    let ghost start = l@;
    let mut out = l;
    let mut i: usize = 0;
    assert(row@.take(0) =~= Seq::<ActionButton>::empty());
    while i < row.len()
        invariant
            i <= row.len(),
            out@ is List,
            out@ == with_row(start, row@.take(i as int)),
        decreases row.len() - i,
    {
        assert(row@.take(i + 1).drop_last() =~= row@.take(i as int));
        assert(row@.take(i + 1).last() == row@[i as int]);
        out = out.and(button_value(&row[i]));
        i += 1;
    }
    assert(row@.take(row@.len() as int) =~= row@);
    out
}

fn put_rows(rows: &Vec<Vec<ActionButton>>) -> (r: Json)
    ensures
        r@ == with_rows(json::no_items(), rows@),
        r@ is List,
{
    let mut out = list();
    let mut i: usize = 0;
    assert(rows@.take(0) =~= Seq::<Vec<ActionButton>>::empty());
    while i < rows.len()
        invariant
            i <= rows.len(),
            out@ is List,
            out@ == with_rows(json::no_items(), rows@.take(i as int)),
        decreases rows.len() - i,
    {
        assert(rows@.take(i + 1).drop_last() =~= rows@.take(i as int));
        assert(rows@.take(i + 1).last() == rows@[i as int]);
        out = put_row(out, &rows[i]);
        i += 1;
    }
    assert(rows@.take(rows@.len() as int) =~= rows@);
    out
}

/// The text of a card of a text and, where there are any, buttons.
pub fn build_interactive_card(content: &str, buttons: &Option<Vec<Vec<ActionButton>>>) -> (r: String)
    ensures
        r@ == json::json_text(card_view(content@, *buttons)),
{
    let markdown = list().and(object().text("content", content).text("tag", "markdown"));
    let elements = match buttons {
        Some(rows) => {
            let actions = put_rows(rows);
            let empty = actions.at(0).is_none();
            if empty {
                markdown
            } else {
                markdown.and(object().with("actions", actions).text("tag", "action"))
            }
        },
        None => markdown,
    };
    write_json(&object().with("elements", elements))
}

/// A card shows as many buttons as there are in all rows.
pub proof fn law_every_button_is_shown(rows: Seq<Vec<ActionButton>>)
    ensures
        with_rows(json::no_items(), rows) is List,
        json::items_of(with_rows(json::no_items(), rows)).len() == button_count(rows),
    decreases rows.len(),
{
    if rows.len() > 0 {
        law_every_button_is_shown(rows.drop_last());
        lemma_row_is_list(with_rows(json::no_items(), rows.drop_last()), rows.last()@);
    }
}

/// How many buttons there are in rows.
pub open spec fn button_count(rows: Seq<Vec<ActionButton>>) -> nat
    decreases rows.len(),
{
    if rows.len() == 0 {
        0
    } else {
        button_count(rows.drop_last()) + rows.last()@.len()
    }
}

proof fn lemma_row_items(l: json::JsonView, row: Seq<ActionButton>, k: int)
    requires
        l is List,
        0 <= k < json::items_of(l).len() + row.len(),
    ensures
        json::items_of(with_row(l, row))[k] == if k < json::items_of(l).len() {
            json::items_of(l)[k]
        } else {
            button_json(row[k - json::items_of(l).len()])
        },
    decreases row.len(),
{
    if row.len() > 0 {
        lemma_row_is_list(l, row.drop_last());
        if k < json::items_of(l).len() + row.len() - 1 {
            lemma_row_items(l, row.drop_last(), k);
        }
    }
}

proof fn lemma_rows_items(rows: Seq<Vec<ActionButton>>, i: int, j: int)
    requires
        0 <= i < rows.len(),
        0 <= j < rows[i]@.len(),
    ensures
        button_count(rows.take(i)) + j < button_count(rows),
        json::items_of(with_rows(json::no_items(), rows))[button_count(rows.take(i)) + j] == button_json(rows[i]@[j]),
    decreases rows.len(),
{
    let before = rows.drop_last();
    let l = with_rows(json::no_items(), before);
    law_every_button_is_shown(before);
    law_every_button_is_shown(rows);
    if i < rows.len() - 1 {
        lemma_rows_items(before, i, j);
        assert(before.take(i) =~= rows.take(i));
    } else {
        assert(rows.take(i) =~= before);
    }
    lemma_row_items(l, rows.last()@, button_count(rows.take(i)) + j);
}

/// The button that a card shows at a place, counted from the first.
pub open spec fn shown_button(card: json::JsonView, place: int) -> json::JsonView {
    let elements = json::items_of(json::field(card, "elements"@)->0);
    json::items_of(json::field(elements[1], "actions"@)->0)[place]
}

/// Each button of a message is shown on its card, row after row, under its own label,
/// and pressing it leads to its own action with its own parameters.
pub proof fn law_shown_button_is_the_button(content: Seq<char>, buttons: Option<Vec<Vec<ActionButton>>>, i: int, j: int)
    requires
        buttons is Some,
        0 <= i < buttons->0@.len(),
        0 <= j < buttons->0@[i]@.len(),
    ensures
        ({
            let b = buttons->0@[i]@[j];
            let shown = shown_button(card_view(content, buttons), button_count(buttons->0@.take(i)) + j);
            let label = json::field(shown, "text"@);
            let value = json::field(shown, "value"@);
            &&& json::field(shown, "tag"@) == Some(json::JsonView::Text("button"@))
            &&& label is Some && json::field(label->0, "content"@) == Some(json::JsonView::Text(b.label@))
            &&& value is Some && json::field(value->0, "action"@) is Some && json::field(value->0, "action"@)->0 is Text
            &&& callback::can_be_read_back(b) ==> callback::leads_to(
                json::field(value->0, "action"@)->0->Text_0,
                b,
            )
        }),
{
    broadcast use json::group_fields;

    let rows = buttons->0@;
    let b = rows[i]@[j];
    reveal_strlit("tag");
    reveal_strlit("text");
    reveal_strlit("type");
    reveal_strlit("value");
    reveal_strlit("content");
    reveal_strlit("action");
    reveal_strlit("actions");
    reveal_strlit("elements");
    assert("tag"@.len() == 3 && "text"@.len() == 4 && "type"@.len() == 4 && "value"@.len() == 5
        && "content"@.len() == 7 && "action"@.len() == 6 && "actions"@.len() == 7 && "elements"@.len() == 8
        && "text"@[1] == 'e' && "type"@[1] == 'y' && "content"@[0] == 'c' && "actions"@[0] == 'a');
    lemma_rows_items(rows, i, j);
    law_every_button_is_shown(rows);
    if callback::can_be_read_back(b) {
        callback::law_button_leads_to_its_action(b);
    }
}

/// A card shows the text first, as markdown; buttons stand under it exactly if there
/// are any.
pub proof fn law_card_shows_the_text(content: Seq<char>, buttons: Option<Vec<Vec<ActionButton>>>)
    ensures
        ({
            let elements = json::field(card_view(content, buttons), "elements"@);
            let count = match buttons {
                Some(rows) => button_count(rows@),
                None => 0,
            };
            &&& elements is Some
            &&& json::field(json::items_of(elements->0)[0], "content"@) == Some(json::JsonView::Text(content))
            &&& json::field(json::items_of(elements->0)[0], "tag"@) == Some(json::JsonView::Text("markdown"@))
            &&& json::items_of(elements->0).len() == if count == 0 {
                1nat
            } else {
                2
            }
        }),
{
    broadcast use json::group_fields;

    reveal_strlit("content");
    reveal_strlit("tag");
    assert("content"@.len() == 7 && "tag"@.len() == 3);
    if let Some(rows) = buttons {
        law_every_button_is_shown(rows@);
    }
}

} // verus!
