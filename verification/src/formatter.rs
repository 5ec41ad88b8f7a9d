//! Text in the form that each platform shows.
//!
//! The conversions between markup languages are regular-expression
//! replacements, done one after the other in a fixed order.
use vstd::prelude::*;
use vstd::string::*;
use vstd::utf8::*;

use crate::text;
use crate::text::{chars_of, replace, str_eq};
use crate::types::PluginType;

verus! {

// ---------------------------------------------------------------------------
// Patterns
// ---------------------------------------------------------------------------

/// A markdown link; its text and its address.
pub const MD_LINK: &'static str = "\\[([^\\]]+)\\]\\(([^)]+)\\)";

/// Markdown bold with stars.
pub const MD_BOLD_STAR: &'static str = "\\*\\*(.+?)\\*\\*";

/// Markdown bold with underscores.
pub const MD_BOLD_UNDER: &'static str = "__(.+?)__";

/// Markdown strike-through.
pub const MD_STRIKE: &'static str = "~~(.+?)~~";

/// A markdown code block.
pub const MD_CODE_BLOCK: &'static str = "```(?:\\w*)\\n?([\\s\\S]*?)```";

/// Markdown code inside a line.
pub const MD_INLINE_CODE: &'static str = "`([^`]+)`";

/// Markdown italic with stars.
pub const MD_ITALIC_STAR: &'static str = "\\*(.+?)\\*";

/// Markdown italic with underscores.
pub const MD_ITALIC_UNDER: &'static str = "_(.+?)_";

/// An HTML code block.
pub const HTML_PRE_CODE: &'static str = "<pre><code[^>]*>([\\s\\S]*?)</code></pre>";

/// HTML code inside a line.
pub const HTML_CODE: &'static str = "<code>([^<]+)</code>";

/// HTML bold.
pub const HTML_B: &'static str = "<b>([\\s\\S]*?)</b>";

/// HTML strong emphasis.
pub const HTML_STRONG: &'static str = "<strong>([\\s\\S]*?)</strong>";

/// HTML italic.
pub const HTML_I: &'static str = "<i>([\\s\\S]*?)</i>";

/// HTML emphasis.
pub const HTML_EM: &'static str = "<em>([\\s\\S]*?)</em>";

/// An HTML link to the web, to a mailbox or into the same site.
pub const HTML_SAFE_LINK: &'static str = "<a\\s+href=\"((?:https?://|mailto:|/)[^\"]*)\"[^>]*>([^<]*)</a>";

/// Any HTML tag.
pub const HTML_TAG: &'static str = "<[^>]+>";

/// A character by its hexadecimal number.
pub const HEX_ENTITY: &'static str = "&#x([0-9a-fA-F]+);";

/// A character by its decimal number.
pub const DEC_ENTITY: &'static str = "&#(\\d+);";

/// The patterns whose matches are replaced by a template. Each is a valid
/// regular expression.
pub open spec fn is_markup_pattern(p: Seq<char>) -> bool {
    is_markdown_pattern(p) || is_html_pattern(p)
}

/// The markdown patterns.
pub open spec fn is_markdown_pattern(p: Seq<char>) -> bool {
    p == MD_LINK@ || p == MD_BOLD_STAR@ || p == MD_BOLD_UNDER@ || p == MD_STRIKE@ || p == MD_CODE_BLOCK@ || p
        == MD_INLINE_CODE@ || p == MD_ITALIC_STAR@ || p == MD_ITALIC_UNDER@
}

/// The HTML patterns.
pub open spec fn is_html_pattern(p: Seq<char>) -> bool {
    p == HTML_PRE_CODE@ || p == HTML_CODE@ || p == HTML_B@ || p == HTML_STRONG@ || p == HTML_I@ || p == HTML_EM@ || p
        == HTML_SAFE_LINK@ || p == HTML_TAG@
}

/// Whether a text holds a character that marks something up in markdown.
pub open spec fn has_markdown_char(s: Seq<char>) -> bool {
    s.contains('[') || s.contains('*') || s.contains('_') || s.contains('~') || s.contains('`')
}

/// Whether a text has a tag at the place `i`: a `<` with at least one other
/// character between it and the next `>`.
pub open spec fn tag_at(s: Seq<char>, i: int) -> bool {
    0 <= i < s.len() && s[i] == '<' && 1 <= text::index_of_char(s.skip(i + 1), '>') < s.skip(i + 1).len()
}

/// `s` without its tags, found from the left without overlap.
pub open spec fn without_tags(s: Seq<char>) -> Seq<char>
    decreases s.len(),
{
    if s.len() == 0 {
        s
    } else if tag_at(s, 0) {
        without_tags(s.skip(text::index_of_char(s.skip(1), '>') as int + 2))
    } else {
        seq![s[0]] + without_tags(s.skip(1))
    }
}

/// What a character inside of a match may be.
pub enum Class {
    /// Any.
    Any,
    /// Any but this one.
    Not(char),
}

/// Whether a character is of a class.
pub open spec fn in_class(c: char, class: Class) -> bool {
    match class {
        Class::Any => true,
        Class::Not(d) => c != d,
    }
}

/// How many characters of a class stand before the first `close` that has at least
/// `min` of them before it; none where there is no such `close`.
pub open spec fn content_len(s: Seq<char>, min: nat, class: Class, close: Seq<char>) -> Option<nat>
    decreases s.len(),
{
    if min == 0 && text::begins_with(s, close) {
        Some(0)
    } else if s.len() > 0 && in_class(s[0], class) {
        match content_len(
            s.skip(1),
            if min > 0 {
                (min - 1) as nat
            } else {
                0
            },
            class,
            close,
        ) {
            Some(n) => Some(n + 1),
            None => None,
        }
    } else {
        None
    }
}

/// A match at the beginning of a text: how long it is, and its groups.
pub struct Found {
    pub len: nat,
    pub one: Seq<char>,
    pub two: Seq<char>,
}

/// A match of `open`, characters of a class, and `close`, as short as can be; the
/// characters are the group.
pub open spec fn delimited(s: Seq<char>, open: Seq<char>, min: nat, class: Class, close: Seq<char>) -> Option<Found> {
    let rest = s.skip(open.len() as int);
    match content_len(rest, min, class, close) {
        Some(n) => if text::begins_with(s, open) {
            Some(Found { len: open.len() + n + close.len(), one: rest.take(n as int), two: Seq::empty() })
        } else {
            None
        },
        None => None,
    }
}

/// A match of two such stretches, one behind the other; each is a group.
pub open spec fn behind(first: Option<Found>, second: Option<Found>) -> Option<Found> {
    match (first, second) {
        (Some(a), Some(b)) => Some(Found { len: a.len + b.len, one: a.one, two: b.one }),
        _ => None,
    }
}

/// Whether a character is a letter, a digit or an underscore, as far as ASCII goes.
pub open spec fn is_word_char(c: char) -> bool {
    ||| 'a' <= c <= 'z'
    ||| 'A' <= c <= 'Z'
    ||| '0' <= c <= '9'
    ||| c == '_'
}

/// How many word characters a text begins with.
pub open spec fn word_run(s: Seq<char>) -> nat
    decreases s.len(),
{
    if s.len() > 0 && is_word_char(s[0]) {
        1 + word_run(s.skip(1))
    } else {
        0
    }
}

/// How many characters of white space a text begins with.
pub open spec fn space_run(s: Seq<char>) -> nat
    decreases s.len(),
{
    if s.len() > 0 && text::is_space(s[0]) {
        1 + space_run(s.skip(1))
    } else {
        0
    }
}

/// A code block at the beginning of a text: three backticks, a language and a line
/// break or neither or one of them, and what stands before the next three backticks.
pub open spec fn code_block(s: Seq<char>) -> Option<Found> {
    let rest = s.skip(3);
    let tag = word_run(rest);
    let head = 3 + tag + (if tag < rest.len() && rest[tag as int] == '\n' {
        1nat
    } else {
        0
    });
    match content_len(s.skip(head as int), 0, Class::Any, "```"@) {
        Some(n) => if text::begins_with(s, "```"@) {
            Some(Found { len: head + n + 3, one: s.skip(head as int).take(n as int), two: Seq::empty() })
        } else {
            None
        },
        None => None,
    }
}

/// Whether it is clear where the language of each code block ends: no character
/// outside of ASCII stands right behind it.
pub open spec fn clear_languages(s: Seq<char>) -> bool
    decreases s.len(),
{
    let rest = s.skip(3);
    if s.len() == 0 {
        true
    } else if text::begins_with(s, "```"@) {
        &&& word_run(rest) < rest.len() ==> rest[word_run(rest) as int] as u32 <= 0x7f
        &&& match code_block(s) {
            Some(m) => if 0 < m.len <= s.len() {
                clear_languages(s.skip(m.len as int))
            } else {
                false
            },
            None => clear_languages(s.skip(1)),
        }
    } else {
        clear_languages(s.skip(1))
    }
}

/// An HTML code block at the beginning of a text; its content is the group.
pub open spec fn pre_code(s: Seq<char>) -> Option<Found> {
    match delimited(s, "<pre><code"@, 0, Class::Not('>'), ">"@) {
        Some(head) => match content_len(s.skip(head.len as int), 0, Class::Any, "</code></pre>"@) {
            Some(n) => Some(
                Found {
                    len: head.len + n + "</code></pre>"@.len(),
                    one: s.skip(head.len as int).take(n as int),
                    two: Seq::empty(),
                },
            ),
            None => None,
        },
        None => None,
    }
}

/// Whether an address leads to the web, to a mailbox or into the same site.
pub open spec fn is_safe_address(a: Seq<char>) -> bool {
    ||| text::begins_with(a, "http://"@)
    ||| text::begins_with(a, "https://"@)
    ||| text::begins_with(a, "mailto:"@)
    ||| text::begins_with(a, "/"@)
}

/// An HTML link with such an address at the beginning of a text; its address and its
/// text are the groups.
pub open spec fn safe_link(s: Seq<char>) -> Option<Found> {
    let gap = space_run(s.skip(2));
    let from = s.skip(2).skip(gap as int);
    match delimited(from, "href=\""@, 0, Class::Not('"'), "\""@) {
        Some(address) => {
            let tail = from.skip(address.len as int);
            match delimited(tail, Seq::empty(), 0, Class::Not('>'), ">"@) {
                Some(others) => match delimited(
                    tail.skip(others.len as int),
                    Seq::empty(),
                    0,
                    Class::Not('<'),
                    "</a>"@,
                ) {
                    Some(shown) => if text::begins_with(s, "<a"@) && gap > 0 && is_safe_address(address.one) {
                        Some(
                            Found {
                                len: 2 + gap + address.len + others.len + shown.len,
                                one: address.one,
                                two: shown.one,
                            },
                        )
                    } else {
                        None
                    },
                    None => None,
                },
                None => None,
            }
        },
        None => None,
    }
}

/// The match of a pattern at the beginning of a text, where there is one.
#[verifier::opaque]
pub open spec fn found(pattern: Seq<char>, s: Seq<char>) -> Option<Found> {
    if pattern == MD_LINK@ {
        let first = delimited(s, "["@, 1, Class::Not(']'), "]("@);
        behind(
            first,
            match first {
                Some(a) => delimited(s.skip(a.len as int), Seq::empty(), 1, Class::Not(')'), ")"@),
                None => None,
            },
        )
    } else if pattern == MD_BOLD_STAR@ {
        delimited(s, "**"@, 1, Class::Not('\n'), "**"@)
    } else if pattern == MD_BOLD_UNDER@ {
        delimited(s, "__"@, 1, Class::Not('\n'), "__"@)
    } else if pattern == MD_STRIKE@ {
        delimited(s, "~~"@, 1, Class::Not('\n'), "~~"@)
    } else if pattern == MD_CODE_BLOCK@ {
        code_block(s)
    } else if pattern == MD_INLINE_CODE@ {
        delimited(s, "`"@, 1, Class::Not('`'), "`"@)
    } else if pattern == MD_ITALIC_STAR@ {
        delimited(s, "*"@, 1, Class::Not('\n'), "*"@)
    } else if pattern == MD_ITALIC_UNDER@ {
        delimited(s, "_"@, 1, Class::Not('\n'), "_"@)
    } else if pattern == HTML_PRE_CODE@ {
        pre_code(s)
    } else if pattern == HTML_CODE@ {
        delimited(s, "<code>"@, 1, Class::Not('<'), "</code>"@)
    } else if pattern == HTML_B@ {
        delimited(s, "<b>"@, 0, Class::Any, "</b>"@)
    } else if pattern == HTML_STRONG@ {
        delimited(s, "<strong>"@, 0, Class::Any, "</strong>"@)
    } else if pattern == HTML_I@ {
        delimited(s, "<i>"@, 0, Class::Any, "</i>"@)
    } else if pattern == HTML_EM@ {
        delimited(s, "<em>"@, 0, Class::Any, "</em>"@)
    } else if pattern == HTML_SAFE_LINK@ {
        safe_link(s)
    } else {
        delimited(s, "<"@, 1, Class::Not('>'), ">"@)
    }
}

/// Whether every `$` of a template stands for a group, by the one digit behind it.
pub open spec fn is_plain_template(t: Seq<char>) -> bool {
    forall|i: int|
        0 <= i < t.len() && #[trigger] t[i] == '$' ==> {
            &&& i + 1 < t.len() && (t[i + 1] == '1' || t[i + 1] == '2')
            &&& i + 2 < t.len() ==> !is_word_char(t[i + 2])
        }
}

/// A template with the groups of a match in the places of `$1` and `$2`.
pub open spec fn expanded(t: Seq<char>, m: Found) -> Seq<char>
    decreases t.len(),
{
    if t.len() == 0 {
        t
    } else if t[0] == '$' && t.len() > 1 && t[1] == '1' {
        m.one + expanded(t.skip(2), m)
    } else if t[0] == '$' && t.len() > 1 && t[1] == '2' {
        m.two + expanded(t.skip(2), m)
    } else {
        seq![t[0]] + expanded(t.skip(1), m)
    }
}

/// `s` with every match of a pattern, from the left and without overlap, replaced by
/// a template.
pub open spec fn all_replaced(pattern: Seq<char>, s: Seq<char>, template: Seq<char>) -> Seq<char>
    decreases s.len(),
{
    if s.len() == 0 {
        s
    } else {
        match found(pattern, s) {
            Some(m) => if 0 < m.len <= s.len() {
                expanded(template, m) + all_replaced(pattern, s.skip(m.len as int), template)
            } else {
                s
            },
            None => seq![s[0]] + all_replaced(pattern, s.skip(1), template),
        }
    }
}

/// Whether replacing is said in full: the template is plain and, for code blocks, it
/// is clear where their languages end.
pub open spec fn is_spelled_out(pattern: Seq<char>, s: Seq<char>, template: Seq<char>) -> bool {
    is_plain_template(template) && (pattern == MD_CODE_BLOCK@ ==> clear_languages(s))
}

/// `s` with every match of a pattern replaced by a template, in which `$1` and
/// `$2` stand for the groups of the match.
pub uninterp spec fn regex_replaced(pattern: Seq<char>, s: Seq<char>, template: Seq<char>) -> Seq<char>;

/// `regex::Regex::replace_all` with a template: every match from the left is
/// replaced, without overlap, by the template with the groups of the match in it. A
/// text in which nothing can match comes back as it was: every markdown pattern needs
/// one of its marks, every HTML pattern needs a `<`. Replacing tags by nothing takes
/// out each `<` with what follows it up to the next `>`, where something stands
/// between the two. What a code block is whose language ends before a character
/// outside of ASCII is left unsaid: whether that character is one of a word is a
/// matter of Unicode's tables.
#[verifier::external_body]
pub(crate) fn regex_replace(pattern: &str, s: &str, template: &str) -> (r: String)
    requires
        is_markup_pattern(pattern@),
    ensures
        r@ == regex_replaced(pattern@, s@, template@),
        is_markdown_pattern(pattern@) && !has_markdown_char(s@) ==> r@ == s@,
        is_html_pattern(pattern@) && !s@.contains('<') ==> r@ == s@,
        pattern@ == HTML_TAG@ && template@.len() == 0 ==> r@ == without_tags(s@),
        is_spelled_out(pattern@, s@, template@) ==> r@ == all_replaced(pattern@, s@, template@),
{
    regex::Regex::new(pattern).unwrap().replace_all(s, template).into_owned()
}

/// `s` with every match of a pattern replaced by a template.
pub open spec fn markup_replaced(pattern: Seq<char>, s: Seq<char>, template: Seq<char>) -> Seq<char> {
    if is_spelled_out(pattern, s, template) {
        all_replaced(pattern, s, template)
    } else {
        regex_replaced(pattern, s, template)
    }
}

// ---------------------------------------------------------------------------
// Escapes
// ---------------------------------------------------------------------------

/// How a character is written where markup is read.
pub open spec fn escaped_char(c: char) -> Seq<char> {
    if c == '&' {
        "&amp;"@
    } else if c == '<' {
        "&lt;"@
    } else if c == '>' {
        "&gt;"@
    } else {
        seq![c]
    }
}

/// How a text is written where markup is read.
pub open spec fn escaped(s: Seq<char>) -> Seq<char>
    decreases s.len(),
{
    if s.len() == 0 {
        s
    } else {
        escaped(s.drop_last()) + escaped_char(s.last())
    }
}

/// How a text is written where markup is read.
pub fn escape_html(s: &str) -> (r: String)
    ensures
        r@ == escaped(s@),
{
    let v = chars_of(s);
    let mut out = String::new();
    let mut i: usize = 0;
    while i < v.len()
        invariant
            i <= v.len(),
            v@ == s@,
            out@ == escaped(s@.take(i as int)),
        decreases v.len() - i,
    {
        let c = v[i];
        let ghost before = out@;
        if c == '&' {
            out.append("&amp;");
        } else if c == '<' {
            out.append("&lt;");
        } else if c == '>' {
            out.append("&gt;");
        } else {
            out.push(c);
            assert(out@ =~= before + seq![c]);
        }
        i += 1;
        assert(s@.take(i as int).drop_last() =~= s@.take(i - 1));
        assert(s@.take(i as int).last() == c);
    }
    assert(s@.take(s@.len() as int) =~= s@);
    out
}

/// The value of a digit, where it is one.
pub open spec fn digit_value(c: char, radix: u32) -> Option<nat> {
    let v: int = if '0' <= c <= '9' {
        c as int - '0' as int
    } else if 'a' <= c <= 'f' {
        c as int - 'a' as int + 10
    } else if 'A' <= c <= 'F' {
        c as int - 'A' as int + 10
    } else {
        99
    };
    if v < radix {
        Some(v as nat)
    } else {
        None
    }
}

/// The number that digits write, where all are digits.
pub open spec fn digits_value(s: Seq<char>, radix: u32) -> Option<nat>
    decreases s.len(),
{
    if s.len() == 0 {
        Some(0)
    } else {
        match (digits_value(s.drop_last(), radix), digit_value(s.last(), radix)) {
            (Some(v), Some(d)) => Some(v * radix as nat + d),
            _ => None,
        }
    }
}

/// The character that a numeric entity stands for; the entity itself where its
/// number is no character's.
pub open spec fn entity_text(entity: Seq<char>, digits: Seq<char>, radix: u32) -> Seq<char> {
    match digits_value(digits, radix) {
        Some(v) => if v <= u32::MAX && is_scalar(v as u32) {
            seq![v as u32 as char]
        } else {
            entity
        },
        None => entity,
    }
}

/// `char::from_u32` of std: the character with a number, where there is one.
pub assume_specification[ char::from_u32 ](i: u32) -> (r: Option<char>)
    ensures
        r is Some <==> is_scalar(i),
        r matches Some(c) ==> c as u32 == i,
;

fn char_digit(c: char, radix: u32) -> (r: Option<u32>)
    ensures
        match r {
            Some(d) => digit_value(c, radix) == Some(d as nat),
            None => digit_value(c, radix) is None,
        },
{
    let v: u32 = if '0' <= c && c <= '9' {
        c as u32 - '0' as u32
    } else if 'a' <= c && c <= 'f' {
        c as u32 - 'a' as u32 + 10
    } else if 'A' <= c && c <= 'F' {
        c as u32 - 'A' as u32 + 10
    } else {
        99
    };
    if v < radix {
        Some(v)
    } else {
        None
    }
}

/// Once a number is past all characters, more digits leave it there.
proof fn lemma_digits_grow(s: Seq<char>, radix: u32, from: int)
    requires
        1 <= radix,
        0 <= from <= s.len(),
        digits_value(s, radix) is Some,
    ensures
        digits_value(s.take(from), radix) is Some,
        digits_value(s, radix)->0 >= digits_value(s.take(from), radix)->0,
    decreases s.len() - from,
{
    if from == s.len() {
        assert(s.take(from) =~= s);
    } else {
        lemma_digits_grow(s, radix, from + 1);
        let next = s.take(from + 1);
        assert(next.drop_last() =~= s.take(from));
        let v = digits_value(s.take(from), radix)->0;
        assert(v * radix as nat >= v) by (nonlinear_arith)
            requires
                radix >= 1,
        ;
    }
}

/// The character that a numeric entity stands for; the entity itself where its
/// number is no character's.
pub fn decode_entity(entity: &str, digits: &str, radix: u32) -> (r: String)
    requires
        2 <= radix <= 16,
    ensures
        r@ == entity_text(entity@, digits@, radix),
{
    let v = chars_of(digits);
    let mut n: u32 = 0;
    let mut over = false;
    let mut i: usize = 0;
    while i < v.len()
        invariant
            i <= v.len(),
            v@ == digits@,
            2 <= radix <= 16,
            digits_value(digits@.take(i as int), radix) is Some,
            over ==> digits_value(digits@.take(i as int), radix)->0 > 0x10_ffff,
            !over ==> n <= 0x10_ffff && digits_value(digits@.take(i as int), radix) == Some(n as nat),
        decreases v.len() - i,
    {
        let ghost sofar = digits@.take(i as int);
        assert(digits@.take(i + 1).drop_last() =~= sofar);
        assert(digits@.take(i + 1).last() == v@[i as int]);
        match char_digit(v[i], radix) {
            None => {
                proof {
                    if digits_value(digits@, radix) is Some {
                        lemma_digits_grow(digits@, radix, i + 1);
                    }
                }
                return entity.to_owned();
            },
            Some(d) => {
                proof {
                    let w = digits_value(sofar, radix)->0;
                    assert(w * radix as nat >= w) by (nonlinear_arith)
                        requires
                            radix >= 1,
                    ;
                    if !over {
                        assert(n * radix <= 0x10_ffff * 16) by (nonlinear_arith)
                            requires
                                n <= 0x10_ffff,
                                radix <= 16,
                        ;
                    }
                }
                if !over {
                    n = n * radix + d;
                    if n > 0x10_ffff {
                        over = true;
                    }
                }
            },
        }
        i += 1;
    }
    assert(digits@.take(digits@.len() as int) =~= digits@);
    if over {
        return entity.to_owned();
    }
    match char::from_u32(n) {
        Some(c) => {
            let mut out = String::new();
            out.push(c);
            proof {
                char_u32_cast(c, n);
            }
            assert(out@ =~= seq![n as char]);
            out
        },
        None => entity.to_owned(),
    }
}

/// How a numeric entity begins.
pub open spec fn entity_prefix(radix: u32) -> Seq<char> {
    if radix == 16 {
        "&#x"@
    } else {
        "&#"@
    }
}

/// How many digits `s` begins with.
pub open spec fn digit_run(s: Seq<char>, radix: u32) -> nat
    decreases s.len(),
{
    if s.len() == 0 || digit_value(s[0], radix) is None {
        0
    } else {
        1 + digit_run(s.skip(1), radix)
    }
}

/// How many digits the numeric entity has that `s` begins with; none where it
/// begins with no such entity.
pub open spec fn entity_digits(s: Seq<char>, radix: u32) -> nat {
    let rest = s.skip(entity_prefix(radix).len() as int);
    let n = digit_run(rest, radix);
    if text::begins_with(s, entity_prefix(radix)) && n < rest.len() && rest[n as int] == ';' {
        n
    } else {
        0
    }
}

/// `s` with its numeric entities, found from the left, replaced by the characters
/// that they stand for.
pub open spec fn decoded_numbers(s: Seq<char>, radix: u32) -> Seq<char>
    decreases s.len(),
{
    let p = entity_prefix(radix).len();
    let n = entity_digits(s, radix);
    if s.len() == 0 {
        s
    } else if n > 0 {
        entity_text(s.take((p + n + 1) as int), s.subrange(p as int, (p + n) as int), radix) + decoded_numbers(
            s.skip((p + n + 1) as int),
            radix,
        )
    } else {
        seq![s[0]] + decoded_numbers(s.skip(1), radix)
    }
}

/// `regex::Regex::replace_all` with a function: every match from the left is
/// replaced, without overlap, by what `decode_entity` makes of the match and
/// its digits. A match is the beginning of an entity, digits and a semicolon. The
/// decimal pattern matches digits of other scripts too; such an entity stands for
/// itself, as what matches nothing does.
#[verifier::external_body]
pub(crate) fn regex_decode(pattern: &str, s: &str, radix: u32) -> (r: String)
    requires
        (pattern@ == HEX_ENTITY@ && radix == 16) || (pattern@ == DEC_ENTITY@ && radix == 10),
    ensures
        r@ == decoded_numbers(s@, radix),
{
    regex::Regex::new(pattern).unwrap().replace_all(
        s,
        |caps: &regex::Captures| decode_entity(&caps[0], &caps[1], radix),
    ).into_owned()
}

/// A text with its quotes and numeric entities decoded. What stands for `<`,
/// `>` and `&` by name stays, so that no tag comes out of it.
pub open spec fn safe_decoded(s: Seq<char>) -> Seq<char> {
    let s = text::replaced(s, "&quot;"@, "\""@);
    let s = text::replaced(s, "&#39;"@, "'"@);
    let s = text::replaced(s, "&apos;"@, "'"@);
    let s = decoded_numbers(s, 16);
    decoded_numbers(s, 10)
}

/// A text with its quotes and numeric entities decoded.
pub fn decode_safe_entities(s: &str) -> (r: String)
    ensures
        r@ == safe_decoded(s@),
        !s@.contains('&') ==> r@ == s@,
{
    proof {
        reveal_strlit("&quot;");
        reveal_strlit("&#39;");
        reveal_strlit("&apos;");
        if !s@.contains('&') {
            lemma_guarded(s@);
            lemma_guarded_replaced(s@, "&quot;"@, "\""@);
            lemma_guarded_replaced(s@, "&#39;"@, "'"@);
            lemma_guarded_replaced(s@, "&apos;"@, "'"@);
            lemma_guarded_decoded(s@, 16);
            lemma_guarded_decoded(s@, 10);
        }
    }
    let t = replace(s, "&quot;", "\"");
    let t = replace(t.as_str(), "&#39;", "'");
    let t = replace(t.as_str(), "&apos;", "'");
    let t = regex_decode(HEX_ENTITY, t.as_str(), 16);
    regex_decode(DEC_ENTITY, t.as_str(), 10)
}

/// Whether every `&` of a text begins the name of an angle bracket.
spec fn guarded(s: Seq<char>) -> bool {
    forall|i: int|
        0 <= i < s.len() && #[trigger] s[i] == '&' ==> i + 1 < s.len() && (s[i + 1] == 'l' || s[i + 1] == 'g')
}

proof fn lemma_guarded(s: Seq<char>)
    requires
        !s.contains('&'),
    ensures
        guarded(s),
{
    assert forall|i: int| 0 <= i < s.len() && #[trigger] s[i] == '&' implies i + 1 < s.len() && (s[i + 1] == 'l' || s[
        i + 1] == 'g') by {
        assert(s.contains(s[i]));
    }
}

proof fn lemma_guarded_tail(s: Seq<char>)
    requires
        guarded(s),
        s.len() > 0,
    ensures
        guarded(s.skip(1)),
{
    assert forall|i: int| 0 <= i < s.skip(1).len() && #[trigger] s.skip(1)[i] == '&' implies i + 1 < s.skip(1).len()
        && (s.skip(1)[i + 1] == 'l' || s.skip(1)[i + 1] == 'g') by {
        assert(s[i + 1] == '&');
    }
}

/// Other entities than those of angle brackets find nothing to replace in such a
/// text.
proof fn lemma_guarded_replaced(s: Seq<char>, pat: Seq<char>, to: Seq<char>)
    requires
        guarded(s),
        pat.len() >= 2,
        pat[0] == '&',
        pat[1] != 'l',
        pat[1] != 'g',
    ensures
        text::replaced(s, pat, to) == s,
    decreases s.len(),
{
    if s.len() > 0 {
        if text::begins_with(s, pat) {
            assert(s.subrange(0, pat.len() as int)[0] == s[0]);
            assert(s.subrange(0, pat.len() as int)[1] == s[1]);
        }
        lemma_guarded_tail(s);
        lemma_guarded_replaced(s.skip(1), pat, to);
        assert(seq![s[0]] + s.skip(1) =~= s);
    }
}

proof fn lemma_guarded_decoded(s: Seq<char>, radix: u32)
    requires
        guarded(s),
    ensures
        decoded_numbers(s, radix) == s,
    decreases s.len(),
{
    if s.len() > 0 {
        reveal_strlit("&#x");
        reveal_strlit("&#");
        let pat = entity_prefix(radix);
        if text::begins_with(s, pat) {
            assert(s.subrange(0, pat.len() as int)[0] == s[0]);
            assert(s.subrange(0, pat.len() as int)[1] == s[1]);
        }
        assert(entity_digits(s, radix) == 0);
        lemma_guarded_tail(s);
        lemma_guarded_decoded(s.skip(1), radix);
        assert(seq![s[0]] + s.skip(1) =~= s);
    }
}

/// A text in which the first character of `pat` does not occur has nothing to
/// replace.
proof fn lemma_nothing_replaced(s: Seq<char>, pat: Seq<char>, to: Seq<char>)
    requires
        pat.len() > 0,
        !s.contains(pat[0]),
    ensures
        text::replaced(s, pat, to) == s,
    decreases s.len(),
{
    if s.len() > 0 {
        if text::begins_with(s, pat) {
            assert(s.subrange(0, pat.len() as int)[0] == s[0]);
            assert(s.contains(s[0]));
        }
        assert forall|i: int| 0 <= i < s.skip(1).len() implies s.skip(1)[i] != pat[0] by {
            assert(s.contains(s[i + 1]));
        }
        lemma_nothing_replaced(s.skip(1), pat, to);
        assert(seq![s[0]] + s.skip(1) =~= s);
    }
}

/// A text with all common entities decoded.
pub open spec fn all_decoded(s: Seq<char>) -> Seq<char> {
    let s = safe_decoded(s);
    let s = text::replaced(s, "&amp;"@, "&"@);
    let s = text::replaced(s, "&lt;"@, "<"@);
    let s = text::replaced(s, "&gt;"@, ">"@);
    text::replaced(s, "&nbsp;"@, " "@)
}

/// A text with all common entities decoded.
pub fn decode_all_entities(s: &str) -> (r: String)
    ensures
        r@ == all_decoded(s@),
        !s@.contains('&') ==> r@ == s@,
{
    proof {
        reveal_strlit("&amp;");
        reveal_strlit("&lt;");
        reveal_strlit("&gt;");
        reveal_strlit("&nbsp;");
        if !s@.contains('&') {
            lemma_nothing_replaced(s@, "&amp;"@, "&"@);
            lemma_nothing_replaced(s@, "&lt;"@, "<"@);
            lemma_nothing_replaced(s@, "&gt;"@, ">"@);
            lemma_nothing_replaced(s@, "&nbsp;"@, " "@);
        }
    }
    let t = decode_safe_entities(s);
    let t = replace(t.as_str(), "&amp;", "&");
    let t = replace(t.as_str(), "&lt;", "<");
    let t = replace(t.as_str(), "&gt;", ">");
    replace(t.as_str(), "&nbsp;", " ")
}

// ---------------------------------------------------------------------------
// Tags
// ---------------------------------------------------------------------------

/// Taking tags out makes a text shorter or leaves it as it is.
pub proof fn lemma_without_tags_len(s: Seq<char>)
    ensures
        without_tags(s).len() <= s.len(),
        without_tags(s).len() == s.len() ==> without_tags(s) == s,
    decreases s.len(),
{
    if s.len() > 0 {
        if tag_at(s, 0) {
            lemma_without_tags_len(s.skip(text::index_of_char(s.skip(1), '>') as int + 2));
        } else {
            lemma_without_tags_len(s.skip(1));
            assert(without_tags(s.skip(1)) == s.skip(1) ==> seq![s[0]] + s.skip(1) =~= s);
        }
    }
}

/// A text that taking tags out leaves as it is has no tag.
proof fn lemma_no_tag_left(s: Seq<char>, i: int)
    requires
        without_tags(s) == s,
        0 <= i < s.len(),
    ensures
        !tag_at(s, i),
    decreases s.len(),
{
    if tag_at(s, 0) {
        lemma_without_tags_len(s.skip(text::index_of_char(s.skip(1), '>') as int + 2));
        assert(false);
    }
    if i > 0 {
        let rest = s.skip(1);
        lemma_without_tags_len(rest);
        assert(without_tags(rest) == rest);
        lemma_no_tag_left(rest, i - 1);
        assert(rest.skip(i) =~= s.skip(i + 1));
    }
}

/// `s` with tags taken out until none is left. Taking out one may make another
/// of what stood around it.
pub open spec fn stripped(s: Seq<char>) -> Seq<char>
    decreases s.len(),
    via stripped_decreases
{
    if without_tags(s) == s {
        s
    } else {
        stripped(without_tags(s))
    }
}

#[via_fn]
proof fn stripped_decreases(s: Seq<char>) {
    lemma_without_tags_len(s);
}

/// `s` with tags taken out until none is left.
pub fn strip_tags_loop(s: &str) -> (r: String)
    ensures
        r@ == stripped(s@),
{
    let mut result = s.to_owned();
    proof {
        reveal_strlit("");
    }
    loop
        invariant
            stripped(result@) == stripped(s@),
            ""@.len() == 0,
        decreases result@.len(),
    {
        proof {
            lemma_without_tags_len(result@);
        }
        let next = regex_replace(HTML_TAG, result.as_str(), "");
        if str_eq(next.as_str(), result.as_str()) {
            return result;
        }
        result = next;
    }
}

/// A stripped text has no tag left.
pub proof fn law_stripped_has_no_tag(s: Seq<char>, i: int)
    requires
        0 <= i < stripped(s).len(),
    ensures
        !tag_at(stripped(s), i),
    decreases s.len(),
{
    if without_tags(s) == s {
        lemma_no_tag_left(s, i);
    } else {
        lemma_without_tags_len(s);
        law_stripped_has_no_tag(without_tags(s), i);
    }
}

/// Stripping a stripped text changes nothing.
pub proof fn law_stripping_is_stable(s: Seq<char>)
    ensures
        stripped(stripped(s)) == stripped(s),
    decreases s.len(),
{
    if without_tags(s) != s {
        lemma_without_tags_len(s);
        law_stripping_is_stable(without_tags(s));
    }
}

// ---------------------------------------------------------------------------
// Platforms
// ---------------------------------------------------------------------------

/// Markdown as Slack writes it.
pub open spec fn slack_text(s: Seq<char>) -> Seq<char> {
    let s = escaped(s);
    let s = markup_replaced(MD_LINK@, s, "<$2|$1>"@);
    let s = markup_replaced(MD_BOLD_STAR@, s, "*$1*"@);
    let s = markup_replaced(MD_BOLD_UNDER@, s, "*$1*"@);
    markup_replaced(MD_STRIKE@, s, "~$1~"@)
}

/// Markdown as Slack writes it: escaped, with its own marks for bold, for
/// strike-through and for links.
pub fn markdown_to_slack_mrkdwn(s: &str) -> (r: String)
    ensures
        r@ == slack_text(s@),
        !has_markdown_char(escaped(s@)) ==> r@ == escaped(s@),
{
    let t = escape_html(s);
    let t = regex_replace(MD_LINK, t.as_str(), "<$2|$1>");
    let t = regex_replace(MD_BOLD_STAR, t.as_str(), "*$1*");
    let t = regex_replace(MD_BOLD_UNDER, t.as_str(), "*$1*");
    regex_replace(MD_STRIKE, t.as_str(), "~$1~")
}

/// Markdown as Telegram's HTML.
pub open spec fn telegram_text(s: Seq<char>) -> Seq<char> {
    let s = escaped(s);
    let s = markup_replaced(MD_CODE_BLOCK@, s, "<pre><code>$1</code></pre>"@);
    let s = markup_replaced(MD_INLINE_CODE@, s, "<code>$1</code>"@);
    let s = markup_replaced(MD_BOLD_STAR@, s, "<b>$1</b>"@);
    let s = markup_replaced(MD_BOLD_UNDER@, s, "<b>$1</b>"@);
    let s = markup_replaced(MD_ITALIC_STAR@, s, "<i>$1</i>"@);
    let s = markup_replaced(MD_ITALIC_UNDER@, s, "<i>$1</i>"@);
    markup_replaced(MD_LINK@, s, "<a href=\"$2\">$1</a>"@)
}

/// Markdown as Telegram's HTML: escaped, and then marked up.
pub fn markdown_to_telegram_html(s: &str) -> (r: String)
    ensures
        r@ == telegram_text(s@),
        !has_markdown_char(escaped(s@)) ==> r@ == escaped(s@),
{
    let t = escape_html(s);
    let t = regex_replace(MD_CODE_BLOCK, t.as_str(), "<pre><code>$1</code></pre>");
    let t = regex_replace(MD_INLINE_CODE, t.as_str(), "<code>$1</code>");
    let t = regex_replace(MD_BOLD_STAR, t.as_str(), "<b>$1</b>");
    let t = regex_replace(MD_BOLD_UNDER, t.as_str(), "<b>$1</b>");
    let t = regex_replace(MD_ITALIC_STAR, t.as_str(), "<i>$1</i>");
    let t = regex_replace(MD_ITALIC_UNDER, t.as_str(), "<i>$1</i>");
    regex_replace(MD_LINK, t.as_str(), "<a href=\"$2\">$1</a>")
}

/// HTML as markdown, before the tags that have no markdown are taken out.
pub open spec fn marked_down(s: Seq<char>) -> Seq<char> {
    let s = safe_decoded(s);
    let s = markup_replaced(HTML_PRE_CODE@, s, "```\n$1```"@);
    let s = markup_replaced(HTML_CODE@, s, "`$1`"@);
    let s = markup_replaced(HTML_B@, s, "**$1**"@);
    let s = markup_replaced(HTML_STRONG@, s, "**$1**"@);
    let s = markup_replaced(HTML_I@, s, "*$1*"@);
    let s = markup_replaced(HTML_EM@, s, "*$1*"@);
    markup_replaced(HTML_SAFE_LINK@, s, "[$2]($1)"@)
}

/// HTML as markdown, without the tags that have no markdown.
pub fn html_to_markdown(s: &str) -> (r: String)
    ensures
        r@ == stripped(marked_down(s@)),
        !s@.contains('&') && !s@.contains('<') ==> r@ == s@,
{
    let t = decode_safe_entities(s);
    let t = regex_replace(HTML_PRE_CODE, t.as_str(), "```\n$1```");
    let t = regex_replace(HTML_CODE, t.as_str(), "`$1`");
    let t = regex_replace(HTML_B, t.as_str(), "**$1**");
    let t = regex_replace(HTML_STRONG, t.as_str(), "**$1**");
    let t = regex_replace(HTML_I, t.as_str(), "*$1*");
    let t = regex_replace(HTML_EM, t.as_str(), "*$1*");
    let t = regex_replace(HTML_SAFE_LINK, t.as_str(), "[$2]($1)");
    proof {
        if !t@.contains('<') {
            lemma_nothing_stripped(t@);
        }
    }
    strip_tags_loop(t.as_str())
}

proof fn lemma_without_tags_same(s: Seq<char>)
    requires
        !s.contains('<'),
    ensures
        without_tags(s) == s,
    decreases s.len(),
{
    if s.len() > 0 {
        assert(s.contains(s[0]));
        assert forall|i: int| 0 <= i < s.skip(1).len() implies s.skip(1)[i] != '<' by {
            assert(s.contains(s[i + 1]));
        }
        lemma_without_tags_same(s.skip(1));
        assert(seq![s[0]] + s.skip(1) =~= s);
    }
}

/// A text without a tag has nothing to strip.
pub proof fn lemma_nothing_stripped(s: Seq<char>)
    requires
        !s.contains('<'),
    ensures
        stripped(s) == s,
{
    lemma_without_tags_same(s);
}

/// `s` without angle brackets.
pub open spec fn without_brackets(s: Seq<char>) -> Seq<char> {
    s.filter(|c: char| c != '<' && c != '>')
}

fn drop_brackets(s: &str) -> (r: String)
    ensures
        r@ == without_brackets(s@),
{
    let v = chars_of(s);
    let ghost keep = |c: char| c != '<' && c != '>';
    let mut out = String::new();
    let mut i: usize = 0;
    proof {
        reveal(Seq::filter);
        assert(s@.take(0).filter(keep) =~= Seq::<char>::empty());
    }
    while i < v.len()
        invariant
            i <= v.len(),
            v@ == s@,
            keep == (|c: char| c != '<' && c != '>'),
            out@ == s@.take(i as int).filter(keep),
        decreases v.len() - i,
    {
        let c = v[i];
        if c != '<' && c != '>' {
            out.push(c);
        }
        i += 1;
        proof {
            reveal(Seq::filter);
            assert(s@.take(i as int).drop_last() =~= s@.take(i - 1));
            assert(s@.take(i as int).last() == c);
        }
    }
    assert(s@.take(s@.len() as int) =~= s@);
    out
}

/// HTML as plain text.
pub open spec fn plain_text(s: Seq<char>) -> Seq<char> {
    without_brackets(all_decoded(stripped(s)))
}

/// HTML as plain text, without any angle bracket.
pub fn strip_html(s: &str) -> (r: String)
    ensures
        r@ == plain_text(s@),
        !s@.contains('&') && !s@.contains('<') && !s@.contains('>') ==> r@ == s@,
{
    let t = strip_tags_loop(s);
    proof {
        if !s@.contains('<') {
            lemma_nothing_stripped(s@);
        }
    }
    let t = decode_all_entities(t.as_str());
    proof {
        if !t@.contains('<') && !t@.contains('>') {
            lemma_no_brackets(t@);
        }
    }
    drop_brackets(t.as_str())
}

/// A text without angle brackets loses none.
pub proof fn lemma_no_brackets(s: Seq<char>)
    requires
        !s.contains('<'),
        !s.contains('>'),
    ensures
        without_brackets(s) == s,
    decreases s.len(),
{
    reveal(Seq::filter);
    if s.len() > 0 {
        assert(s.contains(s.last()));
        assert forall|i: int| 0 <= i < s.drop_last().len() implies s.drop_last()[i] != '<' && s.drop_last()[i] != '>' by {
            assert(s.contains(s[i]));
        }
        lemma_no_brackets(s.drop_last());
        assert(s.drop_last().push(s.last()) =~= s);
    }
}

/// A text in the form that a platform shows.
pub open spec fn formatted(s: Seq<char>, platform: PluginType) -> Seq<char> {
    match platform {
        PluginType::Telegram => telegram_text(s),
        PluginType::Lark => stripped(marked_down(s)),
        PluginType::Dingtalk => stripped(marked_down(s)),
        PluginType::Slack => slack_text(s),
        PluginType::Discord => s,
        PluginType::Weixin => plain_text(s),
    }
}

/// Whether a text holds a character that means something to some platform.
pub open spec fn has_markup_char(s: Seq<char>) -> bool {
    has_markdown_char(s) || s.contains('&') || s.contains('<') || s.contains('>')
}

/// A text in the form that a platform shows. A text without any markup comes
/// out as it was.
pub fn format_text_for_platform(s: &str, platform: PluginType) -> (r: String)
    ensures
        r@ == formatted(s@, platform),
        !has_markup_char(s@) ==> r@ == s@,
{
    proof {
        if !has_markup_char(s@) {
            lemma_nothing_escaped(s@);
        }
    }
    match platform {
        PluginType::Telegram => markdown_to_telegram_html(s),
        PluginType::Lark | PluginType::Dingtalk => html_to_markdown(s),
        PluginType::Slack => markdown_to_slack_mrkdwn(s),
        PluginType::Discord => s.to_owned(),
        PluginType::Weixin => strip_html(s),
    }
}

/// A text without markup has nothing to escape.
pub proof fn lemma_nothing_escaped(s: Seq<char>)
    requires
        !s.contains('&'),
        !s.contains('<'),
        !s.contains('>'),
    ensures
        escaped(s) == s,
    decreases s.len(),
{
    if s.len() > 0 {
        assert(s.contains(s.last()));
        assert forall|i: int| 0 <= i < s.drop_last().len() implies s.drop_last()[i] != '<' && s.drop_last()[i] != '>'
            && s.drop_last()[i] != '&' by {
            assert(s.contains(s[i]));
        }
        lemma_nothing_escaped(s.drop_last());
        assert(s.drop_last() + seq![s.last()] =~= s);
    }
}

// ---------------------------------------------------------------------------
// Laws
// ---------------------------------------------------------------------------

/// An escaped text has no angle bracket.
pub proof fn law_escaped_has_no_brackets(s: Seq<char>)
    ensures
        !escaped(s).contains('<'),
        !escaped(s).contains('>'),
    decreases s.len(),
{
    if s.len() > 0 {
        law_escaped_has_no_brackets(s.drop_last());
        reveal_strlit("&amp;");
        reveal_strlit("&lt;");
        reveal_strlit("&gt;");
        let head = escaped(s.drop_last());
        let tail = escaped_char(s.last());
        assert forall|i: int| 0 <= i < escaped(s).len() implies escaped(s)[i] != '<' && escaped(s)[i] != '>' by {
            if i < head.len() {
                assert(head.contains(head[i]));
            } else {
                assert(escaped(s)[i] == tail[i - head.len()]);
            }
        }
    }
}

/// A text with its closing brackets escaped and nothing else.
spec fn half_escaped(t: Seq<char>) -> Seq<char>
    decreases t.len(),
{
    if t.len() == 0 {
        t
    } else if t[0] == '>' {
        "&gt;"@ + half_escaped(t.skip(1))
    } else {
        seq![t[0]] + half_escaped(t.skip(1))
    }
}

proof fn lemma_escaped_from_front(t: Seq<char>)
    requires
        t.len() > 0,
    ensures
        escaped(t) == escaped_char(t[0]) + escaped(t.skip(1)),
    decreases t.len(),
{
    if t.len() == 1 {
        assert(t.drop_last() =~= Seq::<char>::empty());
        assert(t.skip(1) =~= Seq::<char>::empty());
        assert(escaped(t) =~= escaped_char(t[0]) + escaped(t.skip(1)));
    } else {
        lemma_escaped_from_front(t.drop_last());
        assert(t.drop_last().skip(1) =~= t.skip(1).drop_last());
        assert(t.skip(1).last() == t.last());
        assert(escaped(t) =~= escaped_char(t[0]) + escaped(t.skip(1)));
    }
}

proof fn lemma_tail_lacks(t: Seq<char>, c: char)
    requires
        !t.contains(c),
        t.len() > 0,
    ensures
        t[0] != c,
        !t.skip(1).contains(c),
{
    assert(t.contains(t[0]));
    assert forall|i: int| 0 <= i < t.skip(1).len() implies t.skip(1)[i] != c by {
        assert(t.contains(t[i + 1]));
    }
}

/// What does not begin an occurrence stays where it is.
proof fn lemma_char_stays(c: char, rest: Seq<char>, pat: Seq<char>, to: Seq<char>)
    requires
        pat.len() > 1,
        c != pat[0] || rest.len() == 0 || rest[0] != pat[1],
    ensures
        text::replaced(seq![c] + rest, pat, to) == seq![c] + text::replaced(rest, pat, to),
{
    let s = seq![c] + rest;
    assert(s.skip(1) =~= rest);
    if text::begins_with(s, pat) {
        assert(s.subrange(0, pat.len() as int)[0] == s[0]);
        assert(s.subrange(0, pat.len() as int)[1] == s[1]);
    }
}

proof fn lemma_occurrence_goes(rest: Seq<char>, pat: Seq<char>, to: Seq<char>)
    requires
        pat.len() > 0,
    ensures
        text::replaced(pat + rest, pat, to) == to + text::replaced(rest, pat, to),
{
    let s = pat + rest;
    assert(s.subrange(0, pat.len() as int) =~= pat);
    assert(s.skip(pat.len() as int) =~= rest);
}

proof fn lemma_escaped_is_guarded(t: Seq<char>)
    requires
        !t.contains('&'),
    ensures
        guarded(escaped(t)),
    decreases t.len(),
{
    if t.len() > 0 {
        reveal_strlit("&lt;");
        reveal_strlit("&gt;");
        lemma_tail_lacks(t, '&');
        lemma_escaped_is_guarded(t.skip(1));
        lemma_escaped_from_front(t);
        let head = escaped_char(t[0]);
        let rest = escaped(t.skip(1));
        let s = escaped(t);
        assert forall|i: int| 0 <= i < s.len() && #[trigger] s[i] == '&' implies i + 1 < s.len() && (s[i + 1] == 'l'
            || s[i + 1] == 'g') by {
            if i >= head.len() {
                assert(rest[i - head.len()] == '&');
                assert(s[i + 1] == rest[i - head.len() + 1]);
            } else {
                assert(head[i] == '&');
            }
        }
    }
}

proof fn lemma_opening_brackets_return(t: Seq<char>)
    requires
        !t.contains('&'),
    ensures
        text::replaced(escaped(t), "&lt;"@, "<"@) == half_escaped(t),
    decreases t.len(),
{
    if t.len() > 0 {
        reveal_strlit("&lt;");
        reveal_strlit("&gt;");
        reveal_strlit("<");
        lemma_tail_lacks(t, '&');
        lemma_escaped_from_front(t);
        lemma_opening_brackets_return(t.skip(1));
        let rest = escaped(t.skip(1));
        if t[0] == '<' {
            lemma_occurrence_goes(rest, "&lt;"@, "<"@);
            assert("<"@ =~= seq![t[0]]);
        } else if t[0] == '>' {
            let d = seq![';'] + rest;
            let c = seq!['t'] + d;
            let b = seq!['g'] + c;
            lemma_char_stays(';', rest, "&lt;"@, "<"@);
            lemma_char_stays('t', d, "&lt;"@, "<"@);
            lemma_char_stays('g', c, "&lt;"@, "<"@);
            lemma_char_stays('&', b, "&lt;"@, "<"@);
            assert("&gt;"@ + rest =~= seq!['&'] + b);
            assert("&gt;"@ + half_escaped(t.skip(1)) =~= seq!['&'] + (seq!['g'] + (seq!['t'] + (seq![';']
                + half_escaped(t.skip(1))))));
        } else {
            lemma_char_stays(t[0], rest, "&lt;"@, "<"@);
        }
    }
}

proof fn lemma_closing_brackets_return(t: Seq<char>)
    requires
        !t.contains('&'),
    ensures
        text::replaced(half_escaped(t), "&gt;"@, ">"@) == t,
    decreases t.len(),
{
    if t.len() > 0 {
        reveal_strlit("&gt;");
        reveal_strlit(">");
        lemma_tail_lacks(t, '&');
        lemma_closing_brackets_return(t.skip(1));
        let rest = half_escaped(t.skip(1));
        if t[0] == '>' {
            lemma_occurrence_goes(rest, "&gt;"@, ">"@);
            assert(">"@ =~= seq![t[0]]);
        } else {
            lemma_char_stays(t[0], rest, "&gt;"@, ">"@);
        }
        assert(seq![t[0]] + t.skip(1) =~= t);
    }
}

/// Decoding an escaped text gives the text back, where it has no `&` of its own.
pub proof fn law_decoding_undoes_escaping(t: Seq<char>)
    requires
        !t.contains('&'),
    ensures
        all_decoded(escaped(t)) == t,
{
    let e = escaped(t);
    lemma_escaped_is_guarded(t);
    reveal_strlit("&quot;");
    reveal_strlit("&#39;");
    reveal_strlit("&apos;");
    reveal_strlit("&amp;");
    reveal_strlit("&nbsp;");
    lemma_guarded_replaced(e, "&quot;"@, "\""@);
    lemma_guarded_replaced(e, "&#39;"@, "'"@);
    lemma_guarded_replaced(e, "&apos;"@, "'"@);
    lemma_guarded_decoded(e, 16);
    lemma_guarded_decoded(e, 10);
    lemma_guarded_replaced(e, "&amp;"@, "&"@);
    lemma_opening_brackets_return(t);
    lemma_closing_brackets_return(t);
    lemma_nothing_replaced(t, "&nbsp;"@, " "@);
}

/// A text without `&` has nothing to decode.
pub proof fn lemma_nothing_decoded(s: Seq<char>)
    requires
        !s.contains('&'),
    ensures
        safe_decoded(s) == s,
        all_decoded(s) == s,
{
    reveal_strlit("&quot;");
    reveal_strlit("&#39;");
    reveal_strlit("&apos;");
    reveal_strlit("&amp;");
    reveal_strlit("&lt;");
    reveal_strlit("&gt;");
    reveal_strlit("&nbsp;");
    lemma_guarded(s);
    lemma_guarded_replaced(s, "&quot;"@, "\""@);
    lemma_guarded_replaced(s, "&#39;"@, "'"@);
    lemma_guarded_replaced(s, "&apos;"@, "'"@);
    lemma_guarded_decoded(s, 16);
    lemma_guarded_decoded(s, 10);
    lemma_nothing_replaced(s, "&amp;"@, "&"@);
    lemma_nothing_replaced(s, "&lt;"@, "<"@);
    lemma_nothing_replaced(s, "&gt;"@, ">"@);
    lemma_nothing_replaced(s, "&nbsp;"@, " "@);
}

/// What WeChat shows has no angle bracket, whatever the text was.
pub proof fn law_weixin_has_no_brackets(s: Seq<char>)
    ensures
        !formatted(s, PluginType::Weixin).contains('<'),
        !formatted(s, PluginType::Weixin).contains('>'),
{
    let t = all_decoded(stripped(s));
    let keep = |c: char| c != '<' && c != '>';
    let shown = formatted(s, PluginType::Weixin);
    assert forall|i: int| 0 <= i < shown.len() implies shown[i] != '<' && shown[i] != '>' by {
        t.lemma_filter_pred(keep, i);
        assert(keep(t.filter(keep)[i]));
    }
}

/// What Lark and DingTalk show has no tag, whatever the text was.
pub proof fn law_markdown_has_no_tag(s: Seq<char>, i: int)
    requires
        0 <= i < formatted(s, PluginType::Lark).len(),
    ensures
        !tag_at(formatted(s, PluginType::Lark), i),
        formatted(s, PluginType::Dingtalk) == formatted(s, PluginType::Lark),
{
    law_stripped_has_no_tag(marked_down(s), i);
}

/// Discord shows every text as it is.
pub proof fn law_discord_is_verbatim(s: Seq<char>)
    ensures
        formatted(s, PluginType::Discord) == s,
{
}

} // verus!
