//! What the conversions between markup languages make of marked up texts.
use vstd::prelude::*;
use vstd::string::*;

use crate::formatter as fm;
use crate::text;
use crate::types::PluginType;

verus! {

// ---------------------------------------------------------------------------
// Matches
// ---------------------------------------------------------------------------

/// What each pattern matches at the beginning of a text.
#[verifier::rlimit(50)]
proof fn lemma_found(s: Seq<char>)
    ensures
        ({
            let first = fm::delimited(s, "["@, 1, fm::Class::Not(']'), "]("@);
            fm::found(fm::MD_LINK@, s) == fm::behind(
                first,
                match first {
                    Some(a) => fm::delimited(s.skip(a.len as int), Seq::empty(), 1, fm::Class::Not(')'), ")"@),
                    None => None,
                },
            )
        }),
        fm::found(fm::MD_BOLD_STAR@, s) == fm::delimited(s, "**"@, 1, fm::Class::Not('\n'), "**"@),
        fm::found(fm::MD_BOLD_UNDER@, s) == fm::delimited(s, "__"@, 1, fm::Class::Not('\n'), "__"@),
        fm::found(fm::MD_STRIKE@, s) == fm::delimited(s, "~~"@, 1, fm::Class::Not('\n'), "~~"@),
        fm::found(fm::MD_CODE_BLOCK@, s) == fm::code_block(s),
        fm::found(fm::MD_INLINE_CODE@, s) == fm::delimited(s, "`"@, 1, fm::Class::Not('`'), "`"@),
        fm::found(fm::MD_ITALIC_STAR@, s) == fm::delimited(s, "*"@, 1, fm::Class::Not('\n'), "*"@),
        fm::found(fm::MD_ITALIC_UNDER@, s) == fm::delimited(s, "_"@, 1, fm::Class::Not('\n'), "_"@),
        fm::found(fm::HTML_PRE_CODE@, s) == fm::pre_code(s),
        fm::found(fm::HTML_CODE@, s) == fm::delimited(s, "<code>"@, 1, fm::Class::Not('<'), "</code>"@),
        fm::found(fm::HTML_B@, s) == fm::delimited(s, "<b>"@, 0, fm::Class::Any, "</b>"@),
        fm::found(fm::HTML_STRONG@, s) == fm::delimited(s, "<strong>"@, 0, fm::Class::Any, "</strong>"@),
        fm::found(fm::HTML_I@, s) == fm::delimited(s, "<i>"@, 0, fm::Class::Any, "</i>"@),
        fm::found(fm::HTML_EM@, s) == fm::delimited(s, "<em>"@, 0, fm::Class::Any, "</em>"@),
        fm::found(fm::HTML_SAFE_LINK@, s) == fm::safe_link(s),
        fm::MD_CODE_BLOCK@ != fm::MD_LINK@,
        fm::MD_CODE_BLOCK@ != fm::MD_BOLD_STAR@,
        fm::MD_CODE_BLOCK@ != fm::MD_BOLD_UNDER@,
        fm::MD_CODE_BLOCK@ != fm::MD_STRIKE@,
        fm::MD_CODE_BLOCK@ != fm::MD_INLINE_CODE@,
        fm::MD_CODE_BLOCK@ != fm::MD_ITALIC_STAR@,
        fm::MD_CODE_BLOCK@ != fm::MD_ITALIC_UNDER@,
        fm::MD_CODE_BLOCK@ != fm::HTML_PRE_CODE@,
        fm::MD_CODE_BLOCK@ != fm::HTML_CODE@,
        fm::MD_CODE_BLOCK@ != fm::HTML_B@,
        fm::MD_CODE_BLOCK@ != fm::HTML_STRONG@,
        fm::MD_CODE_BLOCK@ != fm::HTML_I@,
        fm::MD_CODE_BLOCK@ != fm::HTML_EM@,
        fm::MD_CODE_BLOCK@ != fm::HTML_SAFE_LINK@,
{
    reveal(fm::found);
    reveal_strlit("\\[([^\\]]+)\\]\\(([^)]+)\\)");
    reveal_strlit("\\*\\*(.+?)\\*\\*");
    reveal_strlit("__(.+?)__");
    reveal_strlit("~~(.+?)~~");
    reveal_strlit("```(?:\\w*)\\n?([\\s\\S]*?)```");
    reveal_strlit("`([^`]+)`");
    reveal_strlit("\\*(.+?)\\*");
    reveal_strlit("_(.+?)_");
    reveal_strlit("<pre><code[^>]*>([\\s\\S]*?)</code></pre>");
    reveal_strlit("<code>([^<]+)</code>");
    reveal_strlit("<b>([\\s\\S]*?)</b>");
    reveal_strlit("<strong>([\\s\\S]*?)</strong>");
    reveal_strlit("<i>([\\s\\S]*?)</i>");
    reveal_strlit("<em>([\\s\\S]*?)</em>");
    reveal_strlit("<a\\s+href=\"((?:https?://|mailto:|/)[^\"]*)\"[^>]*>([^<]*)</a>");
    assert(fm::MD_LINK@.len() == 23);
    assert(fm::MD_BOLD_STAR@.len() == 13);
    assert(fm::MD_BOLD_UNDER@.len() == 9);
    assert(fm::MD_STRIKE@.len() == 9);
    assert(fm::MD_CODE_BLOCK@.len() == 26);
    assert(fm::MD_INLINE_CODE@.len() == 9);
    assert(fm::MD_ITALIC_STAR@.len() == 9);
    assert(fm::MD_ITALIC_UNDER@.len() == 7);
    assert(fm::HTML_PRE_CODE@.len() == 39);
    assert(fm::HTML_CODE@.len() == 20);
    assert(fm::HTML_B@.len() == 17);
    assert(fm::HTML_STRONG@.len() == 27);
    assert(fm::HTML_I@.len() == 17);
    assert(fm::HTML_EM@.len() == 19);
    assert(fm::HTML_SAFE_LINK@.len() == 59);
    assert(fm::MD_BOLD_UNDER@[0] == '_');
    assert(fm::MD_STRIKE@[0] == '~');
    assert(fm::MD_INLINE_CODE@[0] == '`');
    assert(fm::MD_ITALIC_STAR@[0] == '\\');
    assert(fm::HTML_B@[1] == 'b');
    assert(fm::HTML_I@[1] == 'i');
}

/// Whether a text holds no character `c`.
pub open spec fn lacks(s: Seq<char>, c: char) -> bool {
    forall|i: int| 0 <= i < s.len() ==> #[trigger] s[i] != c
}

proof fn lemma_begins(open: Seq<char>, rest: Seq<char>)
    ensures
        text::begins_with(open + rest, open),
        (open + rest).skip(open.len() as int) == rest,
{
    assert((open + rest).subrange(0, open.len() as int) =~= open);
    assert((open + rest).skip(open.len() as int) =~= rest);
}

proof fn lemma_begins_char(s: Seq<char>, open: Seq<char>, j: int)
    requires
        text::begins_with(s, open),
        0 <= j < open.len(),
    ensures
        s.len() >= open.len(),
        s[j] == open[j],
{
    assert(s.subrange(0, open.len() as int)[j] == s[j]);
}

/// What stands before the first `close` is as long as it is.
proof fn lemma_content(x: Seq<char>, rest: Seq<char>, min: nat, class: fm::Class, close: Seq<char>)
    requires
        close.len() > 0,
        lacks(x, close[0]),
        min <= x.len(),
        forall|i: int| 0 <= i < x.len() ==> fm::in_class(#[trigger] x[i], class),
    ensures
        fm::content_len(x + close + rest, min, class, close) == Some(x.len()),
    decreases x.len(),
{
    let s = x + close + rest;
    if x.len() == 0 {
        assert(s =~= close + rest);
        lemma_begins(close, rest);
    } else {
        if text::begins_with(s, close) {
            lemma_begins_char(s, close, 0);
            assert(s[0] == x[0]);
        }
        assert(s.skip(1) =~= x.skip(1) + close + rest);
        assert(s[0] == x[0]);
        assert forall|i: int| 0 <= i < x.skip(1).len() implies fm::in_class(#[trigger] x.skip(1)[i], class) by {
            assert(fm::in_class(x[i + 1], class));
        }
        assert forall|i: int| 0 <= i < x.skip(1).len() implies #[trigger] x.skip(1)[i] != close[0] by {
            assert(x[i + 1] != close[0]);
        }
        lemma_content(
            x.skip(1),
            rest,
            if min > 0 {
                (min - 1) as nat
            } else {
                0
            },
            class,
            close,
        );
    }
}

proof fn lemma_delimited(
    open: Seq<char>,
    x: Seq<char>,
    close: Seq<char>,
    rest: Seq<char>,
    min: nat,
    class: fm::Class,
)
    requires
        close.len() > 0,
        lacks(x, close[0]),
        min <= x.len(),
        forall|i: int| 0 <= i < x.len() ==> fm::in_class(#[trigger] x[i], class),
    ensures
        fm::delimited(open + x + close + rest, open, min, class, close) == Some(
            fm::Found { len: open.len() + x.len() + close.len(), one: x, two: Seq::empty() },
        ),
{
    let s = open + x + close + rest;
    assert(s =~= open + (x + close + rest));
    lemma_begins(open, x + close + rest);
    lemma_content(x, rest, min, class, close);
    assert((x + close + rest).take(x.len() as int) =~= x);
}

// ---------------------------------------------------------------------------
// Passes
// ---------------------------------------------------------------------------

/// Where nothing begins a match, nothing changes.
proof fn lemma_pass_over(pattern: Seq<char>, t: Seq<char>, f: Seq<char>, rest: Seq<char>)
    requires
        forall|i: int| 0 <= i < f.len() ==> fm::found(pattern, #[trigger] (f + rest).skip(i)) is None,
    ensures
        fm::all_replaced(pattern, f + rest, t) == f + fm::all_replaced(pattern, rest, t),
    decreases f.len(),
{
    if f.len() == 0 {
        assert(f + rest =~= rest);
        assert(f + fm::all_replaced(pattern, rest, t) =~= fm::all_replaced(pattern, rest, t));
    } else {
        let s = f + rest;
        let g = f.skip(1);
        assert(s.skip(0) =~= s);
        assert(fm::found(pattern, s.skip(0)) is None);
        assert(s.skip(1) =~= g + rest);
        assert forall|i: int| 0 <= i < g.len() implies fm::found(pattern, #[trigger] (g + rest).skip(i)) is None by {
            assert((g + rest).skip(i) =~= s.skip(i + 1));
        }
        lemma_pass_over(pattern, t, g, rest);
        assert(seq![s[0]] + (g + fm::all_replaced(pattern, rest, t)) =~= f + fm::all_replaced(pattern, rest, t));
    }
}

/// A match is replaced, and what stands behind it is looked at afresh.
proof fn lemma_pass_match(pattern: Seq<char>, t: Seq<char>, f: Seq<char>, rest: Seq<char>, m: fm::Found)
    requires
        f.len() > 0,
        fm::found(pattern, f + rest) == Some(m),
        m.len == f.len(),
    ensures
        fm::all_replaced(pattern, f + rest, t) == fm::expanded(t, m) + fm::all_replaced(pattern, rest, t),
{
    assert((f + rest).skip(f.len() as int) =~= rest);
}

// ---------------------------------------------------------------------------
// Templates
// ---------------------------------------------------------------------------

proof fn lemma_expand_plain(a: Seq<char>, rest: Seq<char>, m: fm::Found)
    requires
        lacks(a, '$'),
    ensures
        fm::expanded(a + rest, m) == a + fm::expanded(rest, m),
    decreases a.len(),
{
    if a.len() == 0 {
        assert(a + rest =~= rest);
        assert(a + fm::expanded(rest, m) =~= fm::expanded(rest, m));
    } else {
        assert((a + rest)[0] == a[0]);
        assert((a + rest).skip(1) =~= a.skip(1) + rest);
        assert forall|i: int| 0 <= i < a.skip(1).len() implies #[trigger] a.skip(1)[i] != '$' by {
            assert(a[i + 1] != '$');
        }
        lemma_expand_plain(a.skip(1), rest, m);
        assert(seq![a[0]] + (a.skip(1) + fm::expanded(rest, m)) =~= a + fm::expanded(rest, m));
    }
}

/// A template with one group in it.
proof fn lemma_template(t: Seq<char>, a: Seq<char>, b: Seq<char>, m: fm::Found)
    requires
        t == a + seq!['$', '1'] + b,
        lacks(a, '$'),
        lacks(b, '$'),
        b.len() > 0,
        !fm::is_word_char(b[0]),
    ensures
        fm::is_plain_template(t),
        fm::expanded(t, m) == a + m.one + b,
{
    let one = seq!['$', '1'] + b;
    assert(t =~= a + one);
    lemma_expand_plain(a, one, m);
    assert(one.skip(2) =~= b);
    assert(b =~= b + Seq::<char>::empty());
    lemma_expand_plain(b, Seq::empty(), m);
    assert(fm::expanded(Seq::empty(), m) =~= Seq::<char>::empty());
    assert(a + (m.one + b) =~= a + m.one + b);
    assert forall|i: int| 0 <= i < t.len() && #[trigger] t[i] == '$' implies {
        &&& i + 1 < t.len() && (t[i + 1] == '1' || t[i + 1] == '2')
        &&& i + 2 < t.len() ==> !fm::is_word_char(t[i + 2])
    } by {
        if i < a.len() {
            assert(a[i] == '$');
        } else if i >= a.len() + 2 {
            assert(b[i - a.len() - 2] == '$');
        }
    }
}

/// A template with two groups in it, the second first.
proof fn lemma_template_of_two(t: Seq<char>, a: Seq<char>, b: Seq<char>, c: Seq<char>, m: fm::Found)
    requires
        t == a + seq!['$', '2'] + b + seq!['$', '1'] + c,
        lacks(a, '$'),
        lacks(b, '$'),
        lacks(c, '$'),
        b.len() > 0,
        !fm::is_word_char(b[0]),
        c.len() > 0,
        !fm::is_word_char(c[0]),
    ensures
        fm::is_plain_template(t),
        fm::expanded(t, m) == a + m.two + b + m.one + c,
{
    let tail = b + seq!['$', '1'] + c;
    let two = seq!['$', '2'] + tail;
    assert(t =~= a + two);
    lemma_expand_plain(a, two, m);
    assert(two.skip(2) =~= tail);
    lemma_template(tail, b, c, m);
    assert(a + (m.two + (b + m.one + c)) =~= a + m.two + b + m.one + c);
    assert forall|i: int| 0 <= i < t.len() && #[trigger] t[i] == '$' implies {
        &&& i + 1 < t.len() && (t[i + 1] == '1' || t[i + 1] == '2')
        &&& i + 2 < t.len() ==> !fm::is_word_char(t[i + 2])
    } by {
        if i < a.len() {
            assert(a[i] == '$');
        } else if i >= a.len() + 2 {
            assert(tail[i - a.len() - 2] == '$');
        }
    }
}

/// Whether every match of a pattern begins with `open`.
spec fn opens(pattern: Seq<char>, open: Seq<char>) -> bool {
    forall|s: Seq<char>| (#[trigger] fm::found(pattern, s)) is Some ==> text::begins_with(s, open)
}

/// A text without the character that a match begins with stays as it is.
proof fn lemma_lacking_over(pattern: Seq<char>, open: Seq<char>, t: Seq<char>, f: Seq<char>, rest: Seq<char>)
    requires
        opens(pattern, open),
        open.len() > 0,
        lacks(f, open[0]),
    ensures
        fm::all_replaced(pattern, f + rest, t) == f + fm::all_replaced(pattern, rest, t),
{
    assert forall|i: int| 0 <= i < f.len() implies fm::found(pattern, #[trigger] (f + rest).skip(i)) is None by {
        let s = (f + rest).skip(i);
        if fm::found(pattern, s) is Some {
            lemma_begins_char(s, open, 0);
            assert(s[0] == f[i]);
        }
    }
    lemma_pass_over(pattern, t, f, rest);
}

/// A mark of one character is no mark of two of them.
proof fn lemma_single_over(pattern: Seq<char>, open: Seq<char>, t: Seq<char>, c: char, x: Seq<char>, rest: Seq<char>)
    requires
        opens(pattern, open),
        open.len() >= 2,
        open[0] == c,
        open[1] == c,
        x.len() > 0,
        lacks(x, c),
        rest.len() == 0 || rest[0] != c,
    ensures
        fm::all_replaced(pattern, (seq![c] + x + seq![c]) + rest, t) == (seq![c] + x + seq![c]) + fm::all_replaced(
            pattern,
            rest,
            t,
        ),
{
    let f = seq![c] + x + seq![c];
    assert forall|i: int| 0 <= i < f.len() implies fm::found(pattern, #[trigger] (f + rest).skip(i)) is None by {
        let s = (f + rest).skip(i);
        if fm::found(pattern, s) is Some {
            lemma_begins_char(s, open, 0);
            lemma_begins_char(s, open, 1);
            assert(s[0] == f[i]);
            if i == 0 {
                assert(s[1] == x[0]);
            } else if i <= x.len() {
                assert(f[i] == x[i - 1]);
            } else {
                assert(s[1] == rest[0]);
            }
        }
    }
    lemma_pass_over(pattern, t, f, rest);
}

// ---------------------------------------------------------------------------
// Markdown
// ---------------------------------------------------------------------------

/// A stretch of a markdown text.
pub enum Piece {
    /// Words without any mark.
    Plain(Seq<char>),
    /// Bold between stars.
    Bold(Seq<char>),
    /// Bold between underscores.
    BoldUnder(Seq<char>),
    /// Italic between stars.
    Italic(Seq<char>),
    /// Italic between underscores.
    ItalicUnder(Seq<char>),
    /// Struck through.
    Struck(Seq<char>),
    /// Code inside a line.
    Code(Seq<char>),
    /// A code block with its language.
    Block { language: Seq<char>, body: Seq<char> },
    /// A link.
    Link { shown: Seq<char>, address: Seq<char> },
}

/// Whether a character is a mark of markdown.
pub open spec fn is_mark(c: char) -> bool {
    c == '[' || c == '*' || c == '_' || c == '~' || c == '`'
}

/// Whether a text holds no mark.
pub open spec fn unmarked(s: Seq<char>) -> bool {
    forall|i: int| 0 <= i < s.len() ==> !is_mark(#[trigger] s[i])
}

/// How a stretch is written in markdown.
pub open spec fn markdown(p: Piece) -> Seq<char> {
    match p {
        Piece::Plain(x) => x,
        Piece::Bold(x) => "**"@ + x + "**"@,
        Piece::BoldUnder(x) => "__"@ + x + "__"@,
        Piece::Italic(x) => "*"@ + x + "*"@,
        Piece::ItalicUnder(x) => "_"@ + x + "_"@,
        Piece::Struck(x) => "~~"@ + x + "~~"@,
        Piece::Code(x) => "`"@ + x + "`"@,
        Piece::Block { language, body } => "```"@ + language + "\n"@ + body + "```"@,
        Piece::Link { shown, address } => "["@ + shown + "]("@ + address + ")"@,
    }
}

/// Whether a stretch means what it is written as: there is no mark in it, something is
/// between its marks, and emphasis stays in one line.
pub open spec fn well_marked(p: Piece) -> bool {
    match p {
        Piece::Plain(x) => unmarked(x),
        Piece::Bold(x) | Piece::BoldUnder(x) | Piece::Italic(x) | Piece::ItalicUnder(x) | Piece::Struck(x) => unmarked(x)
            && lacks(x, '\n') && x.len() > 0,
        Piece::Code(x) => unmarked(x) && x.len() > 0,
        Piece::Block { language, body } => unmarked(language) && unmarked(body) && forall|i: int|
            0 <= i < language.len() ==> fm::is_word_char(#[trigger] language[i]),
        Piece::Link { shown, address } => unmarked(shown) && unmarked(address) && lacks(shown, ']') && lacks(address, ')')
            && shown.len() > 0 && address.len() > 0,
    }
}

/// Whether stretches can be told apart: words stand between any two that are marked.
pub open spec fn spaced(ps: Seq<Piece>) -> bool {
    forall|i: int|
        0 <= i < ps.len() - 1 && !((#[trigger] ps[i]) is Plain) ==> (ps[i + 1] matches Piece::Plain(x) && x.len() > 0)
}

/// Stretches one behind the other, in markdown.
pub open spec fn markdown_of(ps: Seq<Piece>) -> Seq<char>
    decreases ps.len(),
{
    if ps.len() == 0 {
        Seq::empty()
    } else {
        markdown(ps[0]) + markdown_of(ps.skip(1))
    }
}

/// The platforms that markdown is turned into the markup of.
pub enum Dialect {
    Telegram,
    Slack,
}

/// How a stretch is shown, where what it holds is already escaped.
spec fn shown_as(d: Dialect, p: Piece) -> Seq<char> {
    match d {
        Dialect::Telegram => match p {
            Piece::Bold(x) | Piece::BoldUnder(x) => "<b>"@ + x + "</b>"@,
            Piece::Italic(x) | Piece::ItalicUnder(x) => "<i>"@ + x + "</i>"@,
            Piece::Code(x) => "<code>"@ + x + "</code>"@,
            Piece::Block { language: _, body } => "<pre><code>"@ + body + "</code></pre>"@,
            Piece::Link { shown, address } => "<a href=\""@ + address + "\">"@ + shown + "</a>"@,
            _ => markdown(p),
        },
        Dialect::Slack => match p {
            Piece::Bold(x) | Piece::BoldUnder(x) => "*"@ + x + "*"@,
            Piece::Struck(x) => "~"@ + x + "~"@,
            Piece::Link { shown, address } => "<"@ + address + "|"@ + shown + ">"@,
            _ => markdown(p),
        },
    }
}

/// The pass in which a stretch is turned; none has the number of one that is not.
spec fn turn(d: Dialect, p: Piece) -> int {
    match d {
        Dialect::Telegram => match p {
            Piece::Block { .. } => 0,
            Piece::Code(_) => 1,
            Piece::Bold(_) => 2,
            Piece::BoldUnder(_) => 3,
            Piece::Italic(_) => 4,
            Piece::ItalicUnder(_) => 5,
            Piece::Link { .. } => 6,
            _ => 99,
        },
        Dialect::Slack => match p {
            Piece::Link { .. } => 0,
            Piece::Bold(_) => 1,
            Piece::BoldUnder(_) => 2,
            Piece::Struck(_) => 3,
            _ => 99,
        },
    }
}

spec fn passes(d: Dialect) -> int {
    match d {
        Dialect::Telegram => 7,
        Dialect::Slack => 4,
    }
}

spec fn pass_pattern(d: Dialect, k: int) -> Seq<char> {
    match d {
        Dialect::Telegram => if k == 0 {
            fm::MD_CODE_BLOCK@
        } else if k == 1 {
            fm::MD_INLINE_CODE@
        } else if k == 2 {
            fm::MD_BOLD_STAR@
        } else if k == 3 {
            fm::MD_BOLD_UNDER@
        } else if k == 4 {
            fm::MD_ITALIC_STAR@
        } else if k == 5 {
            fm::MD_ITALIC_UNDER@
        } else {
            fm::MD_LINK@
        },
        Dialect::Slack => if k == 0 {
            fm::MD_LINK@
        } else if k == 1 {
            fm::MD_BOLD_STAR@
        } else if k == 2 {
            fm::MD_BOLD_UNDER@
        } else {
            fm::MD_STRIKE@
        },
    }
}

spec fn pass_template(d: Dialect, k: int) -> Seq<char> {
    match d {
        Dialect::Telegram => if k == 0 {
            "<pre><code>$1</code></pre>"@
        } else if k == 1 {
            "<code>$1</code>"@
        } else if k == 2 || k == 3 {
            "<b>$1</b>"@
        } else if k == 4 || k == 5 {
            "<i>$1</i>"@
        } else {
            "<a href=\"$2\">$1</a>"@
        },
        Dialect::Slack => if k == 0 {
            "<$2|$1>"@
        } else if k == 1 || k == 2 {
            "*$1*"@
        } else {
            "~$1~"@
        },
    }
}

spec fn pass_open(d: Dialect, k: int) -> Seq<char> {
    match d {
        Dialect::Telegram => if k == 0 {
            "```"@
        } else if k == 1 {
            "`"@
        } else if k == 2 {
            "**"@
        } else if k == 3 {
            "__"@
        } else if k == 4 {
            "*"@
        } else if k == 5 {
            "_"@
        } else {
            "["@
        },
        Dialect::Slack => if k == 0 {
            "["@
        } else if k == 1 {
            "**"@
        } else if k == 2 {
            "__"@
        } else {
            "~~"@
        },
    }
}

/// A stretch after the first `k` passes.
spec fn form(d: Dialect, p: Piece, k: int) -> Seq<char> {
    if turn(d, p) < k {
        shown_as(d, p)
    } else {
        markdown(p)
    }
}

spec fn forms(d: Dialect, ps: Seq<Piece>, k: int) -> Seq<char>
    decreases ps.len(),
{
    if ps.len() == 0 {
        Seq::empty()
    } else {
        form(d, ps[0], k) + forms(d, ps.skip(1), k)
    }
}

proof fn lemma_opens(d: Dialect, k: int)
    requires
        0 <= k < passes(d),
    ensures
        opens(pass_pattern(d, k), pass_open(d, k)),
{
    assert forall|s: Seq<char>| (#[trigger] fm::found(pass_pattern(d, k), s)) is Some implies text::begins_with(
        s,
        pass_open(d, k),
    ) by {
        lemma_found(s);
    }
}

/// The marks, spelled out.
proof fn lemma_marks()
    ensures
        "**"@ == seq!['*', '*'],
        "__"@ == seq!['_', '_'],
        "~~"@ == seq!['~', '~'],
        "```"@ == seq!['`', '`', '`'],
        "*"@ == seq!['*'],
        "_"@ == seq!['_'],
        "~"@ == seq!['~'],
        "`"@ == seq!['`'],
        "["@ == seq!['['],
        "]("@ == seq![']', '('],
        ")"@ == seq![')'],
        "\n"@ == seq!['\n'],
{
    reveal_strlit("**");
    reveal_strlit("__");
    reveal_strlit("~~");
    reveal_strlit("```");
    reveal_strlit("*");
    reveal_strlit("_");
    reveal_strlit("~");
    reveal_strlit("`");
    reveal_strlit("[");
    reveal_strlit("](");
    reveal_strlit(")");
    reveal_strlit("\n");
    assert("**"@ =~= seq!['*', '*']);
    assert("__"@ =~= seq!['_', '_']);
    assert("~~"@ =~= seq!['~', '~']);
    assert("```"@ =~= seq!['`', '`', '`']);
    assert("*"@ =~= seq!['*']);
    assert("_"@ =~= seq!['_']);
    assert("~"@ =~= seq!['~']);
    assert("`"@ =~= seq!['`']);
    assert("["@ =~= seq!['[']);
    assert("]("@ =~= seq![']', '(']);
    assert(")"@ =~= seq![')']);
    assert("\n"@ =~= seq!['\n']);
}

/// What is put around a stretch for Telegram or Slack holds no mark.
proof fn lemma_surroundings()
    ensures
        unmarked("<b>"@),
        unmarked("</b>"@),
        unmarked("<i>"@),
        unmarked("</i>"@),
        unmarked("<code>"@),
        unmarked("</code>"@),
        unmarked("<pre><code>"@),
        unmarked("</code></pre>"@),
        unmarked("<a href=\""@),
        unmarked("\">"@),
        unmarked("</a>"@),
        unmarked("<"@),
        unmarked("|"@),
        unmarked(">"@),
        unmarked("]("@),
        unmarked(")"@),
        unmarked("\n"@),
{
    reveal_strlit("<b>");
    reveal_strlit("</b>");
    reveal_strlit("<i>");
    reveal_strlit("</i>");
    reveal_strlit("<code>");
    reveal_strlit("</code>");
    reveal_strlit("<pre><code>");
    reveal_strlit("</code></pre>");
    reveal_strlit("<a href=\"");
    reveal_strlit("\">");
    reveal_strlit("</a>");
    reveal_strlit("<");
    reveal_strlit("|");
    reveal_strlit(">");
    reveal_strlit("](");
    reveal_strlit(")");
    reveal_strlit("\n");
}

proof fn lemma_unmarked_lacks(s: Seq<char>, c: char)
    requires
        unmarked(s),
        is_mark(c),
    ensures
        lacks(s, c),
{
}

proof fn lemma_three_lack(a: Seq<char>, b: Seq<char>, e: Seq<char>, c: char)
    requires
        lacks(a, c),
        lacks(b, c),
        lacks(e, c),
    ensures
        lacks(a + b + e, c),
{
    let s = a + b + e;
    assert forall|i: int| 0 <= i < s.len() implies #[trigger] s[i] != c by {
        if i < a.len() {
            assert(s[i] == a[i]);
        } else if i < a.len() + b.len() {
            assert(s[i] == b[i - a.len()]);
        } else {
            assert(s[i] == e[i - a.len() - b.len()]);
        }
    }
}

/// The stretches that a pass does not turn and whose marks are not its own.
#[verifier::rlimit(50)]
proof fn lemma_other_marks(d: Dialect, p: Piece, k: int)
    requires
        0 <= k < passes(d),
        well_marked(p),
        turn(d, p) != k,
        !(p is Italic && pass_open(d, k)[0] == '*'),
        !(p is ItalicUnder && pass_open(d, k)[0] == '_'),
        !(p is Code && pass_open(d, k)[0] == '`'),
    ensures
        lacks(form(d, p, k), pass_open(d, k)[0]),
{
    lemma_marks();
    lemma_surroundings();
    let c = pass_open(d, k)[0];
    assert(is_mark(c));
    match p {
        Piece::Plain(x) => {},
        Piece::Bold(x) | Piece::BoldUnder(x) | Piece::Italic(x) | Piece::ItalicUnder(x) | Piece::Struck(x) | Piece::Code(x) => {
            lemma_unmarked_lacks(x, c);
            if turn(d, p) >= k {
                match p {
                    Piece::Bold(_) => lemma_three_lack("**"@, x, "**"@, c),
                    Piece::BoldUnder(_) => lemma_three_lack("__"@, x, "__"@, c),
                    Piece::Italic(_) => lemma_three_lack("*"@, x, "*"@, c),
                    Piece::ItalicUnder(_) => lemma_three_lack("_"@, x, "_"@, c),
                    Piece::Struck(_) => lemma_three_lack("~~"@, x, "~~"@, c),
                    _ => lemma_three_lack("`"@, x, "`"@, c),
                }
            } else {
                lemma_three_lack("<b>"@, x, "</b>"@, c);
                lemma_three_lack("<i>"@, x, "</i>"@, c);
                lemma_three_lack("<code>"@, x, "</code>"@, c);
                if c != '*' {
                    lemma_three_lack("*"@, x, "*"@, c);
                }
                if c != '~' {
                    lemma_three_lack("~"@, x, "~"@, c);
                }
            }
        },
        Piece::Block { language, body } => {
            if turn(d, p) >= k {
                lemma_three_lack("```"@, language, "\n"@, c);
                lemma_three_lack("```"@ + language + "\n"@, body, "```"@, c);
            } else {
                lemma_three_lack("<pre><code>"@, body, "</code></pre>"@, c);
            }
        },
        Piece::Link { shown, address } => {
            if turn(d, p) >= k {
                lemma_three_lack("["@, shown, "]("@, c);
                lemma_three_lack("["@ + shown + "]("@, address, ")"@, c);
            } else {
                lemma_three_lack("<a href=\""@, address, "\">"@, c);
                lemma_three_lack("<a href=\""@ + address + "\">"@, shown, "</a>"@, c);
                lemma_three_lack("<"@, address, "|"@, c);
                lemma_three_lack("<"@ + address + "|"@, shown, ">"@, c);
            }
        },
    }
}

/// What the templates make of a match.
#[verifier::rlimit(50)]
proof fn lemma_templates(m: fm::Found)
    ensures
        fm::is_plain_template("<pre><code>$1</code></pre>"@),
        fm::expanded("<pre><code>$1</code></pre>"@, m) == "<pre><code>"@ + m.one + "</code></pre>"@,
        fm::is_plain_template("<code>$1</code>"@),
        fm::expanded("<code>$1</code>"@, m) == "<code>"@ + m.one + "</code>"@,
        fm::is_plain_template("<b>$1</b>"@),
        fm::expanded("<b>$1</b>"@, m) == "<b>"@ + m.one + "</b>"@,
        fm::is_plain_template("<i>$1</i>"@),
        fm::expanded("<i>$1</i>"@, m) == "<i>"@ + m.one + "</i>"@,
        fm::is_plain_template("<a href=\"$2\">$1</a>"@),
        fm::expanded("<a href=\"$2\">$1</a>"@, m) == "<a href=\""@ + m.two + "\">"@ + m.one + "</a>"@,
        fm::is_plain_template("<$2|$1>"@),
        fm::expanded("<$2|$1>"@, m) == "<"@ + m.two + "|"@ + m.one + ">"@,
        fm::is_plain_template("*$1*"@),
        fm::expanded("*$1*"@, m) == "*"@ + m.one + "*"@,
        fm::is_plain_template("~$1~"@),
        fm::expanded("~$1~"@, m) == "~"@ + m.one + "~"@,
{
    reveal_strlit("<pre><code>$1</code></pre>");
    reveal_strlit("<code>$1</code>");
    reveal_strlit("<b>$1</b>");
    reveal_strlit("<i>$1</i>");
    reveal_strlit("<a href=\"$2\">$1</a>");
    reveal_strlit("<$2|$1>");
    reveal_strlit("*$1*");
    reveal_strlit("~$1~");
    reveal_strlit("<pre><code>");
    reveal_strlit("</code></pre>");
    reveal_strlit("<code>");
    reveal_strlit("</code>");
    reveal_strlit("<b>");
    reveal_strlit("</b>");
    reveal_strlit("<i>");
    reveal_strlit("</i>");
    reveal_strlit("<a href=\"");
    reveal_strlit("\">");
    reveal_strlit("</a>");
    reveal_strlit("<");
    reveal_strlit("|");
    reveal_strlit(">");
    reveal_strlit("*");
    reveal_strlit("~");
    assert("<pre><code>$1</code></pre>"@ =~= "<pre><code>"@ + seq!['$', '1'] + "</code></pre>"@);
    lemma_template("<pre><code>$1</code></pre>"@, "<pre><code>"@, "</code></pre>"@, m);
    assert("<code>$1</code>"@ =~= "<code>"@ + seq!['$', '1'] + "</code>"@);
    lemma_template("<code>$1</code>"@, "<code>"@, "</code>"@, m);
    assert("<b>$1</b>"@ =~= "<b>"@ + seq!['$', '1'] + "</b>"@);
    lemma_template("<b>$1</b>"@, "<b>"@, "</b>"@, m);
    assert("<i>$1</i>"@ =~= "<i>"@ + seq!['$', '1'] + "</i>"@);
    lemma_template("<i>$1</i>"@, "<i>"@, "</i>"@, m);
    assert("<a href=\"$2\">$1</a>"@ =~= "<a href=\""@ + seq!['$', '2'] + "\">"@ + seq!['$', '1'] + "</a>"@);
    lemma_template_of_two("<a href=\"$2\">$1</a>"@, "<a href=\""@, "\">"@, "</a>"@, m);
    assert("<$2|$1>"@ =~= "<"@ + seq!['$', '2'] + "|"@ + seq!['$', '1'] + ">"@);
    lemma_template_of_two("<$2|$1>"@, "<"@, "|"@, ">"@, m);
    assert("*$1*"@ =~= "*"@ + seq!['$', '1'] + "*"@);
    lemma_template("*$1*"@, "*"@, "*"@, m);
    assert("~$1~"@ =~= "~"@ + seq!['$', '1'] + "~"@);
    lemma_template("~$1~"@, "~"@, "~"@, m);
}

proof fn lemma_word_run(word: Seq<char>, rest: Seq<char>)
    requires
        forall|i: int| 0 <= i < word.len() ==> fm::is_word_char(#[trigger] word[i]),
        rest.len() == 0 || !fm::is_word_char(rest[0]),
    ensures
        fm::word_run(word + rest) == word.len(),
    decreases word.len(),
{
    if word.len() == 0 {
        assert(word + rest =~= rest);
    } else {
        assert((word + rest).skip(1) =~= word.skip(1) + rest);
        assert forall|i: int| 0 <= i < word.skip(1).len() implies fm::is_word_char(#[trigger] word.skip(1)[i]) by {
            assert(fm::is_word_char(word[i + 1]));
        }
        lemma_word_run(word.skip(1), rest);
    }
}

proof fn lemma_block(language: Seq<char>, body: Seq<char>, rest: Seq<char>)
    requires
        well_marked(Piece::Block { language, body }),
    ensures
        ({
            let s = markdown(Piece::Block { language, body }) + rest;
            &&& fm::code_block(s) == Some(
                fm::Found { len: markdown(Piece::Block { language, body }).len(), one: body, two: Seq::empty() },
            )
            &&& text::begins_with(s, "```"@)
            &&& fm::word_run(s.skip(3)) == language.len()
            &&& s.skip(3)[language.len() as int] == '\n'
        }),
{
    lemma_marks();
    let s = markdown(Piece::Block { language, body }) + rest;
    let behind = language + "\n"@ + body + "```"@ + rest;
    assert(s =~= "```"@ + behind);
    lemma_begins("```"@, behind);
    let tail = "\n"@ + body + "```"@ + rest;
    assert(behind =~= language + tail);
    lemma_word_run(language, tail);
    let head = 3 + language.len() + 1;
    let inner = body + "```"@ + rest;
    assert(s.skip(head as int) =~= inner);
    lemma_unmarked_lacks(body, '`');
    lemma_content(body, rest, 0, fm::Class::Any, "```"@);
    assert(inner.take(body.len() as int) =~= body);
}

/// What stands between two equal marks is the group of their match.
proof fn lemma_between_marks(
    pattern: Seq<char>,
    t: Seq<char>,
    mark: Seq<char>,
    x: Seq<char>,
    class: fm::Class,
    rest: Seq<char>,
)
    requires
        fm::found(pattern, mark + x + mark + rest) == fm::delimited(mark + x + mark + rest, mark, 1, class, mark),
        mark.len() > 0,
        lacks(x, mark[0]),
        x.len() > 0,
        forall|i: int| 0 <= i < x.len() ==> fm::in_class(#[trigger] x[i], class),
    ensures
        ({
            let m = fm::Found { len: (mark + x + mark).len(), one: x, two: Seq::empty() };
            fm::all_replaced(pattern, mark + x + mark + rest, t) == fm::expanded(t, m) + fm::all_replaced(
                pattern,
                rest,
                t,
            )
        }),
{
    lemma_delimited(mark, x, mark, rest, 1, class);
    let m = fm::Found { len: (mark + x + mark).len(), one: x, two: Seq::empty() };
    lemma_pass_match(pattern, t, mark + x + mark, rest, m);
}

/// A stretch whose turn it is is turned.
#[verifier::rlimit(50)]
proof fn lemma_turned(d: Dialect, k: int, p: Piece, rest: Seq<char>)
    requires
        0 <= k < passes(d),
        well_marked(p),
        turn(d, p) == k,
    ensures
        fm::all_replaced(pass_pattern(d, k), markdown(p) + rest, pass_template(d, k)) == shown_as(d, p)
            + fm::all_replaced(pass_pattern(d, k), rest, pass_template(d, k)),
{
    let s = markdown(p) + rest;
    let none = Seq::<char>::empty();
    lemma_found(s);
    lemma_marks();
    match p {
        Piece::Bold(x) => {
            lemma_unmarked_lacks(x, '*');
            lemma_between_marks(pass_pattern(d, k), pass_template(d, k), "**"@, x, fm::Class::Not('\n'), rest);
            lemma_templates(fm::Found { len: markdown(p).len(), one: x, two: none });
        },
        Piece::BoldUnder(x) => {
            lemma_unmarked_lacks(x, '_');
            lemma_between_marks(pass_pattern(d, k), pass_template(d, k), "__"@, x, fm::Class::Not('\n'), rest);
            lemma_templates(fm::Found { len: markdown(p).len(), one: x, two: none });
        },
        Piece::Italic(x) => {
            lemma_unmarked_lacks(x, '*');
            lemma_between_marks(pass_pattern(d, k), pass_template(d, k), "*"@, x, fm::Class::Not('\n'), rest);
            lemma_templates(fm::Found { len: markdown(p).len(), one: x, two: none });
        },
        Piece::ItalicUnder(x) => {
            lemma_unmarked_lacks(x, '_');
            lemma_between_marks(pass_pattern(d, k), pass_template(d, k), "_"@, x, fm::Class::Not('\n'), rest);
            lemma_templates(fm::Found { len: markdown(p).len(), one: x, two: none });
        },
        Piece::Struck(x) => {
            lemma_unmarked_lacks(x, '~');
            lemma_between_marks(pass_pattern(d, k), pass_template(d, k), "~~"@, x, fm::Class::Not('\n'), rest);
            lemma_templates(fm::Found { len: markdown(p).len(), one: x, two: none });
        },
        Piece::Code(x) => {
            lemma_unmarked_lacks(x, '`');
            lemma_between_marks(pass_pattern(d, k), pass_template(d, k), "`"@, x, fm::Class::Not('`'), rest);
            lemma_templates(fm::Found { len: markdown(p).len(), one: x, two: none });
        },
        Piece::Block { language, body } => {
            lemma_block(language, body, rest);
            let m = fm::Found { len: markdown(p).len(), one: body, two: none };
            lemma_pass_match(pass_pattern(d, k), pass_template(d, k), markdown(p), rest, m);
            lemma_templates(m);
        },
        Piece::Link { shown, address } => {
            let tail = address + ")"@ + rest;
            assert(s =~= "["@ + shown + "]("@ + tail);
            lemma_delimited("["@, shown, "]("@, tail, 1, fm::Class::Not(']'));
            let n = 1 + shown.len() + 2;
            assert(s.skip(n as int) =~= tail);
            assert(tail =~= none + address + ")"@ + rest);
            lemma_delimited(none, address, ")"@, rest, 1, fm::Class::Not(')'));
            let m = fm::Found { len: markdown(p).len(), one: shown, two: address };
            lemma_pass_match(pass_pattern(d, k), pass_template(d, k), markdown(p), rest, m);
            lemma_templates(m);
        },
        Piece::Plain(_) => {},
    }
}

/// A pass takes each stretch to its next form.
proof fn lemma_step(d: Dialect, k: int, p: Piece, rest: Seq<char>)
    requires
        0 <= k < passes(d),
        well_marked(p),
        p is Plain || rest.len() == 0 || !is_mark(rest[0]),
    ensures
        fm::all_replaced(pass_pattern(d, k), form(d, p, k) + rest, pass_template(d, k)) == form(d, p, k + 1)
            + fm::all_replaced(pass_pattern(d, k), rest, pass_template(d, k)),
{
    lemma_marks();
    lemma_opens(d, k);
    let pattern = pass_pattern(d, k);
    let open = pass_open(d, k);
    let t = pass_template(d, k);
    if turn(d, p) == k {
        lemma_turned(d, k, p, rest);
    } else if p is Italic && open[0] == '*' && turn(d, p) > k {
        let x = p->Italic_0;
        lemma_unmarked_lacks(x, '*');
        lemma_single_over(pattern, open, t, '*', x, rest);
    } else if p is ItalicUnder && open[0] == '_' && turn(d, p) > k {
        let x = p->ItalicUnder_0;
        lemma_unmarked_lacks(x, '_');
        lemma_single_over(pattern, open, t, '_', x, rest);
    } else if p is Code && open[0] == '`' && turn(d, p) > k {
        let x = p->Code_0;
        lemma_unmarked_lacks(x, '`');
        lemma_single_over(pattern, open, t, '`', x, rest);
    } else {
        lemma_other_marks(d, p, k);
        lemma_lacking_over(pattern, open, t, form(d, p, k), rest);
    }
}

proof fn lemma_tail(ps: Seq<Piece>)
    requires
        ps.len() > 0,
        forall|i: int| 0 <= i < ps.len() ==> well_marked(#[trigger] ps[i]),
        spaced(ps),
    ensures
        forall|i: int| 0 <= i < ps.skip(1).len() ==> well_marked(#[trigger] ps.skip(1)[i]),
        spaced(ps.skip(1)),
{
    let tail = ps.skip(1);
    assert forall|i: int| 0 <= i < tail.len() implies well_marked(#[trigger] tail[i]) by {
        assert(well_marked(ps[i + 1]));
    }
    assert forall|i: int| 0 <= i < tail.len() - 1 && !((#[trigger] tail[i]) is Plain) implies (
    tail[i + 1] matches Piece::Plain(x) && x.len() > 0) by {
        assert(!(ps[i + 1] is Plain));
    }
}

/// Behind a marked stretch there is no mark.
proof fn lemma_no_mark_behind(d: Dialect, ps: Seq<Piece>, k: int)
    requires
        ps.len() > 0,
        forall|i: int| 0 <= i < ps.len() ==> well_marked(#[trigger] ps[i]),
        spaced(ps),
    ensures
        ({
            let rest = forms(d, ps.skip(1), k);
            ps[0] is Plain || rest.len() == 0 || !is_mark(rest[0])
        }),
{
    let tail = ps.skip(1);
    if tail.len() > 0 && !(ps[0] is Plain) {
        assert(tail[0] == ps[1]);
        assert(well_marked(ps[1]));
        if let Piece::Plain(x) = ps[1] {
            assert(forms(d, tail, k)[0] == x[0]);
        }
    }
}

/// A pass takes all stretches to their next forms.
proof fn lemma_pass(d: Dialect, k: int, ps: Seq<Piece>)
    requires
        0 <= k < passes(d),
        forall|i: int| 0 <= i < ps.len() ==> well_marked(#[trigger] ps[i]),
        spaced(ps),
    ensures
        fm::all_replaced(pass_pattern(d, k), forms(d, ps, k), pass_template(d, k)) == forms(d, ps, k + 1),
    decreases ps.len(),
{
    if ps.len() > 0 {
        lemma_tail(ps);
        lemma_no_mark_behind(d, ps, k);
        lemma_pass(d, k, ps.skip(1));
        lemma_step(d, k, ps[0], forms(d, ps.skip(1), k));
    }
}

/// Where nothing begins a code block, no language is unclear.
proof fn lemma_clear_over(f: Seq<char>, rest: Seq<char>)
    requires
        forall|i: int| 0 <= i < f.len() ==> !text::begins_with(#[trigger] (f + rest).skip(i), "```"@),
    ensures
        fm::clear_languages(f + rest) == fm::clear_languages(rest),
    decreases f.len(),
{
    if f.len() == 0 {
        assert(f + rest =~= rest);
    } else {
        let s = f + rest;
        let g = f.skip(1);
        assert(s.skip(0) =~= s);
        assert(!text::begins_with(s.skip(0), "```"@));
        assert(s.skip(1) =~= g + rest);
        assert forall|i: int| 0 <= i < g.len() implies !text::begins_with(#[trigger] (g + rest).skip(i), "```"@) by {
            assert((g + rest).skip(i) =~= s.skip(i + 1));
        }
        lemma_clear_over(g, rest);
    }
}

/// The languages of code blocks are clear.
proof fn lemma_clear(ps: Seq<Piece>)
    requires
        forall|i: int| 0 <= i < ps.len() ==> well_marked(#[trigger] ps[i]),
        spaced(ps),
    ensures
        fm::clear_languages(forms(Dialect::Telegram, ps, 0)),
    decreases ps.len(),
{
    if ps.len() > 0 {
        lemma_tail(ps);
        lemma_no_mark_behind(Dialect::Telegram, ps, 0);
        lemma_clear(ps.skip(1));
        lemma_marks();
        let p = ps[0];
        let f = markdown(p);
        let rest = forms(Dialect::Telegram, ps.skip(1), 0);
        let s = f + rest;
        if let Piece::Block { language, body } = p {
            lemma_block(language, body, rest);
            assert(s.skip(f.len() as int) =~= rest);
        } else {
            if !(p is Code) {
                lemma_other_marks(Dialect::Telegram, p, 0);
            }
            assert forall|i: int| 0 <= i < f.len() implies !text::begins_with(#[trigger] s.skip(i), "```"@) by {
                if text::begins_with(s.skip(i), "```"@) {
                    lemma_begins_char(s.skip(i), "```"@, 0);
                    lemma_begins_char(s.skip(i), "```"@, 1);
                    assert(s.skip(i)[0] == f[i]);
                    if let Piece::Code(x) = p {
                        lemma_unmarked_lacks(x, '`');
                        if i == 0 {
                            assert(s.skip(i)[1] == x[0]);
                        } else if i <= x.len() {
                            assert(f[i] == x[i - 1]);
                        } else {
                            assert(s.skip(i)[1] == rest[0]);
                        }
                    }
                }
            }
            lemma_clear_over(f, rest);
        }
    }
}

// ---------------------------------------------------------------------------
// Escapes
// ---------------------------------------------------------------------------

proof fn lemma_escaped_joined(a: Seq<char>, b: Seq<char>)
    ensures
        fm::escaped(a + b) == fm::escaped(a) + fm::escaped(b),
    decreases b.len(),
{
    if b.len() == 0 {
        assert(a + b =~= a);
        assert(fm::escaped(a) + fm::escaped(b) =~= fm::escaped(a));
    } else {
        lemma_escaped_joined(a, b.drop_last());
        assert((a + b).drop_last() =~= a + b.drop_last());
        assert(fm::escaped(a) + fm::escaped(b.drop_last()) + fm::escaped_char(b.last()) =~= fm::escaped(a)
            + fm::escaped(b));
    }
}

/// Escaping puts nothing in but the names of three characters.
proof fn lemma_escaped_chars(x: Seq<char>, c: char)
    requires
        lacks(x, c),
        c != '&' && c != ';' && c != 'a' && c != 'm' && c != 'p' && c != 'l' && c != 't' && c != 'g',
    ensures
        lacks(fm::escaped(x), c),
        fm::escaped(x).len() >= x.len(),
    decreases x.len(),
{
    if x.len() > 0 {
        assert forall|i: int| 0 <= i < x.drop_last().len() implies #[trigger] x.drop_last()[i] != c by {
            assert(x[i] != c);
        }
        lemma_escaped_chars(x.drop_last(), c);
        reveal_strlit("&amp;");
        reveal_strlit("&lt;");
        reveal_strlit("&gt;");
        let head = fm::escaped(x.drop_last());
        let tail = fm::escaped_char(x.last());
        assert(x.last() != c) by {
            assert(x[x.len() - 1] != c);
        }
        let e = fm::escaped(x);
        assert forall|i: int| 0 <= i < e.len() implies #[trigger] e[i] != c by {
            if i < head.len() {
                assert(e[i] == head[i]);
            } else {
                assert(e[i] == tail[i - head.len()]);
            }
        }
    }
}

proof fn lemma_escaped_unmarked(x: Seq<char>)
    requires
        unmarked(x),
    ensures
        unmarked(fm::escaped(x)),
        fm::escaped(x).len() >= x.len(),
{
    lemma_escaped_chars(x, '[');
    lemma_escaped_chars(x, '*');
    lemma_escaped_chars(x, '_');
    lemma_escaped_chars(x, '~');
    lemma_escaped_chars(x, '`');
}

/// A stretch with what it holds escaped.
spec fn escaped_piece(p: Piece) -> Piece {
    match p {
        Piece::Plain(x) => Piece::Plain(fm::escaped(x)),
        Piece::Bold(x) => Piece::Bold(fm::escaped(x)),
        Piece::BoldUnder(x) => Piece::BoldUnder(fm::escaped(x)),
        Piece::Italic(x) => Piece::Italic(fm::escaped(x)),
        Piece::ItalicUnder(x) => Piece::ItalicUnder(fm::escaped(x)),
        Piece::Struck(x) => Piece::Struck(fm::escaped(x)),
        Piece::Code(x) => Piece::Code(fm::escaped(x)),
        Piece::Block { language, body } => Piece::Block { language, body: fm::escaped(body) },
        Piece::Link { shown, address } => Piece::Link { shown: fm::escaped(shown), address: fm::escaped(address) },
    }
}

proof fn lemma_verbatim(s: Seq<char>)
    requires
        forall|i: int| 0 <= i < s.len() ==> #[trigger] s[i] != '&' && s[i] != '<' && s[i] != '>',
    ensures
        fm::escaped(s) == s,
{
    fm::lemma_nothing_escaped(s);
}

proof fn lemma_escaped_three(a: Seq<char>, x: Seq<char>, b: Seq<char>)
    requires
        fm::escaped(a) == a,
        fm::escaped(b) == b,
    ensures
        fm::escaped(a + x + b) == a + fm::escaped(x) + b,
{
    lemma_escaped_joined(a + x, b);
    lemma_escaped_joined(a, x);
}

#[verifier::rlimit(50)]
proof fn lemma_escaped_piece(p: Piece)
    requires
        well_marked(p),
    ensures
        fm::escaped(markdown(p)) == markdown(escaped_piece(p)),
        well_marked(escaped_piece(p)),
{
    lemma_marks();
    lemma_verbatim("**"@);
    lemma_verbatim("__"@);
    lemma_verbatim("*"@);
    lemma_verbatim("_"@);
    lemma_verbatim("~~"@);
    lemma_verbatim("`"@);
    lemma_verbatim("```"@);
    lemma_verbatim("["@);
    lemma_verbatim("]("@);
    lemma_verbatim(")"@);
    lemma_verbatim("\n"@);
    match p {
        Piece::Plain(x) => {
            lemma_escaped_unmarked(x);
        },
        Piece::Bold(x) => {
            lemma_escaped_unmarked(x);
            lemma_escaped_chars(x, '\n');
            lemma_escaped_three("**"@, x, "**"@);
        },
        Piece::BoldUnder(x) => {
            lemma_escaped_unmarked(x);
            lemma_escaped_chars(x, '\n');
            lemma_escaped_three("__"@, x, "__"@);
        },
        Piece::Italic(x) => {
            lemma_escaped_unmarked(x);
            lemma_escaped_chars(x, '\n');
            lemma_escaped_three("*"@, x, "*"@);
        },
        Piece::ItalicUnder(x) => {
            lemma_escaped_unmarked(x);
            lemma_escaped_chars(x, '\n');
            lemma_escaped_three("_"@, x, "_"@);
        },
        Piece::Struck(x) => {
            lemma_escaped_unmarked(x);
            lemma_escaped_chars(x, '\n');
            lemma_escaped_three("~~"@, x, "~~"@);
        },
        Piece::Code(x) => {
            lemma_escaped_unmarked(x);
            lemma_escaped_three("`"@, x, "`"@);
        },
        Piece::Block { language, body } => {
            lemma_escaped_unmarked(body);
            assert forall|i: int| 0 <= i < language.len() implies #[trigger] language[i] != '&' && language[i] != '<'
                && language[i] != '>' by {
                assert(fm::is_word_char(language[i]));
            }
            lemma_verbatim(language);
            lemma_escaped_three("```"@, language, "\n"@);
            lemma_escaped_three("```"@ + language + "\n"@, body, "```"@);
        },
        Piece::Link { shown, address } => {
            lemma_escaped_unmarked(shown);
            lemma_escaped_unmarked(address);
            lemma_escaped_chars(shown, ']');
            lemma_escaped_chars(address, ')');
            lemma_escaped_three("["@, shown, "]("@);
            lemma_escaped_joined("["@ + shown + "]("@ + address, ")"@);
            lemma_escaped_joined("["@ + shown + "]("@, address);
        },
    }
}

spec fn escaped_pieces(ps: Seq<Piece>) -> Seq<Piece> {
    ps.map_values(|p: Piece| escaped_piece(p))
}

proof fn lemma_escaped_pieces(ps: Seq<Piece>)
    requires
        forall|i: int| 0 <= i < ps.len() ==> well_marked(#[trigger] ps[i]),
        spaced(ps),
    ensures
        fm::escaped(markdown_of(ps)) == markdown_of(escaped_pieces(ps)),
        forall|i: int| 0 <= i < ps.len() ==> well_marked(#[trigger] escaped_pieces(ps)[i]),
        spaced(escaped_pieces(ps)),
    decreases ps.len(),
{
    let es = escaped_pieces(ps);
    assert forall|i: int| 0 <= i < ps.len() implies well_marked(#[trigger] es[i]) by {
        lemma_escaped_piece(ps[i]);
    }
    assert forall|i: int| 0 <= i < es.len() - 1 && !((#[trigger] es[i]) is Plain) implies (
    es[i + 1] matches Piece::Plain(x) && x.len() > 0) by {
        assert(!(ps[i] is Plain));
        assert(well_marked(ps[i + 1]));
        if let Piece::Plain(x) = ps[i + 1] {
            lemma_escaped_unmarked(x);
        }
    }
    if ps.len() > 0 {
        lemma_tail(ps);
        lemma_escaped_pieces(ps.skip(1));
        assert(es.skip(1) =~= escaped_pieces(ps.skip(1)));
        lemma_escaped_piece(ps[0]);
        lemma_escaped_joined(markdown(ps[0]), markdown_of(ps.skip(1)));
    }
}

proof fn lemma_first_forms(d: Dialect, ps: Seq<Piece>)
    ensures
        forms(d, ps, 0) == markdown_of(ps),
    decreases ps.len(),
{
    if ps.len() > 0 {
        lemma_first_forms(d, ps.skip(1));
    }
}

// ---------------------------------------------------------------------------
// Laws on markdown
// ---------------------------------------------------------------------------

/// How Telegram is to show a stretch.
pub open spec fn on_telegram(p: Piece) -> Seq<char> {
    match p {
        Piece::Plain(x) => fm::escaped(x),
        Piece::Bold(x) | Piece::BoldUnder(x) => "<b>"@ + fm::escaped(x) + "</b>"@,
        Piece::Italic(x) | Piece::ItalicUnder(x) => "<i>"@ + fm::escaped(x) + "</i>"@,
        Piece::Struck(x) => "~~"@ + fm::escaped(x) + "~~"@,
        Piece::Code(x) => "<code>"@ + fm::escaped(x) + "</code>"@,
        Piece::Block { language: _, body } => "<pre><code>"@ + fm::escaped(body) + "</code></pre>"@,
        Piece::Link { shown, address } => "<a href=\""@ + fm::escaped(address) + "\">"@ + fm::escaped(shown) + "</a>"@,
    }
}

/// How Slack is to show a stretch.
pub open spec fn on_slack(p: Piece) -> Seq<char> {
    match p {
        Piece::Plain(x) => fm::escaped(x),
        Piece::Bold(x) | Piece::BoldUnder(x) => "*"@ + fm::escaped(x) + "*"@,
        Piece::Italic(x) => "*"@ + fm::escaped(x) + "*"@,
        Piece::ItalicUnder(x) => "_"@ + fm::escaped(x) + "_"@,
        Piece::Struck(x) => "~"@ + fm::escaped(x) + "~"@,
        Piece::Code(x) => "`"@ + fm::escaped(x) + "`"@,
        Piece::Block { language, body } => "```"@ + language + "\n"@ + fm::escaped(body) + "```"@,
        Piece::Link { shown, address } => "<"@ + fm::escaped(address) + "|"@ + fm::escaped(shown) + ">"@,
    }
}

/// Stretches as Telegram is to show them, one behind the other.
pub open spec fn all_on_telegram(ps: Seq<Piece>) -> Seq<char>
    decreases ps.len(),
{
    if ps.len() == 0 {
        Seq::empty()
    } else {
        on_telegram(ps[0]) + all_on_telegram(ps.skip(1))
    }
}

/// Stretches as Slack is to show them, one behind the other.
pub open spec fn all_on_slack(ps: Seq<Piece>) -> Seq<char>
    decreases ps.len(),
{
    if ps.len() == 0 {
        Seq::empty()
    } else {
        on_slack(ps[0]) + all_on_slack(ps.skip(1))
    }
}

proof fn lemma_last_forms_telegram(ps: Seq<Piece>)
    ensures
        forms(Dialect::Telegram, escaped_pieces(ps), 7) == all_on_telegram(ps),
    decreases ps.len(),
{
    if ps.len() > 0 {
        lemma_last_forms_telegram(ps.skip(1));
        assert(escaped_pieces(ps).skip(1) =~= escaped_pieces(ps.skip(1)));
    }
}

proof fn lemma_last_forms_slack(ps: Seq<Piece>)
    ensures
        forms(Dialect::Slack, escaped_pieces(ps), 4) == all_on_slack(ps),
    decreases ps.len(),
{
    if ps.len() > 0 {
        lemma_last_forms_slack(ps.skip(1));
        assert(escaped_pieces(ps).skip(1) =~= escaped_pieces(ps.skip(1)));
    }
}

/// Telegram shows every stretch of a markdown text in its own markup, escaped: bold,
/// italic, code, code blocks without their language, and links. What has no markup
/// there comes through.
pub proof fn law_telegram_shows_markdown(ps: Seq<Piece>)
    requires
        forall|i: int| 0 <= i < ps.len() ==> well_marked(#[trigger] ps[i]),
        spaced(ps),
    ensures
        fm::formatted(markdown_of(ps), PluginType::Telegram) == all_on_telegram(ps),
{
    let d = Dialect::Telegram;
    let es = escaped_pieces(ps);
    lemma_escaped_pieces(ps);
    lemma_first_forms(d, es);
    lemma_clear(es);
    lemma_found(Seq::empty());
    lemma_templates(fm::Found { len: 0, one: Seq::empty(), two: Seq::empty() });
    lemma_pass(d, 0, es);
    lemma_pass(d, 1, es);
    lemma_pass(d, 2, es);
    lemma_pass(d, 3, es);
    lemma_pass(d, 4, es);
    lemma_pass(d, 5, es);
    lemma_pass(d, 6, es);
    lemma_last_forms_telegram(ps);
}

/// Slack shows every stretch of a markdown text in its own markup, escaped: bold,
/// struck through and links. The rest is written there as in markdown.
pub proof fn law_slack_shows_markdown(ps: Seq<Piece>)
    requires
        forall|i: int| 0 <= i < ps.len() ==> well_marked(#[trigger] ps[i]),
        spaced(ps),
    ensures
        fm::formatted(markdown_of(ps), PluginType::Slack) == all_on_slack(ps),
{
    let d = Dialect::Slack;
    let es = escaped_pieces(ps);
    lemma_escaped_pieces(ps);
    lemma_first_forms(d, es);
    lemma_found(Seq::empty());
    lemma_templates(fm::Found { len: 0, one: Seq::empty(), two: Seq::empty() });
    lemma_pass(d, 0, es);
    lemma_pass(d, 1, es);
    lemma_pass(d, 2, es);
    lemma_pass(d, 3, es);
    lemma_last_forms_slack(ps);
}

/// The Telegram form of a code block, whatever its language.
pub proof fn law_telegram_shows_code_blocks(language: Seq<char>, body: Seq<char>)
    requires
        well_marked(Piece::Block { language, body }),
    ensures
        fm::formatted("```"@ + language + "\n"@ + body + "```"@, PluginType::Telegram) == "<pre><code>"@
            + fm::escaped(body) + "</code></pre>"@,
{
    let p = Piece::Block { language, body };
    let ps = seq![p];
    assert(ps.skip(1).len() == 0);
    assert(markdown_of(ps.skip(1)) =~= Seq::empty());
    assert(all_on_telegram(ps.skip(1)) =~= Seq::empty());
    assert(markdown_of(ps) =~= markdown(p));
    assert(all_on_telegram(ps) =~= on_telegram(p));
    law_telegram_shows_markdown(ps);
}

// ---------------------------------------------------------------------------
// HTML
// ---------------------------------------------------------------------------

/// A stretch of an HTML text.
pub enum Tagged {
    /// Words without any tag.
    Plain(Seq<char>),
    /// A code block.
    Pre(Seq<char>),
    /// Code inside a line.
    Code(Seq<char>),
    /// Bold.
    B(Seq<char>),
    /// Strong emphasis.
    Strong(Seq<char>),
    /// Italic.
    I(Seq<char>),
    /// Emphasis.
    Em(Seq<char>),
    /// A link.
    Link { address: Seq<char>, shown: Seq<char> },
}

/// How a stretch is written in HTML.
pub open spec fn html(p: Tagged) -> Seq<char> {
    match p {
        Tagged::Plain(x) => x,
        Tagged::Pre(x) => "<pre><code>"@ + x + "</code></pre>"@,
        Tagged::Code(x) => "<code>"@ + x + "</code>"@,
        Tagged::B(x) => "<b>"@ + x + "</b>"@,
        Tagged::Strong(x) => "<strong>"@ + x + "</strong>"@,
        Tagged::I(x) => "<i>"@ + x + "</i>"@,
        Tagged::Em(x) => "<em>"@ + x + "</em>"@,
        Tagged::Link { address, shown } => "<a href=\""@ + address + "\">"@ + shown + "</a>"@,
    }
}

/// How a stretch is written in markdown.
pub open spec fn html_as_markdown(p: Tagged) -> Seq<char> {
    match p {
        Tagged::Plain(x) => x,
        Tagged::Pre(x) => "```\n"@ + x + "```"@,
        Tagged::Code(x) => "`"@ + x + "`"@,
        Tagged::B(x) | Tagged::Strong(x) => "**"@ + x + "**"@,
        Tagged::I(x) | Tagged::Em(x) => "*"@ + x + "*"@,
        Tagged::Link { address, shown } => "["@ + shown + "]("@ + address + ")"@,
    }
}

/// Whether a text holds neither a tag nor an entity.
pub open spec fn untagged(s: Seq<char>) -> bool {
    lacks(s, '<') && lacks(s, '&')
}

/// Whether a stretch means what it is written as: there is no tag and no entity in it,
/// code is not empty, and a link leads to a safe place.
pub open spec fn well_tagged(p: Tagged) -> bool {
    match p {
        Tagged::Plain(x) | Tagged::Pre(x) | Tagged::B(x) | Tagged::Strong(x) | Tagged::I(x) | Tagged::Em(x) => untagged(
            x,
        ),
        Tagged::Code(x) => untagged(x) && x.len() > 0,
        Tagged::Link { address, shown } => untagged(address) && untagged(shown) && lacks(address, '"')
            && fm::is_safe_address(address),
    }
}

/// Stretches one behind the other, in HTML.
pub open spec fn html_of(ps: Seq<Tagged>) -> Seq<char>
    decreases ps.len(),
{
    if ps.len() == 0 {
        Seq::empty()
    } else {
        html(ps[0]) + html_of(ps.skip(1))
    }
}

/// Stretches one behind the other, in markdown.
pub open spec fn html_of_as_markdown(ps: Seq<Tagged>) -> Seq<char>
    decreases ps.len(),
{
    if ps.len() == 0 {
        Seq::empty()
    } else {
        html_as_markdown(ps[0]) + html_of_as_markdown(ps.skip(1))
    }
}

spec fn tag_turn(p: Tagged) -> int {
    match p {
        Tagged::Pre(_) => 0,
        Tagged::Code(_) => 1,
        Tagged::B(_) => 2,
        Tagged::Strong(_) => 3,
        Tagged::I(_) => 4,
        Tagged::Em(_) => 5,
        Tagged::Link { .. } => 6,
        Tagged::Plain(_) => 99,
    }
}

spec fn tag_pattern(k: int) -> Seq<char> {
    if k == 0 {
        fm::HTML_PRE_CODE@
    } else if k == 1 {
        fm::HTML_CODE@
    } else if k == 2 {
        fm::HTML_B@
    } else if k == 3 {
        fm::HTML_STRONG@
    } else if k == 4 {
        fm::HTML_I@
    } else if k == 5 {
        fm::HTML_EM@
    } else {
        fm::HTML_SAFE_LINK@
    }
}

spec fn tag_template(k: int) -> Seq<char> {
    if k == 0 {
        "```\n$1```"@
    } else if k == 1 {
        "`$1`"@
    } else if k == 2 || k == 3 {
        "**$1**"@
    } else if k == 4 || k == 5 {
        "*$1*"@
    } else {
        "[$2]($1)"@
    }
}

spec fn tag_open(k: int) -> Seq<char> {
    if k == 0 {
        "<pre><code"@
    } else if k == 1 {
        "<code>"@
    } else if k == 2 {
        "<b>"@
    } else if k == 3 {
        "<strong>"@
    } else if k == 4 {
        "<i>"@
    } else if k == 5 {
        "<em>"@
    } else {
        "<a"@
    }
}

spec fn tag_form(p: Tagged, k: int) -> Seq<char> {
    if tag_turn(p) < k {
        html_as_markdown(p)
    } else {
        html(p)
    }
}

spec fn tag_forms(ps: Seq<Tagged>, k: int) -> Seq<char>
    decreases ps.len(),
{
    if ps.len() == 0 {
        Seq::empty()
    } else {
        tag_form(ps[0], k) + tag_forms(ps.skip(1), k)
    }
}

proof fn lemma_tag_opens(k: int)
    requires
        0 <= k < 7,
    ensures
        opens(tag_pattern(k), tag_open(k)),
{
    assert forall|s: Seq<char>| (#[trigger] fm::found(tag_pattern(k), s)) is Some implies text::begins_with(
        s,
        tag_open(k),
    ) by {
        lemma_found(s);
    }
}

/// Whether every `<` of a text has another character than `c` behind it.
spec fn never_opens(s: Seq<char>, c: char) -> bool {
    forall|i: int| 0 <= i < s.len() && #[trigger] s[i] == '<' ==> i + 1 < s.len() && s[i + 1] != c
}

proof fn lemma_other_tag_over(pattern: Seq<char>, open: Seq<char>, t: Seq<char>, f: Seq<char>, rest: Seq<char>)
    requires
        opens(pattern, open),
        open.len() >= 2,
        open[0] == '<',
        never_opens(f, open[1]),
    ensures
        fm::all_replaced(pattern, f + rest, t) == f + fm::all_replaced(pattern, rest, t),
{
    assert forall|i: int| 0 <= i < f.len() implies fm::found(pattern, #[trigger] (f + rest).skip(i)) is None by {
        let s = (f + rest).skip(i);
        if fm::found(pattern, s) is Some {
            lemma_begins_char(s, open, 0);
            lemma_begins_char(s, open, 1);
            assert(s[0] == f[i]);
            assert(s[1] == f[i + 1]);
        }
    }
    lemma_pass_over(pattern, t, f, rest);
}

/// A tag around words opens nothing but itself.
proof fn lemma_tag_never_opens(open: Seq<char>, x: Seq<char>, close: Seq<char>, c: char)
    requires
        open.len() >= 2,
        open[1] != c,
        forall|i: int| 1 <= i < open.len() ==> #[trigger] open[i] != '<',
        lacks(x, '<'),
        close.len() >= 2,
        close[1] != c,
        forall|i: int| 1 <= i < close.len() ==> #[trigger] close[i] != '<',
    ensures
        never_opens(open + x + close, c),
{
    let s = open + x + close;
    assert forall|i: int| 0 <= i < s.len() && #[trigger] s[i] == '<' implies i + 1 < s.len() && s[i + 1] != c by {
        if i < open.len() {
            assert(s[i] == open[i]);
            assert(i == 0);
            assert(s[1] == open[1]);
        } else if i < open.len() + x.len() {
            assert(s[i] == x[i - open.len()]);
        } else {
            assert(s[i] == close[i - open.len() - x.len()]);
            assert(i == open.len() + x.len());
            assert(s[i + 1] == close[1]);
        }
    }
}

/// What the templates make of a match.
#[verifier::rlimit(50)]
proof fn lemma_tag_templates(m: fm::Found)
    ensures
        fm::is_plain_template("```\n$1```"@),
        fm::expanded("```\n$1```"@, m) == "```\n"@ + m.one + "```"@,
        fm::is_plain_template("`$1`"@),
        fm::expanded("`$1`"@, m) == "`"@ + m.one + "`"@,
        fm::is_plain_template("**$1**"@),
        fm::expanded("**$1**"@, m) == "**"@ + m.one + "**"@,
        fm::is_plain_template("*$1*"@),
        fm::expanded("*$1*"@, m) == "*"@ + m.one + "*"@,
        fm::is_plain_template("[$2]($1)"@),
        fm::expanded("[$2]($1)"@, m) == "["@ + m.two + "]("@ + m.one + ")"@,
{
    reveal_strlit("```\n$1```");
    reveal_strlit("`$1`");
    reveal_strlit("**$1**");
    reveal_strlit("*$1*");
    reveal_strlit("[$2]($1)");
    reveal_strlit("```\n");
    reveal_strlit("```");
    reveal_strlit("`");
    reveal_strlit("**");
    reveal_strlit("*");
    reveal_strlit("[");
    reveal_strlit("](");
    reveal_strlit(")");
    assert("```\n$1```"@ =~= "```\n"@ + seq!['$', '1'] + "```"@);
    lemma_template("```\n$1```"@, "```\n"@, "```"@, m);
    assert("`$1`"@ =~= "`"@ + seq!['$', '1'] + "`"@);
    lemma_template("`$1`"@, "`"@, "`"@, m);
    assert("**$1**"@ =~= "**"@ + seq!['$', '1'] + "**"@);
    lemma_template("**$1**"@, "**"@, "**"@, m);
    assert("*$1*"@ =~= "*"@ + seq!['$', '1'] + "*"@);
    lemma_template("*$1*"@, "*"@, "*"@, m);
    assert("[$2]($1)"@ =~= "["@ + seq!['$', '2'] + "]("@ + seq!['$', '1'] + ")"@);
    lemma_template_of_two("[$2]($1)"@, "["@, "]("@, ")"@, m);
}

proof fn lemma_safe_link(address: Seq<char>, shown: Seq<char>, rest: Seq<char>)
    requires
        well_tagged(Tagged::Link { address, shown }),
    ensures
        fm::safe_link(html(Tagged::Link { address, shown }) + rest) == Some(
            fm::Found { len: html(Tagged::Link { address, shown }).len(), one: address, two: shown },
        ),
{
    let none = Seq::<char>::empty();
    let s = html(Tagged::Link { address, shown }) + rest;
    reveal_strlit("<a href=\"");
    reveal_strlit("<a");
    reveal_strlit("href=\"");
    reveal_strlit("\"");
    reveal_strlit("\">");
    reveal_strlit(">");
    reveal_strlit("</a>");
    let tail = "\">"@ + shown + "</a>"@ + rest;
    assert("<a href=\""@ =~= "<a"@ + seq![' '] + "href=\""@);
    let behind = seq![' '] + "href=\""@ + address + tail;
    assert(s =~= "<a"@ + behind);
    lemma_begins("<a"@, behind);
    let from = "href=\""@ + address + tail;
    assert(behind.skip(1) =~= from);
    assert(behind[0] == ' ');
    assert(from[0] == 'h');
    assert(fm::space_run(from) == 0);
    assert(fm::space_run(behind) == 1);
    let others = ">"@ + shown + "</a>"@ + rest;
    assert("\">"@ =~= "\""@ + ">"@);
    assert(from =~= "href=\""@ + address + "\""@ + others);
    lemma_delimited("href=\""@, address, "\""@, others, 0, fm::Class::Not('"'));
    let n = 6 + address.len() + 1;
    assert(from.skip(n as int) =~= others);
    assert(others =~= none + none + ">"@ + (shown + "</a>"@ + rest));
    lemma_delimited(none, none, ">"@, shown + "</a>"@ + rest, 0, fm::Class::Not('>'));
    assert(others.skip(1) =~= none + shown + "</a>"@ + rest);
    lemma_delimited(none, shown, "</a>"@, rest, 0, fm::Class::Not('<'));
}

#[verifier::rlimit(50)]
proof fn lemma_tag_turned(k: int, p: Tagged, rest: Seq<char>)
    requires
        0 <= k < 7,
        well_tagged(p),
        tag_turn(p) == k,
    ensures
        fm::all_replaced(tag_pattern(k), html(p) + rest, tag_template(k)) == html_as_markdown(p) + fm::all_replaced(
            tag_pattern(k),
            rest,
            tag_template(k),
        ),
{
    let s = html(p) + rest;
    let none = Seq::<char>::empty();
    lemma_found(s);
    reveal_strlit("</code></pre>");
    reveal_strlit("</code>");
    reveal_strlit("</b>");
    reveal_strlit("</strong>");
    reveal_strlit("</i>");
    reveal_strlit("</em>");
    reveal_strlit("<code>");
    reveal_strlit("<a href=\"");
    match p {
        Tagged::Pre(x) => {
            reveal_strlit("<pre><code>");
            reveal_strlit("<pre><code");
            reveal_strlit(">");
            let tail = x + "</code></pre>"@ + rest;
            assert("<pre><code>"@ =~= "<pre><code"@ + none + ">"@);
            assert(s =~= "<pre><code"@ + none + ">"@ + tail);
            lemma_delimited("<pre><code"@, none, ">"@, tail, 0, fm::Class::Not('>'));
            assert(s.skip(11) =~= tail);
            lemma_content(x, rest, 0, fm::Class::Any, "</code></pre>"@);
            assert(tail.take(x.len() as int) =~= x);
            let m = fm::Found { len: html(p).len(), one: x, two: none };
            lemma_pass_match(tag_pattern(k), tag_template(k), html(p), rest, m);
            lemma_tag_templates(m);
        },
        Tagged::Code(x) => {
            lemma_delimited("<code>"@, x, "</code>"@, rest, 1, fm::Class::Not('<'));
            let m = fm::Found { len: html(p).len(), one: x, two: none };
            lemma_pass_match(tag_pattern(k), tag_template(k), html(p), rest, m);
            lemma_tag_templates(m);
        },
        Tagged::B(x) => {
            lemma_delimited("<b>"@, x, "</b>"@, rest, 0, fm::Class::Any);
            let m = fm::Found { len: html(p).len(), one: x, two: none };
            lemma_pass_match(tag_pattern(k), tag_template(k), html(p), rest, m);
            lemma_tag_templates(m);
        },
        Tagged::Strong(x) => {
            lemma_delimited("<strong>"@, x, "</strong>"@, rest, 0, fm::Class::Any);
            let m = fm::Found { len: html(p).len(), one: x, two: none };
            lemma_pass_match(tag_pattern(k), tag_template(k), html(p), rest, m);
            lemma_tag_templates(m);
        },
        Tagged::I(x) => {
            lemma_delimited("<i>"@, x, "</i>"@, rest, 0, fm::Class::Any);
            let m = fm::Found { len: html(p).len(), one: x, two: none };
            lemma_pass_match(tag_pattern(k), tag_template(k), html(p), rest, m);
            lemma_tag_templates(m);
        },
        Tagged::Em(x) => {
            lemma_delimited("<em>"@, x, "</em>"@, rest, 0, fm::Class::Any);
            let m = fm::Found { len: html(p).len(), one: x, two: none };
            lemma_pass_match(tag_pattern(k), tag_template(k), html(p), rest, m);
            lemma_tag_templates(m);
        },
        Tagged::Link { address, shown } => {
            lemma_safe_link(address, shown, rest);
            let m = fm::Found { len: html(p).len(), one: address, two: shown };
            lemma_pass_match(tag_pattern(k), tag_template(k), html(p), rest, m);
            lemma_tag_templates(m);
        },
        Tagged::Plain(_) => {},
    }
}

proof fn lemma_markdown_untagged(p: Tagged)
    requires
        well_tagged(p),
    ensures
        lacks(html_as_markdown(p), '<'),
{
    reveal_strlit("```\n");
    reveal_strlit("```");
    reveal_strlit("`");
    reveal_strlit("**");
    reveal_strlit("*");
    reveal_strlit("[");
    reveal_strlit("](");
    reveal_strlit(")");
    match p {
        Tagged::Plain(x) => {},
        Tagged::Pre(x) => lemma_three_lack("```\n"@, x, "```"@, '<'),
        Tagged::Code(x) => lemma_three_lack("`"@, x, "`"@, '<'),
        Tagged::B(x) | Tagged::Strong(x) => lemma_three_lack("**"@, x, "**"@, '<'),
        Tagged::I(x) | Tagged::Em(x) => lemma_three_lack("*"@, x, "*"@, '<'),
        Tagged::Link { address, shown } => {
            lemma_three_lack("["@, shown, "]("@, '<');
            lemma_three_lack("["@ + shown + "]("@, address, ")"@, '<');
        },
    }
}

#[verifier::rlimit(50)]
proof fn lemma_tag_step(k: int, p: Tagged, rest: Seq<char>)
    requires
        0 <= k < 7,
        well_tagged(p),
    ensures
        fm::all_replaced(tag_pattern(k), tag_form(p, k) + rest, tag_template(k)) == tag_form(p, k + 1)
            + fm::all_replaced(tag_pattern(k), rest, tag_template(k)),
{
    if tag_turn(p) == k {
        lemma_tag_turned(k, p, rest);
    } else {
        lemma_tag_opens(k);
        reveal_strlit("<pre><code");
        reveal_strlit("<code>");
        reveal_strlit("<b>");
        reveal_strlit("<strong>");
        reveal_strlit("<i>");
        reveal_strlit("<em>");
        reveal_strlit("<a");
        reveal_strlit("<a href=\"");
        reveal_strlit("\">");
        reveal_strlit("</code>");
        reveal_strlit("</b>");
        reveal_strlit("</strong>");
        reveal_strlit("</i>");
        reveal_strlit("</em>");
        reveal_strlit("</a>");
        let open = tag_open(k);
        let c = open[1];
        assert(open[0] == '<');
        assert(c == 'p' || c == 'c' || c == 'b' || c == 's' || c == 'i' || c == 'e' || c == 'a');
        let f = tag_form(p, k);
        if tag_turn(p) < k || p is Plain {
            lemma_markdown_untagged(p);
            lemma_lacking_over(tag_pattern(k), open, tag_template(k), f, rest);
        } else {
            match p {
                Tagged::Code(x) => lemma_tag_never_opens("<code>"@, x, "</code>"@, c),
                Tagged::B(x) => lemma_tag_never_opens("<b>"@, x, "</b>"@, c),
                Tagged::Strong(x) => lemma_tag_never_opens("<strong>"@, x, "</strong>"@, c),
                Tagged::I(x) => lemma_tag_never_opens("<i>"@, x, "</i>"@, c),
                Tagged::Em(x) => lemma_tag_never_opens("<em>"@, x, "</em>"@, c),
                Tagged::Link { address, shown } => {
                    lemma_three_lack(address, "\">"@, shown, '<');
                    lemma_tag_never_opens("<a href=\""@, address + "\">"@ + shown, "</a>"@, c);
                    assert(f =~= "<a href=\""@ + (address + "\">"@ + shown) + "</a>"@);
                },
                _ => {},
            }
            lemma_other_tag_over(tag_pattern(k), open, tag_template(k), f, rest);
        }
    }
}

proof fn lemma_tag_pass(k: int, ps: Seq<Tagged>)
    requires
        0 <= k < 7,
        forall|i: int| 0 <= i < ps.len() ==> well_tagged(#[trigger] ps[i]),
    ensures
        fm::all_replaced(tag_pattern(k), tag_forms(ps, k), tag_template(k)) == tag_forms(ps, k + 1),
    decreases ps.len(),
{
    if ps.len() > 0 {
        assert forall|i: int| 0 <= i < ps.skip(1).len() implies well_tagged(#[trigger] ps.skip(1)[i]) by {
            assert(well_tagged(ps[i + 1]));
        }
        lemma_tag_pass(k, ps.skip(1));
        lemma_tag_step(k, ps[0], tag_forms(ps.skip(1), k));
    }
}

proof fn lemma_two_lack(a: Seq<char>, b: Seq<char>, c: char)
    requires
        lacks(a, c),
        lacks(b, c),
    ensures
        lacks(a + b, c),
{
    let s = a + b;
    assert forall|i: int| 0 <= i < s.len() implies #[trigger] s[i] != c by {
        if i < a.len() {
            assert(s[i] == a[i]);
        } else {
            assert(s[i] == b[i - a.len()]);
        }
    }
}

#[verifier::rlimit(50)]
proof fn lemma_html_ends(ps: Seq<Tagged>)
    requires
        forall|i: int| 0 <= i < ps.len() ==> well_tagged(#[trigger] ps[i]),
    ensures
        tag_forms(ps, 0) == html_of(ps),
        tag_forms(ps, 7) == html_of_as_markdown(ps),
        lacks(html_of_as_markdown(ps), '<'),
        lacks(html_of(ps), '&'),
    decreases ps.len(),
{
    if ps.len() > 0 {
        assert forall|i: int| 0 <= i < ps.skip(1).len() implies well_tagged(#[trigger] ps.skip(1)[i]) by {
            assert(well_tagged(ps[i + 1]));
        }
        lemma_html_ends(ps.skip(1));
        assert(well_tagged(ps[0]));
        lemma_markdown_untagged(ps[0]);
        lemma_two_lack(html_as_markdown(ps[0]), html_of_as_markdown(ps.skip(1)), '<');
        reveal_strlit("<pre><code>");
        reveal_strlit("<code>");
        reveal_strlit("<b>");
        reveal_strlit("<strong>");
        reveal_strlit("<i>");
        reveal_strlit("<em>");
        reveal_strlit("<a href=\"");
        reveal_strlit("\">");
        reveal_strlit("</code></pre>");
        reveal_strlit("</code>");
        reveal_strlit("</b>");
        reveal_strlit("</strong>");
        reveal_strlit("</i>");
        reveal_strlit("</em>");
        reveal_strlit("</a>");
        match ps[0] {
            Tagged::Plain(x) => {},
            Tagged::Pre(x) => lemma_three_lack("<pre><code>"@, x, "</code></pre>"@, '&'),
            Tagged::Code(x) => lemma_three_lack("<code>"@, x, "</code>"@, '&'),
            Tagged::B(x) => lemma_three_lack("<b>"@, x, "</b>"@, '&'),
            Tagged::Strong(x) => lemma_three_lack("<strong>"@, x, "</strong>"@, '&'),
            Tagged::I(x) => lemma_three_lack("<i>"@, x, "</i>"@, '&'),
            Tagged::Em(x) => lemma_three_lack("<em>"@, x, "</em>"@, '&'),
            Tagged::Link { address, shown } => {
                lemma_three_lack("<a href=\""@, address, "\">"@, '&');
                lemma_three_lack("<a href=\""@ + address + "\">"@, shown, "</a>"@, '&');
            },
        }
        lemma_two_lack(html(ps[0]), html_of(ps.skip(1)), '&');
    }
}

/// Lark and DingTalk show every stretch of an HTML text in markdown: code blocks, code,
/// bold, italic and links to safe places, whatever their order and whatever stands
/// between them.
pub proof fn law_lark_shows_html(ps: Seq<Tagged>)
    requires
        forall|i: int| 0 <= i < ps.len() ==> well_tagged(#[trigger] ps[i]),
    ensures
        fm::formatted(html_of(ps), PluginType::Lark) == html_of_as_markdown(ps),
        fm::formatted(html_of(ps), PluginType::Dingtalk) == html_of_as_markdown(ps),
{
    lemma_html_ends(ps);
    fm::lemma_nothing_decoded(html_of(ps));
    lemma_found(Seq::empty());
    lemma_tag_templates(fm::Found { len: 0, one: Seq::empty(), two: Seq::empty() });
    lemma_tag_pass(0, ps);
    lemma_tag_pass(1, ps);
    lemma_tag_pass(2, ps);
    lemma_tag_pass(3, ps);
    lemma_tag_pass(4, ps);
    lemma_tag_pass(5, ps);
    lemma_tag_pass(6, ps);
    fm::lemma_nothing_stripped(html_of_as_markdown(ps));
}

// ---------------------------------------------------------------------------
// Plain text
// ---------------------------------------------------------------------------

/// A tag or the words between two tags.
pub enum Part {
    Words(Seq<char>),
    Tag(Seq<char>),
}

/// How a part is written.
pub open spec fn written(p: Part) -> Seq<char> {
    match p {
        Part::Words(x) => x,
        Part::Tag(x) => seq!['<'] + x + seq!['>'],
    }
}

/// What is left of a part without tags.
pub open spec fn words(p: Part) -> Seq<char> {
    match p {
        Part::Words(x) => x,
        Part::Tag(_) => Seq::empty(),
    }
}

/// Whether a part is what it says: words hold no markup, and a tag is not empty and ends
/// where it ends.
pub open spec fn well_written(p: Part) -> bool {
    match p {
        Part::Words(x) => lacks(x, '<') && lacks(x, '>') && lacks(x, '&'),
        Part::Tag(x) => x.len() > 0 && lacks(x, '>'),
    }
}

/// Parts one behind the other.
pub open spec fn all_written(ps: Seq<Part>) -> Seq<char>
    decreases ps.len(),
{
    if ps.len() == 0 {
        Seq::empty()
    } else {
        written(ps[0]) + all_written(ps.skip(1))
    }
}

/// What is left of parts without tags.
pub open spec fn all_words(ps: Seq<Part>) -> Seq<char>
    decreases ps.len(),
{
    if ps.len() == 0 {
        Seq::empty()
    } else {
        words(ps[0]) + all_words(ps.skip(1))
    }
}

proof fn lemma_words_stay(x: Seq<char>, rest: Seq<char>)
    requires
        lacks(x, '<'),
    ensures
        fm::without_tags(x + rest) == x + fm::without_tags(rest),
    decreases x.len(),
{
    if x.len() == 0 {
        assert(x + rest =~= rest);
        assert(x + fm::without_tags(rest) =~= fm::without_tags(rest));
    } else {
        let s = x + rest;
        assert(s[0] == x[0]);
        assert(s.skip(1) =~= x.skip(1) + rest);
        assert forall|i: int| 0 <= i < x.skip(1).len() implies #[trigger] x.skip(1)[i] != '<' by {
            assert(x[i + 1] != '<');
        }
        lemma_words_stay(x.skip(1), rest);
        assert(seq![s[0]] + (x.skip(1) + fm::without_tags(rest)) =~= x + fm::without_tags(rest));
    }
}

proof fn lemma_parts(ps: Seq<Part>)
    requires
        forall|i: int| 0 <= i < ps.len() ==> well_written(#[trigger] ps[i]),
    ensures
        fm::without_tags(all_written(ps)) == all_words(ps),
        lacks(all_words(ps), '<'),
        lacks(all_words(ps), '>'),
        lacks(all_words(ps), '&'),
    decreases ps.len(),
{
    if ps.len() > 0 {
        assert forall|i: int| 0 <= i < ps.skip(1).len() implies well_written(#[trigger] ps.skip(1)[i]) by {
            assert(well_written(ps[i + 1]));
        }
        lemma_parts(ps.skip(1));
        assert(well_written(ps[0]));
        let rest = all_written(ps.skip(1));
        let left = all_words(ps.skip(1));
        lemma_two_lack(words(ps[0]), left, '<');
        lemma_two_lack(words(ps[0]), left, '>');
        lemma_two_lack(words(ps[0]), left, '&');
        match ps[0] {
            Part::Words(x) => lemma_words_stay(x, rest),
            Part::Tag(x) => {
                let s = seq!['<'] + x + seq!['>'] + rest;
                let behind = x + seq!['>'] + rest;
                assert(s.skip(1) =~= behind);
                assert forall|i: int| 0 <= i < x.len() implies behind[i] != '>' by {
                    assert(behind[i] == x[i]);
                }
                text::lemma_index_unique(behind, '>', x.len() as int);
                assert(fm::tag_at(s, 0));
                assert(s.skip(x.len() as int + 2) =~= rest);
                assert(Seq::<char>::empty() + left =~= left);
            },
        }
    }
}

proof fn lemma_lacks(s: Seq<char>, c: char)
    requires
        lacks(s, c),
    ensures
        !s.contains(c),
{
}

proof fn lemma_stripped_once(s: Seq<char>)
    requires
        !fm::without_tags(s).contains('<'),
    ensures
        fm::stripped(s) == fm::without_tags(s),
{
    fm::lemma_nothing_stripped(fm::without_tags(s));
}

/// WeChat shows the words of an HTML text, and of its tags nothing.
pub proof fn law_weixin_shows_the_words(ps: Seq<Part>)
    requires
        forall|i: int| 0 <= i < ps.len() ==> well_written(#[trigger] ps[i]),
    ensures
        fm::formatted(all_written(ps), PluginType::Weixin) == all_words(ps),
{
    lemma_parts(ps);
    let left = all_words(ps);
    lemma_lacks(left, '<');
    lemma_lacks(left, '>');
    lemma_lacks(left, '&');
    lemma_stripped_once(all_written(ps));
    fm::lemma_nothing_decoded(left);
    fm::lemma_no_brackets(left);
}

/// WeChat shows an escaped text as it was before it was escaped, where it holds no
/// markup but that of comparisons: angle brackets alone are dropped.
pub proof fn law_weixin_reads_entities(t: Seq<char>)
    requires
        lacks(t, '&'),
    ensures
        fm::formatted(fm::escaped(t), PluginType::Weixin) == fm::without_brackets(t),
{
    fm::law_escaped_has_no_brackets(t);
    fm::lemma_nothing_stripped(fm::escaped(t));
    lemma_lacks(t, '&');
    fm::law_decoding_undoes_escaping(t);
}

} // verus!
