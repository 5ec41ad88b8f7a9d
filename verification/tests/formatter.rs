//! Text in the form of each platform.
use aionui_channel::formatter::{
    decode_all_entities, decode_entity, decode_safe_entities, escape_html, format_text_for_platform, html_to_markdown,
    markdown_to_slack_mrkdwn, markdown_to_telegram_html, strip_html, strip_tags_loop,
};
use aionui_channel::types::PluginType;

#[test]
fn slack_escapes_special_chars() {
    let out = format_text_for_platform("a < b & c > d", PluginType::Slack);
    assert_eq!(out, "a &lt; b &amp; c &gt; d");
}

#[test]
fn slack_converts_bold() {
    assert_eq!(format_text_for_platform("**bold**", PluginType::Slack), "*bold*");
    assert_eq!(format_text_for_platform("__bold__", PluginType::Slack), "*bold*");
}

#[test]
fn slack_converts_strikethrough() {
    assert_eq!(format_text_for_platform("~~gone~~", PluginType::Slack), "~gone~");
}

#[test]
fn slack_converts_link() {
    assert_eq!(
        format_text_for_platform("[docs](https://example.com)", PluginType::Slack),
        "<https://example.com|docs>"
    );
}

#[test]
fn slack_leaves_inline_code_untouched() {
    assert_eq!(format_text_for_platform("`code`", PluginType::Slack), "`code`");
}

#[test]
fn slack_combined() {
    let out = format_text_for_platform("See **[link](https://x.io)** now", PluginType::Slack);
    assert_eq!(out, "See *<https://x.io|link>* now");
}

#[test]
fn slack_not_plain_escape_fallback() {
    let out = format_text_for_platform("**x**", PluginType::Slack);
    assert_ne!(out, "**x**");
    assert_eq!(out, "*x*");
}

#[test]
fn discord_passes_markdown_through_unchanged() {
    let input = "**bold** _i_ `code` <@123> a < b & c";
    assert_eq!(format_text_for_platform(input, PluginType::Discord), input);
}

fn telegram_gets_html() {
    assert_eq!(format_text_for_platform("**b** and `c`", PluginType::Telegram), "<b>b</b> and <code>c</code>");
    assert_eq!(markdown_to_telegram_html("a < b"), "a &lt; b");
    assert_eq!(markdown_to_telegram_html("*i*"), "<i>i</i>");
    assert_eq!(
        markdown_to_telegram_html("[t](https://x.io)"),
        "<a href=\"https://x.io\">t</a>"
    );
}

fn lark_and_dingtalk_get_markdown() {
    for p in [PluginType::Lark, PluginType::Dingtalk] {
        assert_eq!(format_text_for_platform("<b>x</b> <i>y</i>", p), "**x** *y*");
    }
    assert_eq!(html_to_markdown("<a href=\"https://x.io\">t</a>"), "[t](https://x.io)");
    assert!(!html_to_markdown("a <script>b</script> <b>c</b>").contains("<script>"));
}

fn weixin_gets_plain_text() {
    assert_eq!(format_text_for_platform("<b>x</b>", PluginType::Weixin), "x");
    assert!(!strip_html("a &lt;b&gt; c").contains('<'));
}

fn stripping_is_stable() {
    let once = strip_tags_loop("a<b>c</b>d < e");
    assert_eq!(once, "acd < e");
    assert_eq!(strip_tags_loop(&once), once);
    assert_eq!(strip_tags_loop("<<b>i>x"), "i>x");
}

fn escaping_leaves_no_brackets() {
    assert_eq!(escape_html("<a & b>"), "&lt;a &amp; b&gt;");
    assert!(!escape_html("<<>>").contains('<'));
}

fn slack_mrkdwn_is_what_slack_gets() {
    let text = "**a** [b](c) ~~d~~";
    assert_eq!(markdown_to_slack_mrkdwn(text), format_text_for_platform(text, PluginType::Slack));
}

fn entities_are_decoded() {
    assert_eq!(decode_entity("&#65;", "65", 10), "A");
    assert_eq!(decode_entity("&#x41;", "41", 16), "A");
    assert_eq!(decode_entity("&#xD800;", "D800", 16), "&#xD800;");
    assert_eq!(decode_all_entities("&amp;&#65;&#x42;&quot;"), "&AB\"");
    assert!(decode_safe_entities("&amp; &quot;").contains('&'));
    assert_eq!(decode_all_entities("&#00065;&#X41;&#;&#x;&#65 &#xZ;&#9999999999;"), "A&#X41;&#;&#x;&#65 &#xZ;&#9999999999;");
    assert_eq!(decode_all_entities("&#&#66;&#x1F600;"), "&#B😀");
}

fn decoding_undoes_escaping() {
    for t in ["", "a < b > c", "<<b>>\"'", "é <i>"] {
        assert_eq!(decode_all_entities(&escape_html(t)), t);
    }
}

#[test]
fn platforms_get_their_form() {
    telegram_gets_html();
    lark_and_dingtalk_get_markdown();
    weixin_gets_plain_text();
    slack_mrkdwn_is_what_slack_gets();
}

#[test]
fn markup_is_taken_apart() {
    stripping_is_stable();
    escaping_leaves_no_brackets();
    entities_are_decoded();
    decoding_undoes_escaping();
}
